//! The instructions and register slots of the IR, the mathematical model of
//! a function body and of a context, and what each emission does to them.

use vstd::prelude::*;
use crate::wrapper::{Function, Type, Value};

verus! {

/// The operation of a two-operand instruction.
#[derive(Clone, Copy, Debug, PartialEq, Eq, Structural)]
pub enum BinaryOp {
    Add,
    Sub,
    Mul,
    Eq,
    Ne,
    Lt,
    Le,
    Gt,
    Ge,
    And,
    Or,
}

/// One instruction. Operands and destinations are slot numbers of the
/// function that holds the instruction.
#[derive(Clone, Copy, Debug, PartialEq, Eq, Structural)]
pub enum Insn {
    /// `dst = lhs op rhs`.
    Binary { op: BinaryOp, dst: usize, lhs: usize, rhs: usize },
    /// `dst = src`, brought into the form of type `ty`.
    Convert { dst: usize, src: usize, ty: Type },
    /// `dst = src`, where `dst` is a fresh slot.
    Load { dst: usize, src: usize },
    /// `dst = src`, where `dst` is an existing slot.
    Store { dst: usize, src: usize },
    /// Appends `src` to the arguments of the next call.
    Push { src: usize },
    /// Calls function `callee` of the context with the pushed arguments.
    Call { dst: usize, callee: usize },
    /// Calls the native entry point `entry` with the pushed arguments.
    CallNative { dst: usize, entry: usize },
    /// Jumps to `label` if `cond` is not zero.
    BranchIf { cond: usize, label: usize },
    /// Jumps to `label` if `cond` is zero.
    BranchIfNot { cond: usize, label: usize },
    /// The place of `label`.
    Mark { label: usize },
    /// Leaves the function with `src` as its result.
    Return { src: usize },
}

/// Where the word of a slot comes from when a function is entered.
#[derive(Clone, Copy, Debug, PartialEq, Eq, Structural)]
pub enum SlotKind {
    /// Written by an instruction; zero until then.
    Temp,
    /// The argument with the slot's own number.
    Param,
    /// A constant.
    Const(i64),
}

/// A register slot of a function.
#[derive(Clone, Copy, Debug, PartialEq, Eq, Structural)]
pub struct Slot {
    pub ty: Type,
    pub kind: SlotKind,
}

impl BinaryOp {
    /// The type of the slot that receives the result: boolean for the two
    /// logical operations, integer for all others.
    pub open spec fn spec_result_type(&self) -> Type {
        match self {
            BinaryOp::And | BinaryOp::Or => Type::bool(),
            _ => Type::integer(),
        }
    }

    /// The result word. Arithmetic wraps at 64 bits, comparisons are signed
    /// and give one or zero, and the logical operations read any word other
    /// than zero as true.
    pub open spec fn spec_apply(&self, x: i64, y: i64) -> i64 {
        match self {
            BinaryOp::Add => x.wrapping_add(y),
            BinaryOp::Sub => x.wrapping_sub(y),
            BinaryOp::Mul => x.wrapping_mul(y),
            BinaryOp::Eq => if x == y { 1 } else { 0 },
            BinaryOp::Ne => if x != y { 1 } else { 0 },
            BinaryOp::Lt => if x < y { 1 } else { 0 },
            BinaryOp::Le => if x <= y { 1 } else { 0 },
            BinaryOp::Gt => if x > y { 1 } else { 0 },
            BinaryOp::Ge => if x >= y { 1 } else { 0 },
            BinaryOp::And => if x != 0 && y != 0 { 1 } else { 0 },
            BinaryOp::Or => if x != 0 || y != 0 { 1 } else { 0 },
        }
    }

    /// The type of the slot that receives the result.
    #[verifier::when_used_as_spec(spec_result_type)]
    pub fn result_type(&self) -> (t: Type)
        ensures
            t == self.spec_result_type(),
    {
        match self {
            BinaryOp::And | BinaryOp::Or => Type::bool(),
            _ => Type::integer(),
        }
    }

    /// The result word of the operation on `x` and `y`.
    #[verifier::when_used_as_spec(spec_apply)]
    pub fn apply(&self, x: i64, y: i64) -> (r: i64)
        ensures
            r == self.spec_apply(x, y),
    {
        match self {
            BinaryOp::Add => x.wrapping_add(y),
            BinaryOp::Sub => x.wrapping_sub(y),
            BinaryOp::Mul => x.wrapping_mul(y),
            BinaryOp::Eq => if x == y { 1 } else { 0 },
            BinaryOp::Ne => if x != y { 1 } else { 0 },
            BinaryOp::Lt => if x < y { 1 } else { 0 },
            BinaryOp::Le => if x <= y { 1 } else { 0 },
            BinaryOp::Gt => if x > y { 1 } else { 0 },
            BinaryOp::Ge => if x >= y { 1 } else { 0 },
            BinaryOp::And => if x != 0 && y != 0 { 1 } else { 0 },
            BinaryOp::Or => if x != 0 || y != 0 { 1 } else { 0 },
        }
    }
}

/// The `Push` instructions that hand `args` to a call, in order.
pub open spec fn push_all(args: Seq<Value>) -> Seq<Insn> {
    Seq::new(args.len(), |i: int| Insn::Push { src: args[i].handle })
}

/// The slots that a function with the given parameter types starts with.
pub open spec fn param_slots(params: Seq<Type>) -> Seq<Slot> {
    Seq::new(params.len(), |i: int| Slot { ty: params[i], kind: SlotKind::Param })
}

/// The values through which the parameters are read: slot `i` with the type
/// of parameter `i`.
pub open spec fn param_values(params: Seq<Type>) -> Seq<Value> {
    Seq::new(params.len(), |i: int| Value { handle: i as usize, ty: params[i] })
}

/// A function body: its signature, its slots and its instructions.
pub struct FuncModel {
    pub params: Seq<Type>,
    pub ret: Type,
    pub slots: Seq<Slot>,
    pub insns: Seq<Insn>,
    pub compiled: bool,
}

impl FuncModel {
    /// The body of a function that was just created.
    pub open spec fn empty(params: Seq<Type>, ret: Type) -> FuncModel {
        FuncModel {
            params,
            ret,
            slots: param_slots(params),
            insns: Seq::empty(),
            compiled: false,
        }
    }

    /// The number that the next slot gets.
    pub open spec fn next_slot(self) -> usize {
        self.slots.len() as usize
    }

    /// The number that a label gets when an instruction first names it.
    pub open spec fn next_label(self) -> usize {
        self.insns.len() as usize
    }

    /// The body with one more slot.
    pub open spec fn with_slot(self, ty: Type, kind: SlotKind) -> FuncModel {
        FuncModel { slots: self.slots.push(Slot { ty, kind }), ..self }
    }

    /// The body with one more instruction.
    pub open spec fn with_insn(self, insn: Insn) -> FuncModel {
        FuncModel { insns: self.insns.push(insn), ..self }
    }

    /// The body with more instructions.
    pub open spec fn with_insns(self, insns: Seq<Insn>) -> FuncModel {
        FuncModel { insns: self.insns + insns, ..self }
    }

    /// The body, marked as final.
    pub open spec fn finalized(self) -> FuncModel {
        FuncModel { compiled: true, ..self }
    }
}

/// A context: the function bodies created in it, in order of creation.
pub struct ContextModel {
    pub funcs: Seq<FuncModel>,
    /// Whether the build transaction is open.
    pub building: bool,
    /// The function that the walk over the context handed out last.
    pub cursor: Option<usize>,
}

impl ContextModel {
    /// A context as it is created: no functions, building.
    pub open spec fn fresh() -> ContextModel {
        ContextModel { funcs: Seq::empty(), building: true, cursor: None }
    }

    /// `f` is a function of this context.
    pub open spec fn has(self, f: Function) -> bool {
        f.id < self.funcs.len()
    }

    /// The body of `f`.
    pub open spec fn body(self, f: Function) -> FuncModel {
        self.funcs[f.id as int]
    }

    /// The context with `body` in place of the body of `f`.
    pub open spec fn with_body(self, f: Function, body: FuncModel) -> ContextModel {
        ContextModel { funcs: self.funcs.update(f.id as int, body), ..self }
    }

    /// The handle of the function that `new_function` creates next.
    pub open spec fn next_function(self, params: Seq<Type>) -> Function {
        Function { id: self.funcs.len() as usize, argc: params.len() as usize }
    }

    /// The context with one more function, which has the given signature
    /// and no instructions.
    pub open spec fn with_function(self, params: Seq<Type>, ret: Type) -> ContextModel {
        ContextModel { funcs: self.funcs.push(FuncModel::empty(params, ret)), ..self }
    }

    /// The value that the next slot of `f` holds, if it gets type `ty`.
    pub open spec fn next_value(self, f: Function, ty: Type) -> Value {
        Value { handle: self.body(f).next_slot(), ty }
    }

    /// A new slot of type `ty` in `f`, without an instruction.
    pub open spec fn add_slot(self, f: Function, ty: Type, kind: SlotKind) -> ContextModel {
        self.with_body(f, self.body(f).with_slot(ty, kind))
    }

    /// An instruction at the end of `f` that defines no slot.
    pub open spec fn add_insn(self, f: Function, insn: Insn) -> ContextModel {
        self.with_body(f, self.body(f).with_insn(insn))
    }

    /// A new constant of `f`.
    pub open spec fn constant(self, f: Function, ty: Type, val: i64) -> ContextModel {
        self.add_slot(f, ty, SlotKind::Const(ty.normalize(val)))
    }

    /// A new slot of the type that `op` gives, and the instruction that
    /// writes `a op b` to it.
    pub open spec fn binary(self, f: Function, op: BinaryOp, a: Value, b: Value) -> ContextModel {
        let dst = self.body(f).next_slot();
        self.add_slot(f, op.result_type(), SlotKind::Temp).add_insn(
            f,
            Insn::Binary { op, dst, lhs: a.handle, rhs: b.handle },
        )
    }

    /// A new slot of type `ty`, and the instruction that writes `v` to it
    /// in the form of that type.
    pub open spec fn convert(self, f: Function, v: Value, ty: Type) -> ContextModel {
        let dst = self.body(f).next_slot();
        self.add_slot(f, ty, SlotKind::Temp).add_insn(f, Insn::Convert { dst, src: v.handle, ty })
    }

    /// A new slot of the type of `v`, and the instruction that copies `v`
    /// to it.
    pub open spec fn load(self, f: Function, v: Value) -> ContextModel {
        let dst = self.body(f).next_slot();
        self.add_slot(f, v.ty, SlotKind::Temp).add_insn(f, Insn::Load { dst, src: v.handle })
    }

    /// The instruction that copies `v` to the slot of `dest`.
    pub open spec fn store(self, f: Function, v: Value, dest: Value) -> ContextModel {
        self.add_insn(f, Insn::Store { dst: dest.handle, src: v.handle })
    }

    /// The instruction that returns `v`.
    pub open spec fn ret(self, f: Function, v: Value) -> ContextModel {
        self.add_insn(f, Insn::Return { src: v.handle })
    }

    /// The pushes of `args`, then a call of `callee` into a new slot that
    /// has the callee's return type.
    pub open spec fn call(self, f: Function, callee: Function, args: Seq<Value>) -> ContextModel {
        let dst = self.body(f).next_slot();
        self.with_body(
            f,
            self.body(f).with_insns(push_all(args)).with_slot(
                self.body(callee).ret,
                SlotKind::Temp,
            ).with_insn(Insn::Call { dst, callee: callee.id }),
        )
    }

    /// The pushes of `args`, then a call of the native entry point into a
    /// new slot of type `ret`.
    pub open spec fn call_native(self, f: Function, entry: usize, args: Seq<Value>, ret: Type)
        -> ContextModel {
        let dst = self.body(f).next_slot();
        self.with_body(
            f,
            self.body(f).with_insns(push_all(args)).with_slot(ret, SlotKind::Temp).with_insn(
                Insn::CallNative { dst, entry },
            ),
        )
    }

    /// The number under which `f` knows a label: its own if it has one, else
    /// the number of the instruction that names it first.
    pub open spec fn label_id(self, f: Function, label: Option<usize>) -> usize {
        match label {
            Some(id) => id,
            None => self.body(f).next_label(),
        }
    }

    /// The jump to `label` that is taken when `v` is not zero.
    pub open spec fn branch_if(self, f: Function, v: Value, label: Option<usize>) -> ContextModel {
        self.add_insn(f, Insn::BranchIf { cond: v.handle, label: self.label_id(f, label) })
    }

    /// The jump to `label` that is taken when `v` is zero.
    pub open spec fn branch_if_not(self, f: Function, v: Value, label: Option<usize>)
        -> ContextModel {
        self.add_insn(f, Insn::BranchIfNot { cond: v.handle, label: self.label_id(f, label) })
    }

    /// The place of `label` at the end of `f`.
    pub open spec fn mark(self, f: Function, label: Option<usize>) -> ContextModel {
        self.add_insn(f, Insn::Mark { label: self.label_id(f, label) })
    }

    /// The context with `f` marked as final.
    pub open spec fn finalize(self, f: Function) -> ContextModel {
        self.with_body(f, self.body(f).finalized())
    }

    /// The context with its build transaction closed.
    pub open spec fn finished(self) -> ContextModel {
        ContextModel { building: false, ..self }
    }
}

} // verus!
