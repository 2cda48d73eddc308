//! The typed register IR that the code generator emits, and the handles
//! through which it is built: contexts, functions, values, labels and types.

use vstd::prelude::*;
use crate::ir::{
    BinaryOp, ContextModel, FuncModel, Insn, Slot, SlotKind, param_slots, param_values, push_all,
};

verus! {

/// A function of a context. The body lives in the context; this is the
/// handle by which it is named.
#[derive(Clone, Copy, Debug, PartialEq, Eq, Structural)]
pub struct Function {
    pub id: usize,
    pub argc: usize,
}

/// A slot of a function, with the type that the code generator knows it by.
#[derive(Clone, Copy, Debug, PartialEq, Eq, Structural)]
pub struct Value {
    pub handle: usize,
    pub ty: Type,
}

/// A branch target. It has no number until an instruction names it.
#[derive(Debug)]
pub struct Label {
    pub id: Option<usize>,
}

/// A function body as the context stores it.
#[derive(Debug)]
pub struct FuncBody {
    pub params: Vec<Type>,
    pub ret: Type,
    pub slots: Vec<Slot>,
    pub insns: Vec<Insn>,
    pub compiled: bool,
}

/// The owner of all function bodies of one compilation.
#[derive(Debug)]
pub struct Context {
    pub funcs: Vec<FuncBody>,
    pub building: bool,
    pub cursor: Option<usize>,
}

impl View for FuncBody {
    type V = FuncModel;

    open spec fn view(&self) -> FuncModel {
        FuncModel {
            params: self.params@,
            ret: self.ret,
            slots: self.slots@,
            insns: self.insns@,
            compiled: self.compiled,
        }
    }
}

impl View for Context {
    type V = ContextModel;

    open spec fn view(&self) -> ContextModel {
        ContextModel {
            funcs: self.funcs@.map_values(|b: FuncBody| b@),
            building: self.building,
            cursor: self.cursor,
        }
    }
}

/// The three kinds of type that the language knows.
#[derive(Clone, Copy, Debug, PartialEq, Eq, Structural)]
pub enum Kind {
    Void,
    Int,
    Bool,
}

/// A type tag. Every value carries one.
#[derive(Clone, Copy, Debug, PartialEq, Eq, Structural)]
pub struct Type {
    pub kind: Kind,
}

/// The parameter types and the return type of a function.
#[derive(Debug)]
pub struct Signature {
    pub params: Vec<Type>,
    pub ret: Type,
}

impl Type {
    /// The tag of the integer type.
    pub open spec fn spec_integer() -> Type {
        Type { kind: Kind::Int }
    }

    /// The tag of the boolean type.
    pub open spec fn spec_bool() -> Type {
        Type { kind: Kind::Bool }
    }

    /// The tag of the void type, which also marks values of no known type.
    pub open spec fn spec_void() -> Type {
        Type { kind: Kind::Void }
    }

    /// The word that a value of this type holds when `w` is written to it:
    /// nothing for void, `w` itself for an integer, and the truth value of
    /// `w != 0` as one or zero for a boolean.
    pub open spec fn spec_normalize(&self, w: i64) -> i64 {
        match self.kind {
            Kind::Void => 0,
            Kind::Int => w,
            Kind::Bool => if w != 0 { 1 } else { 0 },
        }
    }

    /// The small integer that identifies this type: 0 for void, 1 for the
    /// integer type, 2 for the boolean type.
    pub open spec fn spec_index(&self) -> i32 {
        match self.kind {
            Kind::Void => 0,
            Kind::Int => 1,
            Kind::Bool => 2,
        }
    }

    /// The signature with the given parameter types and return type.
    pub fn create_signature(params: &[Type], ret: Type) -> (s: Signature)
        ensures
            s.params@ == params@,
            s.ret == ret,
    {
        let mut types: Vec<Type> = Vec::new();
        let mut i: usize = 0;
        while i < params.len()
            invariant
                i <= params.len(),
                types@ == params@.take(i as int),
            decreases params.len() - i,
        {
            types.push(params[i]);
            assert(params@.take(i as int).push(params@[i as int]) =~= params@.take(i + 1));
            i += 1;
        }
        assert(params@.take(params.len() as int) =~= params@);
        Signature { params: types, ret }
    }

    /// The integer type, which the language calls `int`: a 64-bit word.
    #[verifier::when_used_as_spec(spec_integer)]
    pub fn integer() -> (t: Type)
        ensures
            t == Type::integer(),
    {
        Type { kind: Kind::Int }
    }

    /// The boolean type: one for true, zero for false.
    #[verifier::when_used_as_spec(spec_bool)]
    pub fn bool() -> (t: Type)
        ensures
            t == Type::bool(),
    {
        Type { kind: Kind::Bool }
    }

    /// The void type, which also marks values of no known type.
    #[verifier::when_used_as_spec(spec_void)]
    pub fn void() -> (t: Type)
        ensures
            t == Type::void(),
    {
        Type { kind: Kind::Void }
    }

    /// Whether this is the void type.
    pub fn is_void(&self) -> (b: bool)
        ensures
            b == (*self == Type::void()),
    {
        self.kind == Kind::Void
    }

    /// Whether this is the integer type.
    pub fn is_int(&self) -> (b: bool)
        ensures
            b == (*self == Type::integer()),
    {
        self.kind == Kind::Int
    }

    /// Whether this is the boolean type.
    pub fn is_bool(&self) -> (b: bool)
        ensures
            b == (*self == Type::bool()),
    {
        self.kind == Kind::Bool
    }

    /// The small integer that identifies this type.
    #[verifier::when_used_as_spec(spec_index)]
    pub fn index(&self) -> (i: i32)
        ensures
            i == self.spec_index(),
    {
        match self.kind {
            Kind::Void => 0,
            Kind::Int => 1,
            Kind::Bool => 2,
        }
    }

    /// The word `w` in the form of this type.
    #[verifier::when_used_as_spec(spec_normalize)]
    pub fn normalize(&self, w: i64) -> (r: i64)
        ensures
            r == self.spec_normalize(w),
    {
        match self.kind {
            Kind::Void => 0,
            Kind::Int => w,
            Kind::Bool => if w != 0 { 1 } else { 0 },
        }
    }
}

impl Context {
    /// Creates a context and opens its build transaction.
    pub fn new() -> (ctx: Context)
        ensures
            ctx@ == ContextModel::fresh(),
    {
        let ctx = Context { funcs: Vec::new(), building: true, cursor: None };
        assert(ctx@.funcs =~= Seq::<FuncModel>::empty());
        ctx
    }

    /// Creates a function with the given signature. Its first slots are its
    /// parameters; it has no instructions yet.
    pub fn new_function(&mut self, params: &[Type], ret_type: Type) -> (f: Function)
        ensures
            final(self)@ == old(self)@.with_function(params@, ret_type),
            f == old(self)@.next_function(params@),
            final(self)@.has(f),
            final(self)@.body(f) == FuncModel::empty(params@, ret_type),
    {
        let signature = Type::create_signature(params, ret_type);
        let mut slots: Vec<Slot> = Vec::new();
        let mut i: usize = 0;
        while i < signature.params.len()
            invariant
                i <= signature.params.len(),
                slots@ == param_slots(signature.params@.take(i as int)),
            decreases signature.params.len() - i,
        {
            slots.push(Slot { ty: signature.params[i], kind: SlotKind::Param });
            assert(slots@ =~= param_slots(signature.params@.take(i + 1)));
            i += 1;
        }
        assert(signature.params@.take(signature.params.len() as int) =~= signature.params@);
        let f = Function { id: self.funcs.len(), argc: params.len() };
        self.funcs.push(
            FuncBody {
                params: signature.params,
                ret: signature.ret,
                slots,
                insns: Vec::new(),
                compiled: false,
            },
        );
        assert(self@.funcs =~= old(self)@.funcs.push(FuncModel::empty(params@, ret_type)));
        f
    }

    /// Closes the build transaction.
    pub fn finish(&mut self)
        ensures
            final(self)@ == old(self)@.finished(),
    {
        self.building = false;
    }

    /// Hands out the functions of the context one by one, in order of
    /// creation. After the last one it returns `None` once and starts over.
    pub fn next(&mut self) -> (r: Option<Function>)
        ensures
            final(self)@.funcs == old(self)@.funcs,
            final(self)@.building == old(self)@.building,
            final(self)@.cursor == old(self)@.spec_next(),
            r == old(self)@.spec_next_function(),
    {
        let at: usize = match self.cursor {
            None => 0,
            Some(prev) => if prev < self.funcs.len() { prev + 1 } else { prev },
        };
        if at < self.funcs.len() {
            self.cursor = Some(at);
            Some(Function { id: at, argc: self.funcs[at].params.len() })
        } else {
            self.cursor = None;
            None
        }
    }

    fn push_slot(&mut self, f: &Function, ty: Type, kind: SlotKind) -> (v: Value)
        requires
            old(self)@.has(*f),
        ensures
            final(self)@ == old(self)@.add_slot(*f, ty, kind),
            v == old(self)@.next_value(*f, ty),
    {
        let handle = self.funcs[f.id].slots.len();
        self.funcs[f.id].slots.push(Slot { ty, kind });
        assert(self@.funcs =~= old(self)@.add_slot(*f, ty, kind).funcs);
        Value { handle, ty }
    }

    fn push_insn(&mut self, f: &Function, insn: Insn)
        requires
            old(self)@.has(*f),
        ensures
            final(self)@ == old(self)@.add_insn(*f, insn),
    {
        self.funcs[f.id].insns.push(insn);
        assert(self@.funcs =~= old(self)@.add_insn(*f, insn).funcs);
    }

    fn push_args(&mut self, f: &Function, args: &[Value])
        requires
            old(self)@.has(*f),
        ensures
            final(self)@ == old(self)@.with_body(
                *f,
                old(self)@.body(*f).with_insns(push_all(args@)),
            ),
    {
        let mut i: usize = 0;
        assert(self@.funcs =~= old(self)@.with_body(
            *f,
            old(self)@.body(*f).with_insns(push_all(args@.take(0))),
        ).funcs) by {
            assert(old(self)@.body(*f).insns + push_all(args@.take(0)) =~= old(self)@.body(
                *f,
            ).insns);
        }
        while i < args.len()
            invariant
                i <= args.len(),
                old(self)@.has(*f),
                self@ == old(self)@.with_body(
                    *f,
                    old(self)@.body(*f).with_insns(push_all(args@.take(i as int))),
                ),
            decreases args.len() - i,
        {
            let ghost before = self@;
            self.push_insn(f, Insn::Push { src: args[i].handle });
            proof {
                let base = old(self)@.body(*f).insns;
                assert((base + push_all(args@.take(i as int))).push(
                    Insn::Push { src: args@[i as int].handle },
                ) =~= base + push_all(args@.take(i + 1)));
                assert(self@.funcs =~= old(self)@.with_body(
                    *f,
                    old(self)@.body(*f).with_insns(push_all(args@.take(i + 1))),
                ).funcs);
            }
            i += 1;
        }
        assert(args@.take(args.len() as int) =~= args@);
    }
}

impl ContextModel {
    /// Where the walk over the functions stands after one more step.
    pub open spec fn spec_next(self) -> Option<usize> {
        let at: int = match self.cursor {
            None => 0,
            Some(prev) => if prev < self.funcs.len() { prev + 1 } else { prev as int },
        };
        if at < self.funcs.len() {
            Some(at as usize)
        } else {
            None
        }
    }

    /// The function that one more step of the walk hands out.
    pub open spec fn spec_next_function(self) -> Option<Function> {
        match self.spec_next() {
            Some(at) => Some(Function { id: at, argc: self.funcs[at as int].params.len() as usize }),
            None => None,
        }
    }
}

impl Function {
    /// The values through which the parameters are read.
    pub fn get_params(&self, ctx: &Context) -> (params: Vec<Value>)
        requires
            ctx@.has(*self),
        ensures
            params@ == param_values(ctx@.body(*self).params),
    {
        let mut params: Vec<Value> = Vec::new();
        let mut i: usize = 0;
        let n = ctx.funcs[self.id].params.len();
        while i < n
            invariant
                ctx@.has(*self),
                n == ctx@.body(*self).params.len(),
                i <= n,
                params@ == param_values(ctx@.body(*self).params.take(i as int)),
            decreases n - i,
        {
            params.push(Value { handle: i, ty: ctx.funcs[self.id].params[i] });
            assert(params@ =~= param_values(ctx@.body(*self).params.take(i + 1)));
            i += 1;
        }
        assert(ctx@.body(*self).params.take(n as int) =~= ctx@.body(*self).params);
        params
    }

    /// Marks the function as final. Returns 1.
    pub fn compile(&self, ctx: &mut Context) -> (status: i32)
        requires
            old(ctx)@.has(*self),
        ensures
            final(ctx)@ == old(ctx)@.finalize(*self),
            status == 1,
    {
        ctx.funcs[self.id].compiled = true;
        assert(ctx@.funcs =~= old(ctx)@.finalize(*self).funcs);
        1
    }

    fn emit_binary(&self, ctx: &mut Context, op: BinaryOp, val1: &Value, val2: &Value) -> (r: Value)
        requires
            old(ctx)@.has(*self),
        ensures
            final(ctx)@ == old(ctx)@.binary(*self, op, *val1, *val2),
            r == old(ctx)@.next_value(*self, op.result_type()),
    {
        let r = ctx.push_slot(self, op.result_type(), SlotKind::Temp);
        ctx.push_insn(
            self,
            Insn::Binary { op, dst: r.handle, lhs: val1.handle, rhs: val2.handle },
        );
        r
    }

    /// Emits `val1 + val2` into a new integer slot.
    pub fn i_add(&self, ctx: &mut Context, val1: &Value, val2: &Value) -> (r: Value)
        requires
            old(ctx)@.has(*self),
        ensures
            final(ctx)@ == old(ctx)@.binary(*self, BinaryOp::Add, *val1, *val2),
            r == old(ctx)@.next_value(*self, Type::integer()),
    {
        self.emit_binary(ctx, BinaryOp::Add, val1, val2)
    }

    /// Emits `val1 - val2` into a new integer slot.
    pub fn i_sub(&self, ctx: &mut Context, val1: &Value, val2: &Value) -> (r: Value)
        requires
            old(ctx)@.has(*self),
        ensures
            final(ctx)@ == old(ctx)@.binary(*self, BinaryOp::Sub, *val1, *val2),
            r == old(ctx)@.next_value(*self, Type::integer()),
    {
        self.emit_binary(ctx, BinaryOp::Sub, val1, val2)
    }

    /// Emits `val1 * val2` into a new integer slot.
    pub fn i_mul(&self, ctx: &mut Context, val1: &Value, val2: &Value) -> (r: Value)
        requires
            old(ctx)@.has(*self),
        ensures
            final(ctx)@ == old(ctx)@.binary(*self, BinaryOp::Mul, *val1, *val2),
            r == old(ctx)@.next_value(*self, Type::integer()),
    {
        self.emit_binary(ctx, BinaryOp::Mul, val1, val2)
    }

    /// Emits `val1 == val2` into a new integer slot, which gets one or zero.
    pub fn i_eq(&self, ctx: &mut Context, val1: &Value, val2: &Value) -> (r: Value)
        requires
            old(ctx)@.has(*self),
        ensures
            final(ctx)@ == old(ctx)@.binary(*self, BinaryOp::Eq, *val1, *val2),
            r == old(ctx)@.next_value(*self, Type::integer()),
    {
        self.emit_binary(ctx, BinaryOp::Eq, val1, val2)
    }

    /// Emits `val1 != val2` into a new integer slot, which gets one or zero.
    pub fn i_ne(&self, ctx: &mut Context, val1: &Value, val2: &Value) -> (r: Value)
        requires
            old(ctx)@.has(*self),
        ensures
            final(ctx)@ == old(ctx)@.binary(*self, BinaryOp::Ne, *val1, *val2),
            r == old(ctx)@.next_value(*self, Type::integer()),
    {
        self.emit_binary(ctx, BinaryOp::Ne, val1, val2)
    }

    /// Emits `val1 < val2` into a new integer slot, which gets one or zero.
    pub fn i_lt(&self, ctx: &mut Context, val1: &Value, val2: &Value) -> (r: Value)
        requires
            old(ctx)@.has(*self),
        ensures
            final(ctx)@ == old(ctx)@.binary(*self, BinaryOp::Lt, *val1, *val2),
            r == old(ctx)@.next_value(*self, Type::integer()),
    {
        self.emit_binary(ctx, BinaryOp::Lt, val1, val2)
    }

    /// Emits `val1 <= val2` into a new integer slot, which gets one or zero.
    pub fn i_le(&self, ctx: &mut Context, val1: &Value, val2: &Value) -> (r: Value)
        requires
            old(ctx)@.has(*self),
        ensures
            final(ctx)@ == old(ctx)@.binary(*self, BinaryOp::Le, *val1, *val2),
            r == old(ctx)@.next_value(*self, Type::integer()),
    {
        self.emit_binary(ctx, BinaryOp::Le, val1, val2)
    }

    /// Emits `val1 > val2` into a new integer slot, which gets one or zero.
    pub fn i_gt(&self, ctx: &mut Context, val1: &Value, val2: &Value) -> (r: Value)
        requires
            old(ctx)@.has(*self),
        ensures
            final(ctx)@ == old(ctx)@.binary(*self, BinaryOp::Gt, *val1, *val2),
            r == old(ctx)@.next_value(*self, Type::integer()),
    {
        self.emit_binary(ctx, BinaryOp::Gt, val1, val2)
    }

    /// Emits `val1 >= val2` into a new integer slot, which gets one or zero.
    pub fn i_ge(&self, ctx: &mut Context, val1: &Value, val2: &Value) -> (r: Value)
        requires
            old(ctx)@.has(*self),
        ensures
            final(ctx)@ == old(ctx)@.binary(*self, BinaryOp::Ge, *val1, *val2),
            r == old(ctx)@.next_value(*self, Type::integer()),
    {
        self.emit_binary(ctx, BinaryOp::Ge, val1, val2)
    }

    /// Emits the logical and of `val1` and `val2` into a new boolean slot.
    pub fn i_and(&self, ctx: &mut Context, val1: &Value, val2: &Value) -> (r: Value)
        requires
            old(ctx)@.has(*self),
        ensures
            final(ctx)@ == old(ctx)@.binary(*self, BinaryOp::And, *val1, *val2),
            r == old(ctx)@.next_value(*self, Type::bool()),
    {
        self.emit_binary(ctx, BinaryOp::And, val1, val2)
    }

    /// Emits the logical or of `val1` and `val2` into a new boolean slot.
    pub fn i_or(&self, ctx: &mut Context, val1: &Value, val2: &Value) -> (r: Value)
        requires
            old(ctx)@.has(*self),
        ensures
            final(ctx)@ == old(ctx)@.binary(*self, BinaryOp::Or, *val1, *val2),
            r == old(ctx)@.next_value(*self, Type::bool()),
    {
        self.emit_binary(ctx, BinaryOp::Or, val1, val2)
    }

    /// Emits a conversion of `val` to type `tp` into a new slot of that type.
    pub fn i_convert(&self, ctx: &mut Context, val: &Value, tp: Type) -> (r: Value)
        requires
            old(ctx)@.has(*self),
        ensures
            final(ctx)@ == old(ctx)@.convert(*self, *val, tp),
            r == old(ctx)@.next_value(*self, tp),
    {
        let r = ctx.push_slot(self, tp, SlotKind::Temp);
        ctx.push_insn(self, Insn::Convert { dst: r.handle, src: val.handle, ty: tp });
        r
    }

    /// Emits a call of `f`, a function of the same context, with `args`.
    /// The result has the return type of `f`.
    pub fn i_normal_call(&self, ctx: &mut Context, f: &Function, args: &[Value]) -> (r: Value)
        requires
            old(ctx)@.has(*self),
            old(ctx)@.has(*f),
        ensures
            final(ctx)@ == old(ctx)@.call(*self, *f, args@),
            r == old(ctx)@.next_value(*self, old(ctx)@.body(*f).ret),
    {
        let ret = ctx.funcs[f.id].ret;
        ctx.push_args(self, args);
        let r = ctx.push_slot(self, ret, SlotKind::Temp);
        ctx.push_insn(self, Insn::Call { dst: r.handle, callee: f.id });
        assert(ctx@.funcs =~= old(ctx)@.call(*self, *f, args@).funcs);
        r
    }

    /// Emits a call of the native entry point `f` with `args`. The result
    /// has type `ret_type`, which cannot be found out from `f`.
    pub fn i_native_call(&self, ctx: &mut Context, f: usize, args: &[Value], ret_type: Type) -> (r:
        Value)
        requires
            old(ctx)@.has(*self),
        ensures
            final(ctx)@ == old(ctx)@.call_native(*self, f, args@, ret_type),
            r == old(ctx)@.next_value(*self, ret_type),
    {
        ctx.push_args(self, args);
        let r = ctx.push_slot(self, ret_type, SlotKind::Temp);
        ctx.push_insn(self, Insn::CallNative { dst: r.handle, entry: f });
        assert(ctx@.funcs =~= old(ctx)@.call_native(*self, f, args@, ret_type).funcs);
        r
    }

    fn label_id(&self, ctx: &Context, brnch: &mut Label) -> (id: usize)
        requires
            ctx@.has(*self),
        ensures
            id == ctx@.label_id(*self, old(brnch).id),
            final(brnch).id == Some(id),
    {
        match brnch.id {
            Some(id) => id,
            None => {
                let id = ctx.funcs[self.id].insns.len();
                brnch.id = Some(id);
                id
            },
        }
    }

    /// Emits a jump to `brnch` that is taken when `val` is not zero. A label
    /// without a number gets one.
    pub fn i_branch_if(&self, ctx: &mut Context, val: &Value, brnch: &mut Label)
        requires
            old(ctx)@.has(*self),
        ensures
            final(ctx)@ == old(ctx)@.branch_if(*self, *val, old(brnch).id),
            final(brnch).id == Some(old(ctx)@.label_id(*self, old(brnch).id)),
    {
        let label = self.label_id(ctx, brnch);
        ctx.push_insn(self, Insn::BranchIf { cond: val.handle, label });
    }

    /// Emits a jump to `brnch` that is taken when `val` is zero. A label
    /// without a number gets one.
    pub fn i_branch_if_not(&self, ctx: &mut Context, val: &Value, brnch: &mut Label)
        requires
            old(ctx)@.has(*self),
        ensures
            final(ctx)@ == old(ctx)@.branch_if_not(*self, *val, old(brnch).id),
            final(brnch).id == Some(old(ctx)@.label_id(*self, old(brnch).id)),
    {
        let label = self.label_id(ctx, brnch);
        ctx.push_insn(self, Insn::BranchIfNot { cond: val.handle, label });
    }

    /// Emits a return of `val`.
    pub fn i_return(&self, ctx: &mut Context, val: &Value)
        requires
            old(ctx)@.has(*self),
        ensures
            final(ctx)@ == old(ctx)@.ret(*self, *val),
    {
        ctx.push_insn(self, Insn::Return { src: val.handle });
    }

    /// Emits a copy of `val` into the existing slot `dest`.
    pub fn i_store(&self, ctx: &mut Context, val: &Value, dest: &Value)
        requires
            old(ctx)@.has(*self),
        ensures
            final(ctx)@ == old(ctx)@.store(*self, *val, *dest),
    {
        ctx.push_insn(self, Insn::Store { dst: dest.handle, src: val.handle });
    }

    /// Emits a copy of `dest` into a new slot of the same type.
    pub fn i_load(&self, ctx: &mut Context, dest: &Value) -> (r: Value)
        requires
            old(ctx)@.has(*self),
        ensures
            final(ctx)@ == old(ctx)@.load(*self, *dest),
            r == old(ctx)@.next_value(*self, dest.ty),
    {
        let r = ctx.push_slot(self, dest.ty, SlotKind::Temp);
        ctx.push_insn(self, Insn::Load { dst: r.handle, src: dest.handle });
        r
    }
}

impl Value {
    /// The value that names slot `handle` and has type `ty`.
    pub fn new(handle: usize, ty: Type) -> (v: Value)
        ensures
            v == (Value { handle, ty }),
    {
        Value { handle, ty }
    }

    /// A new slot of `func` of type `tp` that no instruction writes yet.
    pub fn create(ctx: &mut Context, func: &Function, tp: &Type) -> (v: Value)
        requires
            old(ctx)@.has(*func),
        ensures
            final(ctx)@ == old(ctx)@.add_slot(*func, *tp, SlotKind::Temp),
            v == old(ctx)@.next_value(*func, *tp),
    {
        ctx.push_slot(func, *tp, SlotKind::Temp)
    }

    /// A new constant of `func`: `val` in the form of type `tp`.
    pub fn constant(ctx: &mut Context, func: &Function, tp: Type, val: i64) -> (v: Value)
        requires
            old(ctx)@.has(*func),
        ensures
            final(ctx)@ == old(ctx)@.constant(*func, tp, val),
            v == old(ctx)@.next_value(*func, tp),
    {
        ctx.push_slot(func, tp, SlotKind::Const(tp.normalize(val)))
    }

    /// A new integer constant of `func`.
    pub fn constant_long(ctx: &mut Context, func: &Function, val: i64) -> (v: Value)
        requires
            old(ctx)@.has(*func),
        ensures
            final(ctx)@ == old(ctx)@.constant(*func, Type::integer(), val),
            v == old(ctx)@.next_value(*func, Type::integer()),
    {
        Value::constant(ctx, func, Type::integer(), val)
    }

    /// A new void constant of `func`, the placeholder for no value.
    pub fn constant_void(ctx: &mut Context, func: &Function) -> (v: Value)
        requires
            old(ctx)@.has(*func),
        ensures
            final(ctx)@ == old(ctx)@.constant(*func, Type::void(), 0),
            v == old(ctx)@.next_value(*func, Type::void()),
    {
        Value::constant(ctx, func, Type::void(), 0)
    }

    /// The type that the code generator knows the value by.
    pub fn get_type(&self) -> (t: Type)
        ensures
            t == self.ty,
    {
        self.ty
    }
}

impl Label {
    /// A label that no instruction has named yet.
    pub fn new() -> (l: Label)
        ensures
            l.id.is_none(),
    {
        Label { id: None }
    }

    /// Puts the label at the end of `f`. A label without a number gets one.
    pub fn place(&mut self, ctx: &mut Context, f: &Function)
        requires
            old(ctx)@.has(*f),
        ensures
            final(ctx)@ == old(ctx)@.mark(*f, old(self).id),
            final(self).id == Some(old(ctx)@.label_id(*f, old(self).id)),
    {
        let label = f.label_id(ctx, self);
        ctx.push_insn(f, Insn::Mark { label });
    }
}

} // verus!
