//! A function that calls itself.

use vstd::prelude::*;
use either::Either;
use crate::correctness::{lemma_run_after_steps, lemma_steps_add, steps};
use crate::error::{CompileError, Error, ExecError};
use crate::ir::{BinaryOp, ContextModel, Insn, Slot, SlotKind, push_all};
use crate::laws::programs::{
    lemma_int_is_known, lemma_program_start, lemma_step_then, program_start,
};
use crate::lowering::{
    BuilderModel, NativeModel, all_known, args_match, bind_params, param_types,
    spec_compile_and_run, spec_program, spec_visit, spec_visit_list, type_named,
};
use crate::machine::{
    FrameModel, MachineModel, STEP_LIMIT, StepModel, entry_regs, low32, mark_from, spec_run,
    spec_step,
};
use crate::myast::{Node, Op};
use crate::types::builtin_types;
use crate::wrapper::{Function, Type, Value};

verus! {

/// The sum of the numbers from `n` down to one, on 64-bit words.
pub open spec fn sum_down(n: i64) -> i64
    decreases n,
{
    if n <= 0 {
        0
    } else {
        n.wrapping_add(sum_down((n - 1) as i64))
    }
}

/// A definition of a function that adds up the numbers from its argument
/// down to one by calling itself: `name(p: int): int { if (p == 0) {
/// return 0; } else { return p + name(p - 1); } }`.
pub open spec fn is_sum_function(def: Node, name: Seq<char>, p: Seq<char>) -> bool {
    def matches Node::FuncDef(n, params, rettype, body) && {
        &&& n@ == name
        &&& rettype@ == "int"@
        &&& params@.len() == 1
        &&& params@[0].0@ == p
        &&& params@[0].1@ == "int"@
        &&& body@.len() == 1
        &&& body@[0] matches Node::If(cond, then, other) && {
            &&& *cond matches Node::BinOp(l, o, r) && {
                &&& o == Op::Eql
                &&& *l matches Node::Ident(x) && x@ == p
                &&& *r == Node::Number(0)
            }
            &&& *then matches Node::Ret(val) && *val == Node::Number(0)
            &&& *other matches Node::Ret(val) && *val matches Node::BinOp(l, o, r) && {
                &&& o == Op::Add
                &&& *l matches Node::Ident(x) && x@ == p
                &&& *r matches Node::Call(list) && {
                    &&& list@.len() == 2
                    &&& list@[0] matches Node::Ident(f) && f@ == name
                    &&& list@[1] matches Node::BinOp(l2, o2, r2) && {
                        &&& o2 == Op::Sub
                        &&& *l2 matches Node::Ident(x) && x@ == p
                        &&& *r2 == Node::Number(1)
                    }
                }
            }
        }
    }
}

/// A return of a call of `name` with the number `n`: `return name(n);`.
pub open spec fn is_unary_call(stmt: Node, name: Seq<char>, n: i64) -> bool {
    stmt matches Node::Ret(val) && *val matches Node::Call(list) && {
        &&& list@.len() == 2
        &&& list@[0] matches Node::Ident(f) && f@ == name
        &&& list@[1] == Node::Number(n)
    }
}

/// The instructions of the function of `is_sum_function`.
pub open spec fn sum_insns() -> Seq<Insn> {
    seq![
        Insn::Load { dst: 1, src: 0 },
        Insn::Binary { op: BinaryOp::Eq, dst: 3, lhs: 1, rhs: 2 },
        Insn::Convert { dst: 4, src: 3, ty: Type::bool() },
        Insn::BranchIfNot { cond: 4, label: 3 },
        Insn::Return { src: 5 },
        Insn::Mark { label: 3 },
        Insn::Load { dst: 7, src: 0 },
        Insn::Load { dst: 8, src: 0 },
        Insn::Binary { op: BinaryOp::Sub, dst: 10, lhs: 8, rhs: 9 },
        Insn::Push { src: 10 },
        Insn::Call { dst: 11, callee: 1 },
        Insn::Binary { op: BinaryOp::Add, dst: 12, lhs: 7, rhs: 11 },
        Insn::Return { src: 12 },
    ]
}

/// The slots of the function of `is_sum_function`.
pub open spec fn sum_slots() -> Seq<Slot> {
    seq![
        Slot { ty: Type::integer(), kind: SlotKind::Param },
        Slot { ty: Type::integer(), kind: SlotKind::Temp },
        Slot { ty: Type::integer(), kind: SlotKind::Const(0) },
        Slot { ty: Type::integer(), kind: SlotKind::Temp },
        Slot { ty: Type::bool(), kind: SlotKind::Temp },
        Slot { ty: Type::integer(), kind: SlotKind::Const(0) },
        Slot { ty: Type::integer(), kind: SlotKind::Const(0) },
        Slot { ty: Type::integer(), kind: SlotKind::Temp },
        Slot { ty: Type::integer(), kind: SlotKind::Temp },
        Slot { ty: Type::integer(), kind: SlotKind::Const(1) },
        Slot { ty: Type::integer(), kind: SlotKind::Temp },
        Slot { ty: Type::integer(), kind: SlotKind::Temp },
        Slot { ty: Type::integer(), kind: SlotKind::Temp },
        Slot { ty: Type::integer(), kind: SlotKind::Const(0) },
        Slot { ty: Type::void(), kind: SlotKind::Const(0) },
    ]
}

/// The state in which the body of the function of `is_sum_function` is
/// compiled.
proof fn lemma_sum_entered(def: Node, name: Seq<char>, p: Seq<char>)
    requires
        is_sum_function(def, name, p),
    ensures
        ({
            let b0 = program_start();
            let entered = b0.enter(
                name,
                def->FuncDef_1@,
                seq![Type::integer()],
                Type::integer(),
            );
            &&& all_known(b0.types, def->FuncDef_1@)
            &&& param_types(b0.types, def->FuncDef_1@) == seq![Type::integer()]
            &&& type_named(b0.types, def->FuncDef_2@) == Some(Type::integer())
            &&& entered.main == (Function { id: 1, argc: 1 })
            &&& entered.vtable == Map::<Seq<char>, Value>::empty().insert(
                p,
                Value { handle: 0, ty: Type::integer() },
            )
            &&& entered.ftable.contains_key(name)
            &&& entered.ftable[name] == Either::<NativeModel, Function>::Right(
                Function { id: 1, argc: 1 },
            )
            &&& entered.context.funcs.len() == 2
            &&& entered.context.funcs[0] == b0.context.funcs[0]
            &&& entered.context.funcs[1].params == seq![Type::integer()]
            &&& entered.context.funcs[1].ret == Type::integer()
            &&& entered.context.funcs[1].insns == Seq::<Insn>::empty()
            &&& entered.context.funcs[1].slots == sum_slots().take(1)
        }),
{
    let b0 = program_start();
    lemma_program_start();
    let params = def->FuncDef_1;
    lemma_int_is_known("int"@);
    assert(b0.types == builtin_types());
    assert(all_known(b0.types, params@));
    let argtypes = param_types(b0.types, params@);
    assert(argtypes =~= seq![Type::integer()]);
    let entered = b0.enter(name, params@, argtypes, Type::integer());
    assert(bind_params(params@, argtypes, 0) == Map::<Seq<char>, Value>::empty());
    assert(entered.context.funcs[1].slots =~= sum_slots().take(1));
    assert(entered.context.funcs[1].insns =~= Seq::<Insn>::empty());
    assert(entered.context.funcs[1].params == argtypes);
}

/// The state while the body of the function of `is_sum_function` is
/// compiled, when the function has its first `slots` slots and its first
/// `insns` instructions.
pub open spec fn sum_state(
    b: BuilderModel,
    name: Seq<char>,
    p: Seq<char>,
    slots: int,
    insns: int,
) -> bool {
    &&& b.main == (Function { id: 1, argc: 1 })
    &&& b.vtable.contains_key(p)
    &&& b.vtable[p] == (Value { handle: 0, ty: Type::integer() })
    &&& b.ftable.contains_key(name)
    &&& b.ftable[name] == Either::<NativeModel, Function>::Right(Function { id: 1, argc: 1 })
    &&& b.context.funcs.len() == 2
    &&& b.context.funcs[0] == program_start().context.funcs[0]
    &&& b.context.funcs[1].params == seq![Type::integer()]
    &&& b.context.funcs[1].ret == Type::integer()
    &&& b.context.funcs[1].slots == sum_slots().take(slots)
    &&& b.context.funcs[1].insns == sum_insns().take(insns)
}

/// An identifier that is bound to slot 0 compiles to a copy of that slot.
proof fn lemma_sum_ident(
    b: BuilderModel,
    name: Seq<char>,
    p: Seq<char>,
    slots: int,
    insns: int,
    n: Node,
)
    requires
        sum_state(b, name, p, slots, insns),
        0 <= slots < 15,
        0 <= insns < 13,
        n matches Node::Ident(x) && x@ == p,
        sum_slots()[slots] == (Slot { ty: Type::integer(), kind: SlotKind::Temp }),
        sum_insns()[insns] == (Insn::Load { dst: slots as usize, src: 0 }),
    ensures
        sum_state(spec_visit(b, n).0, name, p, slots + 1, insns + 1),
        spec_visit(b, n).1 == Ok::<Value, CompileError>(
            Value { handle: slots as usize, ty: Type::integer() },
        ),
{
    let (b1, r1) = spec_visit(b, n);
    assert(b1.context.funcs[1].slots =~= sum_slots().take(slots + 1));
    assert(b1.context.funcs[1].insns =~= sum_insns().take(insns + 1));
}

/// A number compiles to a constant.
proof fn lemma_sum_number(
    b: BuilderModel,
    name: Seq<char>,
    p: Seq<char>,
    slots: int,
    insns: int,
    i: i64,
)
    requires
        sum_state(b, name, p, slots, insns),
        0 <= slots < 15,
        sum_slots()[slots] == (Slot { ty: Type::integer(), kind: SlotKind::Const(i) }),
    ensures
        sum_state(spec_visit(b, Node::Number(i)).0, name, p, slots + 1, insns),
        spec_visit(b, Node::Number(i)).1 == Ok::<Value, CompileError>(
            Value { handle: slots as usize, ty: Type::integer() },
        ),
{
    let (b1, r1) = spec_visit(b, Node::Number(i));
    assert(b1.context.funcs[1].slots =~= sum_slots().take(slots + 1));
}

/// A return of zero compiles to a constant, a return of it, and a
/// placeholder.
proof fn lemma_sum_return_zero(
    b: BuilderModel,
    name: Seq<char>,
    p: Seq<char>,
    n: Node,
)
    requires
        sum_state(b, name, p, 5, 4),
        n matches Node::Ret(val) && *val == Node::Number(0),
    ensures
        sum_state(spec_visit(b, n).0, name, p, 7, 5),
        spec_visit(b, n).1 is Ok,
{
    lemma_sum_number(b, name, p, 5, 4, 0);
    let (b1, r1) = spec_visit(b, Node::Number(0));
    let (b2, r2) = spec_visit(b, n);
    assert((b2, r2) == b1.ret(r1->Ok_0));
    assert(b2.context.funcs[1].slots =~= sum_slots().take(7));
    assert(b2.context.funcs[1].insns =~= sum_insns().take(5));
}

/// The condition `p == 0` compiles to a copy, a constant, a comparison and
/// a conversion.
proof fn lemma_sum_condition(b: BuilderModel, name: Seq<char>, p: Seq<char>, cond: Node)
    requires
        sum_state(b, name, p, 1, 0),
        cond matches Node::BinOp(l, o, r) && {
            &&& o == Op::Eql
            &&& *l matches Node::Ident(x) && x@ == p
            &&& *r == Node::Number(0)
        },
    ensures
        sum_state(spec_visit(b, cond).0, name, p, 5, 3),
        spec_visit(b, cond).1 == Ok::<Value, CompileError>(
            Value { handle: 4, ty: Type::bool() },
        ),
{
    let lhs = *cond->BinOp_0;
    lemma_sum_ident(b, name, p, 1, 0, lhs);
    let (b1, r1) = spec_visit(b, lhs);
    lemma_sum_number(b1, name, p, 2, 1, 0);
    let (b2, r2) = spec_visit(b1, Node::Number(0));
    let (b3, r3) = spec_visit(b, cond);
    assert((b3, r3) == b2.binop(Op::Eql, r1->Ok_0, r2->Ok_0));
    assert((b3, r3) == b2.emit_compare(BinaryOp::Eq, r1->Ok_0, r2->Ok_0));
    assert(b3.context.funcs[1].slots =~= sum_slots().take(5));
    assert(b3.context.funcs[1].insns =~= sum_insns().take(3));
}

/// The call `name(p - 1)` compiles to the code of its argument, a push and
/// a call of function 1.
proof fn lemma_sum_call(b: BuilderModel, name: Seq<char>, p: Seq<char>, call: Node)
    requires
        sum_state(b, name, p, 8, 7),
        call matches Node::Call(list) && {
            &&& list@.len() == 2
            &&& list@[0] matches Node::Ident(f) && f@ == name
            &&& list@[1] matches Node::BinOp(l2, o2, r2) && {
                &&& o2 == Op::Sub
                &&& *l2 matches Node::Ident(x) && x@ == p
                &&& *r2 == Node::Number(1)
            }
        },
    ensures
        sum_state(spec_visit(b, call).0, name, p, 12, 11),
        spec_visit(b, call).1 == Ok::<Value, CompileError>(
            Value { handle: 11, ty: Type::integer() },
        ),
{
    let list = call->Call_0;
    let arg = list@[1];
    let lhs = *arg->BinOp_0;
    lemma_sum_ident(b, name, p, 8, 7, lhs);
    let (b1, r1) = spec_visit(b, lhs);
    lemma_sum_number(b1, name, p, 9, 8, 1);
    let (b2, r2) = spec_visit(b1, Node::Number(1));
    let (b3, r3) = spec_visit(b, arg);
    assert((b3, r3) == b2.binop(Op::Sub, r1->Ok_0, r2->Ok_0));
    assert((b3, r3) == b2.emit_binary(BinaryOp::Sub, r1->Ok_0, r2->Ok_0));
    assert(r3 == Ok::<Value, CompileError>(Value { handle: 10, ty: Type::integer() }));
    assert(b3.context.funcs[1].slots =~= sum_slots().take(11));
    assert(b3.context.funcs[1].insns =~= sum_insns().take(9));
    assert(sum_state(b3, name, p, 11, 9));
    let none = Seq::<Value>::empty();
    let args = none.push(r3->Ok_0);
    assert(spec_visit_list(b3, list@, 2, args) == (b3, Ok::<Seq<Value>, CompileError>(args)));
    assert(spec_visit_list(b, list@, 1, none) == (b3, Ok::<Seq<Value>, CompileError>(args)));
    let (b4, r4) = spec_visit(b, call);
    assert((b4, r4) == b3.call(name, args));
    let f = Function { id: 1, argc: 1 };
    assert(args_match(args, b3.context.body(f).params));
    assert(push_all(args) =~= seq![Insn::Push { src: 10 }]);
    assert(b4.context.funcs[1].slots =~= sum_slots().take(12));
    assert(b4.context.funcs[1].insns =~= sum_insns().take(11));
}

/// The second branch, `return p + name(p - 1);`.
proof fn lemma_sum_else(b: BuilderModel, name: Seq<char>, p: Seq<char>, other: Node)
    requires
        sum_state(b, name, p, 7, 6),
        other matches Node::Ret(val) && *val matches Node::BinOp(l, o, r) && {
            &&& o == Op::Add
            &&& *l matches Node::Ident(x) && x@ == p
            &&& *r matches Node::Call(list) && {
                &&& list@.len() == 2
                &&& list@[0] matches Node::Ident(f) && f@ == name
                &&& list@[1] matches Node::BinOp(l2, o2, r2) && {
                    &&& o2 == Op::Sub
                    &&& *l2 matches Node::Ident(x) && x@ == p
                    &&& *r2 == Node::Number(1)
                }
            }
        },
    ensures
        sum_state(spec_visit(b, other).0, name, p, 14, 13),
        spec_visit(b, other).1 is Ok,
        !(other is Empty),
{
    let val = *other->Ret_0;
    let lhs = *val->BinOp_0;
    let call = *val->BinOp_2;
    lemma_sum_ident(b, name, p, 7, 6, lhs);
    let (b1, r1) = spec_visit(b, lhs);
    lemma_sum_call(b1, name, p, call);
    let (b2, r2) = spec_visit(b1, call);
    let (b3, r3) = spec_visit(b, val);
    assert((b3, r3) == b2.binop(Op::Add, r1->Ok_0, r2->Ok_0));
    assert((b3, r3) == b2.emit_binary(BinaryOp::Add, r1->Ok_0, r2->Ok_0));
    assert(r3 == Ok::<Value, CompileError>(Value { handle: 12, ty: Type::integer() }));
    assert(b3.context.funcs[1].slots =~= sum_slots().take(13));
    assert(b3.context.funcs[1].insns =~= sum_insns().take(12));
    let (b4, r4) = spec_visit(b, other);
    assert((b4, r4) == b3.ret(r3->Ok_0));
    assert(b4.context.funcs[1].slots =~= sum_slots().take(14));
    assert(b4.context.funcs[1].insns =~= sum_insns().take(13));
}

/// The instructions of an entry function that returns what a call of
/// function 1 with one constant gives.
pub open spec fn unary_caller_insns() -> Seq<Insn> {
    seq![
        Insn::Push { src: 2 },
        Insn::Call { dst: 3, callee: 1 },
        Insn::Return { src: 3 },
        Insn::Return { src: 4 },
    ]
}

/// The slots of that entry function.
pub open spec fn unary_caller_slots(n: i64) -> Seq<Slot> {
    seq![
        Slot { ty: Type::integer(), kind: SlotKind::Const(0) },
        Slot { ty: Type::void(), kind: SlotKind::Const(0) },
        Slot { ty: Type::integer(), kind: SlotKind::Const(n) },
        Slot { ty: Type::integer(), kind: SlotKind::Temp },
        Slot { ty: Type::integer(), kind: SlotKind::Const(0) },
    ]
}

/// The state after the definition of `is_sum_function` is compiled in
/// `program_start()`.
proof fn lemma_sum_function_compiled(def: Node, name: Seq<char>, p: Seq<char>)
    requires
        is_sum_function(def, name, p),
    ensures
        ({
            let (b1, r1) = spec_visit(program_start(), def);
            &&& r1 == Ok::<Value, CompileError>(Value { handle: 1, ty: Type::void() })
            &&& b1.main == (Function { id: 0, argc: 0 })
            &&& b1.ftable.contains_key(name)
            &&& b1.ftable[name] == Either::<NativeModel, Function>::Right(
                Function { id: 1, argc: 1 },
            )
            &&& b1.context.funcs.len() == 2
            &&& b1.context.funcs[0].params == Seq::<Type>::empty()
            &&& b1.context.funcs[0].ret == Type::integer()
            &&& b1.context.funcs[0].insns == Seq::<Insn>::empty()
            &&& b1.context.funcs[0].slots == unary_caller_slots(0).take(2)
            &&& b1.context.funcs[1].params == seq![Type::integer()]
            &&& b1.context.funcs[1].ret == Type::integer()
            &&& b1.context.funcs[1].insns == sum_insns()
            &&& b1.context.funcs[1].slots == sum_slots()
        }),
{
    let b0 = program_start();
    lemma_program_start();
    lemma_sum_entered(def, name, p);
    let params = def->FuncDef_1;
    let body = def->FuncDef_3;
    let entered = b0.enter(name, params@, seq![Type::integer()], Type::integer());
    assert(sum_insns().take(0) =~= Seq::<Insn>::empty());
    assert(sum_state(entered, name, p, 1, 0));
    let stmt = body@[0];
    let cond = *stmt->If_0;
    let then = *stmt->If_1;
    let other = *stmt->If_2;
    lemma_sum_condition(entered, name, p, cond);
    let (b1, r1) = spec_visit(entered, cond);
    let cv = r1->Ok_0;
    let label = b1.context.label_id(b1.main, None);
    assert(label == 3);
    let b2 = b1.if_test(cv);
    assert(b2.context.funcs[1].insns =~= sum_insns().take(4));
    assert(sum_state(b2, name, p, 5, 4));
    lemma_sum_return_zero(b2, name, p, then);
    let (b3, r3) = spec_visit(b2, then);
    let b4 = b3.if_else(label);
    assert(b4.context.funcs[1].insns =~= sum_insns().take(6));
    assert(sum_state(b4, name, p, 7, 6));
    lemma_sum_else(b4, name, p, other);
    let (b5, r5) = spec_visit(b4, other);
    let (b6, r6) = spec_visit(entered, stmt);
    assert((b6, r6) == b5.constant(Type::void(), 0));
    assert(b6.context.funcs[1].slots =~= sum_slots());
    assert(b6.context.funcs[1].insns =~= sum_insns());
    assert(b6.context.funcs[0] == b0.context.funcs[0]);
    let none = Seq::<Value>::empty();
    assert(spec_visit_list(b6, body@, 1, none.push(r6->Ok_0)) == (
        b6,
        Ok::<Seq<Value>, CompileError>(none.push(r6->Ok_0)),
    ));
    assert(spec_visit_list(entered, body@, 0, none) == (
        b6,
        Ok::<Seq<Value>, CompileError>(none.push(r6->Ok_0)),
    ));
    let (b7, r7) = spec_visit(b0, def);
    assert((b7, r7) == b6.leave(b0.main));
    assert(b7.context.funcs[0].slots =~= unary_caller_slots(0).take(2));
    assert(b7.context.funcs[0].insns =~= Seq::<Insn>::empty());
    assert(b7.context.funcs[0].params =~= Seq::<Type>::empty());
    assert(b7.context.funcs[1].slots =~= sum_slots());
    assert(b7.context.funcs[1].insns =~= sum_insns());
}

/// What the definition of `is_sum_function` and a return of a call of it
/// compile to.
proof fn lemma_sum_program_compiled(def: Node, stmt: Node, name: Seq<char>, p: Seq<char>, n: i64)
    requires
        is_sum_function(def, name, p),
        is_unary_call(stmt, name, n),
    ensures
        ({
            let (built, r) = spec_program(seq![def, stmt]);
            let ctx = built.sealed().context;
            &&& r is Ok
            &&& built.main == (Function { id: 0, argc: 0 })
            &&& ctx.funcs.len() == 2
            &&& ctx.funcs[0].params == Seq::<Type>::empty()
            &&& ctx.funcs[0].ret == Type::integer()
            &&& ctx.funcs[0].insns == unary_caller_insns()
            &&& ctx.funcs[0].slots == unary_caller_slots(n)
            &&& ctx.funcs[1].params == seq![Type::integer()]
            &&& ctx.funcs[1].ret == Type::integer()
            &&& ctx.funcs[1].insns == sum_insns()
            &&& ctx.funcs[1].slots == sum_slots()
        }),
{
    let b0 = program_start();
    lemma_program_start();
    lemma_sum_function_compiled(def, name, p);
    let (b1, r1) = spec_visit(b0, def);
    let f = Function { id: 1, argc: 1 };
    let call = *stmt->Ret_0;
    let list = call->Call_0;
    let (bx, rx) = spec_visit(b1, list@[1]);
    assert(rx == Ok::<Value, CompileError>(Value { handle: 2, ty: Type::integer() }));
    assert(bx.context.funcs[0].slots =~= unary_caller_slots(n).take(3));
    assert(bx.context.funcs[0].insns =~= Seq::<Insn>::empty());
    let none = Seq::<Value>::empty();
    let args = none.push(rx->Ok_0);
    assert(spec_visit_list(bx, list@, 2, args) == (bx, Ok::<Seq<Value>, CompileError>(args)));
    assert(spec_visit_list(b1, list@, 1, none) == (bx, Ok::<Seq<Value>, CompileError>(args)));
    let (bc, rc) = spec_visit(b1, call);
    assert((bc, rc) == bx.call(name, args));
    assert(bx.ftable.contains_key(name) && bx.ftable[name] == Either::<
        NativeModel,
        Function,
    >::Right(f));
    assert(bx.context.body(f).params == seq![Type::integer()]);
    assert(args_match(args, bx.context.body(f).params));
    assert(rc == Ok::<Value, CompileError>(Value { handle: 3, ty: Type::integer() }));
    assert(push_all(args) =~= seq![Insn::Push { src: 2 }]);
    assert(bc.context.funcs[0].insns =~= unary_caller_insns().take(2));
    assert(bc.context.funcs[0].slots =~= unary_caller_slots(n).take(4));
    let (b2, r2) = spec_visit(b1, stmt);
    assert((b2, r2) == bc.ret(rc->Ok_0));
    assert(r2 == Ok::<Value, CompileError>(Value { handle: 4, ty: Type::integer() }));
    assert(b2.context.funcs[0].insns =~= unary_caller_insns().take(3));
    assert(b2.context.funcs[0].slots =~= unary_caller_slots(n));
    assert(b2.context.funcs[1] == b1.context.funcs[1]);
    let nodes = seq![def, stmt];
    let zero = Value { handle: 0, ty: Type::integer() };
    let first = seq![zero];
    let vals = first.push(r1->Ok_0).push(r2->Ok_0);
    assert(spec_visit_list(b2, nodes, 2, vals) == (b2, Ok::<Seq<Value>, CompileError>(vals)));
    assert(spec_visit_list(b1, nodes, 1, first.push(r1->Ok_0)) == (
        b2,
        Ok::<Seq<Value>, CompileError>(vals),
    ));
    assert(spec_visit_list(b0, nodes, 0, first) == (b2, Ok::<Seq<Value>, CompileError>(vals)));
    assert(vals.last() == r2->Ok_0);
    let (built, r) = spec_program(nodes);
    let ctx = built.sealed().context;
    assert(ctx.funcs[0].insns =~= unary_caller_insns());
    assert(ctx.funcs[0].slots =~= unary_caller_slots(n));
    assert(ctx.funcs[1] == b1.context.funcs[1]);
}

/// The context has the function of `is_sum_function` as function 1.
pub open spec fn has_sum_function(ctx: ContextModel) -> bool {
    &&& ctx.funcs.len() == 2
    &&& ctx.funcs[1].params == seq![Type::integer()]
    &&& ctx.funcs[1].ret == Type::integer()
    &&& ctx.funcs[1].insns == sum_insns()
    &&& ctx.funcs[1].slots == sum_slots()
}

/// The words of the slots of the function of `is_sum_function` when it is
/// entered with `n`.
pub open spec fn sum_regs(n: i64) -> Seq<i64> {
    seq![n, 0i64, 0i64, 0i64, 0i64, 0i64, 0i64, 0i64, 0i64, 1i64, 0i64, 0i64, 0i64, 0i64, 0i64]
}

/// An activation of function 1 that waits for no call.
pub open spec fn sum_frame(pc: int, regs: Seq<i64>, outgoing: Seq<i64>) -> FrameModel {
    FrameModel { func: 1, pc, regs, outgoing, dst: 0 }
}

/// The place of the label of the function of `is_sum_function`.
proof fn lemma_sum_mark()
    ensures
        mark_from(sum_insns(), 3, 0) == Some(5int),
{
    let insns = sum_insns();
    assert(mark_from(insns, 3, 5) == Some(5int));
    assert(mark_from(insns, 3, 4) == Some(5int));
    assert(mark_from(insns, 3, 3) == Some(5int));
    assert(mark_from(insns, 3, 2) == Some(5int));
    assert(mark_from(insns, 3, 1) == Some(5int));
}

/// Called with zero, the function of `is_sum_function` returns zero to its
/// caller in five steps.
proof fn lemma_sum_runs_zero(ctx: ContextModel, stack: Seq<FrameModel>)
    requires
        has_sum_function(ctx),
        stack.len() > 0,
        stack.last().has(stack.last().dst),
    ensures
        steps(
            ctx,
            MachineModel { cur: FrameModel::enter(1, ctx.funcs[1], seq![0i64]), stack },
            5,
        ) == Some(
            MachineModel {
                cur: FrameModel {
                    regs: stack.last().regs.update(stack.last().dst as int, 0),
                    ..stack.last()
                },
                stack: stack.drop_last(),
            },
        ),
{
    let none = Seq::<i64>::empty();
    let r0 = sum_regs(0);
    assert(entry_regs(ctx.funcs[1], seq![0i64]) =~= r0);
    let r1 = r0.update(1, 0);
    let r2 = r1.update(3, 1);
    let r3 = r2.update(4, 1);
    let m0 = MachineModel { cur: sum_frame(0, r0, none), stack };
    let m1 = MachineModel { cur: sum_frame(1, r1, none), stack };
    let m2 = MachineModel { cur: sum_frame(2, r2, none), stack };
    let m3 = MachineModel { cur: sum_frame(3, r3, none), stack };
    let m4 = MachineModel { cur: sum_frame(4, r3, none), stack };
    let back = MachineModel {
        cur: FrameModel {
            regs: stack.last().regs.update(stack.last().dst as int, 0),
            ..stack.last()
        },
        stack: stack.drop_last(),
    };
    assert(m0.cur == FrameModel::enter(1, ctx.funcs[1], seq![0i64]));
    assert(spec_step(ctx, m0) == StepModel::Next(m1));
    assert(spec_step(ctx, m1) == StepModel::Next(m2));
    assert(spec_step(ctx, m2) == StepModel::Next(m3));
    assert(spec_step(ctx, m3) == StepModel::Next(m4));
    assert(spec_step(ctx, m4) == StepModel::Next(back));
    assert(steps(ctx, back, 0) == Some(back));
    lemma_step_then(ctx, m4, back, 0);
    lemma_step_then(ctx, m3, m4, 1);
    lemma_step_then(ctx, m2, m3, 2);
    lemma_step_then(ctx, m1, m2, 3);
    lemma_step_then(ctx, m0, m1, 4);
}

/// The activation of the function of `is_sum_function` that waits for the
/// result of its call of itself with `n - 1`.
pub open spec fn sum_waiting(n: i64) -> FrameModel {
    FrameModel {
        func: 1,
        pc: 11,
        regs: sum_regs(n).update(1, n).update(7, n).update(8, n).update(10, (n - 1) as i64),
        outgoing: Seq::empty(),
        dst: 11,
    }
}

/// Called with a number above zero, the function of `is_sum_function`
/// calls itself with the number below in ten steps.
proof fn lemma_sum_runs_down(ctx: ContextModel, n: i64, stack: Seq<FrameModel>)
    requires
        has_sum_function(ctx),
        n > 0,
    ensures
        steps(
            ctx,
            MachineModel { cur: FrameModel::enter(1, ctx.funcs[1], seq![n]), stack },
            10,
        ) == Some(
            MachineModel {
                cur: FrameModel::enter(1, ctx.funcs[1], seq![(n - 1) as i64]),
                stack: stack.push(sum_waiting(n)),
            },
        ),
{
    let none = Seq::<i64>::empty();
    let r0 = sum_regs(n);
    assert(entry_regs(ctx.funcs[1], seq![n]) =~= r0);
    let r1 = r0.update(1, n);
    let r2 = r1.update(3, 0);
    let r3 = r2.update(4, 0);
    let r4 = r3.update(7, n);
    let r5 = r4.update(8, n);
    let below = (n - 1) as i64;
    assert(n.wrapping_sub(1) == below);
    let r6 = r5.update(10, below);
    let m0 = MachineModel { cur: sum_frame(0, r0, none), stack };
    let m1 = MachineModel { cur: sum_frame(1, r1, none), stack };
    let m2 = MachineModel { cur: sum_frame(2, r2, none), stack };
    let m3 = MachineModel { cur: sum_frame(3, r3, none), stack };
    let m4 = MachineModel { cur: sum_frame(5, r3, none), stack };
    let m5 = MachineModel { cur: sum_frame(6, r3, none), stack };
    let m6 = MachineModel { cur: sum_frame(7, r4, none), stack };
    let m7 = MachineModel { cur: sum_frame(8, r5, none), stack };
    let m8 = MachineModel { cur: sum_frame(9, r6, none), stack };
    let m9 = MachineModel { cur: sum_frame(10, r6, none.push(below)), stack };
    let waiting = FrameModel { func: 1, pc: 11, regs: r6, outgoing: none, dst: 11 };
    let down = MachineModel {
        cur: FrameModel::enter(1, ctx.funcs[1], none.push(below)),
        stack: stack.push(waiting),
    };
    lemma_sum_mark();
    assert(m0.cur == FrameModel::enter(1, ctx.funcs[1], seq![n]));
    assert(spec_step(ctx, m0) == StepModel::Next(m1));
    assert(spec_step(ctx, m1) == StepModel::Next(m2));
    assert(spec_step(ctx, m2) == StepModel::Next(m3));
    assert(spec_step(ctx, m3) == StepModel::Next(m4));
    assert(spec_step(ctx, m4) == StepModel::Next(m5));
    assert(spec_step(ctx, m5) == StepModel::Next(m6));
    assert(spec_step(ctx, m6) == StepModel::Next(m7));
    assert(spec_step(ctx, m7) == StepModel::Next(m8));
    assert(spec_step(ctx, m8) == StepModel::Next(m9));
    assert(spec_step(ctx, m9) == StepModel::Next(down));
    assert(none.push(below) =~= seq![below]);
    // The slots that hold the results of the comparison get zero, which
    // they held before.
    assert(r6 =~= sum_waiting(n).regs);
    assert(steps(ctx, down, 0) == Some(down));
    lemma_step_then(ctx, m9, down, 0);
    lemma_step_then(ctx, m8, m9, 1);
    lemma_step_then(ctx, m7, m8, 2);
    lemma_step_then(ctx, m6, m7, 3);
    lemma_step_then(ctx, m5, m6, 4);
    lemma_step_then(ctx, m4, m5, 5);
    lemma_step_then(ctx, m3, m4, 6);
    lemma_step_then(ctx, m2, m3, 7);
    lemma_step_then(ctx, m1, m2, 8);
    lemma_step_then(ctx, m0, m1, 9);
}

/// Called with `n`, which is not below zero, the function of
/// `is_sum_function` returns the sum of the numbers from `n` down to one to
/// its caller, in `12 * n + 5` steps.
proof fn lemma_sum_runs(ctx: ContextModel, n: i64, stack: Seq<FrameModel>)
    requires
        has_sum_function(ctx),
        0 <= n,
        stack.len() > 0,
        stack.last().has(stack.last().dst),
    ensures
        steps(
            ctx,
            MachineModel { cur: FrameModel::enter(1, ctx.funcs[1], seq![n]), stack },
            (12 * n + 5) as nat,
        ) == Some(
            MachineModel {
                cur: FrameModel {
                    regs: stack.last().regs.update(stack.last().dst as int, sum_down(n)),
                    ..stack.last()
                },
                stack: stack.drop_last(),
            },
        ),
    decreases n,
{
    if n == 0 {
        lemma_sum_runs_zero(ctx, stack);
    } else {
        let below = (n - 1) as i64;
        let start = MachineModel { cur: FrameModel::enter(1, ctx.funcs[1], seq![n]), stack };
        let inner = stack.push(sum_waiting(n));
        let down = MachineModel { cur: FrameModel::enter(1, ctx.funcs[1], seq![below]), stack: inner };
        lemma_sum_runs_down(ctx, n, stack);
        lemma_sum_runs(ctx, below, inner);
        let w = sum_down(below);
        let resumed = MachineModel {
            cur: FrameModel { regs: sum_waiting(n).regs.update(11, w), ..sum_waiting(n) },
            stack,
        };
        assert(inner.last() == sum_waiting(n));
        assert(inner.drop_last() =~= stack);
        assert(steps(ctx, down, (12 * below + 5) as nat) == Some(resumed));
        let total = n.wrapping_add(w);
        assert(total == sum_down(n));
        let added = MachineModel {
            cur: FrameModel {
                pc: 12,
                regs: resumed.cur.regs.update(12, total),
                ..resumed.cur
            },
            stack,
        };
        let back = MachineModel {
            cur: FrameModel {
                regs: stack.last().regs.update(stack.last().dst as int, total),
                ..stack.last()
            },
            stack: stack.drop_last(),
        };
        assert(spec_step(ctx, resumed) == StepModel::Next(added));
        assert(spec_step(ctx, added) == StepModel::Next(back));
        assert(steps(ctx, back, 0) == Some(back));
        lemma_step_then(ctx, added, back, 0);
        lemma_step_then(ctx, resumed, added, 1);
        lemma_steps_add(ctx, down, (12 * below + 5) as nat, 2);
        lemma_steps_add(ctx, start, 10, (12 * below + 7) as nat);
    }
}

/// A function may call itself: its name stands for it while its body is
/// compiled, and no declaration comes before the definition. For every `n`
/// from zero to 80000, the program that defines the function of
/// `is_sum_function` and returns its result for `n` gives the low 32 bits
/// of the sum of the numbers from `n` down to one.
pub proof fn law_recursion(def: Node, stmt: Node, name: Seq<char>, p: Seq<char>, n: i64)
    requires
        is_sum_function(def, name, p),
        is_unary_call(stmt, name, n),
        0 <= n <= 80000,
    ensures
        spec_compile_and_run(seq![def, stmt]) == Ok::<i32, Error>(low32(sum_down(n))),
{
    lemma_sum_program_compiled(def, stmt, name, p, n);
    let (built, r) = spec_program(seq![def, stmt]);
    let ctx = built.sealed().context;
    let main = Function { id: 0, argc: 0 };
    let fuel = STEP_LIMIT as nat;
    let none = Seq::<i64>::empty();
    let empty = Seq::<FrameModel>::empty();
    let w = sum_down(n);
    let outer = seq![0i64, 0i64, n, 0i64, 0i64];
    assert(entry_regs(ctx.funcs[0], none) =~= outer);
    let frame0 = FrameModel { func: 0, pc: 0, regs: outer, outgoing: none, dst: 0 };
    let frame1 = FrameModel { pc: 1, outgoing: none.push(n), ..frame0 };
    let waiting = FrameModel { pc: 2, outgoing: none, dst: 3, ..frame0 };
    let resumed = FrameModel { regs: outer.update(3, w), ..waiting };
    let stack = empty.push(waiting);
    let m0 = MachineModel { cur: frame0, stack: empty };
    let m1 = MachineModel { cur: frame1, stack: empty };
    let called = MachineModel { cur: FrameModel::enter(1, ctx.funcs[1], none.push(n)), stack };
    let back = MachineModel { cur: resumed, stack: empty };
    assert(MachineModel::start(ctx, main, none) == m0);
    assert(spec_step(ctx, m0) == StepModel::Next(m1));
    assert(spec_step(ctx, m1) == StepModel::Next(called));
    assert(none.push(n) =~= seq![n]);
    assert(stack.last() == waiting);
    assert(stack.drop_last() =~= empty);
    lemma_sum_runs(ctx, n, stack);
    let k = (12 * n + 5) as nat;
    assert(steps(ctx, called, k) == Some(back));
    assert(spec_step(ctx, back) == StepModel::Done(w));
    lemma_run_after_steps(ctx, called, k, (fuel - 2) as nat);
    assert(spec_run(ctx, back, (fuel - 2 - k) as nat) == Ok::<i64, ExecError>(w));
    assert(spec_run(ctx, called, (fuel - 2) as nat) == Ok::<i64, ExecError>(w));
    assert(spec_run(ctx, m1, (fuel - 1) as nat) == Ok::<i64, ExecError>(w));
    assert(spec_run(ctx, m0, fuel) == Ok::<i64, ExecError>(w));
}

} // verus!
