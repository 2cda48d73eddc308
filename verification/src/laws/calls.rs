//! A call of a function with two parameters.

use vstd::prelude::*;
use either::Either;
use crate::error::{CompileError, Error, ExecError};
use crate::ir::{ContextModel, Insn, Slot, SlotKind, push_all};
use crate::laws::programs::{lemma_int_is_known, lemma_program_start, program_start};
use crate::lowering::{
    NativeModel, all_known, args_match, bind_params, lowered, param_types, spec_compile_and_run,
    spec_program, spec_visit, spec_visit_list,
};
use crate::machine::{
    FrameModel, MachineModel, STEP_LIMIT, StepModel, entry_regs, low32, spec_apply, spec_run,
    spec_step,
};
use crate::myast::{Node, Op};
use crate::types::builtin_types;
use crate::wrapper::{Function, Type, Value};

verus! {

/// The instructions of a function of two parameters that returns what an
/// operator gives on them.
pub open spec fn callee_insns(op: Op) -> Seq<Insn> {
    seq![
        Insn::Load { dst: 2, src: 0 },
        Insn::Load { dst: 3, src: 1 },
        Insn::Binary { op: lowered(op)->0, dst: 4, lhs: 2, rhs: 3 },
        Insn::Return { src: 4 },
    ]
}

/// The slots of that function.
pub open spec fn callee_slots() -> Seq<Slot> {
    seq![
        Slot { ty: Type::integer(), kind: SlotKind::Param },
        Slot { ty: Type::integer(), kind: SlotKind::Param },
        Slot { ty: Type::integer(), kind: SlotKind::Temp },
        Slot { ty: Type::integer(), kind: SlotKind::Temp },
        Slot { ty: Type::integer(), kind: SlotKind::Temp },
        Slot { ty: Type::integer(), kind: SlotKind::Const(0) },
    ]
}

/// The instructions of an entry function that returns what a call of
/// function 1 with two constants gives.
pub open spec fn caller_insns() -> Seq<Insn> {
    seq![
        Insn::Push { src: 2 },
        Insn::Push { src: 3 },
        Insn::Call { dst: 4, callee: 1 },
        Insn::Return { src: 4 },
        Insn::Return { src: 5 },
    ]
}

/// The slots of that entry function.
pub open spec fn caller_slots(x: i64, y: i64) -> Seq<Slot> {
    seq![
        Slot { ty: Type::integer(), kind: SlotKind::Const(0) },
        Slot { ty: Type::void(), kind: SlotKind::Const(0) },
        Slot { ty: Type::integer(), kind: SlotKind::Const(x) },
        Slot { ty: Type::integer(), kind: SlotKind::Const(y) },
        Slot { ty: Type::integer(), kind: SlotKind::Temp },
        Slot { ty: Type::integer(), kind: SlotKind::Const(0) },
    ]
}

/// A definition of a function of two integer parameters that returns what
/// an arithmetic operator gives on them: `name(p: int, q: int): int {
/// return p op q; }`.
pub open spec fn is_binary_function(
    def: Node,
    name: Seq<char>,
    p: Seq<char>,
    q: Seq<char>,
    op: Op,
) -> bool {
    &&& op.is_arithmetic()
    &&& p != q
    &&& def matches Node::FuncDef(n, params, rettype, body) && {
        &&& n@ == name
        &&& rettype@ == "int"@
        &&& params@.len() == 2
        &&& params@[0].0@ == p
        &&& params@[0].1@ == "int"@
        &&& params@[1].0@ == q
        &&& params@[1].1@ == "int"@
        &&& body@.len() == 1
        &&& body@[0] matches Node::Ret(val) && *val matches Node::BinOp(l, o, r) && {
            &&& o == op
            &&& *l matches Node::Ident(pn) && pn@ == p
            &&& *r matches Node::Ident(qn) && qn@ == q
        }
    }
}

/// A return of a call of `name` with the two numbers `x` and `y`:
/// `return name(x, y);`.
pub open spec fn is_binary_call(stmt: Node, name: Seq<char>, x: i64, y: i64) -> bool {
    stmt matches Node::Ret(val) && *val matches Node::Call(list) && {
        &&& list@.len() == 3
        &&& list@[0] matches Node::Ident(n) && n@ == name
        &&& list@[1] == Node::Number(x)
        &&& list@[2] == Node::Number(y)
    }
}

/// The state after the definition of a binary function is compiled in
/// `program_start()`.
proof fn lemma_binary_function_compiled(def: Node, name: Seq<char>, p: Seq<char>, q: Seq<char>, op: Op)
    requires
        is_binary_function(def, name, p, q, op),
    ensures
        ({
            let (b1, r1) = spec_visit(program_start(), def);
            &&& r1 == Ok::<Value, CompileError>(Value { handle: 1, ty: Type::void() })
            &&& b1.main == (Function { id: 0, argc: 0 })
            &&& b1.ftable.contains_key(name)
            &&& b1.ftable[name] == Either::<NativeModel, Function>::Right(
                Function { id: 1, argc: 2 },
            )
            &&& b1.context.funcs.len() == 2
            &&& b1.context.funcs[0].params == Seq::<Type>::empty()
            &&& b1.context.funcs[0].ret == Type::integer()
            &&& b1.context.funcs[0].insns == Seq::<Insn>::empty()
            &&& b1.context.funcs[0].slots == caller_slots(0, 0).take(2)
            &&& b1.context.funcs[1].params == seq![Type::integer(), Type::integer()]
            &&& b1.context.funcs[1].ret == Type::integer()
            &&& b1.context.funcs[1].insns == callee_insns(op)
            &&& b1.context.funcs[1].slots == callee_slots()
        }),
{
    let b0 = program_start();
    lemma_program_start();
    let params = def->FuncDef_1;
    let rettype = def->FuncDef_2;
    let body = def->FuncDef_3;
    lemma_int_is_known("int"@);
    assert(b0.types == builtin_types());
    assert(all_known(b0.types, params@));
    let argtypes = param_types(b0.types, params@);
    assert(argtypes =~= seq![Type::integer(), Type::integer()]);
    let f = Function { id: 1, argc: 2 };
    let entered = b0.enter(name, params@, argtypes, Type::integer());
    assert(entered.main == f);
    assert(bind_params(params@, argtypes, 0) == Map::<Seq<char>, Value>::empty());
    let vp = Value { handle: 0, ty: Type::integer() };
    let vq = Value { handle: 1, ty: Type::integer() };
    assert(bind_params(params@, argtypes, 1) == Map::<Seq<char>, Value>::empty().insert(p, vp));
    assert(entered.vtable == Map::<Seq<char>, Value>::empty().insert(p, vp).insert(q, vq));
    assert(entered.context.funcs.len() == 2);
    assert(entered.context.funcs[1].slots =~= callee_slots().take(2));
    assert(entered.context.funcs[1].insns =~= Seq::<Insn>::empty());
    assert(entered.context.funcs[1].params == argtypes);
    // The body.
    let stmt = body@[0];
    let val = *stmt->Ret_0;
    let lhs = *val->BinOp_0;
    let rhs = *val->BinOp_2;
    let (bl, rl) = spec_visit(entered, lhs);
    assert(entered.vtable.contains_key(p) && entered.vtable[p] == vp);
    assert(rl == Ok::<Value, CompileError>(Value { handle: 2, ty: Type::integer() }));
    assert(bl.context.funcs[1].slots =~= callee_slots().take(3));
    assert(bl.context.funcs[1].insns =~= callee_insns(op).take(1));
    let (br, rr) = spec_visit(bl, rhs);
    assert(bl.vtable.contains_key(q) && bl.vtable[q] == vq);
    assert(rr == Ok::<Value, CompileError>(Value { handle: 3, ty: Type::integer() }));
    assert(br.context.funcs[1].slots =~= callee_slots().take(4));
    assert(br.context.funcs[1].insns =~= callee_insns(op).take(2));
    let (bv, rv) = spec_visit(entered, val);
    assert((bv, rv) == br.binop(op, rl->Ok_0, rr->Ok_0));
    assert((bv, rv) == br.emit_binary(lowered(op)->0, rl->Ok_0, rr->Ok_0));
    assert(rv == Ok::<Value, CompileError>(Value { handle: 4, ty: Type::integer() }));
    assert(bv.context.funcs[1].slots =~= callee_slots().take(5));
    assert(bv.context.funcs[1].insns =~= callee_insns(op).take(3));
    let (bs, rs) = spec_visit(entered, stmt);
    assert((bs, rs) == bv.ret(rv->Ok_0));
    assert(bs.context.funcs[1].slots =~= callee_slots());
    assert(bs.context.funcs[1].insns =~= callee_insns(op));
    assert(bs.context.funcs[0] == b0.context.funcs[0]);
    let (bd, rd) = spec_visit_list(entered, body@, 0, Seq::empty());
    assert(spec_visit_list(bs, body@, 1, Seq::<Value>::empty().push(rs->Ok_0)) == (
        bs,
        Ok::<Seq<Value>, CompileError>(Seq::<Value>::empty().push(rs->Ok_0)),
    ));
    assert(bd == bs && rd is Ok);
    let (b1, r1) = spec_visit(b0, def);
    assert((b1, r1) == bs.leave(b0.main));
    assert(b1.context.funcs[0].slots =~= caller_slots(0, 0).take(2));
    assert(b1.context.funcs[0].insns =~= Seq::<Insn>::empty());
    assert(b1.context.funcs[1].slots =~= callee_slots());
    assert(b1.context.funcs[1].insns =~= callee_insns(op));
    assert(b1.context.funcs[0].params =~= Seq::<Type>::empty());
    assert(b1.context.funcs[1].params =~= seq![Type::integer(), Type::integer()]);
}

/// What a definition of a binary function and a return of a call of it
/// compile to.
proof fn lemma_binary_call_compiled(
    def: Node,
    stmt: Node,
    name: Seq<char>,
    p: Seq<char>,
    q: Seq<char>,
    op: Op,
    x: i64,
    y: i64,
)
    requires
        is_binary_function(def, name, p, q, op),
        is_binary_call(stmt, name, x, y),
    ensures
        ({
            let (built, r) = spec_program(seq![def, stmt]);
            let ctx = built.sealed().context;
            &&& r is Ok
            &&& built.main == (Function { id: 0, argc: 0 })
            &&& ctx.funcs.len() == 2
            &&& ctx.funcs[0].params == Seq::<Type>::empty()
            &&& ctx.funcs[0].ret == Type::integer()
            &&& ctx.funcs[0].insns == caller_insns()
            &&& ctx.funcs[0].slots == caller_slots(x, y)
            &&& ctx.funcs[1].params == seq![Type::integer(), Type::integer()]
            &&& ctx.funcs[1].ret == Type::integer()
            &&& ctx.funcs[1].insns == callee_insns(op)
            &&& ctx.funcs[1].slots == callee_slots()
        }),
{
    let b0 = program_start();
    lemma_program_start();
    lemma_binary_function_compiled(def, name, p, q, op);
    let (b1, r1) = spec_visit(b0, def);
    let f = Function { id: 1, argc: 2 };
    let call = *stmt->Ret_0;
    let list = call->Call_0;
    // The arguments.
    let (bx, rx) = spec_visit(b1, list@[1]);
    assert(rx == Ok::<Value, CompileError>(Value { handle: 2, ty: Type::integer() }));
    assert(bx.context.funcs[0].slots =~= caller_slots(x, y).take(3));
    let (by, ry) = spec_visit(bx, list@[2]);
    assert(ry == Ok::<Value, CompileError>(Value { handle: 3, ty: Type::integer() }));
    assert(by.context.funcs[0].slots =~= caller_slots(x, y).take(4));
    assert(by.context.funcs[0].insns =~= Seq::<Insn>::empty());
    let none = Seq::<Value>::empty();
    let args = none.push(rx->Ok_0).push(ry->Ok_0);
    assert(spec_visit_list(by, list@, 3, args) == (by, Ok::<Seq<Value>, CompileError>(args)));
    assert(spec_visit_list(bx, list@, 2, none.push(rx->Ok_0)) == (
        by,
        Ok::<Seq<Value>, CompileError>(args),
    ));
    assert(spec_visit_list(b1, list@, 1, none) == (by, Ok::<Seq<Value>, CompileError>(args)));
    // The call.
    let (bc, rc) = spec_visit(b1, call);
    assert((bc, rc) == by.call(name, args));
    assert(by.ftable.contains_key(name) && by.ftable[name] == Either::<
        NativeModel,
        Function,
    >::Right(f));
    assert(by.context.body(f).params == seq![Type::integer(), Type::integer()]);
    assert(args_match(args, by.context.body(f).params));
    assert(rc == Ok::<Value, CompileError>(Value { handle: 4, ty: Type::integer() }));
    assert(push_all(args) =~= seq![Insn::Push { src: 2 }, Insn::Push { src: 3 }]);
    assert(bc.context.funcs[0].insns =~= caller_insns().take(3));
    assert(bc.context.funcs[0].slots =~= caller_slots(x, y).take(5));
    let (b2, r2) = spec_visit(b1, stmt);
    assert((b2, r2) == bc.ret(rc->Ok_0));
    assert(r2 == Ok::<Value, CompileError>(Value { handle: 5, ty: Type::integer() }));
    assert(b2.context.funcs[0].insns =~= caller_insns().take(4));
    assert(b2.context.funcs[0].slots =~= caller_slots(x, y));
    assert(b2.context.funcs[1] == b1.context.funcs[1]);
    // The program.
    let nodes = seq![def, stmt];
    let zero = Value { handle: 0, ty: Type::integer() };
    let first = seq![zero];
    let vals = first.push(r1->Ok_0).push(r2->Ok_0);
    assert(spec_visit_list(b2, nodes, 2, vals) == (b2, Ok::<Seq<Value>, CompileError>(vals)));
    assert(spec_visit_list(b1, nodes, 1, first.push(r1->Ok_0)) == (
        b2,
        Ok::<Seq<Value>, CompileError>(vals),
    ));
    assert(spec_visit_list(b0, nodes, 0, first) == (b2, Ok::<Seq<Value>, CompileError>(vals)));
    assert(vals.last() == r2->Ok_0);
    let (built, r) = spec_program(nodes);
    let ctx = built.sealed().context;
    assert(ctx.funcs[0].insns =~= caller_insns());
    assert(ctx.funcs[0].slots =~= caller_slots(x, y));
    assert(ctx.funcs[1] == b1.context.funcs[1]);
}

/// What the entry function gives that returns the result of a call of a
/// binary function with `x` and `y`.
proof fn lemma_binary_call_runs(ctx: ContextModel, op: Op, x: i64, y: i64)
    requires
        op.is_arithmetic(),
        ctx.funcs.len() == 2,
        ctx.funcs[0].params == Seq::<Type>::empty(),
        ctx.funcs[0].ret == Type::integer(),
        ctx.funcs[0].insns == caller_insns(),
        ctx.funcs[0].slots == caller_slots(x, y),
        ctx.funcs[1].params == seq![Type::integer(), Type::integer()],
        ctx.funcs[1].ret == Type::integer(),
        ctx.funcs[1].insns == callee_insns(op),
        ctx.funcs[1].slots == callee_slots(),
    ensures
        spec_apply(ctx, Function { id: 0, argc: 0 }, Seq::empty(), STEP_LIMIT as nat) == Ok::<
            i64,
            ExecError,
        >(lowered(op)->0.apply(x, y)),
{
    let main = Function { id: 0, argc: 0 };
    let w = lowered(op)->0.apply(x, y);
    let fuel = STEP_LIMIT as nat;
    let none = Seq::<i64>::empty();
    let outer = seq![0i64, 0i64, x, y, 0i64, 0i64];
    let back = seq![0i64, 0i64, x, y, w, 0i64];
    assert(entry_regs(ctx.funcs[0], none) =~= outer);
    let frame0 = FrameModel { func: 0, pc: 0, regs: outer, outgoing: none, dst: 0 };
    let frame1 = FrameModel { pc: 1, outgoing: none.push(x), ..frame0 };
    let frame2 = FrameModel { pc: 2, outgoing: none.push(x).push(y), ..frame0 };
    let waiting = FrameModel { pc: 3, outgoing: none, dst: 4, ..frame0 };
    let resumed = FrameModel { regs: back, ..waiting };
    let empty = Seq::<FrameModel>::empty();
    let stack = empty.push(waiting);
    let m0 = MachineModel { cur: frame0, stack: empty };
    let m1 = MachineModel { cur: frame1, stack: empty };
    let m2 = MachineModel { cur: frame2, stack: empty };
    assert(MachineModel::start(ctx, main, none) == m0);
    assert(spec_step(ctx, m0) == StepModel::Next(m1));
    assert(spec_step(ctx, m1) == StepModel::Next(m2));
    // In the callee.
    let inner0 = seq![x, y, 0i64, 0i64, 0i64, 0i64];
    let inner1 = seq![x, y, x, 0i64, 0i64, 0i64];
    let inner2 = seq![x, y, x, y, 0i64, 0i64];
    let inner3 = seq![x, y, x, y, w, 0i64];
    assert(entry_regs(ctx.funcs[1], frame2.outgoing) =~= inner0);
    let c0 = MachineModel {
        cur: FrameModel { func: 1, pc: 0, regs: inner0, outgoing: none, dst: 0 },
        stack,
    };
    let c1 = MachineModel { cur: FrameModel { pc: 1, regs: inner1, ..c0.cur }, stack };
    let c2 = MachineModel { cur: FrameModel { pc: 2, regs: inner2, ..c0.cur }, stack };
    let c3 = MachineModel { cur: FrameModel { pc: 3, regs: inner3, ..c0.cur }, stack };
    assert(spec_step(ctx, m2) == StepModel::Next(c0));
    assert(inner0.update(2, x) =~= inner1);
    assert(inner1.update(3, y) =~= inner2);
    assert(inner2.update(4, w) =~= inner3);
    assert(spec_step(ctx, c0) == StepModel::Next(c1));
    assert(spec_step(ctx, c1) == StepModel::Next(c2));
    assert(spec_step(ctx, c2) == StepModel::Next(c3));
    // Back in the caller.
    let m3 = MachineModel { cur: resumed, stack: empty };
    assert(outer.update(4, w) =~= back);
    assert(stack.drop_last() =~= empty);
    assert(stack.last() == waiting);
    assert(spec_step(ctx, c3) == StepModel::Next(m3));
    assert(spec_step(ctx, m3) == StepModel::Done(w));
    assert(spec_run(ctx, m3, (fuel - 7) as nat) == Ok::<i64, ExecError>(w));
    assert(spec_run(ctx, c3, (fuel - 6) as nat) == Ok::<i64, ExecError>(w));
    assert(spec_run(ctx, c2, (fuel - 5) as nat) == Ok::<i64, ExecError>(w));
    assert(spec_run(ctx, c1, (fuel - 4) as nat) == Ok::<i64, ExecError>(w));
    assert(spec_run(ctx, c0, (fuel - 3) as nat) == Ok::<i64, ExecError>(w));
    assert(spec_run(ctx, m2, (fuel - 2) as nat) == Ok::<i64, ExecError>(w));
    assert(spec_run(ctx, m1, (fuel - 1) as nat) == Ok::<i64, ExecError>(w));
    assert(spec_run(ctx, m0, fuel) == Ok::<i64, ExecError>(w));
}

/// For all integers `x` and `y`: a function with two integer parameters
/// whose body returns what an arithmetic operator gives on them, called
/// with the numbers `x` and `y`, gives the result of that operation on
/// 64-bit words. The program is the definition, then a return of the call;
/// it gives the low 32 bits of the result.
pub proof fn law_function_call(
    def: Node,
    stmt: Node,
    name: Seq<char>,
    p: Seq<char>,
    q: Seq<char>,
    op: Op,
    x: i64,
    y: i64,
)
    requires
        is_binary_function(def, name, p, q, op),
        is_binary_call(stmt, name, x, y),
    ensures
        spec_compile_and_run(seq![def, stmt]) == Ok::<i32, Error>(
            low32(lowered(op)->0.apply(x, y)),
        ),
{
    lemma_binary_call_compiled(def, stmt, name, p, q, op, x, y);
    let (built, r) = spec_program(seq![def, stmt]);
    lemma_binary_call_runs(built.sealed().context, op, x, y);
}

} // verus!
