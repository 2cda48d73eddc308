//! A second definition of a name takes the place of the first.

use vstd::prelude::*;
use either::Either;
use crate::error::{CompileError, Error, ExecError};
use crate::ir::{ContextModel, FuncModel, Insn, Slot, SlotKind, push_all};
use crate::laws::programs::{lemma_int_is_known, lemma_program_start, program_start};
use crate::lowering::{
    BuilderModel, NativeModel, all_known, args_match, param_types, spec_compile_and_run,
    spec_program, spec_visit, spec_visit_list,
};
use crate::machine::{
    FrameModel, MachineModel, STEP_LIMIT, StepModel, entry_regs, low32, spec_run, spec_step,
};
use crate::myast::Node;
use crate::types::builtin_types;
use crate::wrapper::{Function, Type, Value};

verus! {

/// A definition of a function without parameters that returns a number:
/// `name(): int { return r; }`.
pub open spec fn is_constant_function(def: Node, name: Seq<char>, r: i64) -> bool {
    def matches Node::FuncDef(n, params, rettype, body) && {
        &&& n@ == name
        &&& rettype@ == "int"@
        &&& params@.len() == 0
        &&& body@.len() == 1
        &&& body@[0] matches Node::Ret(val) && *val == Node::Number(r)
    }
}

/// A return of a call of `name` without arguments: `return name();`.
pub open spec fn is_nullary_call(stmt: Node, name: Seq<char>) -> bool {
    stmt matches Node::Ret(val) && *val matches Node::Call(list) && {
        &&& list@.len() == 1
        &&& list@[0] matches Node::Ident(f) && f@ == name
    }
}

/// The body of a function without parameters that returns `r`.
pub open spec fn constant_body(r: i64) -> FuncModel {
    FuncModel {
        params: Seq::empty(),
        ret: Type::integer(),
        slots: seq![
            Slot { ty: Type::integer(), kind: SlotKind::Const(r) },
            Slot { ty: Type::integer(), kind: SlotKind::Const(0) },
        ],
        insns: seq![Insn::Return { src: 0 }],
        compiled: true,
    }
}

/// A definition of a constant function, compiled at top level, adds the
/// function to the context, binds the name to it, empties the symbol table,
/// and adds a void constant to the entry function.
proof fn lemma_constant_function(b: BuilderModel, def: Node, name: Seq<char>, r: i64)
    requires
        is_constant_function(def, name, r),
        b.main == (Function { id: 0, argc: 0 }),
        b.types == builtin_types(),
        0 < b.context.funcs.len() < usize::MAX,
        b.context.funcs[0].slots.len() < usize::MAX,
    ensures
        ({
            let (after, out) = spec_visit(b, def);
            let k = b.context.funcs.len() as int;
            &&& out == Ok::<Value, CompileError>(
                Value { handle: b.context.funcs[0].slots.len() as usize, ty: Type::void() },
            )
            &&& after.main == b.main
            &&& after.types == b.types
            &&& after.ftable == b.ftable.insert(
                name,
                Either::Right(Function { id: k as usize, argc: 0 }),
            )
            &&& after.context.funcs.len() == k + 1
            &&& after.context.funcs[k] == constant_body(r)
            &&& after.context.funcs[0] == b.context.funcs[0].with_slot(
                Type::void(),
                SlotKind::Const(0),
            )
            &&& forall|i: int| 0 < i < k ==> after.context.funcs[i] == b.context.funcs[i]
        }),
{
    let params = def->FuncDef_1;
    let body = def->FuncDef_3;
    let k = b.context.funcs.len() as int;
    lemma_int_is_known("int"@);
    assert(all_known(b.types, params@));
    let argtypes = param_types(b.types, params@);
    assert(argtypes =~= Seq::<Type>::empty());
    let f = Function { id: k as usize, argc: 0 };
    let entered = b.enter(name, params@, argtypes, Type::integer());
    assert(entered.main == f);
    assert(entered.context.funcs[k].slots =~= Seq::<Slot>::empty());
    let stmt = body@[0];
    let (b1, r1) = spec_visit(entered, Node::Number(r));
    assert(r1 == Ok::<Value, CompileError>(Value { handle: 0, ty: Type::integer() }));
    let (b2, r2) = spec_visit(entered, stmt);
    assert((b2, r2) == b1.ret(r1->Ok_0));
    assert(b2.context.funcs[k].slots =~= constant_body(r).slots);
    assert(b2.context.funcs[k].insns =~= constant_body(r).insns);
    let none = Seq::<Value>::empty();
    assert(spec_visit_list(b2, body@, 1, none.push(r2->Ok_0)) == (
        b2,
        Ok::<Seq<Value>, CompileError>(none.push(r2->Ok_0)),
    ));
    assert(spec_visit_list(entered, body@, 0, none) == (
        b2,
        Ok::<Seq<Value>, CompileError>(none.push(r2->Ok_0)),
    ));
    let (after, out) = spec_visit(b, def);
    assert((after, out) == b2.leave(b.main));
    assert(after.context.funcs[k].params =~= Seq::<Type>::empty());
    assert(after.context.funcs[k] == constant_body(r));
}

/// The instructions of an entry function that returns what a call of
/// function 2 without arguments gives.
pub open spec fn nullary_caller_insns() -> Seq<Insn> {
    seq![
        Insn::Call { dst: 3, callee: 2 },
        Insn::Return { src: 3 },
        Insn::Return { src: 4 },
    ]
}

/// The slots of that entry function.
pub open spec fn nullary_caller_slots() -> Seq<Slot> {
    seq![
        Slot { ty: Type::integer(), kind: SlotKind::Const(0) },
        Slot { ty: Type::void(), kind: SlotKind::Const(0) },
        Slot { ty: Type::void(), kind: SlotKind::Const(0) },
        Slot { ty: Type::integer(), kind: SlotKind::Temp },
        Slot { ty: Type::integer(), kind: SlotKind::Const(0) },
    ]
}

/// What two definitions of one name and a return of a call by that name
/// compile to: the call names the second function.
proof fn lemma_redefined_compiled(
    first: Node,
    second: Node,
    stmt: Node,
    name: Seq<char>,
    r1: i64,
    r2: i64,
)
    requires
        is_constant_function(first, name, r1),
        is_constant_function(second, name, r2),
        is_nullary_call(stmt, name),
    ensures
        ({
            let (built, r) = spec_program(seq![first, second, stmt]);
            let ctx = built.sealed().context;
            &&& r is Ok
            &&& built.main == (Function { id: 0, argc: 0 })
            &&& ctx.funcs.len() == 3
            &&& ctx.funcs[0].params == Seq::<Type>::empty()
            &&& ctx.funcs[0].ret == Type::integer()
            &&& ctx.funcs[0].insns == nullary_caller_insns()
            &&& ctx.funcs[0].slots == nullary_caller_slots()
            &&& ctx.funcs[1] == constant_body(r1)
            &&& ctx.funcs[2] == constant_body(r2)
        }),
{
    let b0 = program_start();
    lemma_program_start();
    lemma_constant_function(b0, first, name, r1);
    let (b1, v1) = spec_visit(b0, first);
    lemma_constant_function(b1, second, name, r2);
    let (b2, v2) = spec_visit(b1, second);
    assert(b2.context.funcs[0].slots =~= nullary_caller_slots().take(3));
    assert(b2.context.funcs[0].insns =~= Seq::<Insn>::empty());
    let f = Function { id: 2, argc: 0 };
    assert(b2.ftable.contains_key(name) && b2.ftable[name] == Either::<
        NativeModel,
        Function,
    >::Right(f));
    let call = *stmt->Ret_0;
    let list = call->Call_0;
    let none = Seq::<Value>::empty();
    assert(spec_visit_list(b2, list@, 1, none) == (b2, Ok::<Seq<Value>, CompileError>(none)));
    let (bc, rc) = spec_visit(b2, call);
    assert((bc, rc) == b2.call(name, none));
    assert(b2.context.body(f).params == Seq::<Type>::empty());
    assert(args_match(none, b2.context.body(f).params));
    assert(push_all(none) =~= Seq::<Insn>::empty());
    assert(rc == Ok::<Value, CompileError>(Value { handle: 3, ty: Type::integer() }));
    assert(bc.context.funcs[0].insns =~= nullary_caller_insns().take(1));
    assert(bc.context.funcs[0].slots =~= nullary_caller_slots().take(4));
    let (b3, v3) = spec_visit(b2, stmt);
    assert((b3, v3) == bc.ret(rc->Ok_0));
    assert(v3 == Ok::<Value, CompileError>(Value { handle: 4, ty: Type::integer() }));
    assert(b3.context.funcs[0].insns =~= nullary_caller_insns().take(2));
    assert(b3.context.funcs[0].slots =~= nullary_caller_slots());
    assert(b3.context.funcs[1] == constant_body(r1));
    assert(b3.context.funcs[2] == constant_body(r2));
    let nodes = seq![first, second, stmt];
    let zero = Value { handle: 0, ty: Type::integer() };
    let start = seq![zero];
    let vals = start.push(v1->Ok_0).push(v2->Ok_0).push(v3->Ok_0);
    assert(spec_visit_list(b3, nodes, 3, vals) == (b3, Ok::<Seq<Value>, CompileError>(vals)));
    assert(spec_visit_list(b2, nodes, 2, start.push(v1->Ok_0).push(v2->Ok_0)) == (
        b3,
        Ok::<Seq<Value>, CompileError>(vals),
    ));
    assert(spec_visit_list(b1, nodes, 1, start.push(v1->Ok_0)) == (
        b3,
        Ok::<Seq<Value>, CompileError>(vals),
    ));
    assert(spec_visit_list(b0, nodes, 0, start) == (b3, Ok::<Seq<Value>, CompileError>(vals)));
    assert(vals.last() == v3->Ok_0);
    let (built, r) = spec_program(nodes);
    let ctx = built.sealed().context;
    assert(ctx.funcs[0].insns =~= nullary_caller_insns());
    assert(ctx.funcs[0].slots =~= nullary_caller_slots());
    assert(ctx.funcs[1] == constant_body(r1));
    assert(ctx.funcs[2] == constant_body(r2));
}

/// What the entry function gives that returns the result of a call of the
/// second constant function.
proof fn lemma_redefined_runs(ctx: ContextModel, r2: i64)
    requires
        ctx.funcs.len() == 3,
        ctx.funcs[0].params == Seq::<Type>::empty(),
        ctx.funcs[0].ret == Type::integer(),
        ctx.funcs[0].insns == nullary_caller_insns(),
        ctx.funcs[0].slots == nullary_caller_slots(),
        ctx.funcs[2] == constant_body(r2),
    ensures
        spec_run(
            ctx,
            MachineModel::start(ctx, Function { id: 0, argc: 0 }, Seq::empty()),
            STEP_LIMIT as nat,
        ) == Ok::<i64, ExecError>(r2),
{
    let main = Function { id: 0, argc: 0 };
    let fuel = STEP_LIMIT as nat;
    let none = Seq::<i64>::empty();
    let empty = Seq::<FrameModel>::empty();
    let outer = seq![0i64, 0i64, 0i64, 0i64, 0i64];
    assert(entry_regs(ctx.funcs[0], none) =~= outer);
    let frame0 = FrameModel { func: 0, pc: 0, regs: outer, outgoing: none, dst: 0 };
    let waiting = FrameModel { pc: 1, dst: 3, ..frame0 };
    let resumed = FrameModel { regs: outer.update(3, r2), ..waiting };
    let stack = empty.push(waiting);
    let inner = seq![r2, 0i64];
    assert(entry_regs(ctx.funcs[2], none) =~= inner);
    let m0 = MachineModel { cur: frame0, stack: empty };
    let called = MachineModel {
        cur: FrameModel { func: 2, pc: 0, regs: inner, outgoing: none, dst: 0 },
        stack,
    };
    let back = MachineModel { cur: resumed, stack: empty };
    assert(MachineModel::start(ctx, main, none) == m0);
    assert(spec_step(ctx, m0) == StepModel::Next(called));
    assert(stack.last() == waiting);
    assert(stack.drop_last() =~= empty);
    assert(spec_step(ctx, called) == StepModel::Next(back));
    assert(spec_step(ctx, back) == StepModel::Done(r2));
    assert(spec_run(ctx, back, (fuel - 2) as nat) == Ok::<i64, ExecError>(r2));
    assert(spec_run(ctx, called, (fuel - 1) as nat) == Ok::<i64, ExecError>(r2));
}

/// For all numbers `r1` and `r2`: when a function that returns `r1` is
/// defined, and then a function of the same name that returns `r2`, a call
/// by that name gives `r2`. The program is the two definitions, then a
/// return of the call; it gives the low 32 bits of `r2`.
pub proof fn law_redefinition_runs(
    first: Node,
    second: Node,
    stmt: Node,
    name: Seq<char>,
    r1: i64,
    r2: i64,
)
    requires
        is_constant_function(first, name, r1),
        is_constant_function(second, name, r2),
        is_nullary_call(stmt, name),
    ensures
        spec_compile_and_run(seq![first, second, stmt]) == Ok::<i32, Error>(low32(r2)),
{
    lemma_redefined_compiled(first, second, stmt, name, r1, r2);
    let (built, r) = spec_program(seq![first, second, stmt]);
    lemma_redefined_runs(built.sealed().context, r2);
}

} // verus!
