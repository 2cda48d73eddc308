//! The code of a statement computes the statement: what the instructions
//! that the code generator emits for expressions and statements without
//! calls and definitions do on the reference machine.

use vstd::prelude::*;
use crate::error::{CompileError, ExecError};
use crate::ir::{ContextModel, FuncModel, Insn, Slot, SlotKind};
use crate::lowering::{BuilderModel, lowered, spec_visit, spec_visit_list};
use crate::machine::{MachineModel, StepModel, mark_from, spec_run, spec_step};
use crate::myast::{Node, Op, node_size, nodes_size};
use crate::wrapper::{Type, Value};

verus! {

/// The node is an expression without calls: a number, an identifier, or a
/// binary operator on two such expressions.
pub open spec fn is_expr(n: Node) -> bool
    decreases n,
{
    match n {
        Node::Number(_) => true,
        Node::Ident(_) => true,
        Node::BinOp(lhs, _, rhs) => is_expr(*lhs) && is_expr(*rhs),
        _ => false,
    }
}

/// The word that an expression stands for, where `env` gives the words of
/// the identifiers.
pub open spec fn eval(n: Node, env: Map<Seq<char>, i64>) -> i64
    decreases n,
{
    match n {
        Node::Number(i) => i,
        Node::Ident(name) => if env.contains_key(name@) {
            env[name@]
        } else {
            0
        },
        Node::BinOp(lhs, op, rhs) => match lowered(op) {
            Some(insn) => insn.apply(eval(*lhs, env), eval(*rhs, env)),
            None => 0,
        },
        _ => 0,
    }
}

/// The words of the identifiers on the machine: each identifier of the
/// symbol table stands for the word of the slot that it is bound to.
pub open spec fn env_of(vtable: Map<Seq<char>, Value>, regs: Seq<i64>) -> Map<Seq<char>, i64> {
    Map::new(
        |name: Seq<char>| vtable.contains_key(name),
        |name: Seq<char>| regs[vtable[name].handle as int],
    )
}

/// The types of the identifiers: each identifier of the symbol table has
/// the type of the value that it is bound to.
pub open spec fn types_of(vtable: Map<Seq<char>, Value>) -> Map<Seq<char>, Type> {
    Map::new(|name: Seq<char>| vtable.contains_key(name), |name: Seq<char>| vtable[name].ty)
}

/// `a` is the beginning of `b`.
pub open spec fn is_prefix<T>(a: Seq<T>, b: Seq<T>) -> bool {
    &&& a.len() <= b.len()
    &&& forall|i: int| 0 <= i < a.len() ==> a[i] == b[i]
}

/// The machine after `k` steps from `m`, if it can make them.
pub open spec fn steps(ctx: ContextModel, m: MachineModel, k: nat) -> Option<MachineModel>
    decreases k,
{
    if k == 0 {
        Some(m)
    } else {
        match spec_step(ctx, m) {
            StepModel::Next(next) => steps(ctx, next, (k - 1) as nat),
            _ => None,
        }
    }
}

/// Steps add up.
pub proof fn lemma_steps_add(ctx: ContextModel, m: MachineModel, j: nat, k: nat)
    requires
        steps(ctx, m, j) is Some,
    ensures
        steps(ctx, m, j + k) == steps(ctx, steps(ctx, m, j)->0, k),
    decreases j,
{
    if j > 0 {
        let next = spec_step(ctx, m)->Next_0;
        lemma_steps_add(ctx, next, (j - 1) as nat, k);
        assert(steps(ctx, m, j + k) == steps(ctx, next, (j + k - 1) as nat));
    }
}

/// A run that has fuel for `k` steps goes on from the state after them
/// with the rest of the fuel.
pub proof fn lemma_run_after_steps(ctx: ContextModel, m: MachineModel, k: nat, fuel: nat)
    requires
        steps(ctx, m, k) is Some,
        k <= fuel,
    ensures
        spec_run(ctx, m, fuel) == spec_run(ctx, steps(ctx, m, k)->0, (fuel - k) as nat),
    decreases k,
{
    if k > 0 {
        let next = spec_step(ctx, m)->Next_0;
        lemma_run_after_steps(ctx, next, (k - 1) as nat, (fuel - 1) as nat);
    }
}

/// `after` differs from `before` only in the body of the current function,
/// which has got more slots and more instructions behind those it had. No
/// new instruction is the place of a label.
pub open spec fn grows(after: BuilderModel, before: BuilderModel) -> bool {
    let body = before.context.body(before.main);
    let grown = after.context.body(before.main);
    &&& after.main == before.main
    &&& after.vtable == before.vtable
    &&& after.ftable == before.ftable
    &&& after.types == before.types
    &&& after.context == before.context.with_body(before.main, grown)
    &&& grown.params == body.params
    &&& grown.ret == body.ret
    &&& grown.compiled == body.compiled
    &&& is_prefix(body.insns, grown.insns)
    &&& is_prefix(body.slots, grown.slots)
    &&& forall|i: int|
        body.insns.len() <= i < grown.insns.len() ==> !((#[trigger] grown.insns[i]) is Mark)
}

/// Every place of a label has a number below its own place: a label gets
/// the number of the instruction that names it first, and is placed behind
/// it.
pub open spec fn marks_below(insns: Seq<Insn>) -> bool {
    forall|i: int|
        0 <= i < insns.len() ==> ((#[trigger] insns[i]) matches Insn::Mark { label } ==> label
            < i)
}

/// A search for the place of a label finds the first place at or after
/// where it begins.
pub proof fn lemma_mark_found(insns: Seq<Insn>, label: usize, from: int, at: int)
    requires
        0 <= from <= at < insns.len(),
        insns[at] == (Insn::Mark { label }),
        forall|i: int| from <= i < at ==> insns[i] != (Insn::Mark { label }),
    ensures
        mark_from(insns, label, from) == Some(at),
    decreases at - from,
{
    if from < at {
        lemma_mark_found(insns, label, from + 1, at);
    }
}

/// Growth goes on: what has grown from a state that has grown from
/// `before` has grown from `before`.
proof fn lemma_grows_trans(a: BuilderModel, b: BuilderModel, c: BuilderModel)
    requires
        a.wf(),
        grows(b, a),
        grows(c, b),
    ensures
        grows(c, a),
{
    assert(c.context.funcs =~= a.context.with_body(a.main, c.context.body(a.main)).funcs);
    let mid = b.context.body(a.main);
    let grown = c.context.body(a.main);
    assert forall|i: int| a.context.body(a.main).insns.len() <= i < grown.insns.len() implies !((
    #[trigger] grown.insns[i]) is Mark) by {
        if i < mid.insns.len() {
            assert(grown.insns[i] == mid.insns[i]);
        }
    }
}

/// Compiling an expression without calls only adds slots and instructions
/// to the current function, at most two of each per node, and the value
/// that it gives names one of the new slots, which has the value's type.
pub proof fn lemma_expr_grows(b: BuilderModel, n: Node)
    requires
        b.wf(),
        is_expr(n),
        b.context.body(b.main).slots.len() + 2 * node_size(n) <= usize::MAX,
    ensures
        ({
            let body = b.context.body(b.main);
            let (after, r) = spec_visit(b, n);
            let grown = after.context.body(b.main);
            &&& after.wf()
            &&& grows(after, b)
            &&& grown.slots.len() <= body.slots.len() + 2 * node_size(n)
            &&& grown.insns.len() <= body.insns.len() + 2 * node_size(n)
            &&& r matches Ok(v) ==> {
                &&& body.slots.len() <= v.handle < grown.slots.len()
                &&& grown.slots[v.handle as int].ty == v.ty
            }
        }),
    decreases n,
{
    let body = b.context.body(b.main);
    let (after, r) = spec_visit(b, n);
    let grown = after.context.body(b.main);
    match n {
        Node::Number(i) => {
            assert(after.context.funcs =~= b.context.with_body(b.main, grown).funcs);
        },
        Node::Ident(name) => {
            if b.vtable.contains_key(name@) {
                assert(after.context.funcs =~= b.context.with_body(b.main, grown).funcs);
            } else {
                assert(after.context.funcs =~= b.context.with_body(b.main, grown).funcs);
            }
        },
        Node::BinOp(lhs, op, rhs) => {
            lemma_expr_grows(b, *lhs);
            let (b1, l) = spec_visit(b, *lhs);
            if l is Ok {
                lemma_expr_grows(b1, *rhs);
                let (b2, rr) = spec_visit(b1, *rhs);
                lemma_grows_trans(b, b1, b2);
                if rr is Ok {
                    lemma_binop_grows(b2, op, l->Ok_0, rr->Ok_0);
                    lemma_grows_trans(b, b2, after);
                }
            }
        },
        _ => {},
    }
}

/// A binary operator on compiled operands adds at most two slots and two
/// instructions to the current function, and the value that it gives names
/// the last new slot.
proof fn lemma_binop_grows(b: BuilderModel, op: Op, lhs: Value, rhs: Value)
    requires
        b.wf(),
        b.context.body(b.main).slots.len() + 2 <= usize::MAX,
    ensures
        ({
            let body = b.context.body(b.main);
            let (after, r) = b.binop(op, lhs, rhs);
            let grown = after.context.body(b.main);
            &&& after.wf()
            &&& grows(after, b)
            &&& grown.slots.len() <= body.slots.len() + 2
            &&& grown.insns.len() <= body.insns.len() + 2
            &&& r matches Ok(v) ==> {
                &&& body.slots.len() <= v.handle < grown.slots.len()
                &&& grown.slots[v.handle as int].ty == v.ty
            }
        }),
{
    let (after, r) = b.binop(op, lhs, rhs);
    let grown = after.context.body(b.main);
    assert(after.context.funcs =~= b.context.with_body(b.main, grown).funcs);
}

/// Every identifier of the symbol table is bound to one of the first
/// `bound` slots.
pub open spec fn bound_below(vtable: Map<Seq<char>, Value>, bound: int) -> bool {
    forall|name: Seq<char>| #[trigger]
        vtable.contains_key(name) ==> vtable[name].handle < bound
}

/// The identifiers stand for the same words under two register files that
/// agree on the slots that identifiers are bound to.
pub proof fn lemma_env_frame(
    vtable: Map<Seq<char>, Value>,
    regs1: Seq<i64>,
    regs2: Seq<i64>,
    bound: int,
)
    requires
        bound_below(vtable, bound),
        forall|j: int| 0 <= j < bound ==> regs1[j] == regs2[j],
    ensures
        env_of(vtable, regs1) == env_of(vtable, regs2),
{
    assert forall|name: Seq<char>| vtable.contains_key(name) implies regs1[vtable[name].handle as int]
        == regs2[vtable[name].handle as int] by {
        assert(vtable[name].handle < bound);
    }
    assert(env_of(vtable, regs1) =~= env_of(vtable, regs2));
}

/// The machine `m` stands where the code that was added between `body`
/// and `grown` begins: in function `func` of `ctx`, whose instructions
/// begin with those of `grown`, at the end of the instructions of `body`,
/// with a word for every slot of `grown` and with every new constant in
/// its slot.
pub open spec fn at_code(
    ctx: ContextModel,
    func: usize,
    body: FuncModel,
    grown: FuncModel,
    m: MachineModel,
) -> bool {
    &&& func < ctx.funcs.len()
    &&& is_prefix(grown.insns, ctx.funcs[func as int].insns)
    &&& m.cur.func == func
    &&& m.cur.pc == body.insns.len()
    &&& grown.slots.len() <= m.cur.regs.len()
    &&& forall|j: int|
        body.slots.len() <= j < grown.slots.len() ==> ((#[trigger] grown.slots[j]).kind
            matches SlotKind::Const(c) ==> m.cur.regs[j] == c)
}

/// The machine `done` is `m` after the code that was added between
/// `body` and `grown`: at the end of the instructions of `grown`, with
/// other words in the new temporary slots only.
pub open spec fn after_code(
    body: FuncModel,
    grown: FuncModel,
    m: MachineModel,
    done: MachineModel,
) -> bool {
    &&& done.stack == m.stack
    &&& done.cur.func == m.cur.func
    &&& done.cur.outgoing == m.cur.outgoing
    &&& done.cur.dst == m.cur.dst
    &&& done.cur.pc == grown.insns.len()
    &&& done.cur.regs.len() == m.cur.regs.len()
    &&& forall|j: int|
        0 <= j < m.cur.regs.len() && (j < body.slots.len() || j >= grown.slots.len() || !(
        grown.slots[j].kind is Temp)) ==> #[trigger] done.cur.regs[j] == m.cur.regs[j]
}

/// The instructions of a binary operator on compiled operands compute the
/// operator on the words of the operands.
proof fn lemma_binop_runs(
    b: BuilderModel,
    op: Op,
    lhs: Value,
    rhs: Value,
    ctx: ContextModel,
    m: MachineModel,
)
    requires
        b.wf(),
        b.context.body(b.main).slots.len() + 2 <= usize::MAX,
        b.binop(op, lhs, rhs).1 is Ok,
        lhs.handle < b.context.body(b.main).slots.len(),
        rhs.handle < b.context.body(b.main).slots.len(),
        at_code(
            ctx,
            b.main.id,
            b.context.body(b.main),
            b.binop(op, lhs, rhs).0.context.body(b.main),
            m,
        ),
    ensures
        ({
            let body = b.context.body(b.main);
            let (after, r) = b.binop(op, lhs, rhs);
            let grown = after.context.body(b.main);
            let k = (grown.insns.len() - body.insns.len()) as nat;
            &&& grown.insns.len() >= body.insns.len()
            &&& steps(ctx, m, k) matches Some(done) && {
                &&& after_code(body, grown, m, done)
                &&& done.cur.regs[r->Ok_0.handle as int] == lowered(op)->0.apply(
                    m.cur.regs[lhs.handle as int],
                    m.cur.regs[rhs.handle as int],
                )
            }
        }),
{
    let body = b.context.body(b.main);
    let (after, r) = b.binop(op, lhs, rhs);
    let grown = after.context.body(b.main);
    let insn = lowered(op)->0;
    let s = body.slots.len() as usize;
    let pc = body.insns.len() as int;
    let code = ctx.funcs[b.main.id as int].insns;
    let w = insn.apply(m.cur.regs[lhs.handle as int], m.cur.regs[rhs.handle as int]);
    assert(grown.insns[pc] == (Insn::Binary { op: insn, dst: s, lhs: lhs.handle, rhs: rhs.handle }));
    assert(code[pc] == grown.insns[pc]);
    let m1 = MachineModel { cur: m.cur.write(s, w), stack: m.stack };
    assert(spec_step(ctx, m) == StepModel::Next(m1));
    if op.is_comparison() {
        let t = (s + 1) as usize;
        assert(grown.insns[pc + 1] == (Insn::Convert { dst: t, src: s, ty: Type::bool() }));
        assert(code[pc + 1] == grown.insns[pc + 1]);
        let m2 = MachineModel { cur: m1.cur.write(t, w), stack: m.stack };
        assert(Type::bool().normalize(w) == w);
        assert(spec_step(ctx, m1) == StepModel::Next(m2));
        assert(steps(ctx, m2, 0) == Some(m2));
        assert(steps(ctx, m1, 1) == Some(m2));
        assert(steps(ctx, m, 2) == Some(m2));
    } else {
        assert(steps(ctx, m1, 0) == Some(m1));
        assert(steps(ctx, m, 1) == Some(m1));
    }
}

/// The code of an expression without calls computes the expression: from
/// where the code begins, the machine reaches the end of the code in as
/// many steps as the code has instructions, and the slot of the value
/// that compilation gave then holds the word that the expression stands
/// for. Only new temporary slots have other words than before.
pub proof fn lemma_expr_runs(b: BuilderModel, n: Node, ctx: ContextModel, m: MachineModel)
    requires
        b.wf(),
        is_expr(n),
        b.context.body(b.main).slots.len() + 2 * node_size(n) <= usize::MAX,
        spec_visit(b, n).1 is Ok,
        bound_below(b.vtable, b.context.body(b.main).slots.len() as int),
        at_code(
            ctx,
            b.main.id,
            b.context.body(b.main),
            spec_visit(b, n).0.context.body(b.main),
            m,
        ),
    ensures
        ({
            let body = b.context.body(b.main);
            let (after, r) = spec_visit(b, n);
            let grown = after.context.body(b.main);
            let k = (grown.insns.len() - body.insns.len()) as nat;
            &&& grown.insns.len() >= body.insns.len()
            &&& steps(ctx, m, k) matches Some(done) && {
                &&& after_code(body, grown, m, done)
                &&& done.cur.regs[r->Ok_0.handle as int] == eval(n, env_of(b.vtable, m.cur.regs))
            }
        }),
    decreases n,
{
    let body = b.context.body(b.main);
    let (after, r) = spec_visit(b, n);
    let grown = after.context.body(b.main);
    let code = ctx.funcs[b.main.id as int].insns;
    lemma_expr_grows(b, n);
    match n {
        Node::Number(i) => {
            let s = body.slots.len() as int;
            assert(grown.slots[s].kind == SlotKind::Const(i));
            assert(steps(ctx, m, 0) == Some(m));
        },
        Node::Ident(name) => {
            let s = body.slots.len() as usize;
            let h = b.vtable[name@].handle;
            let pc = body.insns.len() as int;
            assert(b.vtable.contains_key(name@));
            assert(grown.insns[pc] == (Insn::Load { dst: s, src: h }));
            assert(code[pc] == grown.insns[pc]);
            let m1 = MachineModel { cur: m.cur.write(s, m.cur.regs[h as int]), stack: m.stack };
            assert(spec_step(ctx, m) == StepModel::Next(m1));
            assert(steps(ctx, m1, 0) == Some(m1));
            assert(steps(ctx, m, 1) == Some(m1));
            assert(grown.slots[s as int].kind is Temp);
        },
        Node::BinOp(lhs, op, rhs) => {
            let (b1, l) = spec_visit(b, *lhs);
            let lv = l->Ok_0;
            let (b2, rr) = spec_visit(b1, *rhs);
            let rv = rr->Ok_0;
            let body1 = b1.context.body(b.main);
            let body2 = b2.context.body(b.main);
            lemma_expr_grows(b, *lhs);
            lemma_expr_grows(b1, *rhs);
            lemma_binop_grows(b2, op, lv, rv);
            assert(after == b2.binop(op, lv, rv).0);
            // The code of the left operand.
            assert(at_code(ctx, b.main.id, body, body1, m));
            lemma_expr_runs(b, *lhs, ctx, m);
            let k1 = (body1.insns.len() - body.insns.len()) as nat;
            let m1 = steps(ctx, m, k1)->0;
            // The code of the right operand.
            assert(at_code(ctx, b.main.id, body1, body2, m1)) by {
                assert forall|j: int|
                    body1.slots.len() <= j < body2.slots.len() implies ((
                    #[trigger] body2.slots[j]).kind matches SlotKind::Const(c)
                    ==> m1.cur.regs[j] == c) by {
                    assert(body2.slots[j] == grown.slots[j]);
                    assert(m1.cur.regs[j] == m.cur.regs[j]);
                }
            }
            lemma_expr_runs(b1, *rhs, ctx, m1);
            let k2 = (body2.insns.len() - body1.insns.len()) as nat;
            let m2 = steps(ctx, m1, k2)->0;
            lemma_env_frame(b.vtable, m1.cur.regs, m.cur.regs, body.slots.len() as int);
            assert(m2.cur.regs[lv.handle as int] == m1.cur.regs[lv.handle as int]);
            // The instructions of the operator.
            assert(at_code(ctx, b.main.id, body2, grown, m2));
            lemma_binop_runs(b2, op, lv, rv, ctx, m2);
            let k3 = (grown.insns.len() - body2.insns.len()) as nat;
            let m3 = steps(ctx, m2, k3)->0;
            lemma_steps_add(ctx, m, k1, k2);
            lemma_steps_add(ctx, m, k1 + k2, k3);
            assert(steps(ctx, m, k1 + k2 + k3) == Some(m3));
            assert(after_code(body, grown, m, m3)) by {
                assert forall|j: int|
                    0 <= j < m.cur.regs.len() && (j < body.slots.len() || j >= grown.slots.len()
                        || !(grown.slots[j].kind is Temp)) implies #[trigger] m3.cur.regs[j]
                    == m.cur.regs[j] by {
                    if j < body1.slots.len() {
                        assert(body1.slots[j] == grown.slots[j]);
                    }
                    if j < body2.slots.len() {
                        assert(body2.slots[j] == grown.slots[j]);
                    }
                    assert(m1.cur.regs[j] == m.cur.regs[j]);
                    assert(m2.cur.regs[j] == m1.cur.regs[j]);
                    assert(m3.cur.regs[j] == m2.cur.regs[j]);
                }
            }
        },
        _ => {},
    }
}

/// The type that a binary operator gives on operands of the given types,
/// or the error with which it is refused.
pub open spec fn op_type(op: Op, lhs: Type, rhs: Type) -> Result<Type, CompileError> {
    let ints = lhs == Type::integer() && rhs == Type::integer();
    let bools = lhs == Type::bool() && rhs == Type::bool();
    if !ints && !bools {
        Err(CompileError::TypeMismatch)
    } else if op == Op::Div {
        Err(CompileError::Unsupported)
    } else if ints && op.is_arithmetic() {
        Ok(Type::integer())
    } else if ints && op.is_comparison() {
        Ok(Type::bool())
    } else if bools && op.is_logical() {
        Ok(Type::bool())
    } else {
        Err(CompileError::TypeMismatch)
    }
}

/// The type of an expression without calls, or the first error that its
/// compilation meets: the left operand is checked before the right one,
/// and both before the operator.
pub open spec fn type_of(n: Node, types: Map<Seq<char>, Type>) -> Result<Type, CompileError>
    decreases n,
{
    match n {
        Node::Number(_) => Ok(Type::integer()),
        Node::Ident(name) => if types.contains_key(name@) {
            Ok(types[name@])
        } else {
            Err(CompileError::UndefinedVariable)
        },
        Node::BinOp(lhs, op, rhs) => match type_of(*lhs, types) {
            Err(e) => Err(e),
            Ok(lt) => match type_of(*rhs, types) {
                Err(e) => Err(e),
                Ok(rt) => op_type(op, lt, rt),
            },
        },
        _ => Err(CompileError::Unsupported),
    }
}

/// An expression without calls compiles exactly when it has a type: the
/// value that compilation gives has the type of the expression, and the
/// error with which compilation fails is the error of the type check.
pub proof fn lemma_expr_type(b: BuilderModel, n: Node)
    requires
        b.wf(),
        is_expr(n),
        b.context.body(b.main).slots.len() + 2 * node_size(n) <= usize::MAX,
    ensures
        match spec_visit(b, n).1 {
            Ok(v) => type_of(n, types_of(b.vtable)) == Ok::<Type, CompileError>(v.ty),
            Err(e) => type_of(n, types_of(b.vtable)) == Err::<Type, CompileError>(e),
        },
    decreases n,
{
    match n {
        Node::BinOp(lhs, op, rhs) => {
            lemma_expr_type(b, *lhs);
            lemma_expr_grows(b, *lhs);
            let (b1, l) = spec_visit(b, *lhs);
            if l is Ok {
                lemma_expr_type(b1, *rhs);
            }
        },
        _ => {},
    }
}

/// The node is a simple statement: a return of an expression, a binding
/// of a name to an expression, or an expression, all without calls.
pub open spec fn is_simple(n: Node) -> bool {
    match n {
        Node::Ret(val) => is_expr(*val),
        Node::VarDef(_, init) => is_expr(*init),
        _ => is_expr(n),
    }
}

/// The node is a guarded return: an `if` whose condition is an expression
/// without calls, whose first branch is a return of such an expression, and
/// whose second branch is empty or a return of such an expression.
pub open spec fn is_guard(n: Node) -> bool {
    n matches Node::If(cond, then, other) && {
        &&& is_expr(*cond)
        &&& *then matches Node::Ret(val) && is_expr(*val)
        &&& *other is Empty || (*other matches Node::Ret(val) && is_expr(*val))
    }
}

/// The node is a statement without calls and definitions: a simple
/// statement or a guarded return.
pub open spec fn is_stmt(n: Node) -> bool {
    is_simple(n) || is_guard(n)
}

/// Every node of the list is such a statement.
pub open spec fn all_stmts(list: Seq<Node>) -> bool {
    forall|i: int| 0 <= i < list.len() ==> is_stmt(#[trigger] list[i])
}

/// What the statements `list[from..]` give when they are run in order,
/// where `env` gives the words of the identifiers and `last` is the word
/// of the statement before: the word of the first return that is reached,
/// or else the word of the last statement. A guarded return returns from
/// its first branch if its condition is not zero, and else from its second
/// branch if it has one. A binding and a guarded return that does not
/// return stand for the word zero.
pub open spec fn run_stmts(list: Seq<Node>, from: int, env: Map<Seq<char>, i64>, last: i64) -> i64
    decreases list.len() - from,
{
    if 0 <= from < list.len() {
        match list[from] {
            Node::Ret(val) => eval(*val, env),
            Node::VarDef(name, init) => run_stmts(
                list,
                from + 1,
                env.insert(name@, eval(*init, env)),
                0,
            ),
            Node::If(cond, then, other) => if eval(*cond, env) != 0 {
                eval(returned(*then), env)
            } else if *other is Empty {
                run_stmts(list, from + 1, env, 0)
            } else {
                eval(returned(*other), env)
            },
            e => run_stmts(list, from + 1, env, eval(e, env)),
        }
    } else {
        last
    }
}

/// The expression that a return returns.
pub open spec fn returned(n: Node) -> Node {
    match n {
        Node::Ret(val) => *val,
        _ => n,
    }
}

/// The error of the type check of a guarded return, if there is one: the
/// condition is checked first and must be a boolean, then the first branch
/// is checked, then the second.
pub open spec fn check_guard(cond: Node, then: Node, other: Node, types: Map<Seq<char>, Type>)
    -> Result<(), CompileError> {
    match type_of(cond, types) {
        Err(e) => Err(e),
        Ok(t) => if t != Type::bool() {
            Err(CompileError::ConditionNotBoolean)
        } else {
            match type_of(returned(then), types) {
                Err(e) => Err(e),
                Ok(_) => if other is Empty {
                    Ok(())
                } else {
                    match type_of(returned(other), types) {
                        Err(e) => Err(e),
                        Ok(_) => Ok(()),
                    }
                },
            }
        },
    }
}

/// The first error of the type check of the statements `list[from..]`,
/// where `types` gives the types of the identifiers. All statements are
/// checked, those behind a return too.
pub open spec fn check_stmts(list: Seq<Node>, from: int, types: Map<Seq<char>, Type>) -> Result<
    (),
    CompileError,
>
    decreases list.len() - from,
{
    if 0 <= from < list.len() {
        match list[from] {
            Node::Ret(val) => match type_of(*val, types) {
                Err(e) => Err(e),
                Ok(_) => check_stmts(list, from + 1, types),
            },
            Node::VarDef(name, init) => match type_of(*init, types) {
                Err(e) => Err(e),
                Ok(t) => check_stmts(list, from + 1, types.insert(name@, t)),
            },
            Node::If(cond, then, other) => match check_guard(*cond, *then, *other, types) {
                Err(e) => Err(e),
                Ok(_) => check_stmts(list, from + 1, types),
            },
            e => match type_of(e, types) {
                Err(e) => Err(e),
                Ok(_) => check_stmts(list, from + 1, types),
            },
        }
    } else {
        Ok(())
    }
}

/// `after` differs from `before` only in the symbol table and in the body
/// of the current function, which has got more slots and more instructions
/// behind those it had.
pub open spec fn extends(after: BuilderModel, before: BuilderModel) -> bool {
    let body = before.context.body(before.main);
    let grown = after.context.body(before.main);
    &&& after.main == before.main
    &&& after.ftable == before.ftable
    &&& after.types == before.types
    &&& after.context == before.context.with_body(before.main, grown)
    &&& grown.params == body.params
    &&& grown.ret == body.ret
    &&& grown.compiled == body.compiled
    &&& is_prefix(body.insns, grown.insns)
    &&& is_prefix(body.slots, grown.slots)
}

/// What extends a state that extends `a` extends `a`.
proof fn lemma_extends_trans(a: BuilderModel, b: BuilderModel, c: BuilderModel)
    requires
        a.wf(),
        extends(b, a),
        extends(c, b),
    ensures
        extends(c, a),
{
    assert(c.context.funcs =~= a.context.with_body(a.main, c.context.body(a.main)).funcs);
}

/// Compiling a simple statement only adds slots and instructions to the
/// current function, at most two of each per node, and binds at most one
/// name, to one of the new slots. The value that it gives names one of the
/// new slots, and no new instruction is the place of a label.
pub proof fn lemma_simple_grows(b: BuilderModel, n: Node)
    requires
        b.wf(),
        is_simple(n),
        b.context.body(b.main).slots.len() + 2 * node_size(n) <= usize::MAX,
        bound_below(b.vtable, b.context.body(b.main).slots.len() as int),
    ensures
        ({
            let body = b.context.body(b.main);
            let (after, r) = spec_visit(b, n);
            let grown = after.context.body(b.main);
            &&& after.wf()
            &&& extends(after, b)
            &&& grown.slots.len() <= body.slots.len() + 2 * node_size(n)
            &&& grown.insns.len() <= body.insns.len() + 2 * node_size(n)
            &&& bound_below(after.vtable, grown.slots.len() as int)
            &&& r matches Ok(v) ==> body.slots.len() <= v.handle < grown.slots.len()
            &&& forall|i: int|
                body.insns.len() <= i < grown.insns.len() ==> !((#[trigger] grown.insns[i])
                    is Mark)
        }),
{
    let body = b.context.body(b.main);
    let (after, r) = spec_visit(b, n);
    let grown = after.context.body(b.main);
    match n {
        Node::Ret(val) => {
            lemma_expr_grows(b, *val);
            let (b1, r1) = spec_visit(b, *val);
            assert(after.context.funcs =~= b.context.with_body(b.main, grown).funcs);
        },
        Node::VarDef(name, init) => {
            lemma_expr_grows(b, *init);
            let (b1, r1) = spec_visit(b, *init);
            assert(after.context.funcs =~= b.context.with_body(b.main, grown).funcs);
        },
        _ => {
            lemma_expr_grows(b, n);
        },
    }
}

/// The states that the compilation of a guarded return goes through.
pub struct GuardStates {
    /// After the condition.
    pub cond: BuilderModel,
    /// After the jump over the first branch.
    pub test: BuilderModel,
    /// After the first branch.
    pub first: BuilderModel,
    /// After the place of the label.
    pub mark: BuilderModel,
    /// After the second branch.
    pub second: BuilderModel,
}

/// The states that the compilation of the guarded return `n` goes through
/// from state `b`, if it succeeds.
pub open spec fn guard_states(b: BuilderModel, n: Node) -> GuardStates {
    let (b1, c) = spec_visit(b, *n->If_0);
    let label = b1.context.label_id(b1.main, None);
    let b2 = b1.if_test(c->Ok_0);
    let b3 = spec_visit(b2, *n->If_1).0;
    let b4 = b3.if_else(label);
    let b5 = if *n->If_2 is Empty {
        b4
    } else {
        spec_visit(b4, *n->If_2).0
    };
    GuardStates { cond: b1, test: b2, first: b3, mark: b4, second: b5 }
}

/// The parts of the code of a guarded return: the code of the condition,
/// the jump, the code of the first branch, the place of the label, the code
/// of the second branch, and a void constant. Each state extends the one
/// before, and only the place of the label is the place of a label.
pub proof fn lemma_guard_parts(b: BuilderModel, n: Node)
    requires
        b.wf(),
        is_guard(n),
        b.context.body(b.main).slots.len() + 2 * node_size(n) <= usize::MAX,
        b.context.body(b.main).insns.len() + 2 * node_size(n) <= usize::MAX,
        bound_below(b.vtable, b.context.body(b.main).slots.len() as int),
        spec_visit(b, n).1 is Ok,
    ensures
        ({
            let body = b.context.body(b.main);
            let st = guard_states(b, n);
            let (after, r) = spec_visit(b, n);
            let body1 = st.cond.context.body(b.main);
            let body2 = st.test.context.body(b.main);
            let body3 = st.first.context.body(b.main);
            let body4 = st.mark.context.body(b.main);
            let body5 = st.second.context.body(b.main);
            let grown = after.context.body(b.main);
            let cv = spec_visit(b, *n->If_0).1->Ok_0;
            let label = body1.insns.len() as usize;
            &&& spec_visit(b, *n->If_0).1 is Ok
            &&& cv.ty == Type::bool()
            &&& body.slots.len() <= cv.handle < body1.slots.len()
            &&& spec_visit(st.test, *n->If_1).1 is Ok
            &&& !(*n->If_2 is Empty) ==> spec_visit(st.mark, *n->If_2).1 is Ok
            &&& st.cond.wf() && st.test.wf() && st.first.wf() && st.mark.wf() && st.second.wf()
            &&& after.wf()
            &&& grows(st.cond, b)
            &&& extends(st.test, st.cond)
            &&& extends(st.first, st.test)
            &&& extends(st.mark, st.first)
            &&& extends(st.second, st.mark)
            &&& extends(after, st.second)
            &&& extends(after, b)
            &&& st.test.vtable == b.vtable
            &&& st.mark.vtable == b.vtable
            &&& after.vtable == b.vtable
            &&& body1.insns.len() < usize::MAX
            &&& body2.insns == body1.insns.push(Insn::BranchIfNot { cond: cv.handle, label })
            &&& body2.slots == body1.slots
            &&& body4.insns == body3.insns.push(Insn::Mark { label })
            &&& body4.slots == body3.slots
            &&& grown.insns == body5.insns
            &&& grown.slots == body5.slots.push(
                Slot { ty: Type::void(), kind: SlotKind::Const(0) },
            )
            &&& r == Ok::<Value, CompileError>(
                Value { handle: body5.slots.len() as usize, ty: Type::void() },
            )
            &&& forall|i: int|
                body2.insns.len() <= i < body3.insns.len() ==> !((#[trigger] body3.insns[i])
                    is Mark)
            &&& forall|i: int|
                body4.insns.len() <= i < body5.insns.len() ==> !((#[trigger] body5.insns[i])
                    is Mark)
            &&& body1.slots.len() <= body.slots.len() + 2 * node_size(*n->If_0)
            &&& body1.insns.len() <= body.insns.len() + 2 * node_size(*n->If_0)
            &&& body3.slots.len() <= body1.slots.len() + 2 * node_size(*n->If_1)
            &&& body3.insns.len() + 1 <= body2.insns.len() + 2 * node_size(*n->If_1)
            &&& body5.slots.len() <= body3.slots.len() + 2 * node_size(*n->If_2)
            &&& body5.insns.len() + 1 <= body4.insns.len() + 2 * node_size(*n->If_2)
        }),
{
    let cond = *n->If_0;
    let then = *n->If_1;
    let other = *n->If_2;
    let body = b.context.body(b.main);
    let st = guard_states(b, n);
    let (after, r) = spec_visit(b, n);
    let (b1, c) = spec_visit(b, cond);
    lemma_expr_grows(b, cond);
    let cv = c->Ok_0;
    let body1 = b1.context.body(b.main);
    let b2 = st.test;
    assert(b2.context.funcs =~= b1.context.with_body(b.main, b2.context.body(b.main)).funcs);
    assert(extends(b2, b1));
    lemma_simple_grows(b2, then);
    let b3 = st.first;
    let body3 = b3.context.body(b.main);
    let b4 = st.mark;
    assert(b4.context.funcs =~= b3.context.with_body(b.main, b4.context.body(b.main)).funcs);
    assert(extends(b4, b3));
    assert(bound_below(b4.vtable, b4.context.body(b.main).slots.len() as int));
    let b5 = st.second;
    if other is Empty {
        assert(b5.context.funcs =~= b4.context.with_body(b.main, b5.context.body(b.main)).funcs);
    } else {
        lemma_simple_grows(b4, other);
    }
    assert(after.context.funcs =~= b5.context.with_body(b.main, after.context.body(b.main)).funcs);
    assert(extends(after, b5));
    lemma_extends_trans(b1, b2, b3);
    lemma_extends_trans(b1, b3, b4);
    lemma_extends_trans(b1, b4, b5);
    lemma_extends_trans(b1, b5, after);
    assert(extends(b1, b));
    lemma_extends_trans(b, b1, after);
    // A return has one node more than its expression, and adds one
    // instruction and one slot to those of the expression.
    lemma_expr_grows(b2, *then->Ret_0);
    if !(other is Empty) {
        lemma_expr_grows(b4, *other->Ret_0);
    }
}

/// Compiling a statement only adds slots and instructions to the current
/// function, at most two of each per node, and binds at most one name, to
/// one of the new slots. The value that it gives names one of the new
/// slots. Every new place of a label has a number below its own place.
pub proof fn lemma_stmt_grows(b: BuilderModel, n: Node)
    requires
        b.wf(),
        is_stmt(n),
        b.context.body(b.main).slots.len() + 2 * node_size(n) <= usize::MAX,
        b.context.body(b.main).insns.len() + 2 * node_size(n) <= usize::MAX,
        bound_below(b.vtable, b.context.body(b.main).slots.len() as int),
        marks_below(b.context.body(b.main).insns),
    ensures
        ({
            let body = b.context.body(b.main);
            let (after, r) = spec_visit(b, n);
            let grown = after.context.body(b.main);
            &&& after.wf()
            &&& extends(after, b)
            &&& grown.slots.len() <= body.slots.len() + 2 * node_size(n)
            &&& grown.insns.len() <= body.insns.len() + 2 * node_size(n)
            &&& bound_below(after.vtable, grown.slots.len() as int)
            &&& r matches Ok(v) ==> body.slots.len() <= v.handle < grown.slots.len()
            &&& marks_below(grown.insns)
        }),
{
    let body = b.context.body(b.main);
    let (after, r) = spec_visit(b, n);
    let grown = after.context.body(b.main);
    if is_simple(n) {
        lemma_simple_grows(b, n);
        assert forall|i: int| 0 <= i < grown.insns.len() implies ((
        #[trigger] grown.insns[i]) matches Insn::Mark { label } ==> label < i) by {
            if i < body.insns.len() {
                assert(grown.insns[i] == body.insns[i]);
            }
        }
    } else if r is Ok {
        lemma_guard_parts(b, n);
        let st = guard_states(b, n);
        let body1 = st.cond.context.body(b.main);
        let body2 = st.test.context.body(b.main);
        let body3 = st.first.context.body(b.main);
        let body4 = st.mark.context.body(b.main);
        let body5 = st.second.context.body(b.main);
        assert forall|i: int| 0 <= i < grown.insns.len() implies ((
        #[trigger] grown.insns[i]) matches Insn::Mark { label } ==> label < i) by {
            if i < body.insns.len() {
                assert(grown.insns[i] == body.insns[i]);
            } else if i < body1.insns.len() {
                assert(grown.insns[i] == body1.insns[i]);
            } else if i < body2.insns.len() {
                assert(grown.insns[i] == body2.insns[i]);
            } else if i < body3.insns.len() {
                assert(grown.insns[i] == body3.insns[i]);
            } else if i < body4.insns.len() {
                assert(grown.insns[i] == body4.insns[i]);
            } else {
                assert(grown.insns[i] == body5.insns[i]);
            }
        }
    } else {
        lemma_guard_fails(b, n);
    }
}

/// A guarded return that does not compile leaves a state that extends the
/// one before, with no new place of a label.
proof fn lemma_guard_fails(b: BuilderModel, n: Node)
    requires
        b.wf(),
        is_guard(n),
        b.context.body(b.main).slots.len() + 2 * node_size(n) <= usize::MAX,
        b.context.body(b.main).insns.len() + 2 * node_size(n) <= usize::MAX,
        bound_below(b.vtable, b.context.body(b.main).slots.len() as int),
        marks_below(b.context.body(b.main).insns),
        spec_visit(b, n).1 is Err,
    ensures
        ({
            let body = b.context.body(b.main);
            let (after, r) = spec_visit(b, n);
            let grown = after.context.body(b.main);
            &&& after.wf()
            &&& extends(after, b)
            &&& grown.slots.len() <= body.slots.len() + 2 * node_size(n)
            &&& grown.insns.len() <= body.insns.len() + 2 * node_size(n)
            &&& bound_below(after.vtable, grown.slots.len() as int)
            &&& marks_below(grown.insns)
        }),
{
    let cond = *n->If_0;
    let then = *n->If_1;
    let other = *n->If_2;
    let body = b.context.body(b.main);
    let (after, r) = spec_visit(b, n);
    let grown = after.context.body(b.main);
    let (b1, c) = spec_visit(b, cond);
    lemma_expr_grows(b, cond);
    let body1 = b1.context.body(b.main);
    assert(extends(b1, b));
    if c is Ok && c->Ok_0.ty == Type::bool() {
        let label = b1.context.label_id(b1.main, None);
        let b2 = b1.if_test(c->Ok_0);
        let body2 = b2.context.body(b.main);
        assert(b2.context.funcs =~= b1.context.with_body(b.main, body2).funcs);
        assert(extends(b2, b1));
        lemma_simple_grows(b2, then);
        let (b3, t) = spec_visit(b2, then);
        let body3 = b3.context.body(b.main);
        lemma_extends_trans(b1, b2, b3);
        lemma_extends_trans(b, b1, b3);
        if t is Ok {
            let b4 = b3.if_else(label);
            let body4 = b4.context.body(b.main);
            assert(b4.context.funcs =~= b3.context.with_body(b.main, body4).funcs);
            assert(extends(b4, b3));
            assert(bound_below(b4.vtable, body4.slots.len() as int));
            lemma_simple_grows(b4, other);
            lemma_extends_trans(b, b3, b4);
            lemma_extends_trans(b, b4, after);
            assert forall|i: int| 0 <= i < grown.insns.len() implies ((
            #[trigger] grown.insns[i]) matches Insn::Mark { label } ==> label < i) by {
                if i < body.insns.len() {
                    assert(grown.insns[i] == body.insns[i]);
                } else if i < body1.insns.len() {
                    assert(grown.insns[i] == body1.insns[i]);
                } else if i < body2.insns.len() {
                    assert(grown.insns[i] == body2.insns[i]);
                } else if i < body3.insns.len() {
                    assert(grown.insns[i] == body3.insns[i]);
                } else if i < body4.insns.len() {
                    assert(grown.insns[i] == body4.insns[i]);
                }
            }
        } else {
            assert forall|i: int| 0 <= i < grown.insns.len() implies ((
            #[trigger] grown.insns[i]) matches Insn::Mark { label } ==> label < i) by {
                if i < body.insns.len() {
                    assert(grown.insns[i] == body.insns[i]);
                } else if i < body1.insns.len() {
                    assert(grown.insns[i] == body1.insns[i]);
                } else if i < body2.insns.len() {
                    assert(grown.insns[i] == body2.insns[i]);
                }
            }
        }
    } else {
        assert forall|i: int| 0 <= i < grown.insns.len() implies ((
        #[trigger] grown.insns[i]) matches Insn::Mark { label } ==> label < i) by {
            if i < body.insns.len() {
                assert(grown.insns[i] == body.insns[i]);
            }
        }
    }
}

/// Compiling a list of statements only adds slots and instructions to the
/// current function, at most two of each per node, and every place of a
/// label keeps a number below its own place.
pub proof fn lemma_stmts_grow(b: BuilderModel, list: Seq<Node>, from: int, done: Seq<Value>)
    requires
        b.wf(),
        all_stmts(list),
        0 <= from <= list.len(),
        b.context.body(b.main).slots.len() + 2 * nodes_size(list, from) <= usize::MAX,
        b.context.body(b.main).insns.len() + 2 * nodes_size(list, from) <= usize::MAX,
        bound_below(b.vtable, b.context.body(b.main).slots.len() as int),
        marks_below(b.context.body(b.main).insns),
    ensures
        ({
            let body = b.context.body(b.main);
            let (after, r) = spec_visit_list(b, list, from, done);
            let grown = after.context.body(b.main);
            &&& after.wf()
            &&& extends(after, b)
            &&& grown.slots.len() <= body.slots.len() + 2 * nodes_size(list, from)
            &&& grown.insns.len() <= body.insns.len() + 2 * nodes_size(list, from)
            &&& marks_below(grown.insns)
        }),
    decreases list.len() - from,
{
    let body = b.context.body(b.main);
    if from < list.len() {
        lemma_stmt_grows(b, list[from]);
        let (b1, r) = spec_visit(b, list[from]);
        if r is Ok {
            lemma_stmts_grow(b1, list, from + 1, done.push(r->Ok_0));
            lemma_extends_trans(b, b1, spec_visit_list(b, list, from, done).0);
        }
    } else {
        assert(b.context.funcs =~= b.context.with_body(b.main, body).funcs);
    }
}

/// The code of a simple statement that is not a return runs to its end.
/// The slot of the value that compilation gave then holds the word of the
/// statement: zero for a binding, the word of the expression else. A
/// binding makes its name stand for the word of its expression.
pub proof fn lemma_simple_runs(b: BuilderModel, n: Node, ctx: ContextModel, m: MachineModel)
    requires
        b.wf(),
        is_simple(n),
        !(n is Ret),
        b.context.body(b.main).slots.len() + 2 * node_size(n) <= usize::MAX,
        spec_visit(b, n).1 is Ok,
        bound_below(b.vtable, b.context.body(b.main).slots.len() as int),
        at_code(
            ctx,
            b.main.id,
            b.context.body(b.main),
            spec_visit(b, n).0.context.body(b.main),
            m,
        ),
    ensures
        ({
            let body = b.context.body(b.main);
            let (after, r) = spec_visit(b, n);
            let grown = after.context.body(b.main);
            let k = (grown.insns.len() - body.insns.len()) as nat;
            let env = env_of(b.vtable, m.cur.regs);
            &&& grown.insns.len() >= body.insns.len()
            &&& steps(ctx, m, k) matches Some(done) && {
                &&& after_code(body, grown, m, done)
                &&& match n {
                    Node::VarDef(name, init) => {
                        &&& done.cur.regs[r->Ok_0.handle as int] == 0
                        &&& env_of(after.vtable, done.cur.regs) == env.insert(
                            name@,
                            eval(*init, env),
                        )
                    },
                    _ => {
                        &&& done.cur.regs[r->Ok_0.handle as int] == eval(n, env)
                        &&& env_of(after.vtable, done.cur.regs) == env
                    },
                }
            }
        }),
{
    let body = b.context.body(b.main);
    let (after, r) = spec_visit(b, n);
    let grown = after.context.body(b.main);
    let env = env_of(b.vtable, m.cur.regs);
    lemma_simple_grows(b, n);
    match n {
        Node::VarDef(name, init) => {
            let (b1, r1) = spec_visit(b, *init);
            let v = r1->Ok_0;
            let body1 = b1.context.body(b.main);
            lemma_expr_grows(b, *init);
            assert(grown.slots =~= body1.slots.push(
                Slot { ty: Type::void(), kind: SlotKind::Const(0) },
            ));
            assert(grown.insns =~= body1.insns);
            assert(at_code(ctx, b.main.id, body, body1, m)) by {
                assert forall|j: int|
                    body.slots.len() <= j < body1.slots.len() implies ((
                    #[trigger] body1.slots[j]).kind matches SlotKind::Const(c) ==> m.cur.regs[j]
                        == c) by {
                    assert(body1.slots[j] == grown.slots[j]);
                }
            }
            lemma_expr_runs(b, *init, ctx, m);
            let k = (body1.insns.len() - body.insns.len()) as nat;
            let done = steps(ctx, m, k)->0;
            let p = body1.slots.len() as int;
            assert(grown.slots[p].kind == SlotKind::Const(0));
            assert(done.cur.regs[p] == m.cur.regs[p]);
            assert(after_code(body, grown, m, done)) by {
                assert forall|j: int|
                    0 <= j < m.cur.regs.len() && (j < body.slots.len() || j >= grown.slots.len()
                        || !(grown.slots[j].kind is Temp)) implies #[trigger] done.cur.regs[j]
                    == m.cur.regs[j] by {
                    if j < body1.slots.len() {
                        assert(body1.slots[j] == grown.slots[j]);
                    }
                }
            }
            assert(env_of(after.vtable, done.cur.regs) =~= env.insert(name@, eval(*init, env)))
                by {
                assert forall|x: Seq<char>| b.vtable.contains_key(x) implies done.cur.regs[b.vtable[x].handle as int]
                    == m.cur.regs[b.vtable[x].handle as int] by {
                    assert(b.vtable[x].handle < body.slots.len());
                }
            }
        },
        _ => {
            lemma_expr_runs(b, n, ctx, m);
            let k = (grown.insns.len() - body.insns.len()) as nat;
            let done = steps(ctx, m, k)->0;
            lemma_expr_grows(b, n);
            lemma_env_frame(b.vtable, done.cur.regs, m.cur.regs, body.slots.len() as int);
        },
    }
}

/// The code of a return of an expression ends the outermost activation
/// with the word of the expression, in the form of the function's return
/// type.
pub proof fn lemma_ret_runs(
    b: BuilderModel,
    val: Node,
    ctx: ContextModel,
    m: MachineModel,
    fuel: nat,
)
    requires
        b.wf(),
        is_expr(val),
        b.context.body(b.main).slots.len() + 2 * node_size(Node::Ret(Box::new(val)))
            <= usize::MAX,
        spec_visit(b, Node::Ret(Box::new(val))).1 is Ok,
        bound_below(b.vtable, b.context.body(b.main).slots.len() as int),
        at_code(
            ctx,
            b.main.id,
            b.context.body(b.main),
            spec_visit(b, Node::Ret(Box::new(val))).0.context.body(b.main),
            m,
        ),
        m.stack.len() == 0,
        fuel >= 2 * node_size(Node::Ret(Box::new(val))),
    ensures
        spec_run(ctx, m, fuel) == Ok::<i64, ExecError>(
            ctx.funcs[b.main.id as int].ret.normalize(eval(val, env_of(b.vtable, m.cur.regs))),
        ),
{
    let n = Node::Ret(Box::new(val));
    let body = b.context.body(b.main);
    let (after, r) = spec_visit(b, n);
    let grown = after.context.body(b.main);
    let (b1, r1) = spec_visit(b, val);
    let v = r1->Ok_0;
    let body1 = b1.context.body(b.main);
    lemma_expr_grows(b, val);
    assert(grown.insns =~= body1.insns.push(Insn::Return { src: v.handle }));
    assert(grown.slots =~= body1.slots.push(
        Slot { ty: Type::integer(), kind: SlotKind::Const(0) },
    ));
    assert(at_code(ctx, b.main.id, body, body1, m)) by {
        assert forall|j: int|
            body.slots.len() <= j < body1.slots.len() implies ((
            #[trigger] body1.slots[j]).kind matches SlotKind::Const(c) ==> m.cur.regs[j] == c) by {
            assert(body1.slots[j] == grown.slots[j]);
        }
    }
    lemma_expr_runs(b, val, ctx, m);
    let k = (body1.insns.len() - body.insns.len()) as nat;
    let done = steps(ctx, m, k)->0;
    let code = ctx.funcs[b.main.id as int].insns;
    assert(grown.insns[done.cur.pc] == (Insn::Return { src: v.handle }));
    assert(code[done.cur.pc] == grown.insns[done.cur.pc]);
    let w = ctx.funcs[b.main.id as int].ret.normalize(eval(val, env_of(b.vtable, m.cur.regs)));
    assert(spec_step(ctx, done) == StepModel::Done(w));
    lemma_run_after_steps(ctx, m, k, fuel);
    assert(spec_run(ctx, done, (fuel - k) as nat) == Ok::<i64, ExecError>(w));
}

/// The code of a guarded return. If the condition is not zero, the
/// outermost activation ends with the word of the first branch; if it is
/// zero and there is a second branch, with the word of that; and if it is
/// zero and there is none, the machine reaches the end of the code in two
/// steps more than the condition takes, with zero in the slot of the value
/// that compilation gave.
pub proof fn lemma_guard_runs(
    b: BuilderModel,
    n: Node,
    ctx: ContextModel,
    m: MachineModel,
    fuel: nat,
)
    requires
        b.wf(),
        is_guard(n),
        b.context.body(b.main).slots.len() + 2 * node_size(n) <= usize::MAX,
        b.context.body(b.main).insns.len() + 2 * node_size(n) <= usize::MAX,
        spec_visit(b, n).1 is Ok,
        bound_below(b.vtable, b.context.body(b.main).slots.len() as int),
        at_code(
            ctx,
            b.main.id,
            b.context.body(b.main),
            spec_visit(b, n).0.context.body(b.main),
            m,
        ),
        marks_below(ctx.funcs[b.main.id as int].insns),
        m.stack.len() == 0,
        fuel >= 2 * node_size(n),
    ensures
        ({
            let body = b.context.body(b.main);
            let (after, r) = spec_visit(b, n);
            let grown = after.context.body(b.main);
            let env = env_of(b.vtable, m.cur.regs);
            let ret = ctx.funcs[b.main.id as int].ret;
            let body1 = guard_states(b, n).cond.context.body(b.main);
            let k = (body1.insns.len() - body.insns.len() + 2) as nat;
            if eval(*n->If_0, env) != 0 {
                spec_run(ctx, m, fuel) == Ok::<i64, ExecError>(
                    ret.normalize(eval(returned(*n->If_1), env)),
                )
            } else if !(*n->If_2 is Empty) {
                spec_run(ctx, m, fuel) == Ok::<i64, ExecError>(
                    ret.normalize(eval(returned(*n->If_2), env)),
                )
            } else {
                &&& body1.insns.len() >= body.insns.len()
                &&& k <= 2 * node_size(n)
                &&& steps(ctx, m, k) matches Some(done) && {
                    &&& after_code(body, grown, m, done)
                    &&& done.cur.regs[r->Ok_0.handle as int] == 0
                    &&& env_of(after.vtable, done.cur.regs) == env
                }
            }
        }),
{
    let cond = *n->If_0;
    let first = *n->If_1;
    let second = *n->If_2;
    let body = b.context.body(b.main);
    let (after, r) = spec_visit(b, n);
    let grown = after.context.body(b.main);
    let env = env_of(b.vtable, m.cur.regs);
    let code = ctx.funcs[b.main.id as int].insns;
    assert(node_size(n) == 1 + node_size(cond) + node_size(first) + node_size(second));
    assert(node_size(first) == 1 + node_size(*first->Ret_0));
    if !(second is Empty) {
        assert(node_size(second) == 1 + node_size(*second->Ret_0));
    }
    lemma_guard_parts(b, n);
    let st = guard_states(b, n);
    let body1 = st.cond.context.body(b.main);
    let body2 = st.test.context.body(b.main);
    let body3 = st.first.context.body(b.main);
    let body4 = st.mark.context.body(b.main);
    let body5 = st.second.context.body(b.main);
    let cv = spec_visit(b, cond).1->Ok_0;
    let label = body1.insns.len() as usize;
    // What the final function holds at the places of the parts.
    assert(is_prefix(body1.insns, code) && is_prefix(body1.slots, grown.slots)) by {
        lemma_extends_trans(st.cond, st.test, st.first);
        lemma_extends_trans(st.cond, st.first, st.mark);
        lemma_extends_trans(st.cond, st.mark, st.second);
        lemma_extends_trans(st.cond, st.second, after);
    }
    assert(is_prefix(body2.insns, code) && is_prefix(body2.slots, grown.slots)) by {
        lemma_extends_trans(st.test, st.first, st.mark);
        lemma_extends_trans(st.test, st.mark, st.second);
        lemma_extends_trans(st.test, st.second, after);
    }
    assert(is_prefix(body3.insns, code) && is_prefix(body3.slots, grown.slots)) by {
        lemma_extends_trans(st.first, st.mark, st.second);
        lemma_extends_trans(st.first, st.second, after);
    }
    assert(is_prefix(body4.insns, code) && is_prefix(body4.slots, grown.slots)) by {
        lemma_extends_trans(st.mark, st.second, after);
    }
    assert(is_prefix(body5.insns, code) && is_prefix(body5.slots, grown.slots));
    // The condition.
    assert(at_code(ctx, b.main.id, body, body1, m)) by {
        assert forall|j: int|
            body.slots.len() <= j < body1.slots.len() implies ((
            #[trigger] body1.slots[j]).kind matches SlotKind::Const(c) ==> m.cur.regs[j] == c) by {
            assert(body1.slots[j] == grown.slots[j]);
        }
    }
    lemma_expr_runs(b, cond, ctx, m);
    let k1 = (body1.insns.len() - body.insns.len()) as nat;
    let m1 = steps(ctx, m, k1)->0;
    let w = eval(cond, env);
    assert(m1.cur.regs[cv.handle as int] == w);
    lemma_run_after_steps(ctx, m, k1, fuel);
    lemma_env_frame(b.vtable, m1.cur.regs, m.cur.regs, body.slots.len() as int);
    let at = body1.insns.len() as int;
    assert(body2.insns[at] == (Insn::BranchIfNot { cond: cv.handle, label }));
    assert(code[at] == body2.insns[at]);
    if w != 0 {
        let m2 = MachineModel { cur: m1.cur.skip(), stack: m1.stack };
        assert(spec_step(ctx, m1) == StepModel::Next(m2));
        assert(at_code(ctx, b.main.id, body2, body3, m2)) by {
            assert forall|j: int|
                body2.slots.len() <= j < body3.slots.len() implies ((
                #[trigger] body3.slots[j]).kind matches SlotKind::Const(c) ==> m2.cur.regs[j]
                    == c) by {
                assert(body3.slots[j] == grown.slots[j]);
                assert(m1.cur.regs[j] == m.cur.regs[j]);
            }
        }
        lemma_ret_runs(st.test, *first->Ret_0, ctx, m2, (fuel - k1 - 1) as nat);
        assert(env_of(st.test.vtable, m2.cur.regs) == env);
        assert(spec_run(ctx, m1, (fuel - k1) as nat) == spec_run(
            ctx,
            m2,
            (fuel - k1 - 1) as nat,
        ));
        assert(returned(first) == *first->Ret_0);
    } else {
        let place = body3.insns.len() as int;
        assert(body4.insns[place] == (Insn::Mark { label }));
        assert(code[place] == body4.insns[place]);
        assert forall|i: int| 0 <= i < place implies code[i] != (Insn::Mark { label }) by {
            if i < at {
            } else if i == at {
            } else {
                assert(code[i] == body3.insns[i]);
            }
        }
        lemma_mark_found(code, label, 0, place);
        let m2 = MachineModel { cur: m1.cur.jump(place), stack: m1.stack };
        let m3 = MachineModel { cur: m2.cur.skip(), stack: m1.stack };
        assert(spec_step(ctx, m1) == StepModel::Next(m2));
        assert(spec_step(ctx, m2) == StepModel::Next(m3));
        if second is Empty {
            assert(steps(ctx, m3, 0) == Some(m3));
            assert(steps(ctx, m2, 1) == Some(m3));
            assert(steps(ctx, m1, 2) == Some(m3));
            lemma_steps_add(ctx, m, k1, 2);
            let p = body5.slots.len() as int;
            assert(grown.slots[p].kind == SlotKind::Const(0));
            assert(m3.cur.regs[p] == m.cur.regs[p]);
            assert(after_code(body, grown, m, m3)) by {
                assert forall|j: int|
                    0 <= j < m.cur.regs.len() && (j < body.slots.len() || j >= grown.slots.len()
                        || !(grown.slots[j].kind is Temp)) implies #[trigger] m3.cur.regs[j]
                    == m.cur.regs[j] by {
                    if j < body1.slots.len() {
                        assert(body1.slots[j] == grown.slots[j]);
                    }
                }
            }
            lemma_env_frame(b.vtable, m3.cur.regs, m.cur.regs, body.slots.len() as int);
        } else {
            assert(at_code(ctx, b.main.id, body4, body5, m3)) by {
                assert forall|j: int|
                    body4.slots.len() <= j < body5.slots.len() implies ((
                    #[trigger] body5.slots[j]).kind matches SlotKind::Const(c)
                    ==> m3.cur.regs[j] == c) by {
                    assert(body5.slots[j] == grown.slots[j]);
                    assert(m1.cur.regs[j] == m.cur.regs[j]);
                }
            }
            lemma_ret_runs(st.mark, *second->Ret_0, ctx, m3, (fuel - k1 - 2) as nat);
            assert(env_of(st.mark.vtable, m3.cur.regs) == env);
            assert(spec_run(ctx, m2, (fuel - k1 - 1) as nat) == spec_run(
                ctx,
                m3,
                (fuel - k1 - 2) as nat,
            ));
            assert(spec_run(ctx, m1, (fuel - k1) as nat) == spec_run(
                ctx,
                m2,
                (fuel - k1 - 1) as nat,
            ));
            assert(returned(second) == *second->Ret_0);
        }
    }
}

/// A guarded return compiles exactly when it passes its type check, and
/// fails with the error of the check.
pub proof fn lemma_guard_type(b: BuilderModel, n: Node)
    requires
        b.wf(),
        is_guard(n),
        b.context.body(b.main).slots.len() + 2 * node_size(n) <= usize::MAX,
        bound_below(b.vtable, b.context.body(b.main).slots.len() as int),
    ensures
        match spec_visit(b, n).1 {
            Ok(_) => check_guard(*n->If_0, *n->If_1, *n->If_2, types_of(b.vtable)) is Ok,
            Err(e) => check_guard(*n->If_0, *n->If_1, *n->If_2, types_of(b.vtable)) == Err::<
                (),
                CompileError,
            >(e),
        },
{
    let cond = *n->If_0;
    let first = *n->If_1;
    let second = *n->If_2;
    assert(node_size(n) == 1 + node_size(cond) + node_size(first) + node_size(second));
    assert(node_size(first) == 1 + node_size(*first->Ret_0));
    if !(second is Empty) {
        assert(node_size(second) == 1 + node_size(*second->Ret_0));
    }
    let (b1, c) = spec_visit(b, cond);
    lemma_expr_type(b, cond);
    lemma_expr_grows(b, cond);
    if c is Ok && c->Ok_0.ty == Type::bool() {
        let label = b1.context.label_id(b1.main, None);
        let b2 = b1.if_test(c->Ok_0);
        assert(b2.context.funcs =~= b1.context.with_body(
            b.main,
            b2.context.body(b.main),
        ).funcs);
        assert(b2.vtable == b.vtable);
        lemma_expr_type(b2, *first->Ret_0);
        lemma_expr_grows(b2, *first->Ret_0);
        lemma_simple_grows(b2, first);
        assert(returned(first) == *first->Ret_0);
        let (b3, t) = spec_visit(b2, first);
        assert(t is Err ==> t == spec_visit(b2, *first->Ret_0).1);
        assert(t is Ok ==> spec_visit(b2, *first->Ret_0).1 is Ok);
        if t is Ok {
            let b4 = b3.if_else(label);
            assert(b4.context.funcs =~= b3.context.with_body(
                b.main,
                b4.context.body(b.main),
            ).funcs);
            assert(b4.vtable == b.vtable);
            if !(second is Empty) {
                assert(returned(second) == *second->Ret_0);
                lemma_expr_type(b4, *second->Ret_0);
                lemma_expr_grows(b4, *second->Ret_0);
                let (b5, o) = spec_visit(b4, second);
                assert(o is Err ==> o == spec_visit(b4, *second->Ret_0).1);
                assert(o is Ok ==> spec_visit(b4, *second->Ret_0).1 is Ok);
            }
        }
    }
}

/// The code of a list of statements, followed by a return of the value of
/// the last one, gives what the statements give. `done` holds the values
/// of the statements before, and `ctx` the function as it is in the end.
pub proof fn lemma_stmts_run(
    b: BuilderModel,
    list: Seq<Node>,
    from: int,
    done: Seq<Value>,
    ctx: ContextModel,
    m: MachineModel,
    fuel: nat,
)
    requires
        b.wf(),
        all_stmts(list),
        0 <= from <= list.len(),
        b.context.body(b.main).slots.len() + 2 * nodes_size(list, from) <= usize::MAX,
        b.context.body(b.main).insns.len() + 2 * nodes_size(list, from) <= usize::MAX,
        bound_below(b.vtable, b.context.body(b.main).slots.len() as int),
        done.len() > 0,
        done.last().handle < b.context.body(b.main).slots.len(),
        spec_visit_list(b, list, from, done).1 is Ok,
        ({
            let (after, r) = spec_visit_list(b, list, from, done);
            let grown = after.context.body(b.main);
            &&& at_code(ctx, b.main.id, b.context.body(b.main), grown, m)
            &&& ctx.funcs[b.main.id as int].insns == grown.insns.push(
                Insn::Return { src: r->Ok_0.last().handle },
            )
            &&& ctx.funcs[b.main.id as int].ret == Type::integer()
        }),
        marks_below(b.context.body(b.main).insns),
        marks_below(ctx.funcs[b.main.id as int].insns),
        m.stack.len() == 0,
        fuel > 2 * nodes_size(list, from),
    ensures
        spec_run(ctx, m, fuel) == Ok::<i64, ExecError>(
            run_stmts(
                list,
                from,
                env_of(b.vtable, m.cur.regs),
                m.cur.regs[done.last().handle as int],
            ),
        ),
    decreases list.len() - from,
{
    let body = b.context.body(b.main);
    let (after, r) = spec_visit_list(b, list, from, done);
    let grown = after.context.body(b.main);
    let code = ctx.funcs[b.main.id as int].insns;
    let env = env_of(b.vtable, m.cur.regs);
    if from < list.len() {
        let n = list[from];
        let (b1, r1) = spec_visit(b, n);
        let v = r1->Ok_0;
        let body1 = b1.context.body(b.main);
        let rest = done.push(v);
        assert(spec_visit_list(b1, list, from + 1, rest) == (after, r));
        lemma_stmt_grows(b, n);
        lemma_stmts_grow(b1, list, from + 1, rest);
        assert(at_code(ctx, b.main.id, body, body1, m)) by {
            assert forall|j: int|
                body.slots.len() <= j < body1.slots.len() implies ((
                #[trigger] body1.slots[j]).kind matches SlotKind::Const(c) ==> m.cur.regs[j]
                    == c) by {
                assert(body1.slots[j] == grown.slots[j]);
            }
        }
        // The number of steps that the statement takes if it does not return.
        let k: nat = match n {
            Node::Ret(val) => {
                lemma_ret_runs(b, *val, ctx, m, fuel);
                0
            },
            Node::If(cond, first, second) => {
                lemma_guard_runs(b, n, ctx, m, fuel);
                let after_cond = guard_states(b, n).cond.context.body(b.main);
                (after_cond.insns.len() - body.insns.len() + 2) as nat
            },
            _ => {
                lemma_simple_runs(b, n, ctx, m);
                (body1.insns.len() - body.insns.len()) as nat
            },
        };
        let goes_on = match n {
            Node::Ret(val) => false,
            Node::If(cond, first, second) => eval(*cond, env) == 0 && *second is Empty,
            _ => true,
        };
        if goes_on {
            let m1 = steps(ctx, m, k)->0;
            lemma_run_after_steps(ctx, m, k, fuel);
            assert(at_code(ctx, b.main.id, body1, grown, m1)) by {
                assert forall|j: int|
                    body1.slots.len() <= j < grown.slots.len() implies ((
                    #[trigger] grown.slots[j]).kind matches SlotKind::Const(c)
                    ==> m1.cur.regs[j] == c) by {
                    assert(m1.cur.regs[j] == m.cur.regs[j]);
                }
            }
            lemma_stmts_run(b1, list, from + 1, rest, ctx, m1, (fuel - k) as nat);
        }
    } else {
        let pc = body.insns.len() as int;
        let last = done.last().handle;
        assert(code[pc] == (Insn::Return { src: last }));
        assert(spec_step(ctx, m) == StepModel::Done(m.cur.regs[last as int]));
    }
}

/// A list of statements compiles exactly when it passes the type check,
/// and fails with the error of the check.
pub proof fn lemma_stmts_type(b: BuilderModel, list: Seq<Node>, from: int, done: Seq<Value>)
    requires
        b.wf(),
        all_stmts(list),
        0 <= from <= list.len(),
        b.context.body(b.main).slots.len() + 2 * nodes_size(list, from) <= usize::MAX,
        b.context.body(b.main).insns.len() + 2 * nodes_size(list, from) <= usize::MAX,
        bound_below(b.vtable, b.context.body(b.main).slots.len() as int),
        marks_below(b.context.body(b.main).insns),
    ensures
        match spec_visit_list(b, list, from, done).1 {
            Ok(_) => check_stmts(list, from, types_of(b.vtable)) is Ok,
            Err(e) => check_stmts(list, from, types_of(b.vtable)) == Err::<(), CompileError>(e),
        },
    decreases list.len() - from,
{
    if from < list.len() {
        let n = list[from];
        let (b1, r1) = spec_visit(b, n);
        lemma_stmt_grows(b, n);
        match n {
            Node::Ret(val) => {
                lemma_expr_type(b, *val);
                lemma_expr_grows(b, *val);
            },
            Node::VarDef(name, init) => {
                lemma_expr_type(b, *init);
                lemma_expr_grows(b, *init);
                if r1 is Ok {
                    let t = type_of(*init, types_of(b.vtable))->Ok_0;
                    assert(types_of(b1.vtable) =~= types_of(b.vtable).insert(name@, t));
                }
            },
            Node::If(cond, first, second) => {
                lemma_guard_type(b, n);
                if r1 is Ok {
                    lemma_guard_parts(b, n);
                }
            },
            _ => {
                lemma_expr_type(b, n);
                lemma_expr_grows(b, n);
            },
        }
        if r1 is Ok {
            lemma_stmts_type(b1, list, from + 1, done.push(r1->Ok_0));
        }
    }
}

} // verus!
