//! Programs of statements without calls and definitions give what their
//! statements stand for.

use vstd::prelude::*;
use crate::correctness::{
    all_stmts, at_code, check_stmts, env_of, eval, is_expr, is_stmt, lemma_expr_type,
    lemma_stmts_grow, lemma_stmts_run, lemma_stmts_type, op_type, run_stmts, steps, type_of,
    types_of,
};
use crate::error::{CompileError, Error, ExecError};
use crate::ir::Insn;
use crate::laws::programs::{lemma_program_start, program_start};
use crate::lowering::{lowered, spec_compile_and_run, spec_program, spec_visit, spec_visit_list};
use crate::machine::{MachineModel, STEP_LIMIT, entry_regs, low32, spec_apply};
use crate::myast::{Node, Op, node_size, nodes_size};
use crate::wrapper::{Function, Type, Value};

verus! {

/// The program `return a op b;`.
pub open spec fn return_binop(a: i64, op: Op, b: i64) -> Seq<Node> {
    seq![
        Node::Ret(
            Box::new(Node::BinOp(Box::new(Node::Number(a)), op, Box::new(Node::Number(b)))),
        ),
    ]
}

/// Whether `a op b` holds, for a comparison `op`.
pub open spec fn holds(a: i64, op: Op, b: i64) -> bool {
    match op {
        Op::Eql => a == b,
        Op::Neq => a != b,
        Op::Lwt => a < b,
        Op::Lwe => a <= b,
        Op::Grt => a > b,
        Op::Gre => a >= b,
        _ => false,
    }
}

/// A truth value as a word: one or zero.
pub open spec fn truth(p: bool) -> i64 {
    if p {
        1
    } else {
        0
    }
}

/// The expression `a op b` on two literals.
pub open spec fn literal_binop(a: i64, op: Op, b: i64) -> Node {
    Node::BinOp(Box::new(Node::Number(a)), op, Box::new(Node::Number(b)))
}

/// What a logical operator gives on two truth values.
pub open spec fn combine(p: bool, op: Op, q: bool) -> bool {
    match op {
        Op::And => p && q,
        Op::Or => p || q,
        _ => false,
    }
}

/// The program `return (a op1 b) op (c op2 d);`.
pub open spec fn return_logical(a: i64, op1: Op, b: i64, op: Op, c: i64, op2: Op, d: i64) -> Seq<
    Node,
> {
    seq![
        Node::Ret(
            Box::new(
                Node::BinOp(
                    Box::new(literal_binop(a, op1, b)),
                    op,
                    Box::new(literal_binop(c, op2, d)),
                ),
            ),
        ),
    ]
}

/// The word that an expression without identifiers stands for.
pub open spec fn value_of(e: Node) -> i64 {
    eval(e, Map::empty())
}

/// For every list of statements without calls and definitions (returns,
/// bindings, expressions and guarded returns), the program fails with the
/// first error of its type check if there is one, and else gives the low 32
/// bits of what the statements give when they are run in order. The
/// program must be small enough for the standard number of steps.
pub proof fn law_straight_line(list: Seq<Node>)
    requires
        all_stmts(list),
        2 * nodes_size(list, 0) < STEP_LIMIT,
    ensures
        spec_compile_and_run(list) == match check_stmts(list, 0, Map::empty()) {
            Err(err) => Err::<i32, Error>(Error::Compile(err)),
            Ok(_) => Ok::<i32, Error>(low32(run_stmts(list, 0, Map::empty(), 0))),
        },
{
    let b0 = program_start();
    lemma_program_start();
    let body0 = b0.context.body(b0.main);
    let zero = Value { handle: 0, ty: Type::integer() };
    let first = seq![zero];
    let (b1, r1) = spec_visit_list(b0, list, 0, first);
    assert(b0.vtable =~= Map::<Seq<char>, Value>::empty());
    assert(types_of(b0.vtable) =~= Map::<Seq<char>, Type>::empty());
    lemma_stmts_type(b0, list, 0, first);
    lemma_stmts_grow(b0, list, 0, first);
    if r1 is Ok {
        let vals = r1->Ok_0;
        let grown = b1.context.body(b0.main);
        let (b2, r2) = spec_program(list);
        let ctx = b2.sealed().context;
        let main = Function { id: 0, argc: 0 };
        let body = ctx.funcs[0];
        assert(body.insns =~= grown.insns.push(Insn::Return { src: vals.last().handle }));
        assert(body.slots =~= grown.slots);
        let regs0 = entry_regs(body, Seq::empty());
        let m0 = MachineModel::start(ctx, main, Seq::empty());
        assert(at_code(ctx, 0, body0, grown, m0));
        assert(env_of(b0.vtable, regs0) =~= Map::<Seq<char>, i64>::empty());
        assert(regs0[0] == 0);
        let fuel = STEP_LIMIT as nat;
        lemma_stmts_run(b0, list, 0, first, ctx, m0, fuel);
        assert(spec_apply(ctx, main, Seq::empty(), fuel) == Ok::<i64, ExecError>(
            run_stmts(list, 0, Map::empty(), 0),
        ));
    }
}

/// For every expression `e` without calls, the program `return e;` fails
/// with the error of the type check of `e` if there is one, and else gives
/// the low 32 bits of the word that `e` stands for. The expression must
/// be small enough for the standard number of steps.
pub proof fn law_expression(e: Node)
    requires
        is_expr(e),
        2 * node_size(e) + 2 < STEP_LIMIT,
    ensures
        spec_compile_and_run(seq![Node::Ret(Box::new(e))]) == match type_of(e, Map::empty()) {
            Err(err) => Err::<i32, Error>(Error::Compile(err)),
            Ok(_) => Ok::<i32, Error>(low32(value_of(e))),
        },
{
    let list = seq![Node::Ret(Box::new(e))];
    assert(list[0] == Node::Ret(Box::new(e)));
    assert(nodes_size(list, 1) == 0);
    assert(node_size(list[0]) == 1 + node_size(e));
    assert(nodes_size(list, 0) == node_size(list[0]) + nodes_size(list, 1));
    assert(is_stmt(list[0]));
    assert(check_stmts(list, 1, Map::empty()) == Ok::<(), CompileError>(()));
    law_straight_line(list);
}

/// The numbers are expressions of one node.
pub proof fn lemma_literal(n: i64)
    ensures
        is_expr(Node::Number(n)),
        node_size(Node::Number(n)) == 1,
        type_of(Node::Number(n), Map::empty()) == Ok::<Type, CompileError>(Type::integer()),
        value_of(Node::Number(n)) == n,
{
}

/// An operator on two literals is an expression of three nodes. Its type
/// is what the operator gives on two integers, and its word is what the
/// instruction of the operator gives on the two numbers.
pub proof fn lemma_literal_binop(a: i64, op: Op, b: i64)
    ensures
        is_expr(literal_binop(a, op, b)),
        node_size(literal_binop(a, op, b)) == 3,
        type_of(literal_binop(a, op, b), Map::empty()) == op_type(
            op,
            Type::integer(),
            Type::integer(),
        ),
        lowered(op) matches Some(insn) ==> value_of(literal_binop(a, op, b)) == insn.apply(a, b),
{
    lemma_literal(a);
    lemma_literal(b);
}

/// The program `return n;` gives the low 32 bits of `n`.
pub proof fn law_return_literal(n: i64)
    ensures
        spec_compile_and_run(seq![Node::Ret(Box::new(Node::Number(n)))]) == Ok::<i32, Error>(
            low32(n),
        ),
{
    lemma_literal(n);
    law_expression(Node::Number(n));
}

/// For all integers `a` and `b`, the program `return a op b;` with `op` one
/// of `+`, `-` and `*` gives the low 32 bits of the result of that
/// operation on 64-bit words, which wraps.
pub proof fn law_arithmetic(a: i64, op: Op, b: i64)
    requires
        op.is_arithmetic(),
    ensures
        spec_compile_and_run(return_binop(a, op, b)) == Ok::<i32, Error>(
            low32(lowered(op)->0.apply(a, b)),
        ),
{
    lemma_literal_binop(a, op, b);
    law_expression(literal_binop(a, op, b));
    assert(return_binop(a, op, b) =~= seq![Node::Ret(Box::new(literal_binop(a, op, b)))]);
}

/// For all integers `a` and `b` and every comparison `op`, the expression
/// `a op b` compiles to a value of boolean type, and the program
/// `return a op b;` gives one if the comparison holds and zero if not.
pub proof fn law_comparison(a: i64, op: Op, b: i64)
    requires
        op.is_comparison(),
    ensures
        spec_visit(program_start(), literal_binop(a, op, b)).1 matches Ok(v) && v.ty
            == Type::bool(),
        spec_compile_and_run(return_binop(a, op, b)) == Ok::<i32, Error>(
            if holds(a, op, b) {
                1i32
            } else {
                0i32
            },
        ),
{
    lemma_literal_binop(a, op, b);
    lemma_program_start();
    assert(types_of(program_start().vtable) =~= Map::<Seq<char>, Type>::empty());
    lemma_expr_type(program_start(), literal_binop(a, op, b));
    law_expression(literal_binop(a, op, b));
    assert(return_binop(a, op, b) =~= seq![Node::Ret(Box::new(literal_binop(a, op, b)))]);
    assert(low32(1i64) == 1i32 && low32(0i64) == 0i32);
}

/// For all booleans `p` and `q`, each the outcome of a comparison of two
/// literals, the program `return p op q;` with `op` one of `&&` and `||`
/// gives one if the operator gives true and zero if not.
pub proof fn law_logical(a: i64, op1: Op, b: i64, op: Op, c: i64, op2: Op, d: i64)
    requires
        op1.is_comparison(),
        op2.is_comparison(),
        op.is_logical(),
    ensures
        spec_compile_and_run(return_logical(a, op1, b, op, c, op2, d)) == Ok::<i32, Error>(
            if combine(holds(a, op1, b), op, holds(c, op2, d)) {
                1i32
            } else {
                0i32
            },
        ),
{
    let lhs = literal_binop(a, op1, b);
    let rhs = literal_binop(c, op2, d);
    let e = Node::BinOp(Box::new(lhs), op, Box::new(rhs));
    lemma_literal_binop(a, op1, b);
    lemma_literal_binop(c, op2, d);
    assert(is_expr(e));
    assert(node_size(e) == 7);
    assert(type_of(e, Map::empty()) == Ok::<Type, CompileError>(Type::bool()));
    assert(value_of(e) == lowered(op)->0.apply(value_of(lhs), value_of(rhs)));
    law_expression(e);
    assert(return_logical(a, op1, b, op, c, op2, d) =~= seq![Node::Ret(Box::new(e))]);
    assert(low32(1i64) == 1i32 && low32(0i64) == 0i32);
}

} // verus!
