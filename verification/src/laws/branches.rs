//! The two branches of an `if`.

use vstd::prelude::*;
use crate::correctness::{check_guard, check_stmts, eval, is_guard, is_stmt, returned, run_stmts};
use crate::error::{CompileError, Error};
use crate::laws::expressions::{
    holds, law_straight_line, lemma_literal, lemma_literal_binop, literal_binop, value_of,
};
use crate::lowering::{lowered, spec_compile_and_run};
use crate::machine::low32;
use crate::myast::{Node, Op, node_size, nodes_size};
use crate::wrapper::Type;

verus! {

/// The program `if (a op b) { return t; } else { return e; }`.
pub open spec fn return_either(a: i64, op: Op, b: i64, t: i64, e: i64) -> Seq<Node> {
    seq![
        Node::If(
            Box::new(literal_binop(a, op, b)),
            Box::new(Node::Ret(Box::new(Node::Number(t)))),
            Box::new(Node::Ret(Box::new(Node::Number(e)))),
        ),
    ]
}

/// For all integers `a` and `b` and every comparison `op`, the program
/// `if (a op b) { return t; } else { return e; }` gives the low 32 bits of
/// `t` if the comparison holds and of `e` if not.
pub proof fn law_if_else(a: i64, op: Op, b: i64, t: i64, e: i64)
    requires
        op.is_comparison(),
    ensures
        spec_compile_and_run(return_either(a, op, b, t, e)) == Ok::<i32, Error>(
            low32(if holds(a, op, b) { t } else { e }),
        ),
{
    let list = return_either(a, op, b, t, e);
    let cond = literal_binop(a, op, b);
    let first = Node::Ret(Box::new(Node::Number(t)));
    let second = Node::Ret(Box::new(Node::Number(e)));
    let n = list[0];
    let none = Map::<Seq<char>, Type>::empty();
    let env = Map::<Seq<char>, i64>::empty();
    lemma_literal_binop(a, op, b);
    lemma_literal(t);
    lemma_literal(e);
    assert(node_size(first) == 2 && node_size(second) == 2);
    assert(node_size(n) == 8);
    assert(is_guard(n));
    assert(is_stmt(n));
    assert(nodes_size(list, 1) == 0);
    assert(nodes_size(list, 0) == 8);
    assert(returned(first) == Node::Number(t) && returned(second) == Node::Number(e));
    assert(check_guard(cond, first, second, none) == Ok::<(), CompileError>(()));
    assert(check_stmts(list, 1, none) == Ok::<(), CompileError>(()));
    assert(check_stmts(list, 0, none) == Ok::<(), CompileError>(()));
    assert(eval(cond, env) == lowered(op)->0.apply(a, b));
    assert((eval(cond, env) != 0) == holds(a, op, b));
    assert(run_stmts(list, 0, env, 0) == if holds(a, op, b) { t } else { e });
    assert(value_of(Node::Number(t)) == t);
    law_straight_line(list);
}

} // verus!
