//! What the type check, the symbol table and the function table decide, in
//! every state of the code generator.

use vstd::prelude::*;
use either::Either;
use crate::error::CompileError;
use crate::ir::Insn;
use crate::lowering::{
    BuilderModel, NativeModel, args_match, lemma_visit_list_ftable, lemma_visit_list_wf,
    lemma_visit_wf, param_types, spec_visit, spec_visit_list, type_named,
};
use crate::myast::{Node, Op, node_size};
use crate::wrapper::{Function, Type, Value};

verus! {

/// The types of the operands decide what a binary operator gives, in every
/// state and for all operand expressions that compile: on two integers,
/// arithmetic gives an integer and a comparison a boolean; on two booleans,
/// a logical operator gives a boolean; a logical operator on two integers,
/// arithmetic or a comparison on two booleans, and every operator on two
/// operands of different types or of void type fail with `TypeMismatch`;
/// `Div` on two integers or two booleans fails with `Unsupported`.
pub proof fn law_operand_types(b: BuilderModel, lhs: Node, op: Op, rhs: Node)
    requires
        spec_visit(b, lhs).1 is Ok,
        spec_visit(spec_visit(b, lhs).0, rhs).1 is Ok,
    ensures
        ({
            let (b1, l) = spec_visit(b, lhs);
            let (b2, r) = spec_visit(b1, rhs);
            let lt = l->Ok_0.ty;
            let rt = r->Ok_0.ty;
            let ints = lt == Type::integer() && rt == Type::integer();
            let bools = lt == Type::bool() && rt == Type::bool();
            let (after, result) = spec_visit(b, Node::BinOp(Box::new(lhs), op, Box::new(rhs)));
            &&& ints && op.is_arithmetic() ==> (result matches Ok(v) && v.ty == Type::integer())
            &&& ints && op.is_comparison() ==> (result matches Ok(v) && v.ty == Type::bool())
            &&& bools && op.is_logical() ==> (result matches Ok(v) && v.ty == Type::bool())
            &&& ints && op.is_logical() ==> result == Err::<Value, CompileError>(
                CompileError::TypeMismatch,
            ) && after == b2
            &&& bools && (op.is_arithmetic() || op.is_comparison()) ==> result == Err::<
                Value,
                CompileError,
            >(CompileError::TypeMismatch) && after == b2
            &&& !ints && !bools ==> result == Err::<Value, CompileError>(
                CompileError::TypeMismatch,
            ) && after == b2
            &&& (ints || bools) && op == Op::Div ==> result == Err::<Value, CompileError>(
                CompileError::Unsupported,
            ) && after == b2
        }),
{
    let (b1, l) = spec_visit(b, lhs);
    let (b2, r) = spec_visit(b1, rhs);
    assert(spec_visit(b, Node::BinOp(Box::new(lhs), op, Box::new(rhs))) == b2.binop(
        op,
        l->Ok_0,
        r->Ok_0,
    ));
}

/// After a function definition compiles, its name stands for a function
/// that this definition created, whatever the name stood for before: the
/// entry of the function table is a function that the context did not have
/// when the definition began. A call by that name with fitting arguments
/// then calls that function.
pub proof fn law_redefinition(
    b: BuilderModel,
    name: String,
    params: Vec<(String, String)>,
    rettype: String,
    body: Vec<Node>,
    args: Seq<Value>,
)
    requires
        b.wf(),
        b.context.funcs.len() + node_size(Node::FuncDef(name, params, rettype, body))
            <= usize::MAX,
        spec_visit(b, Node::FuncDef(name, params, rettype, body)).1 is Ok,
    ensures
        ({
            let after = spec_visit(b, Node::FuncDef(name, params, rettype, body)).0;
            &&& after.ftable.contains_key(name@)
            &&& after.ftable[name@] matches Either::Right(f) && {
                &&& b.context.funcs.len() <= f.id < after.context.funcs.len()
                &&& args_match(args, after.context.body(f).params) ==> {
                    let (called, r) = after.call(name@, args);
                    &&& r is Ok
                    &&& called.context.body(after.main).insns.last() == (Insn::Call {
                        dst: r->Ok_0.handle,
                        callee: f.id,
                    })
                }
            }
        }),
{
    let def = Node::FuncDef(name, params, rettype, body);
    let entered = b.enter(
        name@,
        params@,
        param_types(b.types, params@),
        type_named(b.types, rettype@)->0,
    );
    assert(entered.wf());
    lemma_visit_list_wf(entered, body@, 0, Seq::empty());
    lemma_visit_list_ftable(entered, body@, 0, Seq::empty());
    let (b1, r1) = spec_visit_list(entered, body@, 0, Seq::empty());
    assert(entered.ftable.contains_key(name@));
    assert(b1.ftable.contains_key(name@));
    let after = spec_visit(b, def).0;
    assert(after.ftable == b1.ftable);
    assert(after.context.funcs.len() == b1.context.funcs.len());
    lemma_visit_wf(b, def);
}

/// A function is in the function table while its own body is compiled, so
/// that the body can call it: in the state in which the body of a
/// definition begins, the name stands for the function being defined.
pub proof fn law_visible_in_own_body(
    b: BuilderModel,
    name: Seq<char>,
    params: Seq<(String, String)>,
    argtypes: Seq<Type>,
    ret: Type,
)
    ensures
        b.enter(name, params, argtypes, ret).ftable.contains_key(name),
        b.enter(name, params, argtypes, ret).ftable[name] == Either::<NativeModel, Function>::Right(
            b.enter(name, params, argtypes, ret).main,
        ),
{
}

/// A call whose arguments do not fit the parameters of the callee, in
/// number or in type, fails with `ArgumentTypeMismatch` and emits nothing,
/// whichever kind of callee it is.
pub proof fn law_argument_types(b: BuilderModel, name: Seq<char>, args: Seq<Value>)
    requires
        b.ftable.contains_key(name),
        !args_match(
            args,
            match b.ftable[name] {
                Either::Left(native) => native.argtypes,
                Either::Right(f) => b.context.body(f).params,
            },
        ),
    ensures
        b.call(name, args) == b.fail(CompileError::ArgumentTypeMismatch),
{
}

/// An `if` whose condition compiles to a value that is not a boolean fails
/// with `ConditionNotBoolean`, and neither branch is compiled.
pub proof fn law_condition_type(b: BuilderModel, cond: Node, then: Node, other: Node)
    requires
        spec_visit(b, cond).1 matches Ok(v) && v.ty != Type::bool(),
    ensures
        spec_visit(b, Node::If(Box::new(cond), Box::new(then), Box::new(other))) == spec_visit(
            b,
            cond,
        ).0.fail(CompileError::ConditionNotBoolean),
{
}

} // verus!
