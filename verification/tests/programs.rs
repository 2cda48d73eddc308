use jitlang::codegen::{compile_and_run, compile_program};
use jitlang::error::{CompileError, Error, ExecError};
use jitlang::ir::{BinaryOp, Insn, Slot, SlotKind};
use jitlang::myast::{Node, Op};
use jitlang::wrapper::Type;

fn num(i: i64) -> Node {
    Node::Number(i)
}

fn ident(name: &str) -> Node {
    Node::Ident(name.to_string())
}

fn binop(l: Node, op: Op, r: Node) -> Node {
    Node::BinOp(Box::new(l), op, Box::new(r))
}

fn ret(n: Node) -> Node {
    Node::Ret(Box::new(n))
}

fn var(name: &str, init: Node) -> Node {
    Node::VarDef(name.to_string(), Box::new(init))
}

fn call(name: &str, args: Vec<Node>) -> Node {
    let mut list = vec![ident(name)];
    list.extend(args);
    Node::Call(list)
}

fn if_else(c: Node, t: Node, e: Node) -> Node {
    Node::If(Box::new(c), Box::new(t), Box::new(e))
}

fn func(name: &str, params: &[(&str, &str)], rettype: &str, body: Vec<Node>) -> Node {
    Node::FuncDef(
        name.to_string(),
        params.iter().map(|(n, t)| (n.to_string(), t.to_string())).collect(),
        rettype.to_string(),
        body,
    )
}

fn run_binop(a: i64, op: Op, b: i64) -> Result<i32, Error> {
    compile_and_run(&vec![ret(binop(num(a), op, num(b)))])
}

#[test]
fn return_literal() {
    assert_eq!(compile_and_run(&vec![ret(num(42))]), Ok(42));
}

#[test]
fn empty_program_returns_zero() {
    assert_eq!(compile_and_run(&vec![]), Ok(0));
}

#[test]
fn result_is_the_low_32_bits() {
    assert_eq!(compile_and_run(&vec![ret(num((1i64 << 32) + 5))]), Ok(5));
    assert_eq!(compile_and_run(&vec![ret(num(-1))]), Ok(-1));
    assert_eq!(compile_and_run(&vec![ret(num(i64::from(i32::MAX) + 1))]), Ok(i32::MIN));
}

#[test]
fn arithmetic_on_literals() {
    assert_eq!(run_binop(2, Op::Add, 3), Ok(5));
    assert_eq!(run_binop(7, Op::Sub, 10), Ok(-3));
    assert_eq!(run_binop(6, Op::Mul, 7), Ok(42));
    assert_eq!(run_binop(-4, Op::Mul, 5), Ok(-20));
}

#[test]
fn arithmetic_wraps_at_64_bits() {
    // i64::MAX + 1 wraps to i64::MIN, whose low 32 bits are zero.
    assert_eq!(run_binop(i64::MAX, Op::Add, 1), Ok(0));
    assert_eq!(run_binop(i64::MIN, Op::Sub, 1), Ok(-1));
    assert_eq!(run_binop(1i64 << 62, Op::Mul, 4), Ok(0));
}

#[test]
fn comparisons_give_one_or_zero() {
    assert_eq!(run_binop(3, Op::Eql, 3), Ok(1));
    assert_eq!(run_binop(3, Op::Eql, 4), Ok(0));
    assert_eq!(run_binop(3, Op::Neq, 4), Ok(1));
    assert_eq!(run_binop(3, Op::Neq, 3), Ok(0));
    assert_eq!(run_binop(-1, Op::Lwt, 0), Ok(1));
    assert_eq!(run_binop(0, Op::Lwt, 0), Ok(0));
    assert_eq!(run_binop(0, Op::Lwe, 0), Ok(1));
    assert_eq!(run_binop(1, Op::Lwe, 0), Ok(0));
    assert_eq!(run_binop(5, Op::Grt, 4), Ok(1));
    assert_eq!(run_binop(4, Op::Grt, 4), Ok(0));
    assert_eq!(run_binop(4, Op::Gre, 4), Ok(1));
    assert_eq!(run_binop(3, Op::Gre, 4), Ok(0));
}

#[test]
fn comparison_is_signed() {
    assert_eq!(run_binop(i64::MIN, Op::Lwt, i64::MAX), Ok(1));
    assert_eq!(run_binop(-1, Op::Grt, 1), Ok(0));
}

#[test]
fn logical_operators_on_booleans() {
    let t = || binop(num(1), Op::Eql, num(1));
    let f = || binop(num(1), Op::Eql, num(2));
    assert_eq!(compile_and_run(&vec![ret(binop(t(), Op::And, t()))]), Ok(1));
    assert_eq!(compile_and_run(&vec![ret(binop(t(), Op::And, f()))]), Ok(0));
    assert_eq!(compile_and_run(&vec![ret(binop(f(), Op::And, t()))]), Ok(0));
    assert_eq!(compile_and_run(&vec![ret(binop(f(), Op::And, f()))]), Ok(0));
    assert_eq!(compile_and_run(&vec![ret(binop(t(), Op::Or, t()))]), Ok(1));
    assert_eq!(compile_and_run(&vec![ret(binop(t(), Op::Or, f()))]), Ok(1));
    assert_eq!(compile_and_run(&vec![ret(binop(f(), Op::Or, t()))]), Ok(1));
    assert_eq!(compile_and_run(&vec![ret(binop(f(), Op::Or, f()))]), Ok(0));
}

#[test]
fn logical_operator_on_integers_is_a_type_mismatch() {
    assert_eq!(run_binop(1, Op::And, 0), Err(Error::Compile(CompileError::TypeMismatch)));
    assert_eq!(run_binop(1, Op::Or, 0), Err(Error::Compile(CompileError::TypeMismatch)));
}

#[test]
fn arithmetic_on_booleans_is_a_type_mismatch() {
    let t = || binop(num(1), Op::Eql, num(1));
    for op in [Op::Add, Op::Sub, Op::Mul, Op::Eql, Op::Neq, Op::Lwt, Op::Lwe, Op::Grt, Op::Gre] {
        assert_eq!(
            compile_and_run(&vec![ret(binop(t(), op, t()))]),
            Err(Error::Compile(CompileError::TypeMismatch))
        );
    }
}

#[test]
fn mixed_operands_are_a_type_mismatch() {
    let t = || binop(num(1), Op::Eql, num(1));
    assert_eq!(
        compile_and_run(&vec![ret(binop(t(), Op::Add, num(1)))]),
        Err(Error::Compile(CompileError::TypeMismatch))
    );
    assert_eq!(
        compile_and_run(&vec![ret(binop(num(1), Op::And, t()))]),
        Err(Error::Compile(CompileError::TypeMismatch))
    );
    assert_eq!(
        compile_and_run(&vec![ret(binop(num(1), Op::Div, t()))]),
        Err(Error::Compile(CompileError::TypeMismatch))
    );
}

#[test]
fn void_operands_are_a_type_mismatch() {
    let program = vec![ret(binop(call("printint", vec![num(1)]), Op::Add, num(1)))];
    assert_eq!(compile_and_run(&program), Err(Error::Compile(CompileError::TypeMismatch)));
}

#[test]
fn division_is_unsupported() {
    assert_eq!(run_binop(6, Op::Div, 3), Err(Error::Compile(CompileError::Unsupported)));
    let t = || binop(num(1), Op::Eql, num(1));
    assert_eq!(
        compile_and_run(&vec![ret(binop(t(), Op::Div, t()))]),
        Err(Error::Compile(CompileError::Unsupported))
    );
}

#[test]
fn string_literal_is_unsupported() {
    let program = vec![Node::StrLiteral("text".to_string())];
    assert_eq!(compile_and_run(&program), Err(Error::Compile(CompileError::Unsupported)));
}

#[test]
fn empty_statement_is_unsupported() {
    assert_eq!(compile_and_run(&vec![Node::Empty]), Err(Error::Compile(CompileError::Unsupported)));
}

#[test]
fn variables_are_read_back() {
    let program = vec![
        var("x", num(40)),
        var("y", binop(ident("x"), Op::Add, num(2))),
        ret(ident("y")),
    ];
    assert_eq!(compile_and_run(&program), Ok(42));
}

#[test]
fn rebinding_replaces_the_binding() {
    let program = vec![var("x", num(1)), var("x", num(2)), ret(ident("x"))];
    assert_eq!(compile_and_run(&program), Ok(2));
}

#[test]
fn undefined_variable() {
    assert_eq!(
        compile_and_run(&vec![ret(ident("nowhere"))]),
        Err(Error::Compile(CompileError::UndefinedVariable))
    );
}

#[test]
fn function_returns_the_sum_of_its_arguments() {
    let program = vec![
        func(
            "plus",
            &[("a", "int"), ("b", "int")],
            "int",
            vec![ret(binop(ident("a"), Op::Add, ident("b")))],
        ),
        ret(call("plus", vec![num(19), num(23)])),
    ];
    assert_eq!(compile_and_run(&program), Ok(42));
}

#[test]
fn boolean_argument_for_integer_parameter() {
    let program = vec![
        func(
            "plus",
            &[("a", "int"), ("b", "int")],
            "int",
            vec![ret(binop(ident("a"), Op::Add, ident("b")))],
        ),
        ret(call("plus", vec![num(19), binop(num(1), Op::Eql, num(1))])),
    ];
    assert_eq!(compile_and_run(&program), Err(Error::Compile(CompileError::ArgumentTypeMismatch)));
}

#[test]
fn wrong_number_of_arguments() {
    let def = || {
        func("one", &[("a", "int")], "int", vec![ret(ident("a"))])
    };
    assert_eq!(
        compile_and_run(&vec![def(), ret(call("one", vec![]))]),
        Err(Error::Compile(CompileError::ArgumentTypeMismatch))
    );
    assert_eq!(
        compile_and_run(&vec![def(), ret(call("one", vec![num(1), num(2)]))]),
        Err(Error::Compile(CompileError::ArgumentTypeMismatch))
    );
}

#[test]
fn boolean_parameters_and_results() {
    let program = vec![
        func(
            "both",
            &[("p", "bool"), ("q", "bool")],
            "bool",
            vec![ret(binop(ident("p"), Op::And, ident("q")))],
        ),
        if_else(
            call(
                "both",
                vec![binop(num(1), Op::Lwt, num(2)), binop(num(2), Op::Lwt, num(3))],
            ),
            ret(num(10)),
            ret(num(20)),
        ),
    ];
    assert_eq!(compile_and_run(&program), Ok(10));
}

#[test]
fn direct_recursion() {
    // sum(n) = 0 if n == 0, else n + sum(n - 1)
    let program = vec![
        func(
            "sum",
            &[("n", "int")],
            "int",
            vec![if_else(
                binop(ident("n"), Op::Eql, num(0)),
                ret(num(0)),
                ret(binop(
                    ident("n"),
                    Op::Add,
                    call("sum", vec![binop(ident("n"), Op::Sub, num(1))]),
                )),
            )],
        ),
        ret(call("sum", vec![num(10)])),
    ];
    assert_eq!(compile_and_run(&program), Ok(55));
}

#[test]
fn recursion_of_factorial() {
    let program = vec![
        func(
            "fact",
            &[("n", "int")],
            "int",
            vec![if_else(
                binop(ident("n"), Op::Lwe, num(1)),
                ret(num(1)),
                ret(binop(
                    ident("n"),
                    Op::Mul,
                    call("fact", vec![binop(ident("n"), Op::Sub, num(1))]),
                )),
            )],
        ),
        ret(call("fact", vec![num(10)])),
    ];
    assert_eq!(compile_and_run(&program), Ok(3628800));
}

#[test]
fn endless_recursion_runs_out_of_steps() {
    let program = vec![
        func("forever", &[], "int", vec![ret(call("forever", vec![]))]),
        ret(call("forever", vec![])),
    ];
    assert_eq!(compile_and_run(&program), Err(Error::Exec(ExecError::OutOfSteps)));
}

#[test]
fn if_at_top_level() {
    let program = |c: Node| vec![if_else(c, ret(num(1)), ret(num(0)))];
    assert_eq!(compile_and_run(&program(binop(num(3), Op::Lwt, num(4)))), Ok(1));
    assert_eq!(compile_and_run(&program(binop(num(4), Op::Lwt, num(3)))), Ok(0));
}

#[test]
fn if_condition_must_be_boolean() {
    let program = vec![if_else(num(1), ret(num(1)), ret(num(0)))];
    assert_eq!(compile_and_run(&program), Err(Error::Compile(CompileError::ConditionNotBoolean)));
}

#[test]
fn if_without_else_branch() {
    let program = |c: Node| vec![if_else(c, ret(num(1)), Node::Empty), ret(num(2))];
    assert_eq!(compile_and_run(&program(binop(num(1), Op::Eql, num(1)))), Ok(1));
    assert_eq!(compile_and_run(&program(binop(num(1), Op::Eql, num(2)))), Ok(2));
}

#[test]
fn empty_then_branch_is_unsupported() {
    let program = vec![if_else(binop(num(1), Op::Eql, num(1)), Node::Empty, ret(num(0)))];
    assert_eq!(compile_and_run(&program), Err(Error::Compile(CompileError::Unsupported)));
}

#[test]
fn first_branch_falls_through_into_the_second() {
    // Without a return, control runs from the first branch on into the
    // second: `x` is bound twice and the second binding is read.
    let program = vec![
        if_else(binop(num(1), Op::Eql, num(1)), var("x", num(1)), var("x", num(2))),
        ret(ident("x")),
    ];
    assert_eq!(compile_and_run(&program), Ok(2));
}

#[test]
fn redefinition_replaces_the_function() {
    let program = vec![
        func("f", &[], "int", vec![ret(num(1))]),
        var("before", call("f", vec![])),
        func("f", &[], "int", vec![ret(num(2))]),
        var("after", call("f", vec![])),
        ret(binop(binop(ident("before"), Op::Mul, num(10)), Op::Add, ident("after"))),
    ];
    // The symbol table is cleared by the second definition, so `before` is gone.
    assert_eq!(compile_and_run(&program), Err(Error::Compile(CompileError::UndefinedVariable)));
    let program = vec![
        func("f", &[], "int", vec![ret(num(1))]),
        func("f", &[], "int", vec![ret(num(2))]),
        ret(call("f", vec![])),
    ];
    assert_eq!(compile_and_run(&program), Ok(2));
}

#[test]
fn redefinition_may_change_the_signature() {
    let program = vec![
        func("f", &[], "int", vec![ret(num(1))]),
        func("f", &[("a", "int")], "int", vec![ret(ident("a"))]),
        ret(call("f", vec![num(7)])),
    ];
    assert_eq!(compile_and_run(&program), Ok(7));
    let program = vec![
        func("f", &[], "int", vec![ret(num(1))]),
        func("f", &[("a", "int")], "int", vec![ret(ident("a"))]),
        ret(call("f", vec![])),
    ];
    assert_eq!(compile_and_run(&program), Err(Error::Compile(CompileError::ArgumentTypeMismatch)));
}

#[test]
fn user_function_shadows_native() {
    let program = vec![
        func("printint", &[("a", "int")], "int", vec![ret(binop(ident("a"), Op::Add, num(1)))]),
        ret(call("printint", vec![num(1)])),
    ];
    assert_eq!(compile_and_run(&program), Ok(2));
}

#[test]
fn native_call_gives_void() {
    let program = vec![call("printint", vec![num(5)]), ret(num(3))];
    assert_eq!(compile_and_run(&program), Ok(3));
    let program = vec![call("printint", vec![binop(num(1), Op::Eql, num(1))])];
    assert_eq!(compile_and_run(&program), Err(Error::Compile(CompileError::ArgumentTypeMismatch)));
}

#[test]
fn undefined_function() {
    assert_eq!(
        compile_and_run(&vec![ret(call("nothing", vec![]))]),
        Err(Error::Compile(CompileError::UndefinedFunction))
    );
}

#[test]
fn arguments_are_compiled_before_the_callee_is_looked_up() {
    assert_eq!(
        compile_and_run(&vec![ret(call("nothing", vec![ident("nowhere")]))]),
        Err(Error::Compile(CompileError::UndefinedVariable))
    );
}

#[test]
fn invalid_call_target() {
    assert_eq!(
        compile_and_run(&vec![Node::Call(vec![num(1), num(2)])]),
        Err(Error::Compile(CompileError::InvalidCallTarget))
    );
    assert_eq!(
        compile_and_run(&vec![Node::Call(vec![])]),
        Err(Error::Compile(CompileError::InvalidCallTarget))
    );
}

#[test]
fn unknown_type_names() {
    assert_eq!(
        compile_and_run(&vec![func("f", &[("a", "float")], "int", vec![ret(num(1))])]),
        Err(Error::Compile(CompileError::UnknownType))
    );
    assert_eq!(
        compile_and_run(&vec![func("f", &[("a", "int")], "string", vec![ret(num(1))])]),
        Err(Error::Compile(CompileError::UnknownType))
    );
}

#[test]
fn function_body_does_not_see_outer_variables() {
    let program = vec![
        var("x", num(1)),
        func("f", &[], "int", vec![ret(ident("x"))]),
    ];
    assert_eq!(compile_and_run(&program), Err(Error::Compile(CompileError::UndefinedVariable)));
}

#[test]
fn symbol_table_is_not_restored_after_a_definition() {
    // After the definition the table holds the parameter `a`, bound to slot 0
    // of the function. Read in the entry function, slot 0 is the constant zero.
    let program = vec![
        var("x", num(5)),
        func("f", &[("a", "int")], "int", vec![ret(ident("a"))]),
        ret(ident("a")),
    ];
    assert_eq!(compile_and_run(&program), Ok(0));
    let program = vec![
        var("x", num(5)),
        func("f", &[("a", "int")], "int", vec![ret(ident("a"))]),
        ret(ident("x")),
    ];
    assert_eq!(compile_and_run(&program), Err(Error::Compile(CompileError::UndefinedVariable)));
}

#[test]
fn nested_definition_restores_the_current_function() {
    let program = vec![
        func(
            "outer",
            &[("a", "int")],
            "int",
            vec![
                func("inner", &[("b", "int")], "int", vec![ret(binop(ident("b"), Op::Mul, num(2)))]),
                ret(call("inner", vec![num(21)])),
            ],
        ),
        ret(call("outer", vec![num(0)])),
    ];
    assert_eq!(compile_and_run(&program), Ok(42));
}

#[test]
fn later_parameter_of_the_same_name_wins() {
    let program = vec![
        func("f", &[("a", "int"), ("a", "int")], "int", vec![ret(ident("a"))]),
        ret(call("f", vec![num(1), num(2)])),
    ];
    assert_eq!(compile_and_run(&program), Ok(2));
}

#[test]
fn function_without_return_has_no_result() {
    let program = vec![
        func("f", &[], "int", vec![var("x", num(1))]),
        ret(call("f", vec![])),
    ];
    assert_eq!(compile_and_run(&program), Err(Error::Exec(ExecError::MissingReturn)));
}

#[test]
fn compiled_sum_has_the_expected_instructions() {
    let builder = compile_program(&vec![ret(binop(num(2), Op::Add, num(3)))]).unwrap();
    let body = &builder.context.funcs[builder.main.id];
    assert_eq!(
        body.insns,
        vec![
            Insn::Binary { op: BinaryOp::Add, dst: 3, lhs: 1, rhs: 2 },
            Insn::Return { src: 3 },
            Insn::Return { src: 4 },
        ]
    );
    assert_eq!(
        body.slots,
        vec![
            Slot { ty: Type::integer(), kind: SlotKind::Const(0) },
            Slot { ty: Type::integer(), kind: SlotKind::Const(2) },
            Slot { ty: Type::integer(), kind: SlotKind::Const(3) },
            Slot { ty: Type::integer(), kind: SlotKind::Temp },
            Slot { ty: Type::integer(), kind: SlotKind::Const(0) },
        ]
    );
}

#[test]
fn compile_program_reports_the_first_error() {
    let program = vec![ret(ident("a")), Node::StrLiteral("s".to_string())];
    assert_eq!(compile_program(&program).err(), Some(CompileError::UndefinedVariable));
}

#[test]
fn copy_of_a_tree_compiles_alike() {
    let program = vec![
        func(
            "sum",
            &[("n", "int")],
            "int",
            vec![if_else(
                binop(ident("n"), Op::Eql, num(0)),
                ret(num(0)),
                ret(binop(
                    ident("n"),
                    Op::Add,
                    call("sum", vec![binop(ident("n"), Op::Sub, num(1))]),
                )),
            )],
        ),
        var("text", Node::Number(3)),
        ret(call("sum", vec![ident("text")])),
    ];
    let copy: Vec<Node> = program.iter().map(|n| n.clone()).collect();
    let a = compile_program(&program).unwrap();
    let b = compile_program(&copy).unwrap();
    assert_eq!(a.context.funcs.len(), b.context.funcs.len());
    for (x, y) in a.context.funcs.iter().zip(b.context.funcs.iter()) {
        assert_eq!(x.insns, y.insns);
        assert_eq!(x.slots, y.slots);
        assert_eq!(x.params, y.params);
        assert_eq!(x.ret, y.ret);
    }
    assert_eq!(compile_and_run(&copy), Ok(6));
    assert_eq!(format!("{:?}", program), format!("{:?}", copy));
}

#[test]
fn statements_run_in_order() {
    // let a = 6; let b = a * 7; b - a; return b + a; return 0;
    let program = vec![
        var("a", num(6)),
        var("b", binop(ident("a"), Op::Mul, num(7))),
        binop(ident("b"), Op::Sub, ident("a")),
        ret(binop(ident("b"), Op::Add, ident("a"))),
        ret(num(0)),
    ];
    assert_eq!(compile_and_run(&program), Ok(48));
}

#[test]
fn program_without_return_gives_its_last_value() {
    assert_eq!(compile_and_run(&vec![binop(num(4), Op::Mul, num(5))]), Ok(20));
    assert_eq!(compile_and_run(&vec![binop(num(4), Op::Lwt, num(5))]), Ok(1));
    assert_eq!(compile_and_run(&vec![num(9), var("x", num(4))]), Ok(0));
}

#[test]
fn statements_behind_a_return_are_still_checked() {
    let program = vec![ret(num(1)), ret(binop(num(1), Op::And, num(2)))];
    assert_eq!(compile_and_run(&program), Err(Error::Compile(CompileError::TypeMismatch)));
}

#[test]
fn nested_expression() {
    // (1 + 2) * (10 - 4) == 18 && 3 < 4
    let e = binop(
        binop(
            binop(binop(num(1), Op::Add, num(2)), Op::Mul, binop(num(10), Op::Sub, num(4))),
            Op::Eql,
            num(18),
        ),
        Op::And,
        binop(num(3), Op::Lwt, num(4)),
    );
    assert_eq!(compile_and_run(&vec![ret(e)]), Ok(1));
}

#[test]
fn left_operand_is_checked_first() {
    let e = binop(ident("nowhere"), Op::Add, binop(num(1), Op::And, num(2)));
    assert_eq!(compile_and_run(&vec![ret(e)]), Err(Error::Compile(CompileError::UndefinedVariable)));
    let e = binop(binop(num(1), Op::And, num(2)), Op::Add, ident("nowhere"));
    assert_eq!(compile_and_run(&vec![ret(e)]), Err(Error::Compile(CompileError::TypeMismatch)));
}

#[test]
fn call_by_a_redefined_name_gives_the_second_result() {
    let program = |r1: i64, r2: i64| {
        vec![
            func("f", &[], "int", vec![ret(num(r1))]),
            func("f", &[], "int", vec![ret(num(r2))]),
            ret(call("f", vec![])),
        ]
    };
    assert_eq!(compile_and_run(&program(1, 2)), Ok(2));
    assert_eq!(compile_and_run(&program(-5, (3i64 << 32) + 7)), Ok(7));
    let built = compile_program(&program(1, 2)).unwrap();
    assert_eq!(
        built.context.funcs[0].insns,
        vec![
            Insn::Call { dst: 3, callee: 2 },
            Insn::Return { src: 3 },
            Insn::Return { src: 4 },
        ]
    );
}

#[test]
fn sum_by_recursion() {
    let program = |n: i64| {
        vec![
            func(
                "sum",
                &[("p", "int")],
                "int",
                vec![if_else(
                    binop(ident("p"), Op::Eql, num(0)),
                    ret(num(0)),
                    ret(binop(
                        ident("p"),
                        Op::Add,
                        call("sum", vec![binop(ident("p"), Op::Sub, num(1))]),
                    )),
                )],
            ),
            ret(call("sum", vec![num(n)])),
        ]
    };
    assert_eq!(compile_and_run(&program(0)), Ok(0));
    assert_eq!(compile_and_run(&program(1)), Ok(1));
    assert_eq!(compile_and_run(&program(100)), Ok(5050));
    assert_eq!(compile_and_run(&program(80000)), Ok(3_200_040_000i64 as i32));
    // One step more than the limit allows.
    assert_eq!(compile_and_run(&program(83333)), Err(Error::Exec(ExecError::OutOfSteps)));
    assert_eq!(compile_and_run(&program(83332)), Ok((83332i64 * 83333 / 2) as i32));
}

#[test]
fn guarded_returns() {
    // let x = 0 - 7; if (x < 0) { return 0 - x; } return x;
    let program = |x: i64| {
        vec![
            var("x", binop(num(0), Op::Sub, num(x))),
            if_else(
                binop(ident("x"), Op::Lwt, num(0)),
                ret(binop(num(0), Op::Sub, ident("x"))),
                Node::Empty,
            ),
            ret(ident("x")),
        ]
    };
    assert_eq!(compile_and_run(&program(7)), Ok(7));
    assert_eq!(compile_and_run(&program(-7)), Ok(7));
    // Two guards in a row, the second with both branches.
    let sign = |x: i64| {
        vec![
            if_else(binop(num(x), Op::Lwt, num(0)), ret(num(-1)), Node::Empty),
            if_else(binop(num(x), Op::Eql, num(0)), ret(num(0)), ret(num(1))),
        ]
    };
    assert_eq!(compile_and_run(&sign(-9)), Ok(-1));
    assert_eq!(compile_and_run(&sign(0)), Ok(0));
    assert_eq!(compile_and_run(&sign(9)), Ok(1));
}

#[test]
fn guard_that_does_not_return_gives_zero() {
    let program = vec![num(5), if_else(binop(num(1), Op::Eql, num(2)), ret(num(3)), Node::Empty)];
    assert_eq!(compile_and_run(&program), Ok(0));
}

#[test]
fn branches_of_a_guard_are_checked() {
    let bad = || binop(num(1), Op::And, num(2));
    let t = || binop(num(1), Op::Eql, num(1));
    assert_eq!(
        compile_and_run(&vec![if_else(t(), ret(bad()), ret(num(0)))]),
        Err(Error::Compile(CompileError::TypeMismatch))
    );
    assert_eq!(
        compile_and_run(&vec![if_else(t(), ret(num(0)), ret(ident("y")))]),
        Err(Error::Compile(CompileError::UndefinedVariable))
    );
    assert_eq!(
        compile_and_run(&vec![if_else(bad(), ret(ident("y")), ret(num(0)))]),
        Err(Error::Compile(CompileError::TypeMismatch))
    );
}
