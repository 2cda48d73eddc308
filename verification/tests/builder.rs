use either::Either;
use jitlang::codegen::{Builder, NativeFunc};
use jitlang::error::{CompileError, ExecError};
use jitlang::ir::{Insn, Slot, SlotKind};
use jitlang::lowering::PRINTINT;
use jitlang::myast::{Node, Op};
use jitlang::types::TypeRegistry;
use jitlang::wrapper::{Function, Type, Value};

fn num(i: i64) -> Node {
    Node::Number(i)
}

fn ident(name: &str) -> Node {
    Node::Ident(name.to_string())
}

#[test]
fn new_builder() {
    let b = Builder::new();
    assert_eq!(b.main, Function { id: 0, argc: 0 });
    assert_eq!(b.context.funcs.len(), 1);
    assert!(b.context.funcs[0].params.is_empty());
    assert_eq!(b.context.funcs[0].ret, Type::integer());
    assert!(b.context.funcs[0].insns.is_empty());
    assert!(b.context.funcs[0].slots.is_empty());
    assert!(b.vtable.is_empty());
    assert_eq!(b.ftable.len(), 1);
    match b.ftable.get("printint") {
        Some(Either::Left(native)) => {
            assert_eq!(native.entry, PRINTINT);
            assert_eq!(native.argtypes, vec![Type::integer()]);
            assert_eq!(native.ret, Type::void());
        }
        _ => panic!("printint is not a native function"),
    }
    assert_eq!(b.types.entries.len(), 3);
}

#[test]
fn builder_resolves_type_names() {
    let b = Builder::new();
    assert_eq!(b.get_type(&"int".to_string()), Ok(Type::integer()));
    assert_eq!(b.get_type(&"bool".to_string()), Ok(Type::bool()));
    assert_eq!(b.get_type(&"void".to_string()), Ok(Type::void()));
    assert_eq!(b.get_type(&"Int".to_string()), Err(CompileError::UnknownType));
    assert_eq!(b.get_type(&"".to_string()), Err(CompileError::UnknownType));
}

#[test]
fn visit_number_makes_a_constant() {
    let mut b = Builder::new();
    assert_eq!(b.visit(&num(9)), Ok(Value::new(0, Type::integer())));
    assert_eq!(
        b.context.funcs[0].slots,
        vec![Slot { ty: Type::integer(), kind: SlotKind::Const(9) }]
    );
    assert!(b.context.funcs[0].insns.is_empty());
}

#[test]
fn visit_comparison_converts_to_boolean() {
    let mut b = Builder::new();
    let r = b.visit(&Node::BinOp(Box::new(num(1)), Op::Lwt, Box::new(num(2))));
    assert_eq!(r, Ok(Value::new(3, Type::bool())));
    assert_eq!(
        b.context.funcs[0].insns,
        vec![
            Insn::Binary { op: jitlang::ir::BinaryOp::Lt, dst: 2, lhs: 0, rhs: 1 },
            Insn::Convert { dst: 3, src: 2, ty: Type::bool() },
        ]
    );
}

#[test]
fn visit_vardef_binds_and_gives_void() {
    let mut b = Builder::new();
    let r = b.visit(&Node::VarDef("x".to_string(), Box::new(num(4))));
    assert_eq!(r, Ok(Value::new(1, Type::void())));
    assert_eq!(b.vtable.get("x"), Some(&Value::new(0, Type::integer())));
    let r = b.visit(&ident("x"));
    assert_eq!(r, Ok(Value::new(2, Type::integer())));
    assert_eq!(b.context.funcs[0].insns, vec![Insn::Load { dst: 2, src: 0 }]);
}

#[test]
fn visit_ret_gives_an_integer_placeholder() {
    let mut b = Builder::new();
    let r = b.visit(&Node::Ret(Box::new(num(4))));
    assert_eq!(r, Ok(Value::new(1, Type::integer())));
    assert_eq!(b.context.funcs[0].insns, vec![Insn::Return { src: 0 }]);
}

#[test]
fn visit_if_lowers_to_a_jump_and_a_label() {
    let mut b = Builder::new();
    let cond = Node::BinOp(Box::new(num(1)), Op::Eql, Box::new(num(1)));
    let node = Node::If(
        Box::new(cond),
        Box::new(Node::Ret(Box::new(num(1)))),
        Box::new(Node::Ret(Box::new(num(0)))),
    );
    let r = b.visit(&node);
    assert_eq!(r, Ok(Value::new(8, Type::void())));
    assert_eq!(
        b.context.funcs[0].insns,
        vec![
            Insn::Binary { op: jitlang::ir::BinaryOp::Eq, dst: 2, lhs: 0, rhs: 1 },
            Insn::Convert { dst: 3, src: 2, ty: Type::bool() },
            Insn::BranchIfNot { cond: 3, label: 2 },
            Insn::Return { src: 4 },
            Insn::Mark { label: 2 },
            Insn::Return { src: 6 },
        ]
    );
}

#[test]
fn visit_funcdef_registers_and_restores() {
    let mut b = Builder::new();
    let def = Node::FuncDef(
        "id".to_string(),
        vec![("a".to_string(), "int".to_string())],
        "int".to_string(),
        vec![Node::Ret(Box::new(ident("a")))],
    );
    let r = b.visit(&def);
    assert_eq!(r, Ok(Value::new(0, Type::void())));
    assert_eq!(b.main, Function { id: 0, argc: 0 });
    assert_eq!(b.context.funcs.len(), 2);
    assert!(b.context.funcs[1].compiled);
    assert!(!b.context.funcs[0].compiled);
    assert_eq!(b.context.funcs[1].params, vec![Type::integer()]);
    assert_eq!(
        b.context.funcs[1].insns,
        vec![Insn::Load { dst: 1, src: 0 }, Insn::Return { src: 1 }]
    );
    match b.ftable.get("id") {
        Some(Either::Right(f)) => assert_eq!(*f, Function { id: 1, argc: 1 }),
        _ => panic!("id is not a compiled function"),
    }
    assert_eq!(b.vtable.len(), 1);
    assert_eq!(b.vtable.get("a"), Some(&Value::new(0, Type::integer())));
}

#[test]
fn failed_definition_leaves_the_builder_where_it_failed() {
    let mut b = Builder::new();
    let def = Node::FuncDef(
        "f".to_string(),
        vec![],
        "int".to_string(),
        vec![Node::Ret(Box::new(ident("nowhere")))],
    );
    assert_eq!(b.visit(&def), Err(CompileError::UndefinedVariable));
    assert_eq!(b.main, Function { id: 1, argc: 0 });
    assert!(!b.context.funcs[1].compiled);
    assert!(b.ftable.contains_key("f"));
}

#[test]
fn unknown_type_leaves_the_builder_unchanged() {
    let mut b = Builder::new();
    let def = Node::FuncDef(
        "f".to_string(),
        vec![("a".to_string(), "int".to_string()), ("b".to_string(), "long".to_string())],
        "int".to_string(),
        vec![],
    );
    assert_eq!(b.visit(&def), Err(CompileError::UnknownType));
    assert_eq!(b.context.funcs.len(), 1);
    assert!(!b.ftable.contains_key("f"));
    assert_eq!(b.main, Function { id: 0, argc: 0 });
}

#[test]
fn calls_to_native_and_compiled_functions() {
    let mut b = Builder::new();
    b.ftable.insert(
        "clock".to_string(),
        Either::Left(NativeFunc { entry: 5, argtypes: vec![], ret: Type::integer() }),
    );
    let r = b.visit(&Node::Call(vec![ident("clock")]));
    assert_eq!(r, Ok(Value::new(0, Type::integer())));
    let r = b.visit(&Node::Call(vec![ident("printint"), num(3)]));
    assert_eq!(r, Ok(Value::new(2, Type::void())));
    assert_eq!(
        b.context.funcs[0].insns,
        vec![
            Insn::CallNative { dst: 0, entry: 5 },
            Insn::Push { src: 1 },
            Insn::CallNative { dst: 2, entry: PRINTINT },
        ]
    );
}

#[test]
fn execute_finishes_and_runs() {
    let mut b = Builder::new();
    let v = b.visit(&Node::BinOp(Box::new(num(40)), Op::Add, Box::new(num(2)))).unwrap();
    b.main.i_return(&mut b.context, &v);
    assert_eq!(b.execute(), Ok(42));
    assert!(b.context.funcs[0].compiled);
    assert!(!b.context.building);
}

#[test]
fn execute_without_return() {
    let mut b = Builder::new();
    assert_eq!(b.execute(), Err(ExecError::MissingReturn));
}

#[test]
fn registry_has_the_builtin_types() {
    let r = TypeRegistry::new();
    let names: Vec<(&str, i32, Type)> =
        r.entries.iter().map(|d| (d.name.as_str(), d.index, d.backend_type)).collect();
    assert_eq!(
        names,
        vec![("void", 0, Type::void()), ("int", 1, Type::integer()), ("bool", 2, Type::bool())]
    );
    for d in &r.entries {
        assert_eq!(d.index, d.backend_type.index());
    }
}

#[test]
fn registry_resolves_by_name() {
    let r = TypeRegistry::new();
    let d = r.resolve(&"bool".to_string()).unwrap();
    assert_eq!(d.index, 2);
    assert_eq!(d.name, "bool");
    assert_eq!(d.backend_type, Type::bool());
    assert_eq!(r.resolve(&"boolean".to_string()).err(), Some(CompileError::UnknownType));
}

#[test]
fn registry_keeps_one_descriptor_per_name() {
    let mut r = TypeRegistry::new();
    assert!(r.register("word".to_string(), Type::integer(), 3));
    assert_eq!(r.entries.len(), 4);
    assert_eq!(r.resolve(&"word".to_string()).unwrap().index, 3);
    assert!(!r.register("word".to_string(), Type::bool(), 4));
    assert!(!r.register("int".to_string(), Type::bool(), 9));
    assert_eq!(r.entries.len(), 4);
    assert_eq!(r.resolve(&"word".to_string()).unwrap().backend_type, Type::integer());
    assert_eq!(r.resolve(&"int".to_string()).unwrap().index, 1);
}

#[test]
fn registered_type_is_usable_in_signatures() {
    let mut b = Builder::new();
    assert!(b.types.register("word".to_string(), Type::integer(), 3));
    let def = Node::FuncDef(
        "f".to_string(),
        vec![("a".to_string(), "word".to_string())],
        "word".to_string(),
        vec![Node::Ret(Box::new(ident("a")))],
    );
    assert!(b.visit(&def).is_ok());
    let r = b.visit(&Node::Call(vec![ident("f"), num(1)]));
    assert_eq!(r.map(|v| v.get_type()), Ok(Type::integer()));
}
