use jitlang::error::ExecError;
use jitlang::ir::{BinaryOp, Insn, Slot, SlotKind};
use jitlang::machine::STEP_LIMIT;
use jitlang::wrapper::{Context, Function, Kind, Label, Type, Value};

fn context_with_entry() -> (Context, Function) {
    let mut ctx = Context::new();
    let f = ctx.new_function(&[], Type::integer());
    (ctx, f)
}

#[test]
fn type_tags() {
    assert!(Type::integer().is_int());
    assert!(!Type::integer().is_bool());
    assert!(!Type::integer().is_void());
    assert!(Type::bool().is_bool());
    assert!(!Type::bool().is_int());
    assert!(Type::void().is_void());
    assert!(!Type::void().is_int());
    assert_eq!(Type::integer().kind, Kind::Int);
    assert_eq!(Type::bool().kind, Kind::Bool);
    assert_eq!(Type::void().kind, Kind::Void);
}

#[test]
fn type_indices() {
    assert_eq!(Type::void().index(), 0);
    assert_eq!(Type::integer().index(), 1);
    assert_eq!(Type::bool().index(), 2);
}

#[test]
fn normalize_by_type() {
    assert_eq!(Type::integer().normalize(-7), -7);
    assert_eq!(Type::integer().normalize(i64::MAX), i64::MAX);
    assert_eq!(Type::bool().normalize(0), 0);
    assert_eq!(Type::bool().normalize(1), 1);
    assert_eq!(Type::bool().normalize(256), 1);
    assert_eq!(Type::bool().normalize(-1), 1);
    assert_eq!(Type::void().normalize(5), 0);
}

#[test]
fn signature_holds_params_and_return_type() {
    let s = Type::create_signature(&[Type::integer(), Type::bool()], Type::void());
    assert_eq!(s.params, vec![Type::integer(), Type::bool()]);
    assert_eq!(s.ret, Type::void());
    let empty = Type::create_signature(&[], Type::integer());
    assert!(empty.params.is_empty());
    assert_eq!(empty.ret, Type::integer());
}

#[test]
fn binary_op_words() {
    assert_eq!(BinaryOp::Add.apply(2, 3), 5);
    assert_eq!(BinaryOp::Add.apply(i64::MAX, 1), i64::MIN);
    assert_eq!(BinaryOp::Sub.apply(i64::MIN, 1), i64::MAX);
    assert_eq!(BinaryOp::Mul.apply(i64::MAX, 2), -2);
    assert_eq!(BinaryOp::Eq.apply(1, 1), 1);
    assert_eq!(BinaryOp::Ne.apply(1, 1), 0);
    assert_eq!(BinaryOp::Lt.apply(-1, 0), 1);
    assert_eq!(BinaryOp::Le.apply(1, 0), 0);
    assert_eq!(BinaryOp::Gt.apply(1, 0), 1);
    assert_eq!(BinaryOp::Ge.apply(0, 0), 1);
    assert_eq!(BinaryOp::And.apply(2, 4), 1);
    assert_eq!(BinaryOp::And.apply(2, 0), 0);
    assert_eq!(BinaryOp::Or.apply(0, 0), 0);
    assert_eq!(BinaryOp::Or.apply(0, -3), 1);
}

#[test]
fn binary_op_result_types() {
    assert_eq!(BinaryOp::Add.result_type(), Type::integer());
    assert_eq!(BinaryOp::Lt.result_type(), Type::integer());
    assert_eq!(BinaryOp::And.result_type(), Type::bool());
    assert_eq!(BinaryOp::Or.result_type(), Type::bool());
}

#[test]
fn new_context_is_building_and_empty() {
    let ctx = Context::new();
    assert!(ctx.funcs.is_empty());
    assert!(ctx.building);
    assert_eq!(ctx.cursor, None);
}

#[test]
fn finish_ends_the_build() {
    let mut ctx = Context::new();
    ctx.finish();
    assert!(!ctx.building);
}

#[test]
fn new_function_starts_with_its_parameters() {
    let mut ctx = Context::new();
    let f = ctx.new_function(&[Type::integer(), Type::bool()], Type::bool());
    assert_eq!(f, Function { id: 0, argc: 2 });
    let g = ctx.new_function(&[], Type::void());
    assert_eq!(g, Function { id: 1, argc: 0 });
    assert_eq!(ctx.funcs.len(), 2);
    assert_eq!(ctx.funcs[0].params, vec![Type::integer(), Type::bool()]);
    assert_eq!(ctx.funcs[0].ret, Type::bool());
    assert_eq!(
        ctx.funcs[0].slots,
        vec![
            Slot { ty: Type::integer(), kind: SlotKind::Param },
            Slot { ty: Type::bool(), kind: SlotKind::Param },
        ]
    );
    assert!(ctx.funcs[0].insns.is_empty());
    assert!(!ctx.funcs[0].compiled);
    assert_eq!(
        f.get_params(&ctx),
        vec![Value::new(0, Type::integer()), Value::new(1, Type::bool())]
    );
    assert!(g.get_params(&ctx).is_empty());
}

#[test]
fn compile_marks_the_function() {
    let (mut ctx, f) = context_with_entry();
    let g = ctx.new_function(&[], Type::void());
    assert_eq!(f.compile(&mut ctx), 1);
    assert!(ctx.funcs[f.id].compiled);
    assert!(!ctx.funcs[g.id].compiled);
}

#[test]
fn walk_over_the_functions() {
    let mut ctx = Context::new();
    assert_eq!(ctx.next(), None);
    let f = ctx.new_function(&[Type::integer()], Type::integer());
    let g = ctx.new_function(&[], Type::void());
    assert_eq!(ctx.next(), Some(f));
    assert_eq!(ctx.next(), Some(g));
    assert_eq!(ctx.next(), None);
    assert_eq!(ctx.next(), Some(f));
}

#[test]
fn values_and_constants() {
    let (mut ctx, f) = context_with_entry();
    let a = Value::constant_long(&mut ctx, &f, 7);
    assert_eq!(a, Value::new(0, Type::integer()));
    assert_eq!(a.get_type(), Type::integer());
    let v = Value::constant_void(&mut ctx, &f);
    assert_eq!(v, Value::new(1, Type::void()));
    let t = Value::constant(&mut ctx, &f, Type::bool(), 9);
    assert_eq!(t, Value::new(2, Type::bool()));
    let c = Value::create(&mut ctx, &f, &Type::integer());
    assert_eq!(c, Value::new(3, Type::integer()));
    assert_eq!(
        ctx.funcs[f.id].slots,
        vec![
            Slot { ty: Type::integer(), kind: SlotKind::Const(7) },
            Slot { ty: Type::void(), kind: SlotKind::Const(0) },
            Slot { ty: Type::bool(), kind: SlotKind::Const(1) },
            Slot { ty: Type::integer(), kind: SlotKind::Temp },
        ]
    );
    assert!(ctx.funcs[f.id].insns.is_empty());
}

#[test]
fn emitted_instructions() {
    let (mut ctx, f) = context_with_entry();
    let a = Value::constant_long(&mut ctx, &f, 1);
    let b = Value::constant_long(&mut ctx, &f, 2);
    let v2 = f.i_add(&mut ctx, &a, &b);
    let v3 = f.i_sub(&mut ctx, &a, &b);
    let v4 = f.i_mul(&mut ctx, &a, &b);
    let v5 = f.i_eq(&mut ctx, &a, &b);
    let v6 = f.i_ne(&mut ctx, &a, &b);
    let v7 = f.i_lt(&mut ctx, &a, &b);
    let v8 = f.i_le(&mut ctx, &a, &b);
    let v9 = f.i_gt(&mut ctx, &a, &b);
    let v10 = f.i_ge(&mut ctx, &a, &b);
    let v11 = f.i_and(&mut ctx, &a, &b);
    let v12 = f.i_or(&mut ctx, &a, &b);
    let v13 = f.i_convert(&mut ctx, &v5, Type::bool());
    let v14 = f.i_load(&mut ctx, &v13);
    f.i_store(&mut ctx, &a, &v2);
    f.i_return(&mut ctx, &v14);
    for (i, v) in [v2, v3, v4, v5, v6, v7, v8, v9, v10].iter().enumerate() {
        assert_eq!(*v, Value::new(i + 2, Type::integer()));
    }
    assert_eq!(v11, Value::new(11, Type::bool()));
    assert_eq!(v12, Value::new(12, Type::bool()));
    assert_eq!(v13, Value::new(13, Type::bool()));
    assert_eq!(v14, Value::new(14, Type::bool()));
    let ops = [
        BinaryOp::Add,
        BinaryOp::Sub,
        BinaryOp::Mul,
        BinaryOp::Eq,
        BinaryOp::Ne,
        BinaryOp::Lt,
        BinaryOp::Le,
        BinaryOp::Gt,
        BinaryOp::Ge,
        BinaryOp::And,
        BinaryOp::Or,
    ];
    let mut expected: Vec<Insn> = ops
        .iter()
        .enumerate()
        .map(|(i, op)| Insn::Binary { op: *op, dst: i + 2, lhs: 0, rhs: 1 })
        .collect();
    expected.push(Insn::Convert { dst: 13, src: 5, ty: Type::bool() });
    expected.push(Insn::Load { dst: 14, src: 13 });
    expected.push(Insn::Store { dst: 2, src: 0 });
    expected.push(Insn::Return { src: 14 });
    assert_eq!(ctx.funcs[f.id].insns, expected);
    assert_eq!(ctx.funcs[f.id].slots.len(), 15);
}

#[test]
fn emission_touches_one_function_only() {
    let (mut ctx, f) = context_with_entry();
    let g = ctx.new_function(&[Type::integer()], Type::integer());
    let p = g.get_params(&ctx)[0];
    g.i_return(&mut ctx, &p);
    assert!(ctx.funcs[f.id].insns.is_empty());
    assert!(ctx.funcs[f.id].slots.is_empty());
    assert_eq!(ctx.funcs[g.id].insns, vec![Insn::Return { src: 0 }]);
}

#[test]
fn calls_push_their_arguments() {
    let (mut ctx, f) = context_with_entry();
    let g = ctx.new_function(&[Type::integer(), Type::integer()], Type::bool());
    let a = Value::constant_long(&mut ctx, &f, 1);
    let b = Value::constant_long(&mut ctx, &f, 2);
    let r = f.i_normal_call(&mut ctx, &g, &[a, b]);
    assert_eq!(r, Value::new(2, Type::bool()));
    let n = f.i_native_call(&mut ctx, 17, &[b], Type::void());
    assert_eq!(n, Value::new(3, Type::void()));
    assert_eq!(
        ctx.funcs[f.id].insns,
        vec![
            Insn::Push { src: 0 },
            Insn::Push { src: 1 },
            Insn::Call { dst: 2, callee: 1 },
            Insn::Push { src: 1 },
            Insn::CallNative { dst: 3, entry: 17 },
        ]
    );
}

#[test]
fn labels_get_their_number_at_first_use() {
    let (mut ctx, f) = context_with_entry();
    let c = Value::constant(&mut ctx, &f, Type::bool(), 1);
    let mut first = Label::new();
    assert_eq!(first.id, None);
    f.i_branch_if(&mut ctx, &c, &mut first);
    assert_eq!(first.id, Some(0));
    let mut second = Label::new();
    f.i_branch_if_not(&mut ctx, &c, &mut second);
    assert_eq!(second.id, Some(1));
    f.i_branch_if(&mut ctx, &c, &mut first);
    assert_eq!(first.id, Some(0));
    first.place(&mut ctx, &f);
    second.place(&mut ctx, &f);
    let mut third = Label::new();
    third.place(&mut ctx, &f);
    assert_eq!(third.id, Some(5));
    assert_eq!(
        ctx.funcs[f.id].insns,
        vec![
            Insn::BranchIf { cond: 0, label: 0 },
            Insn::BranchIfNot { cond: 0, label: 1 },
            Insn::BranchIf { cond: 0, label: 0 },
            Insn::Mark { label: 0 },
            Insn::Mark { label: 1 },
            Insn::Mark { label: 5 },
        ]
    );
}

#[test]
fn machine_runs_a_function_with_arguments() {
    let mut ctx = Context::new();
    let f = ctx.new_function(&[Type::integer(), Type::integer()], Type::integer());
    let p = f.get_params(&ctx);
    let d = f.i_sub(&mut ctx, &p[0], &p[1]);
    f.i_return(&mut ctx, &d);
    assert_eq!(f.apply(&ctx, &vec![10, 3], 2), Ok(7));
    assert_eq!(f.apply(&ctx, &vec![10, 3], 1), Err(ExecError::OutOfSteps));
    assert_eq!(f.apply(&ctx, &vec![10, 3], 0), Err(ExecError::OutOfSteps));
}

#[test]
fn machine_brings_arguments_and_results_into_form() {
    let mut ctx = Context::new();
    let f = ctx.new_function(&[Type::bool()], Type::integer());
    let p = f.get_params(&ctx);
    f.i_return(&mut ctx, &p[0]);
    assert_eq!(f.apply(&ctx, &vec![5], 10), Ok(1));
    assert_eq!(f.apply(&ctx, &vec![0], 10), Ok(0));
    let g = ctx.new_function(&[Type::integer()], Type::bool());
    let p = g.get_params(&ctx);
    g.i_return(&mut ctx, &p[0]);
    assert_eq!(g.apply(&ctx, &vec![-9], 10), Ok(1));
    let h = ctx.new_function(&[Type::integer()], Type::void());
    let p = h.get_params(&ctx);
    h.i_return(&mut ctx, &p[0]);
    assert_eq!(h.apply(&ctx, &vec![-9], 10), Ok(0));
}

#[test]
fn machine_convert_load_store() {
    let (mut ctx, f) = context_with_entry();
    let a = Value::constant_long(&mut ctx, &f, 12);
    let t = f.i_convert(&mut ctx, &a, Type::bool());
    let c = f.i_load(&mut ctx, &a);
    let s = f.i_add(&mut ctx, &t, &c);
    f.i_store(&mut ctx, &s, &c);
    f.i_return(&mut ctx, &c);
    assert_eq!(f.apply(&ctx, &vec![], 100), Ok(13));
}

#[test]
fn machine_branches() {
    let mut ctx = Context::new();
    let f = ctx.new_function(&[Type::integer()], Type::integer());
    let p = f.get_params(&ctx);
    let one = Value::constant_long(&mut ctx, &f, 1);
    let two = Value::constant_long(&mut ctx, &f, 2);
    let mut label = Label::new();
    f.i_branch_if(&mut ctx, &p[0], &mut label);
    f.i_return(&mut ctx, &one);
    label.place(&mut ctx, &f);
    f.i_return(&mut ctx, &two);
    assert_eq!(f.apply(&ctx, &vec![0], 100), Ok(1));
    assert_eq!(f.apply(&ctx, &vec![3], 100), Ok(2));
}

#[test]
fn machine_loops_until_the_steps_run_out() {
    let (mut ctx, f) = context_with_entry();
    let one = Value::constant_long(&mut ctx, &f, 1);
    let mut top = Label::new();
    top.place(&mut ctx, &f);
    f.i_branch_if(&mut ctx, &one, &mut top);
    f.i_return(&mut ctx, &one);
    assert_eq!(f.apply(&ctx, &vec![], 1000), Err(ExecError::OutOfSteps));
    assert_eq!(f.standard_execute(&ctx), Err(ExecError::OutOfSteps));
}

#[test]
fn machine_counts_down_in_a_loop() {
    // n is counted down to zero by a backward jump; the sum of the values
    // it passes through is returned.
    let mut ctx = Context::new();
    let f = ctx.new_function(&[Type::integer()], Type::integer());
    let n = f.get_params(&ctx)[0];
    let one = Value::constant_long(&mut ctx, &f, 1);
    let sum = Value::create(&mut ctx, &f, &Type::integer());
    let mut top = Label::new();
    let mut done = Label::new();
    top.place(&mut ctx, &f);
    f.i_branch_if_not(&mut ctx, &n, &mut done);
    let s = f.i_add(&mut ctx, &sum, &n);
    f.i_store(&mut ctx, &s, &sum);
    let m = f.i_sub(&mut ctx, &n, &one);
    f.i_store(&mut ctx, &m, &n);
    f.i_branch_if(&mut ctx, &one, &mut top);
    done.place(&mut ctx, &f);
    f.i_return(&mut ctx, &sum);
    assert_eq!(f.apply(&ctx, &vec![4], 1000), Ok(10));
    assert_eq!(f.apply(&ctx, &vec![0], 1000), Ok(0));
}

#[test]
fn machine_calls_and_returns() {
    let mut ctx = Context::new();
    let double = ctx.new_function(&[Type::integer()], Type::integer());
    let p = double.get_params(&ctx)[0];
    let d = double.i_add(&mut ctx, &p, &p);
    double.i_return(&mut ctx, &d);
    let main = ctx.new_function(&[], Type::integer());
    let a = Value::constant_long(&mut ctx, &main, 21);
    let r = main.i_normal_call(&mut ctx, &double, &[a]);
    let again = main.i_normal_call(&mut ctx, &double, &[r]);
    main.i_return(&mut ctx, &again);
    assert_eq!(main.apply(&ctx, &vec![], 100), Ok(84));
    assert_eq!(main.standard_execute(&ctx), Ok(84));
}

#[test]
fn machine_native_call_gives_zero() {
    let (mut ctx, f) = context_with_entry();
    let a = Value::constant_long(&mut ctx, &f, 21);
    let r = f.i_native_call(&mut ctx, 0, &[a], Type::integer());
    let s = f.i_add(&mut ctx, &r, &a);
    f.i_return(&mut ctx, &s);
    assert_eq!(f.apply(&ctx, &vec![], 100), Ok(21));
}

#[test]
fn machine_missing_return() {
    let (mut ctx, f) = context_with_entry();
    assert_eq!(f.apply(&ctx, &vec![], 100), Err(ExecError::MissingReturn));
    let a = Value::constant_long(&mut ctx, &f, 1);
    let _ = f.i_add(&mut ctx, &a, &a);
    assert_eq!(f.apply(&ctx, &vec![], 100), Err(ExecError::MissingReturn));
}

#[test]
fn machine_bad_operand() {
    let (mut ctx, f) = context_with_entry();
    let a = Value::constant_long(&mut ctx, &f, 1);
    let stranger = Value::new(99, Type::integer());
    let s = f.i_add(&mut ctx, &a, &stranger);
    f.i_return(&mut ctx, &s);
    assert_eq!(f.apply(&ctx, &vec![], 100), Err(ExecError::BadOperand));
    let (mut ctx, f) = context_with_entry();
    f.i_return(&mut ctx, &stranger);
    assert_eq!(f.apply(&ctx, &vec![], 100), Err(ExecError::BadOperand));
}

#[test]
fn machine_bad_label() {
    let (mut ctx, f) = context_with_entry();
    let one = Value::constant_long(&mut ctx, &f, 1);
    let mut nowhere = Label::new();
    f.i_branch_if(&mut ctx, &one, &mut nowhere);
    f.i_return(&mut ctx, &one);
    assert_eq!(f.apply(&ctx, &vec![], 100), Err(ExecError::BadLabel));
    // A jump that is not taken does not look for its label.
    let (mut ctx, f) = context_with_entry();
    let one = Value::constant_long(&mut ctx, &f, 1);
    let mut nowhere = Label::new();
    f.i_branch_if_not(&mut ctx, &one, &mut nowhere);
    f.i_return(&mut ctx, &one);
    assert_eq!(f.apply(&ctx, &vec![], 100), Ok(1));
}

#[test]
fn machine_bad_call() {
    let mut ctx = Context::new();
    let g = ctx.new_function(&[Type::integer()], Type::integer());
    let p = g.get_params(&ctx)[0];
    g.i_return(&mut ctx, &p);
    let f = ctx.new_function(&[], Type::integer());
    let r = f.i_normal_call(&mut ctx, &g, &[]);
    f.i_return(&mut ctx, &r);
    assert_eq!(f.apply(&ctx, &vec![], 100), Err(ExecError::BadCall));
    // From outside: wrong number of arguments, and a function of another context.
    assert_eq!(g.apply(&ctx, &vec![], 100), Err(ExecError::BadCall));
    assert_eq!(g.apply(&ctx, &vec![1, 2], 100), Err(ExecError::BadCall));
    let stranger = Function { id: 7, argc: 0 };
    assert_eq!(stranger.apply(&ctx, &vec![], 100), Err(ExecError::BadCall));
    assert_eq!(stranger.standard_execute(&ctx), Err(ExecError::BadCall));
    assert_eq!(g.standard_execute(&ctx), Err(ExecError::BadCall));
}

#[test]
fn standard_execute_gives_the_low_32_bits() {
    let (mut ctx, f) = context_with_entry();
    let a = Value::constant_long(&mut ctx, &f, (7i64 << 32) | 9);
    f.i_return(&mut ctx, &a);
    assert_eq!(f.apply(&ctx, &vec![], STEP_LIMIT), Ok((7i64 << 32) | 9));
    assert_eq!(f.standard_execute(&ctx), Ok(9));
}
