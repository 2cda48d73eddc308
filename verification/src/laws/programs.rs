//! The state in which programs begin, and what proofs about whole programs
//! share.

use vstd::prelude::*;
use crate::correctness::steps;
use crate::error::CompileError;
use crate::ir::{ContextModel, Insn, Slot, SlotKind};
use crate::lowering::{BuilderModel, type_named};
use crate::machine::{MachineModel, StepModel, spec_step};
use crate::types::{builtin_types, lemma_builtin_types_distinct, resolve_from};
use crate::wrapper::{Function, Type, Value};

verus! {

/// The state in which the statements of a program are compiled: a new
/// builder whose entry function holds the constant zero.
pub open spec fn program_start() -> BuilderModel {
    BuilderModel::initial().number(0).0
}

/// The body of the entry function in `program_start()`.
pub proof fn lemma_program_start()
    ensures
        program_start().wf(),
        program_start().main == (Function { id: 0, argc: 0 }),
        program_start().context.funcs.len() == 1,
        program_start().context.funcs[0].params =~= Seq::<Type>::empty(),
        program_start().context.funcs[0].ret == Type::integer(),
        program_start().context.funcs[0].insns =~= Seq::<Insn>::empty(),
        program_start().context.funcs[0].slots =~= seq![
            Slot { ty: Type::integer(), kind: SlotKind::Const(0) },
        ],
        BuilderModel::initial().number(0).1 == Ok::<Value, CompileError>(
            Value { handle: 0, ty: Type::integer() },
        ),
{
}

/// The name `int` stands for the integer type in the built-in registry.
pub proof fn lemma_int_is_known(t: Seq<char>)
    requires
        t == "int"@,
    ensures
        type_named(builtin_types(), t) == Some(Type::integer()),
{
    lemma_builtin_types_distinct();
    let table = builtin_types();
    assert(table[0].name == "void"@);
    assert(table[1].name == "int"@);
    assert(resolve_from(table, t, 1) == Some(table[1]));
    assert(resolve_from(table, t, 0) == Some(table[1]));
}

/// One step and then `k` more are `k + 1` steps.
pub proof fn lemma_step_then(ctx: ContextModel, m: MachineModel, next: MachineModel, k: nat)
    requires
        spec_step(ctx, m) == StepModel::Next(next),
    ensures
        steps(ctx, m, k + 1) == steps(ctx, next, k),
{
}

} // verus!
