//! The reference machine: what a function of a context computes, step by
//! step, and an interpreter that computes it.

use vstd::prelude::*;
use crate::error::ExecError;
use crate::ir::{ContextModel, FuncModel, Insn, SlotKind};
use crate::wrapper::{Context, Function};

verus! {

/// The number of steps that `standard_execute` allows.
pub const STEP_LIMIT: u64 = 1_000_000;

/// An activation of a function.
pub struct FrameModel {
    /// The number of the function.
    pub func: usize,
    /// The number of the next instruction.
    pub pc: int,
    /// The words of the slots.
    pub regs: Seq<i64>,
    /// The arguments pushed for the next call.
    pub outgoing: Seq<i64>,
    /// While the activation waits for a call to return: the slot that
    /// receives the result.
    pub dst: usize,
}

/// The state of the machine: the running activation, and below it the
/// activations that wait for a call to return, the youngest last.
pub struct MachineModel {
    pub cur: FrameModel,
    pub stack: Seq<FrameModel>,
}

/// What one step leads to.
pub enum StepModel {
    /// The machine goes on in this state.
    Next(MachineModel),
    /// The outermost activation returned this word.
    Done(i64),
    /// The machine cannot go on.
    Fault(ExecError),
}

/// The place of the first `Mark` of `label` at or after `from`.
pub open spec fn mark_from(insns: Seq<Insn>, label: usize, from: int) -> Option<int>
    decreases insns.len() - from,
{
    if 0 <= from < insns.len() {
        if insns[from] == (Insn::Mark { label }) {
            Some(from)
        } else {
            mark_from(insns, label, from + 1)
        }
    } else {
        None
    }
}

/// The words of the slots when a function is entered with `args`: a
/// parameter holds the argument with its own number in the form of its type
/// (zero if there is none), a constant holds its value, and every other
/// slot holds zero.
pub open spec fn entry_regs(body: FuncModel, args: Seq<i64>) -> Seq<i64> {
    Seq::new(
        body.slots.len(),
        |i: int|
            match body.slots[i].kind {
                SlotKind::Temp => 0,
                SlotKind::Param => if i < args.len() {
                    body.slots[i].ty.normalize(args[i])
                } else {
                    0
                },
                SlotKind::Const(c) => c,
            },
    )
}

impl FrameModel {
    /// The activation of function `func`, whose body is `body`, at its
    /// first instruction.
    pub open spec fn enter(func: usize, body: FuncModel, args: Seq<i64>) -> FrameModel {
        FrameModel { func, pc: 0, regs: entry_regs(body, args), outgoing: Seq::empty(), dst: 0 }
    }

    /// The activation has a word for `slot`.
    pub open spec fn has(self, slot: usize) -> bool {
        slot < self.regs.len()
    }

    /// The next instruction writes `w` to `dst`.
    pub open spec fn write(self, dst: usize, w: i64) -> FrameModel {
        FrameModel { pc: self.pc + 1, regs: self.regs.update(dst as int, w), ..self }
    }

    /// The activation at its next instruction.
    pub open spec fn skip(self) -> FrameModel {
        FrameModel { pc: self.pc + 1, ..self }
    }

    /// The activation at instruction `pc`.
    pub open spec fn jump(self, pc: int) -> FrameModel {
        FrameModel { pc, ..self }
    }
}

impl MachineModel {
    /// The machine at the start of a call of `f` from outside.
    pub open spec fn start(ctx: ContextModel, f: Function, args: Seq<i64>) -> MachineModel {
        MachineModel { cur: FrameModel::enter(f.id, ctx.body(f), args), stack: Seq::empty() }
    }

    /// The machine goes on with `cur` as the running activation.
    pub open spec fn go(self, cur: FrameModel) -> StepModel {
        StepModel::Next(MachineModel { cur, stack: self.stack })
    }

    /// The running activation writes `w` to `dst`, if it has that slot and
    /// the slots `a` and `b` that were read.
    pub open spec fn write(self, dst: usize, a: usize, b: usize, w: i64) -> StepModel {
        if self.cur.has(dst) && self.cur.has(a) && self.cur.has(b) {
            self.go(self.cur.write(dst, w))
        } else {
            StepModel::Fault(ExecError::BadOperand)
        }
    }

    /// A jump on `cond`: taken when the word is zero or not, as `on_zero`
    /// says.
    pub open spec fn branch(self, insns: Seq<Insn>, cond: usize, label: usize, on_zero: bool)
        -> StepModel {
        if !self.cur.has(cond) {
            StepModel::Fault(ExecError::BadOperand)
        } else if (self.cur.regs[cond as int] == 0) == on_zero {
            match mark_from(insns, label, 0) {
                Some(pc) => self.go(self.cur.jump(pc)),
                None => StepModel::Fault(ExecError::BadLabel),
            }
        } else {
            self.go(self.cur.skip())
        }
    }

    /// A call of function `callee` with the pushed arguments. The running
    /// activation waits for the result in `dst`.
    pub open spec fn call(self, ctx: ContextModel, dst: usize, callee: usize) -> StepModel {
        if callee < ctx.funcs.len() && self.cur.outgoing.len() == ctx.funcs[callee as int].params.len() {
            StepModel::Next(
                MachineModel {
                    cur: FrameModel::enter(callee, ctx.funcs[callee as int], self.cur.outgoing),
                    stack: self.stack.push(
                        FrameModel { pc: self.cur.pc + 1, outgoing: Seq::empty(), dst, ..self.cur },
                    ),
                },
            )
        } else {
            StepModel::Fault(ExecError::BadCall)
        }
    }

    /// A return of `w`: the result of the machine if no activation waits,
    /// else the word of the slot that the youngest waiting activation names.
    pub open spec fn ret(self, w: i64) -> StepModel {
        if self.stack.len() == 0 {
            StepModel::Done(w)
        } else {
            let caller = self.stack.last();
            if caller.has(caller.dst) {
                StepModel::Next(
                    MachineModel {
                        cur: FrameModel {
                            regs: caller.regs.update(caller.dst as int, w),
                            ..caller
                        },
                        stack: self.stack.drop_last(),
                    },
                )
            } else {
                StepModel::Fault(ExecError::BadOperand)
            }
        }
    }
}

/// One step of the machine.
pub open spec fn spec_step(ctx: ContextModel, m: MachineModel) -> StepModel {
    if m.cur.func >= ctx.funcs.len() {
        StepModel::Fault(ExecError::BadCall)
    } else {
        let body = ctx.funcs[m.cur.func as int];
        let regs = m.cur.regs;
        if !(0 <= m.cur.pc < body.insns.len()) {
            StepModel::Fault(ExecError::MissingReturn)
        } else {
            match body.insns[m.cur.pc] {
                Insn::Binary { op, dst, lhs, rhs } => m.write(
                    dst,
                    lhs,
                    rhs,
                    op.apply(regs[lhs as int], regs[rhs as int]),
                ),
                Insn::Convert { dst, src, ty } => m.write(
                    dst,
                    src,
                    src,
                    ty.normalize(regs[src as int]),
                ),
                Insn::Load { dst, src } => m.write(dst, src, src, regs[src as int]),
                Insn::Store { dst, src } => m.write(dst, src, src, regs[src as int]),
                Insn::Push { src } => if m.cur.has(src) {
                    m.go(
                        FrameModel {
                            pc: m.cur.pc + 1,
                            outgoing: m.cur.outgoing.push(regs[src as int]),
                            ..m.cur
                        },
                    )
                } else {
                    StepModel::Fault(ExecError::BadOperand)
                },
                Insn::Call { dst, callee } => m.call(ctx, dst, callee),
                Insn::CallNative { dst, entry } => if m.cur.has(dst) {
                    m.go(FrameModel { outgoing: Seq::empty(), ..m.cur.write(dst, 0) })
                } else {
                    StepModel::Fault(ExecError::BadOperand)
                },
                Insn::BranchIf { cond, label } => m.branch(body.insns, cond, label, false),
                Insn::BranchIfNot { cond, label } => m.branch(body.insns, cond, label, true),
                Insn::Mark { label } => m.go(m.cur.skip()),
                Insn::Return { src } => if m.cur.has(src) {
                    m.ret(body.ret.normalize(regs[src as int]))
                } else {
                    StepModel::Fault(ExecError::BadOperand)
                },
            }
        }
    }
}

/// The result of the machine from state `m` within `fuel` steps.
pub open spec fn spec_run(ctx: ContextModel, m: MachineModel, fuel: nat) -> Result<i64, ExecError>
    decreases fuel,
{
    if fuel == 0 {
        Err(ExecError::OutOfSteps)
    } else {
        match spec_step(ctx, m) {
            StepModel::Done(w) => Ok(w),
            StepModel::Fault(e) => Err(e),
            StepModel::Next(next) => spec_run(ctx, next, (fuel - 1) as nat),
        }
    }
}

/// The result of a call of `f` with `args` from outside, within `fuel`
/// steps. The call is a `BadCall` if the context does not have `f` or the
/// number of arguments is not the number of its parameters.
pub open spec fn spec_apply(ctx: ContextModel, f: Function, args: Seq<i64>, fuel: nat) -> Result<
    i64,
    ExecError,
> {
    if ctx.has(f) && args.len() == ctx.body(f).params.len() {
        spec_run(ctx, MachineModel::start(ctx, f, args), fuel)
    } else {
        Err(ExecError::BadCall)
    }
}

/// The low 32 bits of a word, as the caller of the entry function reads
/// its result.
pub open spec fn low32(w: i64) -> i32 {
    w as i32
}

/// The result of the entry function `f`, called without arguments, within
/// the standard number of steps.
pub open spec fn spec_execute(ctx: ContextModel, f: Function) -> Result<i32, ExecError> {
    match spec_apply(ctx, f, Seq::empty(), STEP_LIMIT as nat) {
        Ok(w) => Ok(low32(w)),
        Err(e) => Err(e),
    }
}

/// An activation as the interpreter holds it.
struct Frame {
    func: usize,
    pc: usize,
    regs: Vec<i64>,
    outgoing: Vec<i64>,
    dst: usize,
}

/// The model of an activation of the interpreter.
spec fn frame_view(frame: Frame) -> FrameModel {
    FrameModel {
        func: frame.func,
        pc: frame.pc as int,
        regs: frame.regs@,
        outgoing: frame.outgoing@,
        dst: frame.dst,
    }
}

/// The model of the interpreter's state.
spec fn machine_view(cur: Frame, stack: Vec<Frame>) -> MachineModel {
    MachineModel { cur: frame_view(cur), stack: stack@.map_values(|f: Frame| frame_view(f)) }
}

/// The place of the first `Mark` of `label`.
fn find_mark(insns: &Vec<Insn>, label: usize) -> (r: Option<usize>)
    ensures
        match r {
            Some(pc) => mark_from(insns@, label, 0) == Some(pc as int),
            None => mark_from(insns@, label, 0) is None,
        },
{
    let mut i: usize = 0;
    while i < insns.len()
        invariant
            i <= insns.len(),
            mark_from(insns@, label, 0) == mark_from(insns@, label, i as int),
        decreases insns.len() - i,
    {
        match insns[i] {
            Insn::Mark { label: found } => {
                if found == label {
                    return Some(i);
                }
            },
            _ => {},
        }
        i += 1;
    }
    None
}

impl Frame {
    /// The activation of function `func` of `ctx` with `args`.
    fn enter(ctx: &Context, func: usize, args: &Vec<i64>) -> (frame: Frame)
        requires
            func < ctx@.funcs.len(),
        ensures
            frame_view(frame) == FrameModel::enter(func, ctx@.funcs[func as int], args@),
    {
        let body = &ctx.funcs[func];
        let mut regs: Vec<i64> = Vec::new();
        let mut i: usize = 0;
        while i < body.slots.len()
            invariant
                i <= body.slots.len(),
                regs@ == entry_regs(body@, args@).take(i as int),
            decreases body.slots.len() - i,
        {
            let w: i64 = match body.slots[i].kind {
                SlotKind::Temp => 0,
                SlotKind::Param => if i < args.len() {
                    body.slots[i].ty.normalize(args[i])
                } else {
                    0
                },
                SlotKind::Const(c) => c,
            };
            regs.push(w);
            assert(regs@ =~= entry_regs(body@, args@).take(i + 1));
            i += 1;
        }
        assert(regs@ =~= entry_regs(body@, args@));
        Frame { func, pc: 0, regs, outgoing: Vec::new(), dst: 0 }
    }
}

/// One step of the interpreter. `None` means that the machine goes on.
fn step(ctx: &Context, cur: &mut Frame, stack: &mut Vec<Frame>) -> (r: Option<
    Result<i64, ExecError>,
>)
    ensures
        match spec_step(ctx@, machine_view(*old(cur), *old(stack))) {
            StepModel::Next(next) => r is None && machine_view(*final(cur), *final(stack))
                == next,
            StepModel::Done(w) => r == Some(Ok::<i64, ExecError>(w)),
            StepModel::Fault(e) => r == Some(Err::<i64, ExecError>(e)),
        },
{
    if cur.func >= ctx.funcs.len() {
        return Some(Err(ExecError::BadCall));
    }
    let body = &ctx.funcs[cur.func];
    if cur.pc >= body.insns.len() {
        return Some(Err(ExecError::MissingReturn));
    }
    let n = cur.regs.len();
    let ghost before = machine_view(*cur, *stack);
    match body.insns[cur.pc] {
        Insn::Binary { op, dst, lhs, rhs } => {
            if dst < n && lhs < n && rhs < n {
                let w = op.apply(cur.regs[lhs], cur.regs[rhs]);
                cur.regs[dst] = w;
                cur.pc += 1;
                None
            } else {
                Some(Err(ExecError::BadOperand))
            }
        },
        Insn::Convert { dst, src, ty } => {
            if dst < n && src < n {
                let w = ty.normalize(cur.regs[src]);
                cur.regs[dst] = w;
                cur.pc += 1;
                None
            } else {
                Some(Err(ExecError::BadOperand))
            }
        },
        Insn::Load { dst, src } => {
            if dst < n && src < n {
                let w = cur.regs[src];
                cur.regs[dst] = w;
                cur.pc += 1;
                None
            } else {
                Some(Err(ExecError::BadOperand))
            }
        },
        Insn::Store { dst, src } => {
            if dst < n && src < n {
                let w = cur.regs[src];
                cur.regs[dst] = w;
                cur.pc += 1;
                None
            } else {
                Some(Err(ExecError::BadOperand))
            }
        },
        Insn::Push { src } => {
            if src < n {
                let w = cur.regs[src];
                cur.outgoing.push(w);
                cur.pc += 1;
                None
            } else {
                Some(Err(ExecError::BadOperand))
            }
        },
        Insn::Call { dst, callee } => {
            if callee < ctx.funcs.len() && cur.outgoing.len() == ctx.funcs[callee].params.len() {
                let mut frame = Frame::enter(ctx, callee, &cur.outgoing);
                cur.pc += 1;
                cur.outgoing = Vec::new();
                cur.dst = dst;
                std::mem::swap(cur, &mut frame);
                stack.push(frame);
                assert(machine_view(*cur, *stack).stack =~= before.stack.push(
                    FrameModel {
                        pc: before.cur.pc + 1,
                        outgoing: Seq::empty(),
                        dst,
                        ..before.cur
                    },
                ));
                None
            } else {
                Some(Err(ExecError::BadCall))
            }
        },
        Insn::CallNative { dst, entry } => {
            if dst < n {
                cur.regs[dst] = 0;
                cur.outgoing = Vec::new();
                cur.pc += 1;
                None
            } else {
                Some(Err(ExecError::BadOperand))
            }
        },
        Insn::BranchIf { cond, label } => {
            if cond >= n {
                Some(Err(ExecError::BadOperand))
            } else if cur.regs[cond] != 0 {
                match find_mark(&body.insns, label) {
                    Some(pc) => {
                        cur.pc = pc;
                        None
                    },
                    None => Some(Err(ExecError::BadLabel)),
                }
            } else {
                cur.pc += 1;
                None
            }
        },
        Insn::BranchIfNot { cond, label } => {
            if cond >= n {
                Some(Err(ExecError::BadOperand))
            } else if cur.regs[cond] == 0 {
                match find_mark(&body.insns, label) {
                    Some(pc) => {
                        cur.pc = pc;
                        None
                    },
                    None => Some(Err(ExecError::BadLabel)),
                }
            } else {
                cur.pc += 1;
                None
            }
        },
        Insn::Mark { label } => {
            cur.pc += 1;
            None
        },
        Insn::Return { src } => {
            if src < n {
                let w = body.ret.normalize(cur.regs[src]);
                match stack.pop() {
                    None => Some(Ok(w)),
                    Some(mut caller) => {
                        let dst = caller.dst;
                        if dst < caller.regs.len() {
                            caller.regs[dst] = w;
                            *cur = caller;
                            assert(machine_view(*cur, *stack).stack =~= before.stack.drop_last());
                            None
                        } else {
                            Some(Err(ExecError::BadOperand))
                        }
                    },
                }
            } else {
                Some(Err(ExecError::BadOperand))
            }
        },
    }
}

impl Function {
    /// Calls the function with `args` on the reference machine and gives
    /// its result, or the reason why there is none. The machine makes at
    /// most `fuel` steps.
    pub fn apply(&self, ctx: &Context, args: &Vec<i64>, fuel: u64) -> (r: Result<i64, ExecError>)
        ensures
            r == spec_apply(ctx@, *self, args@, fuel as nat),
    {
        if self.id >= ctx.funcs.len() || args.len() != ctx.funcs[self.id].params.len() {
            return Err(ExecError::BadCall);
        }
        let mut cur = Frame::enter(ctx, self.id, args);
        let mut stack: Vec<Frame> = Vec::new();
        let mut left = fuel;
        assert(machine_view(cur, stack).stack =~= Seq::<FrameModel>::empty());
        while left > 0
            invariant
                spec_apply(ctx@, *self, args@, fuel as nat) == spec_run(
                    ctx@,
                    machine_view(cur, stack),
                    left as nat,
                ),
            decreases left,
        {
            match step(ctx, &mut cur, &mut stack) {
                Some(r) => {
                    return r;
                },
                None => {},
            }
            left -= 1;
        }
        Err(ExecError::OutOfSteps)
    }

    /// Runs the function without arguments, as the entry function of a
    /// program is run, and gives the low 32 bits of its result.
    pub fn standard_execute(&self, ctx: &Context) -> (r: Result<i32, ExecError>)
        ensures
            r == spec_execute(ctx@, *self),
    {
        let no_args: Vec<i64> = Vec::new();
        match self.apply(ctx, &no_args, STEP_LIMIT) {
            Ok(w) => Ok(
                #[verifier::truncate]
                (w as i32),
            ),
            Err(e) => Err(e),
        }
    }
}

} // verus!
