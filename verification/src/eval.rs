//! The execution engine: the register file and condition flag, the
//! semantics of each instruction, and the program-counter driver.
//!
//! The engine is specified against a small-step machine model:
//! [`step_spec`] gives the effect of one fetch-execute step on a machine
//! state, and [`run_n`] iterates it a given number of times, with the
//! `Halted` and `Faulted` outcomes absorbing. The executable [`run`]
//! returns exactly the outcome of [`run_n`] at its step budget.

use crate::parser::{reg_idx, ArithOpcode, BranchOpcode, Op, RegOrNum, Register};
use vstd::prelude::*;

verus! {

/// The condition flag, set by `cmp` and read by branches. It starts as
/// `Eq`, so a branch before any compare is still well-defined.
#[derive(Clone, Copy, Debug, PartialEq, Eq, Structural)]
pub enum Condition {
    Eq,
    Lt,
}

/// The register file and condition flag of one run.
#[derive(Debug)]
pub struct Context {
    /// Condition flag recording the most recent `cmp` outcome.
    pub cond: Condition,
    /// The 31 general-purpose registers, indexed densely by [`reg_idx`].
    pub regs: Vec<u64>,
}

/// An unrecoverable run-terminating condition.
#[derive(Clone, Copy, Debug, PartialEq, Eq, Structural)]
pub enum Fault {
    /// A `div` instruction read a zero divisor; `at` is the index of the
    /// offending instruction.
    DivisionByZero { at: u64 },
    /// The program counter moved strictly past the end of the program;
    /// `pc` is the offending counter value.
    InvalidProgramCounter { pc: u64 },
}

/// A machine state of the spec-level model: register values, flag, and
/// program counter.
#[verifier::ext_equal]
pub struct MState {
    pub regs: Seq<u64>,
    pub cond: Condition,
    pub pc: nat,
}

/// The spec-level outcome of running for some number of steps.
#[verifier::ext_equal]
pub enum Outcome {
    /// Still fetching: the machine is in this state.
    Running(MState),
    /// The counter reached the program's length; the state is final.
    Halted(MState),
    /// A fatal condition stopped the run.
    Faulted(Fault),
}

/// The state every run starts from: all 31 registers zero, flag `Eq`,
/// counter at instruction 0.
pub open spec fn init_state() -> MState {
    MState { regs: Seq::new(31, |i: int| 0u64), cond: Condition::Eq, pc: 0 }
}

/// The flag value a compare of `a` with `b` produces.
pub open spec fn cmp_cond(a: u64, b: u64) -> Condition {
    if a < b {
        Condition::Lt
    } else {
        Condition::Eq
    }
}

/// The value an arithmetic instruction writes: add, subtract and
/// multiply wrap modulo 2^64; division is Euclidean and is only applied
/// to a nonzero divisor (a zero divisor faults before this is used).
pub open spec fn arith_val(op: ArithOpcode, a: u64, b: u64) -> u64 {
    match op {
        ArithOpcode::Add => vstd::wrapping::u64_specs::wrapping_add(a, b),
        ArithOpcode::Sub => vstd::wrapping::u64_specs::wrapping_sub(a, b),
        ArithOpcode::Mul => vstd::wrapping::u64_specs::wrapping_mul(a, b),
        ArithOpcode::Div => if b == 0 {
            0
        } else {
            (a as int / b as int) as u64
        },
    }
}

/// The register file after a move. Both forms write the fetched value
/// into the destination register.
pub open spec fn mov_regs(regs: Seq<u64>, dst: Register, src: RegOrNum) -> Seq<u64> {
    match src {
        RegOrNum::Num(n) => regs.update(reg_idx(dst), n),
        RegOrNum::Reg(r) => regs.update(reg_idx(dst), regs[reg_idx(r)]),
    }
}

/// Whether a branch with this opcode is taken under this flag value.
pub open spec fn branch_taken(c: Condition, op: BranchOpcode) -> bool {
    match op {
        BranchOpcode::Beq => c == Condition::Eq,
        BranchOpcode::Blt => c == Condition::Lt,
    }
}

/// One fetch-execute step of the machine on program `prog`:
/// a counter at the program's length halts; one strictly past it faults;
/// otherwise the fetched instruction's effect is applied and the counter
/// advances, or is redirected by a taken branch.
pub open spec fn step_spec(prog: Seq<Op>, s: MState) -> Outcome {
    if s.pc == prog.len() {
        Outcome::Halted(s)
    } else if s.pc > prog.len() {
        Outcome::Faulted(Fault::InvalidProgramCounter { pc: s.pc as u64 })
    } else {
        match prog[s.pc as int] {
            Op::Mov(dst, src) => Outcome::Running(
                MState { regs: mov_regs(s.regs, dst, src), cond: s.cond, pc: s.pc + 1 },
            ),
            Op::Cmp(a, b) => Outcome::Running(
                MState {
                    regs: s.regs,
                    cond: cmp_cond(s.regs[reg_idx(a)], s.regs[reg_idx(b)]),
                    pc: s.pc + 1,
                },
            ),
            Op::ArithOp(op, dst, a, b) => {
                if op == ArithOpcode::Div && s.regs[reg_idx(b)] == 0 {
                    Outcome::Faulted(Fault::DivisionByZero { at: s.pc as u64 })
                } else {
                    Outcome::Running(
                        MState {
                            regs: s.regs.update(
                                reg_idx(dst),
                                arith_val(op, s.regs[reg_idx(a)], s.regs[reg_idx(b)]),
                            ),
                            cond: s.cond,
                            pc: s.pc + 1,
                        },
                    )
                }
            },
            Op::BranchOp(op, target) => {
                if branch_taken(s.cond, op) {
                    Outcome::Running(MState { regs: s.regs, cond: s.cond, pc: target as nat })
                } else {
                    Outcome::Running(MState { regs: s.regs, cond: s.cond, pc: s.pc + 1 })
                }
            },
        }
    }
}

/// The machine after `n` steps from state `s`: iterate [`step_spec`],
/// with `Halted` and `Faulted` absorbing.
pub open spec fn run_n(prog: Seq<Op>, s: MState, n: nat) -> Outcome
    decreases n,
{
    if n == 0 {
        Outcome::Running(s)
    } else {
        match run_n(prog, s, (n - 1) as nat) {
            Outcome::Running(s1) => step_spec(prog, s1),
            o => o,
        }
    }
}

/// Once the machine has halted or faulted, further steps change nothing.
pub proof fn lemma_terminal_absorbs(prog: Seq<Op>, s: MState, m: nat, n: nat)
    requires
        m <= n,
        !(run_n(prog, s, m) is Running),
    ensures
        run_n(prog, s, n) == run_n(prog, s, m),
    decreases n - m,
{
    if n > m {
        lemma_terminal_absorbs(prog, s, m, (n - 1) as nat);
    }
}

/// Determinism: execution is a function of the program and the starting
/// state alone. Whenever two step counts both reach a terminal outcome
/// (halted or faulted) from the same start, the outcomes are the same
/// one, so two runs of a program from the same initial register state
/// end in identical final register states.
pub proof fn lemma_determinism(prog: Seq<Op>, s: MState, m: nat, n: nat)
    requires
        !(run_n(prog, s, m) is Running),
        !(run_n(prog, s, n) is Running),
    ensures
        run_n(prog, s, m) == run_n(prog, s, n),
{
    if m <= n {
        lemma_terminal_absorbs(prog, s, m, n);
    } else {
        lemma_terminal_absorbs(prog, s, n, m);
    }
}

/// A program with no branch instructions.
pub open spec fn branch_free(prog: Seq<Op>) -> bool {
    forall|i: int| 0 <= i < prog.len() ==> !(prog[i] is BranchOp)
}

/// No step of a run from `s` ever faults (in particular, no `div`
/// instruction is reached with a zero divisor).
pub open spec fn never_faults(prog: Seq<Op>, s: MState) -> bool {
    forall|n: nat| !(#[trigger] run_n(prog, s, n) is Faulted)
}

/// Halt-on-fallthrough, the counter trajectory: in a program with no
/// branch instructions and no faulting step, the counter after `k` steps
/// is exactly `k`, for every `k` up to the program's length.
pub proof fn lemma_fallthrough_trajectory(prog: Seq<Op>, k: nat)
    requires
        branch_free(prog),
        never_faults(prog, init_state()),
        k <= prog.len(),
    ensures
        run_n(prog, init_state(), k) matches Outcome::Running(s) && s.pc == k,
    decreases k,
{
    if k > 0 {
        lemma_fallthrough_trajectory(prog, (k - 1) as nat);
        let s = run_n(prog, init_state(), (k - 1) as nat)->Running_0;
        assert(!(prog[k - 1] is BranchOp));
        assert(run_n(prog, init_state(), k) == step_spec(prog, s));
        assert(!(run_n(prog, init_state(), k) is Faulted));
    }
}

/// Halt-on-fallthrough: a program with no branch instructions and no
/// faulting step terminates after exactly as many instruction steps as
/// it has instructions, the counter having run through 0, 1, ...,
/// length, and the very next step observes the halt.
pub proof fn lemma_halt_on_fallthrough(prog: Seq<Op>)
    requires
        branch_free(prog),
        never_faults(prog, init_state()),
    ensures
        forall|k: nat|
            k <= prog.len() ==> ((#[trigger] run_n(prog, init_state(), k)) matches Outcome::Running(
                s,
            ) && s.pc == k),
        run_n(prog, init_state(), prog.len() + 1) matches Outcome::Halted(s) && s.pc
            == prog.len(),
{
    assert forall|k: nat| k <= prog.len() implies (#[trigger] run_n(
        prog,
        init_state(),
        k,
    )) matches Outcome::Running(s) && s.pc == k by {
        lemma_fallthrough_trajectory(prog, k);
    }
    lemma_fallthrough_trajectory(prog, prog.len());
    let s = run_n(prog, init_state(), prog.len())->Running_0;
    assert(run_n(prog, init_state(), prog.len() + 1) == step_spec(prog, s));
}

impl Context {
    /// The register file always holds exactly 31 registers.
    pub open spec fn wf(&self) -> bool {
        self.regs@.len() == 31
    }

    /// A fresh context: all registers zero and the flag `Eq`, matching
    /// [`init_state`].
    pub fn new() -> (c: Context)
        ensures
            c.wf(),
            c.regs@ == init_state().regs,
            c.cond == init_state().cond,
    {
        let mut regs: Vec<u64> = Vec::new();
        let mut i: usize = 0;
        while i < 31
            invariant
                i <= 31,
                regs@.len() == i,
                forall|k: int| 0 <= k < i ==> regs@[k] == 0u64,
            decreases 31 - i,
        {
            regs.push(0);
            i = i + 1;
        }
        proof {
            assert(regs@ =~= init_state().regs);
        }
        Context { cond: Condition::Eq, regs }
    }

    /// Read a register; always succeeds, since every register exists
    /// from construction on.
    pub fn get_reg(&self, r: &Register) -> (v: u64)
        requires
            self.wf(),
        ensures
            v == self.regs@[reg_idx(*r)],
    {
        let i = r.index();
        self.regs[i]
    }

    /// Overwrite a register unconditionally; the flag and all other
    /// registers keep their values.
    pub fn set_reg(&mut self, r: &Register, val: u64)
        requires
            old(self).wf(),
        ensures
            final(self).wf(),
            final(self).regs@ == old(self).regs@.update(reg_idx(*r), val),
            final(self).cond == old(self).cond,
    {
        let i = r.index();
        self.regs[i] = val;
    }
}

/// A move. The immediate form writes the literal into the destination;
/// the register form writes the source register's value into the
/// destination register. The flag is untouched.
pub fn eval_mov(ctx: &mut Context, dst: &Register, src: &RegOrNum)
    requires
        old(ctx).wf(),
    ensures
        final(ctx).wf(),
        final(ctx).regs@ == mov_regs(old(ctx).regs@, *dst, *src),
        final(ctx).cond == old(ctx).cond,
{
    match src {
        RegOrNum::Num(n) => {
            ctx.set_reg(dst, *n);
        },
        RegOrNum::Reg(r) => {
            let n = ctx.get_reg(r);
            ctx.set_reg(dst, n);
        },
    }
}

/// A compare: sets the flag to `Lt` if the first register's value is
/// strictly below the second's, else to `Eq`. No register changes.
pub fn eval_cmp(ctx: &mut Context, reg1: &Register, reg2: &Register)
    requires
        old(ctx).wf(),
    ensures
        final(ctx).wf(),
        final(ctx).regs@ == old(ctx).regs@,
        final(ctx).cond == cmp_cond(
            old(ctx).regs@[reg_idx(*reg1)],
            old(ctx).regs@[reg_idx(*reg2)],
        ),
{
    if ctx.get_reg(reg1) < ctx.get_reg(reg2) {
        ctx.cond = Condition::Lt;
    } else {
        ctx.cond = Condition::Eq;
    }
}

/// An arithmetic instruction: reads the two operand registers, applies
/// the operator (wrapping for add, sub and mul), and writes the result
/// into the destination. Returns `false` exactly when the operator is
/// `div` and the divisor register holds zero; the context is then
/// unchanged and the caller must fault.
pub fn eval_arith(
    ctx: &mut Context,
    opcode: &ArithOpcode,
    reg1: &Register,
    reg2: &Register,
    reg3: &Register,
) -> (ok: bool)
    requires
        old(ctx).wf(),
    ensures
        final(ctx).wf(),
        ok == !(*opcode == ArithOpcode::Div && old(ctx).regs@[reg_idx(*reg3)] == 0),
        ok ==> final(ctx).regs@ == old(ctx).regs@.update(
            reg_idx(*reg1),
            arith_val(*opcode, old(ctx).regs@[reg_idx(*reg2)], old(ctx).regs@[reg_idx(*reg3)]),
        ),
        !ok ==> final(ctx).regs@ == old(ctx).regs@,
        final(ctx).cond == old(ctx).cond,
{
    let value2 = ctx.get_reg(reg2);
    let value3 = ctx.get_reg(reg3);
    match opcode {
        ArithOpcode::Add => {
            ctx.set_reg(reg1, value2.wrapping_add(value3));
            true
        },
        ArithOpcode::Sub => {
            ctx.set_reg(reg1, value2.wrapping_sub(value3));
            true
        },
        ArithOpcode::Mul => {
            ctx.set_reg(reg1, value2.wrapping_mul(value3));
            true
        },
        ArithOpcode::Div => {
            if value3 == 0 {
                false
            } else {
                ctx.set_reg(reg1, value2 / value3);
                true
            }
        },
    }
}

/// Whether a branch with this opcode is taken in this context: the flag
/// alone decides.
pub fn eval_branch(ctx: &Context, opcode: &BranchOpcode) -> (taken: bool)
    ensures
        taken == branch_taken(ctx.cond, *opcode),
{
    match opcode {
        BranchOpcode::Beq => ctx.cond == Condition::Eq,
        BranchOpcode::Blt => ctx.cond == Condition::Lt,
    }
}

/// What one executable step did: kept fetching, halted, or faulted.
#[derive(Clone, Copy, Debug, PartialEq, Eq, Structural)]
pub enum StepEffect {
    Continue,
    Halt,
    Fault(Fault),
}

/// One fetch-execute step of the engine on `(ctx, pc)`, exactly
/// mirroring [`step_spec`] on the corresponding machine state.
pub fn step(ops: &Vec<Op>, ctx: &mut Context, pc: &mut u64) -> (r: StepEffect)
    requires
        old(ctx).wf(),
    ensures
        final(ctx).wf(),
        ({
            let s0 = MState {
                regs: old(ctx).regs@,
                cond: old(ctx).cond,
                pc: *old(pc) as nat,
            };
            let s1 = MState {
                regs: final(ctx).regs@,
                cond: final(ctx).cond,
                pc: *final(pc) as nat,
            };
            match r {
                StepEffect::Continue => step_spec(ops@, s0) == Outcome::Running(s1),
                StepEffect::Halt => step_spec(ops@, s0) == Outcome::Halted(s0) && s1 == s0,
                StepEffect::Fault(f) => step_spec(ops@, s0) == Outcome::Faulted(f) && s1 == s0,
            }
        }),
{
    let len = ops.len() as u64;
    if *pc == len {
        StepEffect::Halt
    } else if *pc > len {
        StepEffect::Fault(Fault::InvalidProgramCounter { pc: *pc })
    } else {
        let i = *pc as usize;
        match &ops[i] {
            Op::Mov(dst, src) => {
                eval_mov(ctx, dst, src);
                *pc = *pc + 1;
                StepEffect::Continue
            },
            Op::Cmp(reg1, reg2) => {
                eval_cmp(ctx, reg1, reg2);
                *pc = *pc + 1;
                StepEffect::Continue
            },
            Op::ArithOp(opcode, reg1, reg2, reg3) => {
                if eval_arith(ctx, opcode, reg1, reg2, reg3) {
                    *pc = *pc + 1;
                    StepEffect::Continue
                } else {
                    StepEffect::Fault(Fault::DivisionByZero { at: *pc })
                }
            },
            Op::BranchOp(opcode, target) => {
                if eval_branch(ctx, opcode) {
                    *pc = *target;
                } else {
                    *pc = *pc + 1;
                }
                StepEffect::Continue
            },
        }
    }
}

/// How a bounded run ended.
#[derive(Debug)]
pub enum RunOutcome {
    /// The counter reached the program's length; the context is the
    /// final register snapshot.
    Halted(Context),
    /// A fatal condition stopped the run.
    Faulted(Fault),
    /// The step budget ran out first; the context and counter are the
    /// machine state reached, from which a longer run would go on.
    StillRunning(Context, u64),
}

/// Run a program from a fresh context for at most `max_steps`
/// fetch-execute steps. The result is exactly the outcome of the
/// spec-level machine after `max_steps` steps from [`init_state`]:
/// halting and faulting are terminal, so any terminal outcome reached
/// within the budget is the one returned.
pub fn run(ops: &Vec<Op>, max_steps: u64) -> (r: RunOutcome)
    ensures
        ({
            let o = run_n(ops@, init_state(), max_steps as nat);
            match r {
                RunOutcome::Halted(ctx) => ctx.wf() && o == Outcome::Halted(
                    MState { regs: ctx.regs@, cond: ctx.cond, pc: ops@.len() },
                ),
                RunOutcome::Faulted(f) => o == Outcome::Faulted(f),
                RunOutcome::StillRunning(ctx, pc) => ctx.wf() && o == Outcome::Running(
                    MState { regs: ctx.regs@, cond: ctx.cond, pc: pc as nat },
                ),
            }
        }),
{
    let mut ctx = Context::new();
    let mut pc: u64 = 0;
    let mut steps: u64 = 0;
    while steps < max_steps
        invariant
            steps <= max_steps,
            ctx.wf(),
            run_n(ops@, init_state(), steps as nat) == Outcome::Running(
                MState { regs: ctx.regs@, cond: ctx.cond, pc: pc as nat },
            ),
        decreases max_steps - steps,
    {
        let ghost s0 = MState { regs: ctx.regs@, cond: ctx.cond, pc: pc as nat };
        let eff = step(ops, &mut ctx, &mut pc);
        proof {
            assert(run_n(ops@, init_state(), (steps + 1) as nat) == step_spec(ops@, s0));
        }
        match eff {
            StepEffect::Continue => {
                steps = steps + 1;
            },
            StepEffect::Halt => {
                proof {
                    lemma_terminal_absorbs(
                        ops@,
                        init_state(),
                        (steps + 1) as nat,
                        max_steps as nat,
                    );
                }
                return RunOutcome::Halted(ctx);
            },
            StepEffect::Fault(f) => {
                proof {
                    lemma_terminal_absorbs(
                        ops@,
                        init_state(),
                        (steps + 1) as nat,
                        max_steps as nat,
                    );
                }
                return RunOutcome::Faulted(f);
            },
        }
    }
    RunOutcome::StillRunning(ctx, pc)
}

} // verus!
