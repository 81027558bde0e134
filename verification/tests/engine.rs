use asm_interp::eval::{run, Condition, Context, Fault, RunOutcome};
use asm_interp::eval::{eval_arith, eval_branch, eval_cmp, eval_mov};
use asm_interp::parser::{parse_asm, ArithOpcode, BranchOpcode, Register, RegOrNum};

const BUDGET: u64 = 10_000;

fn load(text: &str) -> Vec<asm_interp::parser::Op> {
    match parse_asm(text) {
        Ok(ops) => ops,
        Err(e) => panic!("load failed on line {}: {:?}", e.line, e.kind),
    }
}

fn run_to_halt(text: &str) -> Context {
    match run(&load(text), BUDGET) {
        RunOutcome::Halted(ctx) => ctx,
        other => panic!("expected a halt, got {:?}", other),
    }
}

#[test]
fn cmp_equal_sets_eq_flag() {
    let mut ctx = Context::new();
    ctx.set_reg(&Register::X0, 5);
    ctx.set_reg(&Register::X1, 5);
    eval_cmp(&mut ctx, &Register::X0, &Register::X1);
    assert_eq!(ctx.cond, Condition::Eq);
    assert!(eval_branch(&ctx, &BranchOpcode::Beq));
    assert!(!eval_branch(&ctx, &BranchOpcode::Blt));
}

#[test]
fn cmp_less_sets_lt_flag() {
    let mut ctx = Context::new();
    ctx.set_reg(&Register::X0, 3);
    ctx.set_reg(&Register::X1, 5);
    eval_cmp(&mut ctx, &Register::X0, &Register::X1);
    assert_eq!(ctx.cond, Condition::Lt);
    assert!(eval_branch(&ctx, &BranchOpcode::Blt));
    assert!(!eval_branch(&ctx, &BranchOpcode::Beq));
}

#[test]
fn cmp_greater_sets_eq_flag() {
    let mut ctx = Context::new();
    ctx.set_reg(&Register::X0, 9);
    ctx.set_reg(&Register::X1, 5);
    eval_cmp(&mut ctx, &Register::X0, &Register::X1);
    assert_eq!(ctx.cond, Condition::Eq);
}

#[test]
fn subtraction_result() {
    let ctx = run_to_halt("mov x1, #10\nmov x2, #4\nsub x0, x1, x2");
    assert_eq!(ctx.get_reg(&Register::X0), 6);
}

#[test]
fn division_result() {
    let ctx = run_to_halt("mov x1, #10\nmov x2, #4\ndiv x0, x1, x2");
    assert_eq!(ctx.get_reg(&Register::X0), 2);
}

#[test]
fn division_by_zero_is_a_fault() {
    let ops = load("mov x1, #10\ndiv x0, x1, x2");
    match run(&ops, BUDGET) {
        RunOutcome::Faulted(Fault::DivisionByZero { at }) => assert_eq!(at, 1),
        other => panic!("expected a division fault, got {:?}", other),
    }
}

#[test]
fn addition_wraps_modulo_two_to_the_64() {
    let mut ctx = Context::new();
    ctx.set_reg(&Register::X1, u64::MAX);
    ctx.set_reg(&Register::X2, 2);
    let ok = eval_arith(
        &mut ctx,
        &ArithOpcode::Add,
        &Register::X0,
        &Register::X1,
        &Register::X2,
    );
    assert!(ok);
    assert_eq!(ctx.get_reg(&Register::X0), 1);
}

#[test]
fn multiplication_wraps_modulo_two_to_the_64() {
    let mut ctx = Context::new();
    ctx.set_reg(&Register::X1, 1 << 63);
    ctx.set_reg(&Register::X2, 2);
    let ok = eval_arith(
        &mut ctx,
        &ArithOpcode::Mul,
        &Register::X0,
        &Register::X1,
        &Register::X2,
    );
    assert!(ok);
    assert_eq!(ctx.get_reg(&Register::X0), 0);
}

#[test]
fn subtraction_wraps_below_zero() {
    let mut ctx = Context::new();
    ctx.set_reg(&Register::X1, 3);
    ctx.set_reg(&Register::X2, 5);
    let ok = eval_arith(
        &mut ctx,
        &ArithOpcode::Sub,
        &Register::X0,
        &Register::X1,
        &Register::X2,
    );
    assert!(ok);
    assert_eq!(ctx.get_reg(&Register::X0), u64::MAX - 1);
}

#[test]
fn eval_arith_refuses_zero_divisor_and_leaves_state() {
    let mut ctx = Context::new();
    ctx.set_reg(&Register::X1, 7);
    let ok = eval_arith(
        &mut ctx,
        &ArithOpcode::Div,
        &Register::X0,
        &Register::X1,
        &Register::X2,
    );
    assert!(!ok);
    assert_eq!(ctx.get_reg(&Register::X0), 0);
    assert_eq!(ctx.get_reg(&Register::X1), 7);
}

#[test]
fn immediate_load_leaves_other_registers_zero() {
    let ctx = run_to_halt("mov x0, #42");
    assert_eq!(ctx.get_reg(&Register::X0), 42);
    for i in 1..31 {
        let r = Register::from_index(i).unwrap();
        assert_eq!(ctx.get_reg(&r), 0);
    }
    assert_eq!(ctx.cond, Condition::Eq);
}

#[test]
fn mov_register_to_register_writes_destination() {
    let mut ctx = Context::new();
    ctx.set_reg(&Register::X1, 9);
    eval_mov(&mut ctx, &Register::X2, &RegOrNum::Reg(Register::X1));
    assert_eq!(ctx.get_reg(&Register::X2), 9);
    assert_eq!(ctx.get_reg(&Register::X1), 9);
}

#[test]
fn mov_register_to_register_through_program() {
    let ctx = run_to_halt("mov x1, #9\nmov x2, x1");
    assert_eq!(ctx.get_reg(&Register::X2), 9);
    assert_eq!(ctx.get_reg(&Register::X1), 9);
}

#[test]
fn counting_down_loop_halts_with_expected_registers() {
    let text = "mov x0, #3\nmov x1, #1\nsub x0, x0, x1\ncmp x2, x0\nb.lt #2";
    let ctx = run_to_halt(text);
    assert_eq!(ctx.get_reg(&Register::X0), 0);
    assert_eq!(ctx.get_reg(&Register::X1), 1);
    assert_eq!(ctx.get_reg(&Register::X2), 0);
    assert_eq!(ctx.cond, Condition::Eq);
}

#[test]
fn runs_are_deterministic() {
    let text = "mov x0, #3\nmov x1, #1\nsub x0, x0, x1\ncmp x2, x0\nb.lt #2";
    let ops = load(text);
    let first = run(&ops, BUDGET);
    let second = run(&ops, BUDGET);
    match (first, second) {
        (RunOutcome::Halted(a), RunOutcome::Halted(b)) => {
            assert_eq!(a.cond, b.cond);
            for i in 0..31 {
                let r = Register::from_index(i).unwrap();
                assert_eq!(a.get_reg(&r), b.get_reg(&r));
            }
        }
        other => panic!("expected two halts, got {:?}", other),
    }
}

#[test]
fn branch_free_program_halts() {
    let ctx = run_to_halt("mov x3, #7\nadd x4, x3, x3\ncmp x3, x4");
    assert_eq!(ctx.get_reg(&Register::X3), 7);
    assert_eq!(ctx.get_reg(&Register::X4), 14);
    assert_eq!(ctx.cond, Condition::Lt);
}

#[test]
fn empty_program_halts_at_once() {
    let ctx = run_to_halt("");
    for i in 0..31 {
        let r = Register::from_index(i).unwrap();
        assert_eq!(ctx.get_reg(&r), 0);
    }
}

#[test]
fn branch_before_any_compare_takes_eq() {
    let ctx = run_to_halt("b.eq #2\nmov x0, #1\nmov x1, #7");
    assert_eq!(ctx.get_reg(&Register::X0), 0);
    assert_eq!(ctx.get_reg(&Register::X1), 7);
}

#[test]
fn branch_past_the_end_is_a_counter_fault() {
    let ops = load("b.eq #5");
    match run(&ops, BUDGET) {
        RunOutcome::Faulted(Fault::InvalidProgramCounter { pc }) => assert_eq!(pc, 5),
        other => panic!("expected a counter fault, got {:?}", other),
    }
}

#[test]
fn branch_to_the_exact_end_halts() {
    let ctx = run_to_halt("mov x0, #1\nb.eq #2");
    assert_eq!(ctx.get_reg(&Register::X0), 1);
}

#[test]
fn exhausted_budget_reports_still_running() {
    let ops = load("b.eq #0");
    match run(&ops, 5) {
        RunOutcome::StillRunning(ctx, pc) => {
            assert_eq!(pc, 0);
            assert_eq!(ctx.get_reg(&Register::X0), 0);
        }
        other => panic!("expected the budget to run out, got {:?}", other),
    }
}

#[test]
fn zero_budget_reports_the_initial_state() {
    let ops = load("mov x0, #1");
    match run(&ops, 0) {
        RunOutcome::StillRunning(ctx, pc) => {
            assert_eq!(pc, 0);
            assert_eq!(ctx.get_reg(&Register::X0), 0);
            assert_eq!(ctx.cond, Condition::Eq);
        }
        other => panic!("expected no step to be taken, got {:?}", other),
    }
}
