use asm_interp::parser::{
    get_aop, get_brop, parse_arith, parse_asm, parse_branch, parse_cmp, parse_line, parse_mov,
    parse_reg, ArithOpcode, BranchOpcode, LoadErrorKind, Op, RegOrNum, Register,
};

#[test]
fn register_out_of_range_fails_at_load() {
    let e = parse_asm("mov x31, #1").unwrap_err();
    assert_eq!(e.line, 1);
    assert_eq!(e.kind, LoadErrorKind::UnknownRegister);
}

#[test]
fn every_register_token_parses() {
    for i in 0..31usize {
        let text = format!("mov x{}, #7", i);
        let ops = parse_asm(&text).unwrap();
        assert_eq!(ops.len(), 1);
        let expected = Register::from_index(i).unwrap();
        assert_eq!(ops[0], Op::Mov(expected, RegOrNum::Num(7)));
    }
}

#[test]
fn register_token_with_leading_zero_is_rejected() {
    let e = parse_asm("mov x00, #1").unwrap_err();
    assert_eq!(e.kind, LoadErrorKind::UnknownRegister);
    assert!(parse_asm("mov x07, #1").is_err());
}

#[test]
fn multi_digit_registers_in_all_positions() {
    let ops = parse_asm("add x10, x20, x30").unwrap();
    assert_eq!(
        ops[0],
        Op::ArithOp(ArithOpcode::Add, Register::X10, Register::X20, Register::X30)
    );
}

#[test]
fn blank_lines_and_spacing_are_ignored() {
    let text = "\n   mov  x0 ,  #1  \n\n\tcmp x0, x1\n";
    let ops = parse_asm(text).unwrap();
    assert_eq!(ops.len(), 2);
    assert_eq!(ops[0], Op::Mov(Register::X0, RegOrNum::Num(1)));
    assert_eq!(ops[1], Op::Cmp(Register::X0, Register::X1));
}

#[test]
fn every_mnemonic_parses() {
    let text = "mov x1, #2\nmov x2, x1\ncmp x1, x2\nadd x3, x1, x2\nsub x3, x1, x2\nmul x3, x1, x2\ndiv x3, x1, x2\nb.eq #0\nb.lt #1";
    let ops = parse_asm(text).unwrap();
    assert_eq!(ops.len(), 9);
    assert_eq!(ops[3], Op::ArithOp(ArithOpcode::Add, Register::X3, Register::X1, Register::X2));
    assert_eq!(ops[4], Op::ArithOp(ArithOpcode::Sub, Register::X3, Register::X1, Register::X2));
    assert_eq!(ops[5], Op::ArithOp(ArithOpcode::Mul, Register::X3, Register::X1, Register::X2));
    assert_eq!(ops[6], Op::ArithOp(ArithOpcode::Div, Register::X3, Register::X1, Register::X2));
    assert_eq!(ops[7], Op::BranchOp(BranchOpcode::Beq, 0));
    assert_eq!(ops[8], Op::BranchOp(BranchOpcode::Blt, 1));
}

#[test]
fn unknown_mnemonic_is_rejected() {
    let e = parse_asm("foo x0, #1").unwrap_err();
    assert_eq!(e.line, 1);
    assert_eq!(e.kind, LoadErrorKind::UnknownMnemonic);
}

#[test]
fn trailing_garbage_is_rejected() {
    let e = parse_asm("mov x0, #1 junk").unwrap_err();
    assert_eq!(e.line, 1);
    assert_eq!(e.kind, LoadErrorKind::TrailingGarbage);
}

#[test]
fn error_reports_the_offending_line() {
    let e = parse_asm("mov x0, #1\n\nb.lt\n").unwrap_err();
    assert_eq!(e.line, 3);
    assert_eq!(e.kind, LoadErrorKind::MalformedLine);
}

#[test]
fn missing_space_after_mnemonic_is_rejected() {
    let e = parse_asm("movx0, #1").unwrap_err();
    assert_eq!(e.kind, LoadErrorKind::MalformedLine);
}

#[test]
fn largest_immediate_parses() {
    let ops = parse_asm("mov x0, #18446744073709551615").unwrap();
    assert_eq!(ops[0], Op::Mov(Register::X0, RegOrNum::Num(u64::MAX)));
}

#[test]
fn immediate_past_64_bits_is_rejected() {
    let e = parse_asm("mov x0, #18446744073709551616").unwrap_err();
    assert_eq!(e.line, 1);
    assert_eq!(e.kind, LoadErrorKind::NumberTooLarge);
}

#[test]
fn immediate_without_digits_is_rejected() {
    let e = parse_asm("mov x0, #").unwrap_err();
    assert_eq!(e.kind, LoadErrorKind::MalformedLine);
}

#[test]
fn mnemonic_lookup_tables() {
    assert_eq!(get_aop("add"), Some(ArithOpcode::Add));
    assert_eq!(get_aop("sub"), Some(ArithOpcode::Sub));
    assert_eq!(get_aop("mul"), Some(ArithOpcode::Mul));
    assert_eq!(get_aop("div"), Some(ArithOpcode::Div));
    assert_eq!(get_aop("mov"), None);
    assert_eq!(get_aop(""), None);
    assert_eq!(get_brop("b.eq"), Some(BranchOpcode::Beq));
    assert_eq!(get_brop("b.lt"), Some(BranchOpcode::Blt));
    assert_eq!(get_brop("b.gt"), None);
    assert_eq!(get_brop("add"), None);
}

#[test]
fn register_index_round_trip() {
    for i in 0..31usize {
        let r = Register::from_index(i).unwrap();
        assert_eq!(r.index(), i);
    }
    assert_eq!(Register::from_index(31), None);
    assert_eq!(Register::X0.index(), 0);
    assert_eq!(Register::X30.index(), 30);
}

#[test]
fn parse_mov_operands_directly() {
    let r = parse_mov(b" x0, #5", 0).unwrap();
    assert_eq!(r.0, Op::Mov(Register::X0, RegOrNum::Num(5)));
    assert_eq!(r.1, 7);
    let r = parse_mov(b" x3, x4", 0).unwrap();
    assert_eq!(r.0, Op::Mov(Register::X3, RegOrNum::Reg(Register::X4)));
    let e = parse_mov(b" x0 #5", 0).unwrap_err();
    assert_eq!(e, LoadErrorKind::MalformedLine);
}

#[test]
fn parse_cmp_operands_directly() {
    let r = parse_cmp(b" x1, x2", 0).unwrap();
    assert_eq!(r.0, Op::Cmp(Register::X1, Register::X2));
    let e = parse_cmp(b" x1, #2", 0).unwrap_err();
    assert_eq!(e, LoadErrorKind::UnknownRegister);
}

#[test]
fn parse_arith_operands_directly() {
    let r = parse_arith(ArithOpcode::Mul, b" x1, x2, x3", 0).unwrap();
    assert_eq!(r.0, Op::ArithOp(ArithOpcode::Mul, Register::X1, Register::X2, Register::X3));
    let e = parse_arith(ArithOpcode::Add, b" x1, x2", 0).unwrap_err();
    assert_eq!(e, LoadErrorKind::MalformedLine);
}

#[test]
fn parse_branch_operand_directly() {
    let r = parse_branch(BranchOpcode::Blt, b" #12", 0).unwrap();
    assert_eq!(r.0, Op::BranchOp(BranchOpcode::Blt, 12));
    assert_eq!(r.1, 4);
    let e = parse_branch(BranchOpcode::Beq, b" 12", 0).unwrap_err();
    assert_eq!(e, LoadErrorKind::MalformedLine);
}

#[test]
fn parse_reg_token_directly() {
    assert_eq!(parse_reg(b"x7", 0), Some((Register::X7, 2)));
    assert_eq!(parse_reg(b"x30,", 0), Some((Register::X30, 3)));
    assert_eq!(parse_reg(b"x31", 0), None);
    assert_eq!(parse_reg(b"y1", 0), None);
    assert_eq!(parse_reg(b"x", 0), None);
}

#[test]
fn parse_line_directly() {
    assert_eq!(parse_line(b"   "), Ok(None));
    assert_eq!(
        parse_line(b"mov x5, #8"),
        Ok(Some(Op::Mov(Register::X5, RegOrNum::Num(8))))
    );
    assert_eq!(parse_line(b"mov x5"), Err(LoadErrorKind::MalformedLine));
}
