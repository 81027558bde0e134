//! The loader: instruction data model and the text-format parser.
//!
//! A program is one instruction per line; blank lines are ignored.
//! The grammar is
//! `mov <reg>, #<uint>` | `mov <reg>, <reg>` | `cmp <reg>, <reg>` |
//! `add|sub|mul|div <reg>, <reg>, <reg>` | `b.eq #<uint>` | `b.lt #<uint>`,
//! where a register token is exactly one of `x0` .. `x30` and a branch
//! target is an absolute instruction index. A malformed line fails the
//! whole load with an error naming the offending line, so the engine
//! never starts on ill-formed input.

use vstd::prelude::*;
use vstd::slice::slice_subrange;
use vstd::string::StringSliceAdditionalSpecFns;

verus! {

/// One of the 31 general-purpose registers, `x0` through `x30`.
#[derive(Clone, Copy, Debug, PartialEq, Eq, Structural)]
pub enum Register {
    X0,
    X1,
    X2,
    X3,
    X4,
    X5,
    X6,
    X7,
    X8,
    X9,
    X10,
    X11,
    X12,
    X13,
    X14,
    X15,
    X16,
    X17,
    X18,
    X19,
    X20,
    X21,
    X22,
    X23,
    X24,
    X25,
    X26,
    X27,
    X28,
    X29,
    X30,
}

/// The dense index of a register: `x0` maps to 0, ..., `x30` to 30.
pub open spec fn reg_idx(r: Register) -> int {
    match r {
        Register::X0 => 0,
        Register::X1 => 1,
        Register::X2 => 2,
        Register::X3 => 3,
        Register::X4 => 4,
        Register::X5 => 5,
        Register::X6 => 6,
        Register::X7 => 7,
        Register::X8 => 8,
        Register::X9 => 9,
        Register::X10 => 10,
        Register::X11 => 11,
        Register::X12 => 12,
        Register::X13 => 13,
        Register::X14 => 14,
        Register::X15 => 15,
        Register::X16 => 16,
        Register::X17 => 17,
        Register::X18 => 18,
        Register::X19 => 19,
        Register::X20 => 20,
        Register::X21 => 21,
        Register::X22 => 22,
        Register::X23 => 23,
        Register::X24 => 24,
        Register::X25 => 25,
        Register::X26 => 26,
        Register::X27 => 27,
        Register::X28 => 28,
        Register::X29 => 29,
        Register::X30 => 30,
    }
}

/// The register with the given dense index; `x30` for any index past 30.
pub open spec fn reg_of(v: int) -> Register {
    if v == 0 {
        Register::X0
    } else if v == 1 {
        Register::X1
    } else if v == 2 {
        Register::X2
    } else if v == 3 {
        Register::X3
    } else if v == 4 {
        Register::X4
    } else if v == 5 {
        Register::X5
    } else if v == 6 {
        Register::X6
    } else if v == 7 {
        Register::X7
    } else if v == 8 {
        Register::X8
    } else if v == 9 {
        Register::X9
    } else if v == 10 {
        Register::X10
    } else if v == 11 {
        Register::X11
    } else if v == 12 {
        Register::X12
    } else if v == 13 {
        Register::X13
    } else if v == 14 {
        Register::X14
    } else if v == 15 {
        Register::X15
    } else if v == 16 {
        Register::X16
    } else if v == 17 {
        Register::X17
    } else if v == 18 {
        Register::X18
    } else if v == 19 {
        Register::X19
    } else if v == 20 {
        Register::X20
    } else if v == 21 {
        Register::X21
    } else if v == 22 {
        Register::X22
    } else if v == 23 {
        Register::X23
    } else if v == 24 {
        Register::X24
    } else if v == 25 {
        Register::X25
    } else if v == 26 {
        Register::X26
    } else if v == 27 {
        Register::X27
    } else if v == 28 {
        Register::X28
    } else if v == 29 {
        Register::X29
    } else {
        Register::X30
    }
}

impl Register {
    /// The dense index of this register, for addressing the register file.
    pub fn index(&self) -> (i: usize)
        ensures
            i == reg_idx(*self),
            i < 31,
    {
        match self {
            Register::X0 => 0,
            Register::X1 => 1,
            Register::X2 => 2,
            Register::X3 => 3,
            Register::X4 => 4,
            Register::X5 => 5,
            Register::X6 => 6,
            Register::X7 => 7,
            Register::X8 => 8,
            Register::X9 => 9,
            Register::X10 => 10,
            Register::X11 => 11,
            Register::X12 => 12,
            Register::X13 => 13,
            Register::X14 => 14,
            Register::X15 => 15,
            Register::X16 => 16,
            Register::X17 => 17,
            Register::X18 => 18,
            Register::X19 => 19,
            Register::X20 => 20,
            Register::X21 => 21,
            Register::X22 => 22,
            Register::X23 => 23,
            Register::X24 => 24,
            Register::X25 => 25,
            Register::X26 => 26,
            Register::X27 => 27,
            Register::X28 => 28,
            Register::X29 => 29,
            Register::X30 => 30,
        }
    }

    /// The register with the given dense index, if the index is in range.
    pub fn from_index(v: usize) -> (r: Option<Register>)
        ensures
            v <= 30 ==> r == Some(reg_of(v as int)),
            v > 30 ==> r is None,
    {
        match v {
            0 => Some(Register::X0),
            1 => Some(Register::X1),
            2 => Some(Register::X2),
            3 => Some(Register::X3),
            4 => Some(Register::X4),
            5 => Some(Register::X5),
            6 => Some(Register::X6),
            7 => Some(Register::X7),
            8 => Some(Register::X8),
            9 => Some(Register::X9),
            10 => Some(Register::X10),
            11 => Some(Register::X11),
            12 => Some(Register::X12),
            13 => Some(Register::X13),
            14 => Some(Register::X14),
            15 => Some(Register::X15),
            16 => Some(Register::X16),
            17 => Some(Register::X17),
            18 => Some(Register::X18),
            19 => Some(Register::X19),
            20 => Some(Register::X20),
            21 => Some(Register::X21),
            22 => Some(Register::X22),
            23 => Some(Register::X23),
            24 => Some(Register::X24),
            25 => Some(Register::X25),
            26 => Some(Register::X26),
            27 => Some(Register::X27),
            28 => Some(Register::X28),
            29 => Some(Register::X29),
            30 => Some(Register::X30),
            _ => None,
        }
    }
}

/// The operator of an arithmetic instruction.
#[derive(Clone, Copy, Debug, PartialEq, Eq, Structural)]
pub enum ArithOpcode {
    Add,
    Sub,
    Mul,
    Div,
}

/// The predicate of a branch instruction: branch if the flag is `Eq`,
/// or branch if it is `Lt`.
#[derive(Clone, Copy, Debug, PartialEq, Eq, Structural)]
pub enum BranchOpcode {
    Beq,
    Blt,
}

/// A move source: either a register or an immediate unsigned literal.
#[derive(Clone, Copy, Debug, PartialEq, Eq, Structural)]
pub enum RegOrNum {
    Reg(Register),
    Num(u64),
}

/// One instruction of a loaded program.
#[derive(Clone, Copy, Debug, PartialEq, Eq, Structural)]
pub enum Op {
    /// Write the source operand's value into the destination register.
    Mov(Register, RegOrNum),
    /// Set the condition flag from the comparison of the two registers.
    Cmp(Register, Register),
    /// Apply the operator to the two operand registers and write the
    /// result into the destination register.
    ArithOp(ArithOpcode, Register, Register, Register),
    /// If the flag satisfies the predicate, jump to the absolute
    /// instruction index given as the target.
    BranchOp(BranchOpcode, u64),
}

/// Why a program text was rejected at load time.
#[derive(Clone, Copy, Debug, PartialEq, Eq, Structural)]
pub enum LoadErrorKind {
    /// The line does not begin with a known mnemonic.
    UnknownMnemonic,
    /// An operand position that needs a register token does not hold
    /// one of `x0` .. `x30`.
    UnknownRegister,
    /// The line's operands do not fit the mnemonic's shape.
    MalformedLine,
    /// Text remains on the line after a complete instruction.
    TrailingGarbage,
    /// A numeric literal does not fit in an unsigned 64-bit value.
    NumberTooLarge,
}

/// A structured load failure: the 1-based line that failed, and why.
#[derive(Clone, Copy, Debug, PartialEq, Eq, Structural)]
pub struct LoadError {
    pub line: usize,
    pub kind: LoadErrorKind,
}

/// The arithmetic opcode a mnemonic's bytes stand for, if any.
pub open spec fn spec_aop(s: Seq<u8>) -> Option<ArithOpcode> {
    if s.len() == 3 && s[0] == 97 && s[1] == 100 && s[2] == 100 {
        Some(ArithOpcode::Add)
    } else if s.len() == 3 && s[0] == 115 && s[1] == 117 && s[2] == 98 {
        Some(ArithOpcode::Sub)
    } else if s.len() == 3 && s[0] == 109 && s[1] == 117 && s[2] == 108 {
        Some(ArithOpcode::Mul)
    } else if s.len() == 3 && s[0] == 100 && s[1] == 105 && s[2] == 118 {
        Some(ArithOpcode::Div)
    } else {
        None
    }
}

/// The branch opcode a mnemonic's bytes stand for, if any.
pub open spec fn spec_brop(s: Seq<u8>) -> Option<BranchOpcode> {
    if s.len() == 4 && s[0] == 98 && s[1] == 46 && s[2] == 101 && s[3] == 113 {
        Some(BranchOpcode::Beq)
    } else if s.len() == 4 && s[0] == 98 && s[1] == 46 && s[2] == 108 && s[3] == 116 {
        Some(BranchOpcode::Blt)
    } else {
        None
    }
}

/// The arithmetic opcode named by a mnemonic: `add`, `sub`, `mul` or `div`.
pub fn get_aop(op: &str) -> (r: Option<ArithOpcode>)
    ensures
        r == spec_aop(op.spec_bytes()),
{
    let b = op.as_bytes();
    if b.len() == 3 && b[0] == 97 && b[1] == 100 && b[2] == 100 {
        Some(ArithOpcode::Add)
    } else if b.len() == 3 && b[0] == 115 && b[1] == 117 && b[2] == 98 {
        Some(ArithOpcode::Sub)
    } else if b.len() == 3 && b[0] == 109 && b[1] == 117 && b[2] == 108 {
        Some(ArithOpcode::Mul)
    } else if b.len() == 3 && b[0] == 100 && b[1] == 105 && b[2] == 118 {
        Some(ArithOpcode::Div)
    } else {
        None
    }
}

/// Whether a byte is in-line whitespace (space, tab, carriage return).
pub open spec fn is_space(b: u8) -> bool {
    b == 32 || b == 9 || b == 13
}

/// Whether a byte is a decimal digit.
pub open spec fn is_digit(b: u8) -> bool {
    48 <= b && b <= 57
}

/// The first position at or after `i` holding a non-whitespace byte, or
/// the end of the input.
pub open spec fn skip_spaces(s: Seq<u8>, i: int) -> int
    decreases s.len() - i,
    when 0 <= i <= s.len()
{
    if i < s.len() && is_space(s[i]) {
        skip_spaces(s, i + 1)
    } else {
        i
    }
}

/// The end of the maximal digit run starting at `i`.
pub open spec fn digits_end(s: Seq<u8>, i: int) -> int
    decreases s.len() - i,
    when 0 <= i <= s.len()
{
    if i < s.len() && is_digit(s[i]) {
        digits_end(s, i + 1)
    } else {
        i
    }
}

/// The position of the first line feed at or after `i`, or the end of
/// the input.
pub open spec fn line_end(s: Seq<u8>, i: int) -> int
    decreases s.len() - i,
    when 0 <= i <= s.len()
{
    if i < s.len() && s[i] != 10 {
        line_end(s, i + 1)
    } else {
        i
    }
}

/// The value of the decimal digits at positions `i` up to `j`.
pub open spec fn digits_val(s: Seq<u8>, i: int, j: int) -> int
    decreases j - i,
{
    if j <= i {
        0
    } else {
        digits_val(s, i, j - 1) * 10 + (s[j - 1] - 48)
    }
}

/// `line_end` stays between its start and the end of the input.
pub proof fn lemma_line_end_bounds(s: Seq<u8>, i: int)
    requires
        0 <= i <= s.len(),
    ensures
        i <= line_end(s, i) <= s.len(),
    decreases s.len() - i,
{
    if i < s.len() && s[i] != 10 {
        lemma_line_end_bounds(s, i + 1);
    }
}

/// A digit string's value is not negative.
pub proof fn lemma_digits_val_nonneg(s: Seq<u8>, i: int, j: int)
    requires
        i <= j,
        forall|t: int| i <= t < j ==> is_digit(#[trigger] s[t]),
    ensures
        digits_val(s, i, j) >= 0,
    decreases j - i,
{
    if j > i {
        lemma_digits_val_nonneg(s, i, j - 1);
    }
}

/// Extending a digit string to the right never lowers its value.
pub proof fn lemma_digits_val_mono(s: Seq<u8>, i: int, j: int, k: int)
    requires
        i <= j <= k,
        forall|t: int| i <= t < k ==> is_digit(#[trigger] s[t]),
    ensures
        digits_val(s, i, j) <= digits_val(s, i, k),
    decreases k - j,
{
    if k > j {
        lemma_digits_val_mono(s, i, j, k - 1);
        lemma_digits_val_nonneg(s, i, k - 1);
    }
}

/// The first non-whitespace position at or after `i`.
fn skip_ws(s: &[u8], i: usize) -> (r: usize)
    requires
        i <= s@.len(),
    ensures
        i <= r <= s@.len(),
        r == skip_spaces(s@, i as int),
{
    let mut j = i;
    while j < s.len() && (s[j] == 32 || s[j] == 9 || s[j] == 13)
        invariant
            i <= j <= s@.len(),
            skip_spaces(s@, i as int) == skip_spaces(s@, j as int),
        decreases s@.len() - j,
    {
        j = j + 1;
    }
    j
}

/// The end of the maximal digit run starting at `i`, and the fact that
/// everything before it is a digit.
fn scan_digits(s: &[u8], i: usize) -> (r: usize)
    requires
        i <= s@.len(),
    ensures
        i <= r <= s@.len(),
        r == digits_end(s@, i as int),
        forall|t: int| i <= t < r ==> is_digit(#[trigger] s@[t]),
{
    let mut j = i;
    while j < s.len() && 48 <= s[j] && s[j] <= 57
        invariant
            i <= j <= s@.len(),
            digits_end(s@, i as int) == digits_end(s@, j as int),
            forall|t: int| i <= t < j ==> is_digit(#[trigger] s@[t]),
        decreases s@.len() - j,
    {
        j = j + 1;
    }
    j
}

/// The position of the first line feed at or after `i`, or the input's end.
fn scan_line_end(s: &[u8], i: usize) -> (r: usize)
    requires
        i <= s@.len(),
    ensures
        i <= r <= s@.len(),
        r == line_end(s@, i as int),
{
    let mut j = i;
    while j < s.len() && s[j] != 10
        invariant
            i <= j <= s@.len(),
            line_end(s@, i as int) == line_end(s@, j as int),
        decreases s@.len() - j,
    {
        j = j + 1;
    }
    j
}

/// The register token starting at `i`, with the position after it:
/// an `x` followed by a maximal digit run that spells exactly one of
/// `0` .. `30`, with no leading zero.
pub open spec fn spec_parse_reg(s: Seq<u8>, i: int) -> Option<(Register, int)> {
    if i < s.len() && s[i] == 120 {
        let e = digits_end(s, i + 1);
        let n = e - (i + 1);
        if (n == 1 || (n == 2 && s[i + 1] != 48)) && digits_val(s, i + 1, e) <= 30 {
            Some((reg_of(digits_val(s, i + 1, e)), e))
        } else {
            None
        }
    } else {
        None
    }
}

/// The numeric literal starting at `i`, with the position after it:
/// a `#` followed by a nonempty digit run. The value is unbounded here;
/// whether it fits in 64 bits is checked where the literal is used.
pub open spec fn spec_scan_number(s: Seq<u8>, i: int) -> Option<(int, int)> {
    if i < s.len() && s[i] == 35 {
        let e = digits_end(s, i + 1);
        if e > i + 1 {
            Some((digits_val(s, i + 1, e), e))
        } else {
            None
        }
    } else {
        None
    }
}

/// Parse the register token starting at `i`, per [`spec_parse_reg`].
pub fn parse_reg(s: &[u8], i: usize) -> (r: Option<(Register, usize)>)
    requires
        i <= s@.len(),
    ensures
        match r {
            Some(p) => spec_parse_reg(s@, i as int) == Some((p.0, p.1 as int)) && i < p.1
                <= s@.len(),
            None => spec_parse_reg(s@, i as int) is None,
        },
{
    if i < s.len() && s[i] == 120 {
        let e = scan_digits(s, i + 1);
        let n = e - (i + 1);
        if n == 1 {
            let v = s[i + 1] - 48;
            proof {
                reveal_with_fuel(digits_val, 3);
                assert(digits_val(s@, i + 1, e as int) == s@[i + 1] - 48);
            }
            match Register::from_index(v as usize) {
                Some(reg) => Some((reg, e)),
                None => None,
            }
        } else if n == 2 && s[i + 1] != 48 {
            let v = (s[i + 1] - 48) as usize * 10 + (s[i + 2] - 48) as usize;
            proof {
                reveal_with_fuel(digits_val, 4);
                assert(digits_val(s@, i + 1, e as int) == (s@[i + 1] - 48) * 10 + (s@[i + 2]
                    - 48));
            }
            match Register::from_index(v) {
                Some(reg) => Some((reg, e)),
                None => None,
            }
        } else {
            None
        }
    } else {
        None
    }
}

/// How a numeric-literal scan ended.
enum NumScan {
    /// No `#` followed by at least one digit stands at the position.
    NoNumber,
    /// The literal is well-formed but does not fit in 64 bits.
    TooLarge,
    /// The literal's value, and the position after its last digit.
    Value(u64, usize),
}

/// Parse the numeric literal starting at `i`, per [`spec_scan_number`],
/// detecting values that do not fit in 64 bits.
fn scan_number(s: &[u8], i: usize) -> (r: NumScan)
    requires
        i <= s@.len(),
    ensures
        match r {
            NumScan::NoNumber => spec_scan_number(s@, i as int) is None,
            NumScan::TooLarge => (spec_scan_number(s@, i as int) matches Some(p) && p.0
                > u64::MAX),
            NumScan::Value(v, e) => (spec_scan_number(s@, i as int) matches Some(p) && p.0 == v
                && p.1 == e as int && i < e <= s@.len()),
        },
{
    if i < s.len() && s[i] == 35 {
        let e = scan_digits(s, i + 1);
        if e == i + 1 {
            return NumScan::NoNumber;
        }
        let mut acc: u64 = 0;
        let mut k = i + 1;
        while k < e
            invariant
                i + 1 <= k <= e,
                i < s@.len(),
                s@[i as int] == 35,
                i + 1 < e,
                e == digits_end(s@, i as int + 1),
                e <= s@.len(),
                forall|t: int| i + 1 <= t < e ==> is_digit(#[trigger] s@[t]),
                acc == digits_val(s@, i as int + 1, k as int),
            decreases e - k,
        {
            let d = s[k] - 48;
            if acc > (u64::MAX - d as u64) / 10 {
                proof {
                    assert(acc * 10 + d > u64::MAX);
                    assert(digits_val(s@, i as int + 1, k as int + 1) == acc * 10 + (s@[k as int]
                        - 48));
                    lemma_digits_val_mono(s@, i as int + 1, k as int + 1, e as int);
                    assert(digits_val(s@, i as int + 1, e as int) > u64::MAX);
                }
                return NumScan::TooLarge;
            }
            acc = acc * 10 + d as u64;
            k = k + 1;
        }
        NumScan::Value(acc, e)
    } else {
        NumScan::NoNumber
    }
}

/// The branch opcode named by a mnemonic: `b.eq` or `b.lt`.
pub fn get_brop(op: &str) -> (r: Option<BranchOpcode>)
    ensures
        r == spec_brop(op.spec_bytes()),
{
    let b = op.as_bytes();
    if b.len() == 4 && b[0] == 98 && b[1] == 46 && b[2] == 101 && b[3] == 113 {
        Some(BranchOpcode::Beq)
    } else if b.len() == 4 && b[0] == 98 && b[1] == 46 && b[2] == 108 && b[3] == 116 {
        Some(BranchOpcode::Blt)
    } else {
        None
    }
}

/// Whether the three given bytes stand at position `i`.
pub open spec fn tok3(s: Seq<u8>, i: int, a: u8, b: u8, c: u8) -> bool {
    i + 3 <= s.len() && s[i] == a && s[i + 1] == b && s[i + 2] == c
}

/// Whether the four given bytes stand at position `i`.
pub open spec fn tok4(s: Seq<u8>, i: int, a: u8, b: u8, c: u8, d: u8) -> bool {
    i + 4 <= s.len() && s[i] == a && s[i + 1] == b && s[i + 2] == c && s[i + 3] == d
}

/// The operands of a `mov`, starting after the mnemonic at `i`: at least
/// one space, a destination register, a comma, then either `#` and an
/// immediate or a source register. Yields the instruction and the
/// position after it.
pub open spec fn spec_parse_mov(s: Seq<u8>, i: int) -> Result<(Op, int), LoadErrorKind> {
    let j = skip_spaces(s, i);
    if j == i {
        Err(LoadErrorKind::MalformedLine)
    } else {
        match spec_parse_reg(s, j) {
            None => Err(LoadErrorKind::UnknownRegister),
            Some((dst, q)) => {
                let q2 = skip_spaces(s, q);
                if q2 < s.len() && s[q2] == 44 {
                    let q3 = skip_spaces(s, q2 + 1);
                    if q3 < s.len() && s[q3] == 35 {
                        match spec_scan_number(s, q3) {
                            None => Err(LoadErrorKind::MalformedLine),
                            Some(p) => if p.0 > u64::MAX {
                                Err(LoadErrorKind::NumberTooLarge)
                            } else {
                                Ok((Op::Mov(dst, RegOrNum::Num(p.0 as u64)), p.1))
                            },
                        }
                    } else {
                        match spec_parse_reg(s, q3) {
                            None => Err(LoadErrorKind::UnknownRegister),
                            Some((src, e)) => Ok((Op::Mov(dst, RegOrNum::Reg(src)), e)),
                        }
                    }
                } else {
                    Err(LoadErrorKind::MalformedLine)
                }
            },
        }
    }
}

/// The operands of a `cmp`: two registers separated by a comma.
pub open spec fn spec_parse_cmp(s: Seq<u8>, i: int) -> Result<(Op, int), LoadErrorKind> {
    let j = skip_spaces(s, i);
    if j == i {
        Err(LoadErrorKind::MalformedLine)
    } else {
        match spec_parse_reg(s, j) {
            None => Err(LoadErrorKind::UnknownRegister),
            Some((r1, q)) => {
                let q2 = skip_spaces(s, q);
                if q2 < s.len() && s[q2] == 44 {
                    let q3 = skip_spaces(s, q2 + 1);
                    match spec_parse_reg(s, q3) {
                        None => Err(LoadErrorKind::UnknownRegister),
                        Some((r2, e)) => Ok((Op::Cmp(r1, r2), e)),
                    }
                } else {
                    Err(LoadErrorKind::MalformedLine)
                }
            },
        }
    }
}

/// The operands of an arithmetic instruction: destination register and
/// two operand registers, comma-separated.
pub open spec fn spec_parse_arith(opcode: ArithOpcode, s: Seq<u8>, i: int) -> Result<
    (Op, int),
    LoadErrorKind,
> {
    let j = skip_spaces(s, i);
    if j == i {
        Err(LoadErrorKind::MalformedLine)
    } else {
        match spec_parse_reg(s, j) {
            None => Err(LoadErrorKind::UnknownRegister),
            Some((r1, q)) => {
                let q2 = skip_spaces(s, q);
                if q2 < s.len() && s[q2] == 44 {
                    let q3 = skip_spaces(s, q2 + 1);
                    match spec_parse_reg(s, q3) {
                        None => Err(LoadErrorKind::UnknownRegister),
                        Some((r2, q4)) => {
                            let q5 = skip_spaces(s, q4);
                            if q5 < s.len() && s[q5] == 44 {
                                let q6 = skip_spaces(s, q5 + 1);
                                match spec_parse_reg(s, q6) {
                                    None => Err(LoadErrorKind::UnknownRegister),
                                    Some((r3, e)) => Ok((Op::ArithOp(opcode, r1, r2, r3), e)),
                                }
                            } else {
                                Err(LoadErrorKind::MalformedLine)
                            }
                        },
                    }
                } else {
                    Err(LoadErrorKind::MalformedLine)
                }
            },
        }
    }
}

/// The operand of a branch: at least one space, then `#` and the
/// absolute target index.
pub open spec fn spec_parse_branch(opcode: BranchOpcode, s: Seq<u8>, i: int) -> Result<
    (Op, int),
    LoadErrorKind,
> {
    let j = skip_spaces(s, i);
    if j == i {
        Err(LoadErrorKind::MalformedLine)
    } else {
        match spec_scan_number(s, j) {
            None => Err(LoadErrorKind::MalformedLine),
            Some(p) => if p.0 > u64::MAX {
                Err(LoadErrorKind::NumberTooLarge)
            } else {
                Ok((Op::BranchOp(opcode, p.0 as u64), p.1))
            },
        }
    }
}

/// One source line: leading whitespace, then nothing (a blank line), or
/// one instruction and trailing whitespace only.
pub open spec fn spec_parse_line(s: Seq<u8>) -> Result<Option<Op>, LoadErrorKind> {
    let i = skip_spaces(s, 0);
    if i == s.len() {
        Ok(None)
    } else {
        let r = if tok3(s, i, 109, 111, 118) {
            spec_parse_mov(s, i + 3)
        } else if tok3(s, i, 99, 109, 112) {
            spec_parse_cmp(s, i + 3)
        } else if tok3(s, i, 97, 100, 100) {
            spec_parse_arith(ArithOpcode::Add, s, i + 3)
        } else if tok3(s, i, 115, 117, 98) {
            spec_parse_arith(ArithOpcode::Sub, s, i + 3)
        } else if tok3(s, i, 109, 117, 108) {
            spec_parse_arith(ArithOpcode::Mul, s, i + 3)
        } else if tok3(s, i, 100, 105, 118) {
            spec_parse_arith(ArithOpcode::Div, s, i + 3)
        } else if tok4(s, i, 98, 46, 101, 113) {
            spec_parse_branch(BranchOpcode::Beq, s, i + 4)
        } else if tok4(s, i, 98, 46, 108, 116) {
            spec_parse_branch(BranchOpcode::Blt, s, i + 4)
        } else {
            Err(LoadErrorKind::UnknownMnemonic)
        };
        match r {
            Err(k) => Err(k),
            Ok((op, e)) => if skip_spaces(s, e) == s.len() {
                Ok(Some(op))
            } else {
                Err(LoadErrorKind::TrailingGarbage)
            },
        }
    }
}

/// Parse the operands of a `mov`, per [`spec_parse_mov`].
pub fn parse_mov(s: &[u8], i: usize) -> (r: Result<(Op, usize), LoadErrorKind>)
    requires
        i <= s@.len(),
    ensures
        match r {
            Ok(p) => spec_parse_mov(s@, i as int) == Ok::<(Op, int), LoadErrorKind>(
                (p.0, p.1 as int),
            ) && p.1 <= s@.len(),
            Err(k) => spec_parse_mov(s@, i as int) == Err::<(Op, int), LoadErrorKind>(k),
        },
{
    let j = skip_ws(s, i);
    if j == i {
        return Err(LoadErrorKind::MalformedLine);
    }
    match parse_reg(s, j) {
        None => Err(LoadErrorKind::UnknownRegister),
        Some((dst, q)) => {
            let q2 = skip_ws(s, q);
            if q2 < s.len() && s[q2] == 44 {
                let q3 = skip_ws(s, q2 + 1);
                if q3 < s.len() && s[q3] == 35 {
                    match scan_number(s, q3) {
                        NumScan::NoNumber => Err(LoadErrorKind::MalformedLine),
                        NumScan::TooLarge => Err(LoadErrorKind::NumberTooLarge),
                        NumScan::Value(v, e) => Ok((Op::Mov(dst, RegOrNum::Num(v)), e)),
                    }
                } else {
                    match parse_reg(s, q3) {
                        None => Err(LoadErrorKind::UnknownRegister),
                        Some((src, e)) => Ok((Op::Mov(dst, RegOrNum::Reg(src)), e)),
                    }
                }
            } else {
                Err(LoadErrorKind::MalformedLine)
            }
        },
    }
}

/// Parse the operands of a `cmp`, per [`spec_parse_cmp`].
pub fn parse_cmp(s: &[u8], i: usize) -> (r: Result<(Op, usize), LoadErrorKind>)
    requires
        i <= s@.len(),
    ensures
        match r {
            Ok(p) => spec_parse_cmp(s@, i as int) == Ok::<(Op, int), LoadErrorKind>(
                (p.0, p.1 as int),
            ) && p.1 <= s@.len(),
            Err(k) => spec_parse_cmp(s@, i as int) == Err::<(Op, int), LoadErrorKind>(k),
        },
{
    let j = skip_ws(s, i);
    if j == i {
        return Err(LoadErrorKind::MalformedLine);
    }
    match parse_reg(s, j) {
        None => Err(LoadErrorKind::UnknownRegister),
        Some((r1, q)) => {
            let q2 = skip_ws(s, q);
            if q2 < s.len() && s[q2] == 44 {
                let q3 = skip_ws(s, q2 + 1);
                match parse_reg(s, q3) {
                    None => Err(LoadErrorKind::UnknownRegister),
                    Some((r2, e)) => Ok((Op::Cmp(r1, r2), e)),
                }
            } else {
                Err(LoadErrorKind::MalformedLine)
            }
        },
    }
}

/// Parse the operands of an arithmetic instruction, per
/// [`spec_parse_arith`].
pub fn parse_arith(opcode: ArithOpcode, s: &[u8], i: usize) -> (r: Result<
    (Op, usize),
    LoadErrorKind,
>)
    requires
        i <= s@.len(),
    ensures
        match r {
            Ok(p) => spec_parse_arith(opcode, s@, i as int) == Ok::<(Op, int), LoadErrorKind>(
                (p.0, p.1 as int),
            ) && p.1 <= s@.len(),
            Err(k) => spec_parse_arith(opcode, s@, i as int) == Err::<(Op, int), LoadErrorKind>(k),
        },
{
    let j = skip_ws(s, i);
    if j == i {
        return Err(LoadErrorKind::MalformedLine);
    }
    match parse_reg(s, j) {
        None => Err(LoadErrorKind::UnknownRegister),
        Some((r1, q)) => {
            let q2 = skip_ws(s, q);
            if q2 < s.len() && s[q2] == 44 {
                let q3 = skip_ws(s, q2 + 1);
                match parse_reg(s, q3) {
                    None => Err(LoadErrorKind::UnknownRegister),
                    Some((r2, q4)) => {
                        let q5 = skip_ws(s, q4);
                        if q5 < s.len() && s[q5] == 44 {
                            let q6 = skip_ws(s, q5 + 1);
                            match parse_reg(s, q6) {
                                None => Err(LoadErrorKind::UnknownRegister),
                                Some((r3, e)) => Ok((Op::ArithOp(opcode, r1, r2, r3), e)),
                            }
                        } else {
                            Err(LoadErrorKind::MalformedLine)
                        }
                    },
                }
            } else {
                Err(LoadErrorKind::MalformedLine)
            }
        },
    }
}

/// Parse the operand of a branch, per [`spec_parse_branch`].
pub fn parse_branch(opcode: BranchOpcode, s: &[u8], i: usize) -> (r: Result<
    (Op, usize),
    LoadErrorKind,
>)
    requires
        i <= s@.len(),
    ensures
        match r {
            Ok(p) => spec_parse_branch(opcode, s@, i as int) == Ok::<(Op, int), LoadErrorKind>(
                (p.0, p.1 as int),
            ) && p.1 <= s@.len(),
            Err(k) => spec_parse_branch(opcode, s@, i as int) == Err::<(Op, int), LoadErrorKind>(
                k,
            ),
        },
{
    let j = skip_ws(s, i);
    if j == i {
        return Err(LoadErrorKind::MalformedLine);
    }
    match scan_number(s, j) {
        NumScan::NoNumber => Err(LoadErrorKind::MalformedLine),
        NumScan::TooLarge => Err(LoadErrorKind::NumberTooLarge),
        NumScan::Value(v, e) => Ok((Op::BranchOp(opcode, v), e)),
    }
}

/// Parse one source line, per [`spec_parse_line`]: `Ok(None)` for a
/// blank line, `Ok(Some(op))` for an instruction, an error kind
/// otherwise.
pub fn parse_line(s: &[u8]) -> (r: Result<Option<Op>, LoadErrorKind>)
    ensures
        r == spec_parse_line(s@),
{
    let i = skip_ws(s, 0);
    if i == s.len() {
        return Ok(None);
    }
    let rem = s.len() - i;
    let pr = if rem >= 3 && s[i] == 109 && s[i + 1] == 111 && s[i + 2] == 118 {
        parse_mov(s, i + 3)
    } else if rem >= 3 && s[i] == 99 && s[i + 1] == 109 && s[i + 2] == 112 {
        parse_cmp(s, i + 3)
    } else if rem >= 3 && s[i] == 97 && s[i + 1] == 100 && s[i + 2] == 100 {
        parse_arith(ArithOpcode::Add, s, i + 3)
    } else if rem >= 3 && s[i] == 115 && s[i + 1] == 117 && s[i + 2] == 98 {
        parse_arith(ArithOpcode::Sub, s, i + 3)
    } else if rem >= 3 && s[i] == 109 && s[i + 1] == 117 && s[i + 2] == 108 {
        parse_arith(ArithOpcode::Mul, s, i + 3)
    } else if rem >= 3 && s[i] == 100 && s[i + 1] == 105 && s[i + 2] == 118 {
        parse_arith(ArithOpcode::Div, s, i + 3)
    } else if rem >= 4 && s[i] == 98 && s[i + 1] == 46 && s[i + 2] == 101 && s[i + 3] == 113 {
        parse_branch(BranchOpcode::Beq, s, i + 4)
    } else if rem >= 4 && s[i] == 98 && s[i + 1] == 46 && s[i + 2] == 108 && s[i + 3] == 116 {
        parse_branch(BranchOpcode::Blt, s, i + 4)
    } else {
        return Err(LoadErrorKind::UnknownMnemonic);
    };
    match pr {
        Err(k) => Err(k),
        Ok((op, e)) => {
            let t = skip_ws(s, e);
            if t == s.len() {
                Ok(Some(op))
            } else {
                Err(LoadErrorKind::TrailingGarbage)
            }
        },
    }
}

/// The whole program text from byte `pos` on, split at line feeds, with
/// `lineno` the 1-based number of the line `pos` starts: the instruction
/// sequence, or the first failing line's number and error kind.
pub open spec fn spec_parse_lines(s: Seq<u8>, pos: int, lineno: int) -> Result<
    Seq<Op>,
    (int, LoadErrorKind),
>
    decreases s.len() - pos,
    when 0 <= pos <= s.len()
    via spec_parse_lines_dec
{
    if pos >= s.len() {
        Ok(Seq::empty())
    } else {
        let e = line_end(s, pos);
        let next = if e < s.len() {
            e + 1
        } else {
            e
        };
        match spec_parse_line(s.subrange(pos, e)) {
            Err(k) => Err((lineno, k)),
            Ok(opt) => match spec_parse_lines(s, next, lineno + 1) {
                Err(x) => Err(x),
                Ok(ops) => match opt {
                    Some(op) => Ok(seq![op] + ops),
                    None => Ok(ops),
                },
            },
        }
    }
}

#[via_fn]
proof fn spec_parse_lines_dec(s: Seq<u8>, pos: int, lineno: int) {
    lemma_line_end_bounds(s, pos);
}

/// What a program text loads to: the instruction sequence of
/// [`spec_parse_lines`] over its bytes, from the start, lines numbered
/// from 1.
pub open spec fn spec_parse_asm(s: Seq<u8>) -> Result<Seq<Op>, (int, LoadErrorKind)> {
    spec_parse_lines(s, 0, 1)
}

/// The loader's loop invariant: the lines before `pos` parsed to `acc`,
/// so the whole text's result is `acc` followed by whatever the rest
/// parses to, or the rest's error.
spec fn parse_progress(s: Seq<u8>, pos: int, lineno: int, acc: Seq<Op>) -> bool {
    match spec_parse_lines(s, pos, lineno) {
        Ok(ops) => spec_parse_asm(s) == Ok::<Seq<Op>, (int, LoadErrorKind)>(acc + ops),
        Err(x) => spec_parse_asm(s) == Err::<Seq<Op>, (int, LoadErrorKind)>(x),
    }
}

/// Load a program text: one instruction per line, blank lines ignored.
/// Returns the instruction sequence given by [`spec_parse_asm`] over the
/// text's bytes, or the structured failure naming the first offending
/// line; the engine never starts on a failed load.
pub fn parse_asm(input: &str) -> (r: Result<Vec<Op>, LoadError>)
    requires
        input.spec_bytes().len() < usize::MAX,
    ensures
        match r {
            Ok(v) => spec_parse_asm(input.spec_bytes()) == Ok::<Seq<Op>, (int, LoadErrorKind)>(v@),
            Err(le) => (spec_parse_asm(input.spec_bytes()) matches Err(x) && x.0 == le.line && x.1
                == le.kind),
        },
{
    let s = input.as_bytes();
    let mut v: Vec<Op> = Vec::new();
    let mut pos: usize = 0;
    let mut lineno: usize = 1;
    while pos < s.len()
        invariant
            s@ == input.spec_bytes(),
            pos <= s@.len(),
            s@.len() < usize::MAX,
            1 <= lineno,
            lineno <= pos + 1,
            parse_progress(s@, pos as int, lineno as int, v@),
        decreases s@.len() - pos,
    {
        let e = scan_line_end(s, pos);
        let line = slice_subrange(s, pos, e);
        let pr = parse_line(line);
        let next = if e < s.len() {
            e + 1
        } else {
            e
        };
        let ghost old_acc = v@;
        match pr {
            Err(k) => {
                return Err(LoadError { line: lineno, kind: k });
            },
            Ok(Some(op)) => {
                v.push(op);
            },
            Ok(None) => {},
        }
        proof {
            let rest = spec_parse_lines(s@, next as int, lineno as int + 1);
            if rest is Ok && pr is Ok && pr->Ok_0 is Some {
                let op = pr->Ok_0->Some_0;
                assert(old_acc + (seq![op] + rest->Ok_0) =~= v@ + rest->Ok_0);
            }
        }
        pos = next;
        lineno = lineno + 1;
    }
    proof {
        assert(v@ + Seq::<Op>::empty() =~= v@);
    }
    Ok(v)
}

} // verus!
