//! Conditions of the branch instructions of the W65C816.
use vstd::prelude::*;
use vstd::string::*;

use crate::cpu::w65c816::reg::flag_set;
use crate::cpu::w65c816::status;
use crate::cpu::w65c816::CPU;

verus! {

/// The condition under which a branch is taken.
#[derive(Clone, Copy, Debug, PartialEq, Eq, Structural)]
pub enum Condition {
    Always,
    CarryClear,
    CarrySet,
    Equal,
    Minus,
    NotEqual,
    Plus,
    OverflowClear,
    OverflowSet,
}

/// Whether a condition holds with the status register `p`.
pub open spec fn holds(c: Condition, p: u8) -> bool {
    match c {
        Condition::Always => true,
        Condition::CarryClear => p & 0x01 == 0,
        Condition::CarrySet => p & 0x01 != 0,
        Condition::Equal => p & 0x02 != 0,
        Condition::Minus => p & 0x80 != 0,
        Condition::NotEqual => p & 0x02 == 0,
        Condition::Plus => p & 0x80 == 0,
        Condition::OverflowClear => p & 0x40 == 0,
        Condition::OverflowSet => p & 0x40 != 0,
    }
}

/// The mnemonic of the branch taken under a condition.
pub open spec fn branch_text(c: Condition) -> Seq<char> {
    match c {
        Condition::Always => seq!['B', 'R', 'A'],
        Condition::CarryClear => seq!['B', 'C', 'C'],
        Condition::CarrySet => seq!['B', 'C', 'S'],
        Condition::Equal => seq!['B', 'E', 'Q'],
        Condition::Minus => seq!['B', 'M', 'I'],
        Condition::NotEqual => seq!['B', 'N', 'E'],
        Condition::Plus => seq!['B', 'P', 'L'],
        Condition::OverflowClear => seq!['B', 'V', 'C'],
        Condition::OverflowSet => seq!['B', 'V', 'S'],
    }
}

impl Condition {
    /// Whether the condition holds for the CPU.
    pub fn eval(&self, cpu: &CPU) -> (r: bool)
        ensures
            r == holds(*self, cpu@.regs.p),
    {
        match self {
            Condition::Always => true,
            Condition::CarryClear => cpu.regs.status_flag_is_clear(status::Flag::C),
            Condition::CarrySet => cpu.regs.status_flag_is_set(status::Flag::C),
            Condition::Equal => cpu.regs.status_flag_is_set(status::Flag::Z),
            Condition::Minus => cpu.regs.status_flag_is_set(status::Flag::N),
            Condition::NotEqual => cpu.regs.status_flag_is_clear(status::Flag::Z),
            Condition::Plus => cpu.regs.status_flag_is_clear(status::Flag::N),
            Condition::OverflowClear => cpu.regs.status_flag_is_clear(status::Flag::V),
            Condition::OverflowSet => cpu.regs.status_flag_is_set(status::Flag::V),
        }
    }

    /// The mnemonic of the branch taken under this condition.
    pub fn branch_mnemo(&self) -> (r: &'static str)
        ensures
            r@ == branch_text(*self),
    {
        proof {
            reveal_strlit("BRA");
            reveal_strlit("BCC");
            reveal_strlit("BCS");
            reveal_strlit("BEQ");
            reveal_strlit("BMI");
            reveal_strlit("BNE");
            reveal_strlit("BPL");
            reveal_strlit("BVC");
            reveal_strlit("BVS");
        }
        match self {
            Condition::Always => "BRA",
            Condition::CarryClear => "BCC",
            Condition::CarrySet => "BCS",
            Condition::Equal => "BEQ",
            Condition::Minus => "BMI",
            Condition::NotEqual => "BNE",
            Condition::Plus => "BPL",
            Condition::OverflowClear => "BVC",
            Condition::OverflowSet => "BVS",
        }
    }
}

} // verus!
