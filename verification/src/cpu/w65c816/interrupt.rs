//! Interrupt vectors of the W65C816.
use vstd::prelude::*;

use crate::cpu::w65c816::bus::{Addr, AddrWrap, Bus, addr_of};
use crate::cpu::w65c816::reg::Regs;
use crate::cpu::w65c816::{CPU, State, word_in};

verus! {

/// Where the reset handler address is stored in emulation mode.
pub const VECTOR_EMULATION_RESET: u16 = 0xFFFC;

/// Where the IRQ and BRK handler address is stored in emulation mode.
pub const VECTOR_EMULATION_IRQBRK: u16 = 0xFFFE;

/// Where the BRK handler address is stored in native mode.
pub const VECTOR_NATIVE_BRK: u16 = 0xFFE6;

/// The handler addresses of an interrupt: where each mode stores it.
#[derive(Clone, Copy, Debug, PartialEq, Eq, Structural)]
pub struct Vector {
    pub native: u16,
    pub emulation: u16,
}

/// The registers after a jump through an interrupt vector: the program counter takes the
/// address stored at the vector of the current mode, in bank zero, and the program bank is zero.
pub open spec fn vector_jumped<B: Bus>(v: Vector, r: Regs, m: B::Mem) -> Regs {
    let at = if r.e { v.emulation } else { v.native };
    Regs { pc: word_in::<B>(m, addr_of(0, at), AddrWrap::Long), pbr: 0, ..r }
}

impl Vector {
    /// Jumps through this vector.
    pub fn jump<B: Bus>(&self, cpu: &mut CPU, bus: &mut B)
        ensures
            final(cpu)@ == (State { regs: vector_jumped::<B>(*self, old(cpu)@.regs, old(bus).mem()), ..old(cpu)@ }),
            final(bus).mem() == old(bus).mem(),
    {
        let vector = if cpu.regs.mode_is_emulated() { self.emulation } else { self.native };
        let target = bus.read_word(Addr::from(0, vector), AddrWrap::Long);
        cpu.regs.pc_jump(target);
        cpu.regs.pbr_set(0);
    }
}

} // verus!
