//! Effective addresses of the W65C02: where an addressing mode makes an instruction read or
//! write.
use vstd::prelude::*;

use crate::cpu::w65c02::bus::{Bus, FakeBus, lemma_fake_bus_read_after_write, next_in_page};
use crate::cpu::w65c02::cpu::{CPU, zp_addr};
use crate::cpu::w65c02::inst::add16;
use crate::utils::word::word;

verus! {

/// Where an instruction reads or writes its operand.
#[derive(Debug, Copy, Clone, PartialEq, Eq, Structural)]
pub enum EffectiveAddress {
    Accumulator,
    Memory(u16),
    Nothing,
}

/// The value an effective address reads as; nothing reads as zero.
pub open spec fn ea_value<B: Bus>(ea: EffectiveAddress, cpu: CPU, bus: B) -> u8 {
    match ea {
        EffectiveAddress::Accumulator => cpu.a,
        EffectiveAddress::Memory(addr) => bus.byte_at(addr),
        EffectiveAddress::Nothing => 0,
    }
}

/// The CPU and bus after `val` is written to an effective address; a write to nothing is
/// dropped.
pub open spec fn ea_store<B: Bus>(ea: EffectiveAddress, cpu: CPU, bus: B, val: u8) -> (CPU, B) {
    match ea {
        EffectiveAddress::Accumulator => (CPU { a: val, ..cpu }, bus),
        EffectiveAddress::Memory(addr) => (cpu, bus.after_write(addr, val)),
        EffectiveAddress::Nothing => (cpu, bus),
    }
}

/// A value written to the accumulator or to memory of the plain memory bus reads back at that
/// effective address, and a write to memory leaves every other byte as it was.
pub proof fn lemma_ea_write_read(ea: EffectiveAddress, cpu: CPU, bus: FakeBus, val: u8, other: u16)
    requires
        !(ea is Nothing),
    ensures
        ({
            let (c2, b2) = ea_store(ea, cpu, bus, val);
            &&& ea_value(ea, c2, b2) == val
            &&& (ea is Memory && other != ea->Memory_0) ==> b2.byte_at(other) == bus.byte_at(other)
            &&& ea is Accumulator ==> b2 == bus
        }),
{
    if let EffectiveAddress::Memory(a) = ea {
        lemma_fake_bus_read_after_write(bus, a, val, a);
        lemma_fake_bus_read_after_write(bus, a, val, other);
    }
}

impl EffectiveAddress {
    /// Reads the value at this address.
    pub fn read<B: Bus>(&self, cpu: &mut CPU, bus: &mut B) -> (r: u8)
        ensures
            r == ea_value(*self, *old(cpu), *old(bus)),
            *final(cpu) == *old(cpu),
            *final(bus) == *old(bus),
    {
        match self {
            EffectiveAddress::Accumulator => cpu.a,
            EffectiveAddress::Memory(addr) => bus.mem_read(*addr),
            EffectiveAddress::Nothing => 0,
        }
    }

    /// Writes a value at this address.
    pub fn write<B: Bus>(&self, cpu: &mut CPU, bus: &mut B, val: u8)
        ensures
            (*final(cpu), *final(bus)) == ea_store(*self, *old(cpu), *old(bus), val),
    {
        match self {
            EffectiveAddress::Accumulator => cpu.a = val,
            EffectiveAddress::Memory(addr) => bus.mem_write(*addr, val),
            EffectiveAddress::Nothing => (),
        }
    }
}

/// How an instruction finds its operand.
#[derive(Debug, Copy, Clone, PartialEq, Eq, Structural)]
pub enum Mode {
    Absolute,       // $4400
    AbsoluteX,      // $4400,X
    AbsoluteY,      // $4400,Y
    Accumulator,    // A
    Immediate,      // #$44
    Implied,        //
    Indirect,       // ($44)
    IndirectX,      // ($44,X)
    IndirectY,      // ($44),Y
    Relative,       //
    ZeroPage,       // $44
    ZeroPageX,      // $44,X
    ZeroPageY,      // $44,Y
}

/// How many program bytes a mode consumes after the opcode.
pub open spec fn ea_len(m: Mode) -> int {
    match m {
        Mode::Absolute | Mode::AbsoluteX | Mode::AbsoluteY => 2,
        Mode::Accumulator | Mode::Implied => 0,
        _ => 1,
    }
}

/// The word stored at the zero-page address `a + offset`, its high byte wrapping within page
/// zero.
pub open spec fn zp_word<B: Bus>(bus: B, a: u8, offset: u8) -> u16 {
    word(bus.byte_at(zp_addr(a, offset)), bus.byte_at(next_in_page(zp_addr(a, offset))))
}

/// The CPU after a mode's program bytes are consumed at the program counter, and the effective
/// address the mode designates.
pub open spec fn ea_fetch_spec<B: Bus>(m: Mode, cpu: CPU, bus: B) -> (CPU, EffectiveAddress) {
    let b0 = bus.byte_at(cpu.pc);
    let w = word(b0, bus.byte_at((cpu.pc + 1) as u16));
    let next = CPU { pc: (cpu.pc + ea_len(m)) as u16, ..cpu };
    let ea = match m {
        Mode::Absolute => EffectiveAddress::Memory(w),
        Mode::AbsoluteX => EffectiveAddress::Memory(add16(w, cpu.x)),
        Mode::AbsoluteY => EffectiveAddress::Memory(add16(w, cpu.y)),
        Mode::Accumulator => EffectiveAddress::Accumulator,
        Mode::Immediate => EffectiveAddress::Memory(cpu.pc),
        Mode::Implied => EffectiveAddress::Nothing,
        Mode::Indirect => EffectiveAddress::Memory(zp_word(bus, b0, 0)),
        Mode::IndirectX => EffectiveAddress::Memory(zp_word(bus, b0, cpu.x)),
        Mode::IndirectY => EffectiveAddress::Memory(add16(zp_word(bus, b0, 0), cpu.y)),
        Mode::Relative => EffectiveAddress::Memory(cpu.pc),
        Mode::ZeroPage => EffectiveAddress::Memory(b0 as u16),
        Mode::ZeroPageX => EffectiveAddress::Memory(zp_addr(b0, cpu.x)),
        Mode::ZeroPageY => EffectiveAddress::Memory(zp_addr(b0, cpu.y)),
    };
    (next, ea)
}

impl Mode {
    /// Consumes the program bytes of this mode at the program counter and gives the effective
    /// address it designates.
    pub fn fetch<B: Bus>(&self, cpu: &mut CPU, bus: &mut B) -> (r: EffectiveAddress)
        requires
            old(cpu).pc + ea_len(*self) <= 0xFFFF,
        ensures
            (*final(cpu), r) == ea_fetch_spec(*self, *old(cpu), *old(bus)),
            *final(bus) == *old(bus),
    {
        match self {
            Mode::Absolute => {
                let addr = cpu.fetch_word(bus);
                EffectiveAddress::Memory(addr)
            },
            Mode::AbsoluteX => {
                let addr = u16::wrapping_add(cpu.fetch_word(bus), cpu.x as u16);
                EffectiveAddress::Memory(addr)
            },
            Mode::AbsoluteY => {
                let addr = u16::wrapping_add(bus.mem_read_word(cpu.pc), cpu.y as u16);
                cpu.pc = cpu.pc + 2;
                EffectiveAddress::Memory(addr)
            },
            Mode::Accumulator => { EffectiveAddress::Accumulator },
            Mode::Immediate => {
                let addr = cpu.pc;
                cpu.pc = cpu.pc + 1;
                EffectiveAddress::Memory(addr)
            },
            Mode::Implied => { EffectiveAddress::Nothing },
            Mode::Indirect => {
                let base = cpu.fetch_byte(bus);
                let addr = cpu.zeropage_read_word(bus, base, 0);
                EffectiveAddress::Memory(addr)
            },
            Mode::IndirectX => {
                let base = cpu.fetch_byte(bus);
                let x = cpu.x;
                let addr = cpu.zeropage_read_word(bus, base, x);
                EffectiveAddress::Memory(addr)
            },
            Mode::IndirectY => {
                let base = cpu.fetch_byte(bus);
                let addr = cpu.zeropage_read_word(bus, base, 0);
                EffectiveAddress::Memory(u16::wrapping_add(addr, cpu.y as u16))
            },
            Mode::Relative => {
                let addr = cpu.pc;
                cpu.pc = cpu.pc + 1;
                EffectiveAddress::Memory(addr)
            },
            Mode::ZeroPage => {
                let addr = cpu.fetch_byte(bus) as u16;
                EffectiveAddress::Memory(addr)
            },
            Mode::ZeroPageX => {
                let addr = u8::wrapping_add(cpu.fetch_byte(bus), cpu.x) as u16;
                EffectiveAddress::Memory(addr)
            },
            Mode::ZeroPageY => {
                let addr = u8::wrapping_add(cpu.fetch_byte(bus), cpu.y) as u16;
                EffectiveAddress::Memory(addr)
            },
        }
    }
}

} // verus!
