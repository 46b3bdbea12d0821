//! Instructions of the W65C02: how they are decoded and what they do.
use vstd::prelude::*;
use vstd::string::*;

use crate::cpu::w65c02::bus::{
    Bus, FakeBus, lemma_fake_bus_read_after_write, next_addr, next_in_page,
};
use crate::cpu::w65c02::cpu::{
    CPU, VECTOR_IRQ, zp_addr, stack_addr, sp_up, sp_down, pushed_byte, pushed_word,
    popped_byte, popped_word,
};
use crate::cpu::w65c02::flags::{Flags, Status, flag_mask, with_bit};
use crate::utils::bcd::{bcd_value, is_bcd};
use vstd::arithmetic::div_mod::{lemma_fundamental_div_mod, lemma_fundamental_div_mod_converse};
use crate::utils::hex::{append_hex2, append_hex4, hex2, hex4};
use crate::utils::word::{lemma_byte_bits, lemma_same_page, word};

verus! {

/// The operation an instruction performs.
#[derive(Debug, Copy, Clone, PartialEq, Eq, Structural)]
pub enum Opcode {
    ADC,
    AND,
    ASL,
    BCC,
    BCS,
    BEQ,
    BIT,
    BMI,
    BNE,
    BPL,
    BRK,
    BVC,
    BVS,
    CLC,
    CLD,
    CLI,
    CLV,
    CMP,
    CPX,
    CPY,
    DEC,
    DEX,
    DEY,
    EOR,
    INC,
    INX,
    INY,
    JMP,
    JSR,
    LDA,
    LDX,
    LDY,
    LSR,
    NOP,
    ORA,
    PHA,
    PHP,
    PLA,
    PLP,
    ROL,
    ROR,
    RTI,
    RTS,
    SBC,
    SEC,
    SED,
    SEI,
    STA,
    STX,
    STY,
    TAX,
    TAY,
    TSX,
    TXA,
    TXS,
    TYA,
}

/// The operand of an instruction, as fetched from the program.
#[derive(Debug, Copy, Clone, PartialEq, Eq, Structural)]
pub enum Operand {
    Immediate(u8),
    ZeroPage(u8),
    ZeroPageX(u8),
    ZeroPageY(u8),
    Absolute(u16),
    AbsoluteX(u16),
    AbsoluteY(u16),
    Indirect(u16),
    IndirectX(u8),
    IndirectY(u8),
    Relative(u16),
    Accumulator,
    Implied,
}

/// `a + n`, wrapping at the end of the address space.
pub open spec fn add16(a: u16, n: u8) -> u16 {
    ((a + n) % 0x10000) as u16
}

/// The little-endian word at `a`.
pub open spec fn word_at<B: Bus>(bus: B, a: u16) -> u16 {
    word(bus.byte_at(a), bus.byte_at(next_addr(a)))
}

/// The address in memory that an operand designates.
pub open spec fn operand_addr<B: Bus>(op: Operand, cpu: CPU, bus: B) -> u16 {
    match op {
        Operand::ZeroPage(a) => a as u16,
        Operand::ZeroPageX(a) => zp_addr(a, cpu.x),
        Operand::ZeroPageY(a) => zp_addr(a, cpu.y),
        Operand::Absolute(a) => a,
        Operand::AbsoluteX(a) => add16(a, cpu.x),
        Operand::AbsoluteY(a) => add16(a, cpu.y),
        Operand::Indirect(a) => word_at(bus, a),
        Operand::IndirectX(a) => word_at(bus, add16(a as u16, cpu.x)),
        Operand::IndirectY(a) => add16(word_at(bus, a as u16), cpu.y),
        Operand::Relative(a) => a,
        _ => 0,
    }
}

/// The value an operand reads as.
pub open spec fn operand_value<B: Bus>(op: Operand, cpu: CPU, bus: B) -> u8 {
    match op {
        Operand::Immediate(v) => v,
        Operand::Accumulator => cpu.a,
        _ => bus.byte_at(operand_addr(op, cpu, bus)),
    }
}

/// Whether an operand can be written.
pub open spec fn operand_writable(op: Operand) -> bool {
    !(op is Immediate || op is Relative || op is Implied)
}

/// The CPU and bus after `val` is written to an operand.
pub open spec fn operand_store<B: Bus>(op: Operand, cpu: CPU, bus: B, val: u8) -> (CPU, B) {
    match op {
        Operand::Accumulator => (CPU { a: val, ..cpu }, bus),
        _ => (cpu, bus.after_write(operand_addr(op, cpu, bus), val)),
    }
}

/// Zero-page operands, indexed or not, address page zero only, wrapping within it.
pub proof fn lemma_zero_page_operands_stay_in_page_zero<B: Bus>(op: Operand, cpu: CPU, bus: B)
    requires
        op is ZeroPage || op is ZeroPageX || op is ZeroPageY,
    ensures
        operand_addr(op, cpu, bus) < 0x100,
{
}

/// A value written to a directly addressed operand of the plain memory bus (the accumulator, or
/// memory named by the operand with or without an index) reads back through that operand, and a
/// write to memory leaves the registers and every other byte as they were.
pub proof fn lemma_operand_write_read(op: Operand, cpu: CPU, bus: FakeBus, val: u8, other: u16)
    requires
        op is Accumulator || op is ZeroPage || op is ZeroPageX || op is ZeroPageY
            || op is Absolute || op is AbsoluteX || op is AbsoluteY,
    ensures
        ({
            let (c2, b2) = operand_store(op, cpu, bus, val);
            &&& operand_value(op, c2, b2) == val
            &&& !(op is Accumulator) ==> c2 == cpu
            &&& (!(op is Accumulator) && other != operand_addr(op, cpu, bus)) ==> b2.byte_at(other)
                == bus.byte_at(other)
            &&& op is Accumulator ==> b2 == bus
        }),
{
    if !(op is Accumulator) {
        let a = operand_addr(op, cpu, bus);
        lemma_fake_bus_read_after_write(bus, a, val, a);
        lemma_fake_bus_read_after_write(bus, a, val, other);
    }
}

/// How many bytes an operand takes in the program.
pub open spec fn operand_len(op: Operand) -> usize {
    match op {
        Operand::Immediate(_) => 2,
        Operand::ZeroPage(_) => 2,
        Operand::ZeroPageX(_) => 2,
        Operand::ZeroPageY(_) => 2,
        Operand::Absolute(_) => 3,
        Operand::AbsoluteX(_) => 3,
        Operand::AbsoluteY(_) => 3,
        Operand::Indirect(_) => 3,
        Operand::IndirectX(_) => 2,
        Operand::IndirectY(_) => 2,
        Operand::Relative(_) => 2,
        Operand::Accumulator => 0,
        Operand::Implied => 0,
    }
}

impl Operand {
    /// Reads the value of the operand.
    pub fn read<B: Bus>(&self, cpu: &mut CPU, bus: &mut B) -> (r: u8)
        requires
            !(*self is Implied),
        ensures
            r == operand_value(*self, *old(cpu), *old(bus)),
            *final(cpu) == *old(cpu),
            *final(bus) == *old(bus),
    {
        match self {
            Operand::Immediate(value) => *value,
            Operand::ZeroPage(addr) => bus.mem_read(*addr as u16),
            Operand::ZeroPageX(addr) => bus.mem_read(addr.wrapping_add(cpu.x) as u16),
            Operand::ZeroPageY(addr) => bus.mem_read(addr.wrapping_add(cpu.y) as u16),
            Operand::Absolute(addr) => bus.mem_read(*addr),
            Operand::AbsoluteX(addr) => bus.mem_read(addr.wrapping_add(cpu.x as u16)),
            Operand::AbsoluteY(addr) => bus.mem_read(addr.wrapping_add(cpu.y as u16)),
            Operand::Indirect(addr) => {
                let ptr = bus.mem_read_word(*addr);
                bus.mem_read(ptr)
            },
            Operand::IndirectX(addr) => {
                let ptr = bus.mem_read_word((*addr as u16).wrapping_add(cpu.x as u16));
                bus.mem_read(ptr)
            },
            Operand::IndirectY(addr) => {
                let ptr = bus.mem_read_word(*addr as u16);
                bus.mem_read(ptr.wrapping_add(cpu.y as u16))
            },
            Operand::Relative(addr) => bus.mem_read(*addr),
            Operand::Accumulator => cpu.a,
            Operand::Implied => 0,
        }
    }

    /// Writes a value to the operand.
    pub fn write<B: Bus>(&self, cpu: &mut CPU, bus: &mut B, val: u8)
        requires
            operand_writable(*self),
        ensures
            (*final(cpu), *final(bus)) == operand_store(*self, *old(cpu), *old(bus), val),
    {
        match self {
            Operand::ZeroPage(addr) => bus.mem_write(*addr as u16, val),
            Operand::ZeroPageX(addr) => bus.mem_write(addr.wrapping_add(cpu.x) as u16, val),
            Operand::ZeroPageY(addr) => bus.mem_write(addr.wrapping_add(cpu.y) as u16, val),
            Operand::Absolute(addr) => bus.mem_write(*addr, val),
            Operand::AbsoluteX(addr) => bus.mem_write(addr.wrapping_add(cpu.x as u16), val),
            Operand::AbsoluteY(addr) => bus.mem_write(addr.wrapping_add(cpu.y as u16), val),
            Operand::Indirect(addr) => {
                let ptr = bus.mem_read_word(*addr);
                bus.mem_write(ptr, val)
            },
            Operand::IndirectX(addr) => {
                let ptr = bus.mem_read_word((*addr as u16).wrapping_add(cpu.x as u16));
                bus.mem_write(ptr, val)
            },
            Operand::IndirectY(addr) => {
                let ptr = bus.mem_read_word(*addr as u16);
                bus.mem_write(ptr.wrapping_add(cpu.y as u16), val)
            },
            Operand::Accumulator => cpu.a = val,
            _ => {},
        }
    }

    /// How many bytes the operand takes in the program.
    pub fn len(&self) -> (r: usize)
        ensures
            r == operand_len(*self),
    {
        match self {
            Operand::Immediate(_) => 2,
            Operand::ZeroPage(_) => 2,
            Operand::ZeroPageX(_) => 2,
            Operand::ZeroPageY(_) => 2,
            Operand::Absolute(_) => 3,
            Operand::AbsoluteX(_) => 3,
            Operand::AbsoluteY(_) => 3,
            Operand::Indirect(_) => 3,
            Operand::IndirectX(_) => 2,
            Operand::IndirectY(_) => 2,
            Operand::Relative(_) => 2,
            Operand::Accumulator => 0,
            Operand::Implied => 0,
        }
    }
}

/// An executed instruction: what it did, on what, and how many cycles it took.
#[derive(Debug, Copy, Clone, PartialEq, Eq, Structural)]
pub struct Instruction {
    pub opcode: Opcode,
    pub operand: Operand,
    pub cycles: usize,
}

impl Instruction {
    /// How many bytes the instruction takes in the program: one for the opcode, then the
    /// operand.
    pub fn len(&self) -> (r: usize)
        ensures
            r == operand_len(self.operand) + 1,
    {
        self.operand.len() + 1
    }
}

/// How an instruction finds its operand.
#[derive(Debug, Copy, Clone, PartialEq, Eq, Structural)]
pub enum Mode {
    Absolute,       // $4400
    AbsoluteX,      // $4400,X
    AbsoluteY,      // $4400,Y
    Accumulator,    // A
    Immediate,      // #$44
    Implied,        //
    Indirect,       // ($4400)
    IndirectX,      // ($44,X)
    IndirectY,      // ($44),Y
    Relative,       //
    ZeroPage,       // $44
    ZeroPageX,      // $44,X
    ZeroPageY,      // $44,Y
}

/// How many program bytes follow the opcode in a mode.
pub open spec fn mode_len(m: Mode) -> int {
    match m {
        Mode::Absolute | Mode::AbsoluteX | Mode::AbsoluteY | Mode::Indirect => 2,
        Mode::Accumulator | Mode::Implied => 0,
        _ => 1,
    }
}

/// The byte `b` read as a two's complement number.
pub open spec fn signed8(b: u8) -> int {
    if b < 128 {
        b as int
    } else {
        b - 256
    }
}

/// The target of a relative branch whose offset `b` follows the program counter `pc`.
pub open spec fn rel_target(pc: u16, b: u8) -> u16 {
    ((pc + signed8(b)) % 0x10000) as u16
}

/// The CPU after the operand of mode `m` is fetched at the program counter, and the operand.
pub open spec fn fetch_spec<B: Bus>(m: Mode, cpu: CPU, bus: B) -> (CPU, Operand) {
    let b0 = bus.byte_at(cpu.pc);
    let w = word(b0, bus.byte_at((cpu.pc + 1) as u16));
    let next = CPU { pc: (cpu.pc + mode_len(m)) as u16, ..cpu };
    let op = match m {
        Mode::Immediate => Operand::Immediate(b0),
        Mode::ZeroPage => Operand::ZeroPage(b0),
        Mode::ZeroPageX => Operand::ZeroPageX(b0),
        Mode::ZeroPageY => Operand::ZeroPageY(b0),
        Mode::Absolute => Operand::Absolute(w),
        Mode::AbsoluteX => Operand::AbsoluteX(w),
        Mode::AbsoluteY => Operand::AbsoluteY(w),
        Mode::Indirect => Operand::Indirect(w),
        Mode::IndirectX => Operand::IndirectX(b0),
        Mode::IndirectY => Operand::IndirectY(b0),
        Mode::Relative => Operand::Relative(rel_target(next.pc, b0)),
        Mode::Accumulator => Operand::Accumulator,
        Mode::Implied => Operand::Implied,
    };
    (next, op)
}

/// The target of a relative branch.
fn relative_target(pc: u16, b: u8) -> (r: u16)
    ensures
        r == rel_target(pc, b),
{
    let offset = b as i8;
    let delta = offset as u16;
    if b < 128 {
        assert(delta == b as u16) by (bit_vector)
            requires
                b < 128,
                delta == (b as i8) as u16,
        ;
    } else {
        assert(delta == b as u16 + 0xFF00) by (bit_vector)
            requires
                b >= 128,
                delta == (b as i8) as u16,
        ;
    }
    pc.wrapping_add(delta)
}

impl Mode {
    /// Fetches the operand of this mode at the program counter and moves past it.
    pub fn fetch<B: Bus>(&self, cpu: &mut CPU, bus: &mut B) -> (r: Operand)
        requires
            old(cpu).pc + mode_len(*self) <= 0xFFFF,
        ensures
            (*final(cpu), r) == fetch_spec(*self, *old(cpu), *old(bus)),
            *final(bus) == *old(bus),
    {
        match self {
            Mode::Immediate => Operand::Immediate(cpu.fetch_byte(bus)),
            Mode::ZeroPage => Operand::ZeroPage(cpu.fetch_byte(bus)),
            Mode::ZeroPageX => Operand::ZeroPageX(cpu.fetch_byte(bus)),
            Mode::ZeroPageY => Operand::ZeroPageY(cpu.fetch_byte(bus)),
            Mode::Absolute => Operand::Absolute(cpu.fetch_word(bus)),
            Mode::AbsoluteX => Operand::AbsoluteX(cpu.fetch_word(bus)),
            Mode::AbsoluteY => Operand::AbsoluteY(cpu.fetch_word(bus)),
            Mode::Indirect => Operand::Indirect(cpu.fetch_word(bus)),
            Mode::IndirectX => Operand::IndirectX(cpu.fetch_byte(bus)),
            Mode::IndirectY => Operand::IndirectY(cpu.fetch_byte(bus)),
            Mode::Relative => {
                let offset = cpu.fetch_byte(bus);
                Operand::Relative(relative_target(cpu.pc, offset))
            },
            Mode::Accumulator => Operand::Accumulator,
            Mode::Implied => Operand::Implied,
        }
    }
}

/// A decoded opcode: the operation, its base cycle count and how it finds its operand.
#[derive(Debug, Copy, Clone, PartialEq, Eq, Structural)]
pub struct Decoded {
    pub opcode: Opcode,
    pub cycles: usize,
    pub address_mode: Mode,
}

/// The instruction set: what each opcode byte decodes to, if anything.
pub open spec fn decode_entry(byte: u8) -> Option<Decoded> {
    match byte {
        0x69 => Some(Decoded { opcode: Opcode::ADC, cycles: 2, address_mode: Mode::Immediate }),
        0x65 => Some(Decoded { opcode: Opcode::ADC, cycles: 3, address_mode: Mode::ZeroPage }),
        0x75 => Some(Decoded { opcode: Opcode::ADC, cycles: 4, address_mode: Mode::ZeroPageX }),
        0x6D => Some(Decoded { opcode: Opcode::ADC, cycles: 4, address_mode: Mode::Absolute }),
        0x7D => Some(Decoded { opcode: Opcode::ADC, cycles: 4, address_mode: Mode::AbsoluteX }),
        0x79 => Some(Decoded { opcode: Opcode::ADC, cycles: 4, address_mode: Mode::AbsoluteY }),
        0x61 => Some(Decoded { opcode: Opcode::ADC, cycles: 6, address_mode: Mode::IndirectX }),
        0x71 => Some(Decoded { opcode: Opcode::ADC, cycles: 5, address_mode: Mode::IndirectY }),
        0x29 => Some(Decoded { opcode: Opcode::AND, cycles: 2, address_mode: Mode::Immediate }),
        0x25 => Some(Decoded { opcode: Opcode::AND, cycles: 3, address_mode: Mode::ZeroPage }),
        0x35 => Some(Decoded { opcode: Opcode::AND, cycles: 4, address_mode: Mode::ZeroPageX }),
        0x2D => Some(Decoded { opcode: Opcode::AND, cycles: 4, address_mode: Mode::Absolute }),
        0x3D => Some(Decoded { opcode: Opcode::AND, cycles: 4, address_mode: Mode::AbsoluteX }),
        0x39 => Some(Decoded { opcode: Opcode::AND, cycles: 4, address_mode: Mode::AbsoluteY }),
        0x21 => Some(Decoded { opcode: Opcode::AND, cycles: 6, address_mode: Mode::IndirectX }),
        0x31 => Some(Decoded { opcode: Opcode::AND, cycles: 5, address_mode: Mode::IndirectY }),
        0x0A => Some(Decoded { opcode: Opcode::ASL, cycles: 2, address_mode: Mode::Accumulator }),
        0x06 => Some(Decoded { opcode: Opcode::ASL, cycles: 5, address_mode: Mode::ZeroPage }),
        0x16 => Some(Decoded { opcode: Opcode::ASL, cycles: 6, address_mode: Mode::ZeroPageX }),
        0x0E => Some(Decoded { opcode: Opcode::ASL, cycles: 6, address_mode: Mode::Absolute }),
        0x1E => Some(Decoded { opcode: Opcode::ASL, cycles: 7, address_mode: Mode::AbsoluteX }),
        0x90 => Some(Decoded { opcode: Opcode::BCC, cycles: 2, address_mode: Mode::Relative }),
        0xB0 => Some(Decoded { opcode: Opcode::BCS, cycles: 2, address_mode: Mode::Relative }),
        0xF0 => Some(Decoded { opcode: Opcode::BEQ, cycles: 2, address_mode: Mode::Relative }),
        0x30 => Some(Decoded { opcode: Opcode::BMI, cycles: 2, address_mode: Mode::Relative }),
        0xD0 => Some(Decoded { opcode: Opcode::BNE, cycles: 2, address_mode: Mode::Relative }),
        0x10 => Some(Decoded { opcode: Opcode::BPL, cycles: 2, address_mode: Mode::Relative }),
        0x50 => Some(Decoded { opcode: Opcode::BVC, cycles: 2, address_mode: Mode::Relative }),
        0x70 => Some(Decoded { opcode: Opcode::BVS, cycles: 2, address_mode: Mode::Relative }),
        0x24 => Some(Decoded { opcode: Opcode::BIT, cycles: 3, address_mode: Mode::ZeroPage }),
        0x2C => Some(Decoded { opcode: Opcode::BIT, cycles: 4, address_mode: Mode::Absolute }),
        0x00 => Some(Decoded { opcode: Opcode::BRK, cycles: 7, address_mode: Mode::Implied }),
        0x18 => Some(Decoded { opcode: Opcode::CLC, cycles: 2, address_mode: Mode::Implied }),
        0xD8 => Some(Decoded { opcode: Opcode::CLD, cycles: 2, address_mode: Mode::Implied }),
        0x58 => Some(Decoded { opcode: Opcode::CLI, cycles: 2, address_mode: Mode::Implied }),
        0xB8 => Some(Decoded { opcode: Opcode::CLV, cycles: 2, address_mode: Mode::Implied }),
        0xC9 => Some(Decoded { opcode: Opcode::CMP, cycles: 2, address_mode: Mode::Immediate }),
        0xC5 => Some(Decoded { opcode: Opcode::CMP, cycles: 3, address_mode: Mode::ZeroPage }),
        0xD5 => Some(Decoded { opcode: Opcode::CMP, cycles: 4, address_mode: Mode::ZeroPageX }),
        0xCD => Some(Decoded { opcode: Opcode::CMP, cycles: 4, address_mode: Mode::Absolute }),
        0xDD => Some(Decoded { opcode: Opcode::CMP, cycles: 4, address_mode: Mode::AbsoluteX }),
        0xD9 => Some(Decoded { opcode: Opcode::CMP, cycles: 4, address_mode: Mode::AbsoluteY }),
        0xC1 => Some(Decoded { opcode: Opcode::CMP, cycles: 6, address_mode: Mode::IndirectX }),
        0xD1 => Some(Decoded { opcode: Opcode::CMP, cycles: 5, address_mode: Mode::IndirectY }),
        0xE0 => Some(Decoded { opcode: Opcode::CPX, cycles: 2, address_mode: Mode::Immediate }),
        0xE4 => Some(Decoded { opcode: Opcode::CPX, cycles: 3, address_mode: Mode::ZeroPage }),
        0xEC => Some(Decoded { opcode: Opcode::CPX, cycles: 4, address_mode: Mode::Absolute }),
        0xC0 => Some(Decoded { opcode: Opcode::CPY, cycles: 2, address_mode: Mode::Immediate }),
        0xC4 => Some(Decoded { opcode: Opcode::CPY, cycles: 3, address_mode: Mode::ZeroPage }),
        0xCC => Some(Decoded { opcode: Opcode::CPY, cycles: 4, address_mode: Mode::Absolute }),
        0xC6 => Some(Decoded { opcode: Opcode::DEC, cycles: 5, address_mode: Mode::ZeroPage }),
        0xD6 => Some(Decoded { opcode: Opcode::DEC, cycles: 6, address_mode: Mode::ZeroPageX }),
        0xCE => Some(Decoded { opcode: Opcode::DEC, cycles: 6, address_mode: Mode::Absolute }),
        0xDE => Some(Decoded { opcode: Opcode::DEC, cycles: 7, address_mode: Mode::AbsoluteX }),
        0xCA => Some(Decoded { opcode: Opcode::DEX, cycles: 2, address_mode: Mode::Implied }),
        0x88 => Some(Decoded { opcode: Opcode::DEY, cycles: 2, address_mode: Mode::Implied }),
        0x49 => Some(Decoded { opcode: Opcode::EOR, cycles: 2, address_mode: Mode::Immediate }),
        0x45 => Some(Decoded { opcode: Opcode::EOR, cycles: 3, address_mode: Mode::ZeroPage }),
        0x55 => Some(Decoded { opcode: Opcode::EOR, cycles: 4, address_mode: Mode::ZeroPageX }),
        0x4D => Some(Decoded { opcode: Opcode::EOR, cycles: 4, address_mode: Mode::Absolute }),
        0x5D => Some(Decoded { opcode: Opcode::EOR, cycles: 4, address_mode: Mode::AbsoluteX }),
        0x59 => Some(Decoded { opcode: Opcode::EOR, cycles: 4, address_mode: Mode::AbsoluteY }),
        0x41 => Some(Decoded { opcode: Opcode::EOR, cycles: 6, address_mode: Mode::IndirectX }),
        0x51 => Some(Decoded { opcode: Opcode::EOR, cycles: 5, address_mode: Mode::IndirectY }),
        0xE6 => Some(Decoded { opcode: Opcode::INC, cycles: 5, address_mode: Mode::ZeroPage }),
        0xF6 => Some(Decoded { opcode: Opcode::INC, cycles: 6, address_mode: Mode::ZeroPageX }),
        0xEE => Some(Decoded { opcode: Opcode::INC, cycles: 6, address_mode: Mode::Absolute }),
        0xFE => Some(Decoded { opcode: Opcode::INC, cycles: 7, address_mode: Mode::AbsoluteX }),
        0xE8 => Some(Decoded { opcode: Opcode::INX, cycles: 2, address_mode: Mode::Implied }),
        0xC8 => Some(Decoded { opcode: Opcode::INY, cycles: 2, address_mode: Mode::Implied }),
        0x4C => Some(Decoded { opcode: Opcode::JMP, cycles: 3, address_mode: Mode::Absolute }),
        0x6C => Some(Decoded { opcode: Opcode::JMP, cycles: 5, address_mode: Mode::Indirect }),
        0x20 => Some(Decoded { opcode: Opcode::JSR, cycles: 6, address_mode: Mode::Absolute }),
        0xA9 => Some(Decoded { opcode: Opcode::LDA, cycles: 2, address_mode: Mode::Immediate }),
        0xA5 => Some(Decoded { opcode: Opcode::LDA, cycles: 3, address_mode: Mode::ZeroPage }),
        0xB5 => Some(Decoded { opcode: Opcode::LDA, cycles: 4, address_mode: Mode::ZeroPageX }),
        0xAD => Some(Decoded { opcode: Opcode::LDA, cycles: 4, address_mode: Mode::Absolute }),
        0xBD => Some(Decoded { opcode: Opcode::LDA, cycles: 4, address_mode: Mode::AbsoluteX }),
        0xB9 => Some(Decoded { opcode: Opcode::LDA, cycles: 4, address_mode: Mode::AbsoluteY }),
        0xA1 => Some(Decoded { opcode: Opcode::LDA, cycles: 6, address_mode: Mode::IndirectX }),
        0xB1 => Some(Decoded { opcode: Opcode::LDA, cycles: 5, address_mode: Mode::IndirectY }),
        0xA2 => Some(Decoded { opcode: Opcode::LDX, cycles: 2, address_mode: Mode::Immediate }),
        0xA6 => Some(Decoded { opcode: Opcode::LDX, cycles: 3, address_mode: Mode::ZeroPage }),
        0xB6 => Some(Decoded { opcode: Opcode::LDX, cycles: 4, address_mode: Mode::ZeroPageY }),
        0xAE => Some(Decoded { opcode: Opcode::LDX, cycles: 4, address_mode: Mode::Absolute }),
        0xBE => Some(Decoded { opcode: Opcode::LDX, cycles: 4, address_mode: Mode::AbsoluteY }),
        0xA0 => Some(Decoded { opcode: Opcode::LDY, cycles: 2, address_mode: Mode::Immediate }),
        0xA4 => Some(Decoded { opcode: Opcode::LDY, cycles: 3, address_mode: Mode::ZeroPage }),
        0xB4 => Some(Decoded { opcode: Opcode::LDY, cycles: 4, address_mode: Mode::ZeroPageX }),
        0xAC => Some(Decoded { opcode: Opcode::LDY, cycles: 4, address_mode: Mode::Absolute }),
        0xBC => Some(Decoded { opcode: Opcode::LDY, cycles: 4, address_mode: Mode::AbsoluteX }),
        0x4A => Some(Decoded { opcode: Opcode::LSR, cycles: 2, address_mode: Mode::Accumulator }),
        0x46 => Some(Decoded { opcode: Opcode::LSR, cycles: 5, address_mode: Mode::ZeroPage }),
        0x56 => Some(Decoded { opcode: Opcode::LSR, cycles: 6, address_mode: Mode::ZeroPageX }),
        0x4E => Some(Decoded { opcode: Opcode::LSR, cycles: 6, address_mode: Mode::Absolute }),
        0x5E => Some(Decoded { opcode: Opcode::LSR, cycles: 7, address_mode: Mode::AbsoluteX }),
        0xEA => Some(Decoded { opcode: Opcode::NOP, cycles: 2, address_mode: Mode::Implied }),
        0x09 => Some(Decoded { opcode: Opcode::ORA, cycles: 2, address_mode: Mode::Immediate }),
        0x05 => Some(Decoded { opcode: Opcode::ORA, cycles: 3, address_mode: Mode::ZeroPage }),
        0x15 => Some(Decoded { opcode: Opcode::ORA, cycles: 4, address_mode: Mode::ZeroPageX }),
        0x0D => Some(Decoded { opcode: Opcode::ORA, cycles: 4, address_mode: Mode::Absolute }),
        0x1D => Some(Decoded { opcode: Opcode::ORA, cycles: 4, address_mode: Mode::AbsoluteX }),
        0x19 => Some(Decoded { opcode: Opcode::ORA, cycles: 4, address_mode: Mode::AbsoluteY }),
        0x01 => Some(Decoded { opcode: Opcode::ORA, cycles: 6, address_mode: Mode::IndirectX }),
        0x11 => Some(Decoded { opcode: Opcode::ORA, cycles: 5, address_mode: Mode::IndirectY }),
        0x48 => Some(Decoded { opcode: Opcode::PHA, cycles: 3, address_mode: Mode::Implied }),
        0x08 => Some(Decoded { opcode: Opcode::PHP, cycles: 3, address_mode: Mode::Implied }),
        0x68 => Some(Decoded { opcode: Opcode::PLA, cycles: 4, address_mode: Mode::Implied }),
        0x28 => Some(Decoded { opcode: Opcode::PLP, cycles: 4, address_mode: Mode::Implied }),
        0x2A => Some(Decoded { opcode: Opcode::ROL, cycles: 2, address_mode: Mode::Accumulator }),
        0x26 => Some(Decoded { opcode: Opcode::ROL, cycles: 5, address_mode: Mode::ZeroPage }),
        0x36 => Some(Decoded { opcode: Opcode::ROL, cycles: 6, address_mode: Mode::ZeroPageX }),
        0x2E => Some(Decoded { opcode: Opcode::ROL, cycles: 6, address_mode: Mode::Absolute }),
        0x3E => Some(Decoded { opcode: Opcode::ROL, cycles: 7, address_mode: Mode::AbsoluteX }),
        0x6A => Some(Decoded { opcode: Opcode::ROR, cycles: 2, address_mode: Mode::Accumulator }),
        0x66 => Some(Decoded { opcode: Opcode::ROR, cycles: 5, address_mode: Mode::ZeroPage }),
        0x76 => Some(Decoded { opcode: Opcode::ROR, cycles: 6, address_mode: Mode::ZeroPageX }),
        0x6E => Some(Decoded { opcode: Opcode::ROR, cycles: 6, address_mode: Mode::Absolute }),
        0x7E => Some(Decoded { opcode: Opcode::ROR, cycles: 7, address_mode: Mode::AbsoluteX }),
        0x40 => Some(Decoded { opcode: Opcode::RTI, cycles: 6, address_mode: Mode::Implied }),
        0x60 => Some(Decoded { opcode: Opcode::RTS, cycles: 6, address_mode: Mode::Implied }),
        0xE9 => Some(Decoded { opcode: Opcode::SBC, cycles: 2, address_mode: Mode::Immediate }),
        0xE5 => Some(Decoded { opcode: Opcode::SBC, cycles: 3, address_mode: Mode::ZeroPage }),
        0xF5 => Some(Decoded { opcode: Opcode::SBC, cycles: 4, address_mode: Mode::ZeroPageX }),
        0xED => Some(Decoded { opcode: Opcode::SBC, cycles: 4, address_mode: Mode::Absolute }),
        0xFD => Some(Decoded { opcode: Opcode::SBC, cycles: 4, address_mode: Mode::AbsoluteX }),
        0xF9 => Some(Decoded { opcode: Opcode::SBC, cycles: 4, address_mode: Mode::AbsoluteY }),
        0xE1 => Some(Decoded { opcode: Opcode::SBC, cycles: 6, address_mode: Mode::IndirectX }),
        0xF1 => Some(Decoded { opcode: Opcode::SBC, cycles: 5, address_mode: Mode::IndirectY }),
        0x38 => Some(Decoded { opcode: Opcode::SEC, cycles: 2, address_mode: Mode::Implied }),
        0xF8 => Some(Decoded { opcode: Opcode::SED, cycles: 2, address_mode: Mode::Implied }),
        0x78 => Some(Decoded { opcode: Opcode::SEI, cycles: 2, address_mode: Mode::Implied }),
        0x85 => Some(Decoded { opcode: Opcode::STA, cycles: 3, address_mode: Mode::ZeroPage }),
        0x95 => Some(Decoded { opcode: Opcode::STA, cycles: 4, address_mode: Mode::ZeroPageX }),
        0x8D => Some(Decoded { opcode: Opcode::STA, cycles: 4, address_mode: Mode::Absolute }),
        0x9D => Some(Decoded { opcode: Opcode::STA, cycles: 5, address_mode: Mode::AbsoluteX }),
        0x99 => Some(Decoded { opcode: Opcode::STA, cycles: 5, address_mode: Mode::AbsoluteY }),
        0x81 => Some(Decoded { opcode: Opcode::STA, cycles: 6, address_mode: Mode::IndirectX }),
        0x91 => Some(Decoded { opcode: Opcode::STA, cycles: 6, address_mode: Mode::IndirectY }),
        0x86 => Some(Decoded { opcode: Opcode::STX, cycles: 3, address_mode: Mode::ZeroPage }),
        0x96 => Some(Decoded { opcode: Opcode::STX, cycles: 4, address_mode: Mode::ZeroPageY }),
        0x8E => Some(Decoded { opcode: Opcode::STX, cycles: 4, address_mode: Mode::Absolute }),
        0x84 => Some(Decoded { opcode: Opcode::STY, cycles: 3, address_mode: Mode::ZeroPage }),
        0x94 => Some(Decoded { opcode: Opcode::STY, cycles: 4, address_mode: Mode::ZeroPageX }),
        0x8C => Some(Decoded { opcode: Opcode::STY, cycles: 4, address_mode: Mode::Absolute }),
        0xAA => Some(Decoded { opcode: Opcode::TAX, cycles: 2, address_mode: Mode::Implied }),
        0xA8 => Some(Decoded { opcode: Opcode::TAY, cycles: 2, address_mode: Mode::Implied }),
        0xBA => Some(Decoded { opcode: Opcode::TSX, cycles: 2, address_mode: Mode::Implied }),
        0x8A => Some(Decoded { opcode: Opcode::TXA, cycles: 2, address_mode: Mode::Implied }),
        0x9A => Some(Decoded { opcode: Opcode::TXS, cycles: 2, address_mode: Mode::Implied }),
        0x98 => Some(Decoded { opcode: Opcode::TYA, cycles: 2, address_mode: Mode::Implied }),
        _ => None,
    }
}

/// Whether the mode of a decoded instruction suits its operation, so that executing it
/// finds the operand it needs.
pub open spec fn decoded_ok(d: Decoded) -> bool {
    &&& d.cycles <= 7
    &&& match d.opcode {
        Opcode::ADC | Opcode::AND | Opcode::BIT | Opcode::CMP | Opcode::CPX | Opcode::CPY
        | Opcode::EOR | Opcode::LDA | Opcode::LDX | Opcode::LDY | Opcode::ORA | Opcode::SBC =>
            !(d.address_mode is Implied) && !(d.address_mode is Relative),
        Opcode::ASL | Opcode::LSR | Opcode::ROL | Opcode::ROR | Opcode::INC | Opcode::DEC
        | Opcode::STA | Opcode::STX | Opcode::STY =>
            !(d.address_mode is Implied) && !(d.address_mode is Relative)
                && !(d.address_mode is Immediate),
        Opcode::JMP => d.address_mode is Absolute || d.address_mode is Indirect,
        Opcode::JSR => d.address_mode is Absolute,
        Opcode::BCC | Opcode::BCS | Opcode::BEQ | Opcode::BMI | Opcode::BNE | Opcode::BPL
        | Opcode::BVC | Opcode::BVS => d.address_mode is Relative,
        _ => d.address_mode is Implied,
    }
}

/// Decodes an opcode byte.
pub fn decode_opcode(byte: u8) -> (r: Option<Decoded>)
    ensures
        r == decode_entry(byte),
        r matches Some(d) ==> decoded_ok(d),
{
    match byte {
        0x69 => Some(Decoded { opcode: Opcode::ADC, cycles: 2, address_mode: Mode::Immediate }),
        0x65 => Some(Decoded { opcode: Opcode::ADC, cycles: 3, address_mode: Mode::ZeroPage }),
        0x75 => Some(Decoded { opcode: Opcode::ADC, cycles: 4, address_mode: Mode::ZeroPageX }),
        0x6D => Some(Decoded { opcode: Opcode::ADC, cycles: 4, address_mode: Mode::Absolute }),
        0x7D => Some(Decoded { opcode: Opcode::ADC, cycles: 4, address_mode: Mode::AbsoluteX }),
        0x79 => Some(Decoded { opcode: Opcode::ADC, cycles: 4, address_mode: Mode::AbsoluteY }),
        0x61 => Some(Decoded { opcode: Opcode::ADC, cycles: 6, address_mode: Mode::IndirectX }),
        0x71 => Some(Decoded { opcode: Opcode::ADC, cycles: 5, address_mode: Mode::IndirectY }),
        0x29 => Some(Decoded { opcode: Opcode::AND, cycles: 2, address_mode: Mode::Immediate }),
        0x25 => Some(Decoded { opcode: Opcode::AND, cycles: 3, address_mode: Mode::ZeroPage }),
        0x35 => Some(Decoded { opcode: Opcode::AND, cycles: 4, address_mode: Mode::ZeroPageX }),
        0x2D => Some(Decoded { opcode: Opcode::AND, cycles: 4, address_mode: Mode::Absolute }),
        0x3D => Some(Decoded { opcode: Opcode::AND, cycles: 4, address_mode: Mode::AbsoluteX }),
        0x39 => Some(Decoded { opcode: Opcode::AND, cycles: 4, address_mode: Mode::AbsoluteY }),
        0x21 => Some(Decoded { opcode: Opcode::AND, cycles: 6, address_mode: Mode::IndirectX }),
        0x31 => Some(Decoded { opcode: Opcode::AND, cycles: 5, address_mode: Mode::IndirectY }),
        0x0A => Some(Decoded { opcode: Opcode::ASL, cycles: 2, address_mode: Mode::Accumulator }),
        0x06 => Some(Decoded { opcode: Opcode::ASL, cycles: 5, address_mode: Mode::ZeroPage }),
        0x16 => Some(Decoded { opcode: Opcode::ASL, cycles: 6, address_mode: Mode::ZeroPageX }),
        0x0E => Some(Decoded { opcode: Opcode::ASL, cycles: 6, address_mode: Mode::Absolute }),
        0x1E => Some(Decoded { opcode: Opcode::ASL, cycles: 7, address_mode: Mode::AbsoluteX }),
        0x90 => Some(Decoded { opcode: Opcode::BCC, cycles: 2, address_mode: Mode::Relative }),
        0xB0 => Some(Decoded { opcode: Opcode::BCS, cycles: 2, address_mode: Mode::Relative }),
        0xF0 => Some(Decoded { opcode: Opcode::BEQ, cycles: 2, address_mode: Mode::Relative }),
        0x30 => Some(Decoded { opcode: Opcode::BMI, cycles: 2, address_mode: Mode::Relative }),
        0xD0 => Some(Decoded { opcode: Opcode::BNE, cycles: 2, address_mode: Mode::Relative }),
        0x10 => Some(Decoded { opcode: Opcode::BPL, cycles: 2, address_mode: Mode::Relative }),
        0x50 => Some(Decoded { opcode: Opcode::BVC, cycles: 2, address_mode: Mode::Relative }),
        0x70 => Some(Decoded { opcode: Opcode::BVS, cycles: 2, address_mode: Mode::Relative }),
        0x24 => Some(Decoded { opcode: Opcode::BIT, cycles: 3, address_mode: Mode::ZeroPage }),
        0x2C => Some(Decoded { opcode: Opcode::BIT, cycles: 4, address_mode: Mode::Absolute }),
        0x00 => Some(Decoded { opcode: Opcode::BRK, cycles: 7, address_mode: Mode::Implied }),
        0x18 => Some(Decoded { opcode: Opcode::CLC, cycles: 2, address_mode: Mode::Implied }),
        0xD8 => Some(Decoded { opcode: Opcode::CLD, cycles: 2, address_mode: Mode::Implied }),
        0x58 => Some(Decoded { opcode: Opcode::CLI, cycles: 2, address_mode: Mode::Implied }),
        0xB8 => Some(Decoded { opcode: Opcode::CLV, cycles: 2, address_mode: Mode::Implied }),
        0xC9 => Some(Decoded { opcode: Opcode::CMP, cycles: 2, address_mode: Mode::Immediate }),
        0xC5 => Some(Decoded { opcode: Opcode::CMP, cycles: 3, address_mode: Mode::ZeroPage }),
        0xD5 => Some(Decoded { opcode: Opcode::CMP, cycles: 4, address_mode: Mode::ZeroPageX }),
        0xCD => Some(Decoded { opcode: Opcode::CMP, cycles: 4, address_mode: Mode::Absolute }),
        0xDD => Some(Decoded { opcode: Opcode::CMP, cycles: 4, address_mode: Mode::AbsoluteX }),
        0xD9 => Some(Decoded { opcode: Opcode::CMP, cycles: 4, address_mode: Mode::AbsoluteY }),
        0xC1 => Some(Decoded { opcode: Opcode::CMP, cycles: 6, address_mode: Mode::IndirectX }),
        0xD1 => Some(Decoded { opcode: Opcode::CMP, cycles: 5, address_mode: Mode::IndirectY }),
        0xE0 => Some(Decoded { opcode: Opcode::CPX, cycles: 2, address_mode: Mode::Immediate }),
        0xE4 => Some(Decoded { opcode: Opcode::CPX, cycles: 3, address_mode: Mode::ZeroPage }),
        0xEC => Some(Decoded { opcode: Opcode::CPX, cycles: 4, address_mode: Mode::Absolute }),
        0xC0 => Some(Decoded { opcode: Opcode::CPY, cycles: 2, address_mode: Mode::Immediate }),
        0xC4 => Some(Decoded { opcode: Opcode::CPY, cycles: 3, address_mode: Mode::ZeroPage }),
        0xCC => Some(Decoded { opcode: Opcode::CPY, cycles: 4, address_mode: Mode::Absolute }),
        0xC6 => Some(Decoded { opcode: Opcode::DEC, cycles: 5, address_mode: Mode::ZeroPage }),
        0xD6 => Some(Decoded { opcode: Opcode::DEC, cycles: 6, address_mode: Mode::ZeroPageX }),
        0xCE => Some(Decoded { opcode: Opcode::DEC, cycles: 6, address_mode: Mode::Absolute }),
        0xDE => Some(Decoded { opcode: Opcode::DEC, cycles: 7, address_mode: Mode::AbsoluteX }),
        0xCA => Some(Decoded { opcode: Opcode::DEX, cycles: 2, address_mode: Mode::Implied }),
        0x88 => Some(Decoded { opcode: Opcode::DEY, cycles: 2, address_mode: Mode::Implied }),
        0x49 => Some(Decoded { opcode: Opcode::EOR, cycles: 2, address_mode: Mode::Immediate }),
        0x45 => Some(Decoded { opcode: Opcode::EOR, cycles: 3, address_mode: Mode::ZeroPage }),
        0x55 => Some(Decoded { opcode: Opcode::EOR, cycles: 4, address_mode: Mode::ZeroPageX }),
        0x4D => Some(Decoded { opcode: Opcode::EOR, cycles: 4, address_mode: Mode::Absolute }),
        0x5D => Some(Decoded { opcode: Opcode::EOR, cycles: 4, address_mode: Mode::AbsoluteX }),
        0x59 => Some(Decoded { opcode: Opcode::EOR, cycles: 4, address_mode: Mode::AbsoluteY }),
        0x41 => Some(Decoded { opcode: Opcode::EOR, cycles: 6, address_mode: Mode::IndirectX }),
        0x51 => Some(Decoded { opcode: Opcode::EOR, cycles: 5, address_mode: Mode::IndirectY }),
        0xE6 => Some(Decoded { opcode: Opcode::INC, cycles: 5, address_mode: Mode::ZeroPage }),
        0xF6 => Some(Decoded { opcode: Opcode::INC, cycles: 6, address_mode: Mode::ZeroPageX }),
        0xEE => Some(Decoded { opcode: Opcode::INC, cycles: 6, address_mode: Mode::Absolute }),
        0xFE => Some(Decoded { opcode: Opcode::INC, cycles: 7, address_mode: Mode::AbsoluteX }),
        0xE8 => Some(Decoded { opcode: Opcode::INX, cycles: 2, address_mode: Mode::Implied }),
        0xC8 => Some(Decoded { opcode: Opcode::INY, cycles: 2, address_mode: Mode::Implied }),
        0x4C => Some(Decoded { opcode: Opcode::JMP, cycles: 3, address_mode: Mode::Absolute }),
        0x6C => Some(Decoded { opcode: Opcode::JMP, cycles: 5, address_mode: Mode::Indirect }),
        0x20 => Some(Decoded { opcode: Opcode::JSR, cycles: 6, address_mode: Mode::Absolute }),
        0xA9 => Some(Decoded { opcode: Opcode::LDA, cycles: 2, address_mode: Mode::Immediate }),
        0xA5 => Some(Decoded { opcode: Opcode::LDA, cycles: 3, address_mode: Mode::ZeroPage }),
        0xB5 => Some(Decoded { opcode: Opcode::LDA, cycles: 4, address_mode: Mode::ZeroPageX }),
        0xAD => Some(Decoded { opcode: Opcode::LDA, cycles: 4, address_mode: Mode::Absolute }),
        0xBD => Some(Decoded { opcode: Opcode::LDA, cycles: 4, address_mode: Mode::AbsoluteX }),
        0xB9 => Some(Decoded { opcode: Opcode::LDA, cycles: 4, address_mode: Mode::AbsoluteY }),
        0xA1 => Some(Decoded { opcode: Opcode::LDA, cycles: 6, address_mode: Mode::IndirectX }),
        0xB1 => Some(Decoded { opcode: Opcode::LDA, cycles: 5, address_mode: Mode::IndirectY }),
        0xA2 => Some(Decoded { opcode: Opcode::LDX, cycles: 2, address_mode: Mode::Immediate }),
        0xA6 => Some(Decoded { opcode: Opcode::LDX, cycles: 3, address_mode: Mode::ZeroPage }),
        0xB6 => Some(Decoded { opcode: Opcode::LDX, cycles: 4, address_mode: Mode::ZeroPageY }),
        0xAE => Some(Decoded { opcode: Opcode::LDX, cycles: 4, address_mode: Mode::Absolute }),
        0xBE => Some(Decoded { opcode: Opcode::LDX, cycles: 4, address_mode: Mode::AbsoluteY }),
        0xA0 => Some(Decoded { opcode: Opcode::LDY, cycles: 2, address_mode: Mode::Immediate }),
        0xA4 => Some(Decoded { opcode: Opcode::LDY, cycles: 3, address_mode: Mode::ZeroPage }),
        0xB4 => Some(Decoded { opcode: Opcode::LDY, cycles: 4, address_mode: Mode::ZeroPageX }),
        0xAC => Some(Decoded { opcode: Opcode::LDY, cycles: 4, address_mode: Mode::Absolute }),
        0xBC => Some(Decoded { opcode: Opcode::LDY, cycles: 4, address_mode: Mode::AbsoluteX }),
        0x4A => Some(Decoded { opcode: Opcode::LSR, cycles: 2, address_mode: Mode::Accumulator }),
        0x46 => Some(Decoded { opcode: Opcode::LSR, cycles: 5, address_mode: Mode::ZeroPage }),
        0x56 => Some(Decoded { opcode: Opcode::LSR, cycles: 6, address_mode: Mode::ZeroPageX }),
        0x4E => Some(Decoded { opcode: Opcode::LSR, cycles: 6, address_mode: Mode::Absolute }),
        0x5E => Some(Decoded { opcode: Opcode::LSR, cycles: 7, address_mode: Mode::AbsoluteX }),
        0xEA => Some(Decoded { opcode: Opcode::NOP, cycles: 2, address_mode: Mode::Implied }),
        0x09 => Some(Decoded { opcode: Opcode::ORA, cycles: 2, address_mode: Mode::Immediate }),
        0x05 => Some(Decoded { opcode: Opcode::ORA, cycles: 3, address_mode: Mode::ZeroPage }),
        0x15 => Some(Decoded { opcode: Opcode::ORA, cycles: 4, address_mode: Mode::ZeroPageX }),
        0x0D => Some(Decoded { opcode: Opcode::ORA, cycles: 4, address_mode: Mode::Absolute }),
        0x1D => Some(Decoded { opcode: Opcode::ORA, cycles: 4, address_mode: Mode::AbsoluteX }),
        0x19 => Some(Decoded { opcode: Opcode::ORA, cycles: 4, address_mode: Mode::AbsoluteY }),
        0x01 => Some(Decoded { opcode: Opcode::ORA, cycles: 6, address_mode: Mode::IndirectX }),
        0x11 => Some(Decoded { opcode: Opcode::ORA, cycles: 5, address_mode: Mode::IndirectY }),
        0x48 => Some(Decoded { opcode: Opcode::PHA, cycles: 3, address_mode: Mode::Implied }),
        0x08 => Some(Decoded { opcode: Opcode::PHP, cycles: 3, address_mode: Mode::Implied }),
        0x68 => Some(Decoded { opcode: Opcode::PLA, cycles: 4, address_mode: Mode::Implied }),
        0x28 => Some(Decoded { opcode: Opcode::PLP, cycles: 4, address_mode: Mode::Implied }),
        0x2A => Some(Decoded { opcode: Opcode::ROL, cycles: 2, address_mode: Mode::Accumulator }),
        0x26 => Some(Decoded { opcode: Opcode::ROL, cycles: 5, address_mode: Mode::ZeroPage }),
        0x36 => Some(Decoded { opcode: Opcode::ROL, cycles: 6, address_mode: Mode::ZeroPageX }),
        0x2E => Some(Decoded { opcode: Opcode::ROL, cycles: 6, address_mode: Mode::Absolute }),
        0x3E => Some(Decoded { opcode: Opcode::ROL, cycles: 7, address_mode: Mode::AbsoluteX }),
        0x6A => Some(Decoded { opcode: Opcode::ROR, cycles: 2, address_mode: Mode::Accumulator }),
        0x66 => Some(Decoded { opcode: Opcode::ROR, cycles: 5, address_mode: Mode::ZeroPage }),
        0x76 => Some(Decoded { opcode: Opcode::ROR, cycles: 6, address_mode: Mode::ZeroPageX }),
        0x6E => Some(Decoded { opcode: Opcode::ROR, cycles: 6, address_mode: Mode::Absolute }),
        0x7E => Some(Decoded { opcode: Opcode::ROR, cycles: 7, address_mode: Mode::AbsoluteX }),
        0x40 => Some(Decoded { opcode: Opcode::RTI, cycles: 6, address_mode: Mode::Implied }),
        0x60 => Some(Decoded { opcode: Opcode::RTS, cycles: 6, address_mode: Mode::Implied }),
        0xE9 => Some(Decoded { opcode: Opcode::SBC, cycles: 2, address_mode: Mode::Immediate }),
        0xE5 => Some(Decoded { opcode: Opcode::SBC, cycles: 3, address_mode: Mode::ZeroPage }),
        0xF5 => Some(Decoded { opcode: Opcode::SBC, cycles: 4, address_mode: Mode::ZeroPageX }),
        0xED => Some(Decoded { opcode: Opcode::SBC, cycles: 4, address_mode: Mode::Absolute }),
        0xFD => Some(Decoded { opcode: Opcode::SBC, cycles: 4, address_mode: Mode::AbsoluteX }),
        0xF9 => Some(Decoded { opcode: Opcode::SBC, cycles: 4, address_mode: Mode::AbsoluteY }),
        0xE1 => Some(Decoded { opcode: Opcode::SBC, cycles: 6, address_mode: Mode::IndirectX }),
        0xF1 => Some(Decoded { opcode: Opcode::SBC, cycles: 5, address_mode: Mode::IndirectY }),
        0x38 => Some(Decoded { opcode: Opcode::SEC, cycles: 2, address_mode: Mode::Implied }),
        0xF8 => Some(Decoded { opcode: Opcode::SED, cycles: 2, address_mode: Mode::Implied }),
        0x78 => Some(Decoded { opcode: Opcode::SEI, cycles: 2, address_mode: Mode::Implied }),
        0x85 => Some(Decoded { opcode: Opcode::STA, cycles: 3, address_mode: Mode::ZeroPage }),
        0x95 => Some(Decoded { opcode: Opcode::STA, cycles: 4, address_mode: Mode::ZeroPageX }),
        0x8D => Some(Decoded { opcode: Opcode::STA, cycles: 4, address_mode: Mode::Absolute }),
        0x9D => Some(Decoded { opcode: Opcode::STA, cycles: 5, address_mode: Mode::AbsoluteX }),
        0x99 => Some(Decoded { opcode: Opcode::STA, cycles: 5, address_mode: Mode::AbsoluteY }),
        0x81 => Some(Decoded { opcode: Opcode::STA, cycles: 6, address_mode: Mode::IndirectX }),
        0x91 => Some(Decoded { opcode: Opcode::STA, cycles: 6, address_mode: Mode::IndirectY }),
        0x86 => Some(Decoded { opcode: Opcode::STX, cycles: 3, address_mode: Mode::ZeroPage }),
        0x96 => Some(Decoded { opcode: Opcode::STX, cycles: 4, address_mode: Mode::ZeroPageY }),
        0x8E => Some(Decoded { opcode: Opcode::STX, cycles: 4, address_mode: Mode::Absolute }),
        0x84 => Some(Decoded { opcode: Opcode::STY, cycles: 3, address_mode: Mode::ZeroPage }),
        0x94 => Some(Decoded { opcode: Opcode::STY, cycles: 4, address_mode: Mode::ZeroPageX }),
        0x8C => Some(Decoded { opcode: Opcode::STY, cycles: 4, address_mode: Mode::Absolute }),
        0xAA => Some(Decoded { opcode: Opcode::TAX, cycles: 2, address_mode: Mode::Implied }),
        0xA8 => Some(Decoded { opcode: Opcode::TAY, cycles: 2, address_mode: Mode::Implied }),
        0xBA => Some(Decoded { opcode: Opcode::TSX, cycles: 2, address_mode: Mode::Implied }),
        0x8A => Some(Decoded { opcode: Opcode::TXA, cycles: 2, address_mode: Mode::Implied }),
        0x9A => Some(Decoded { opcode: Opcode::TXS, cycles: 2, address_mode: Mode::Implied }),
        0x98 => Some(Decoded { opcode: Opcode::TYA, cycles: 2, address_mode: Mode::Implied }),
        _ => None,
    }
}

/// The CPU after the opcode at the program counter is fetched, and what it decodes to.
pub open spec fn decode_spec<B: Bus>(cpu: CPU, bus: B) -> (CPU, Option<Decoded>) {
    (CPU { pc: (cpu.pc + 1) as u16, ..cpu }, decode_entry(bus.byte_at(cpu.pc)))
}

/// The operation of an opcode of the ALU group (low two bits 01) by its top three bits.
pub open spec fn alu_group_opcode(row: u8) -> Opcode {
    match row {
        0 => Opcode::ORA,
        1 => Opcode::AND,
        2 => Opcode::EOR,
        3 => Opcode::ADC,
        4 => Opcode::STA,
        5 => Opcode::LDA,
        6 => Opcode::CMP,
        _ => Opcode::SBC,
    }
}

/// The addressing mode of an opcode of the ALU group by its middle three bits, and the cycles it
/// takes to read through it.
pub open spec fn alu_group_mode(col: u8) -> (Mode, usize) {
    match col {
        0 => (Mode::IndirectX, 6),
        1 => (Mode::ZeroPage, 3),
        2 => (Mode::Immediate, 2),
        3 => (Mode::Absolute, 4),
        4 => (Mode::IndirectY, 5),
        5 => (Mode::ZeroPageX, 4),
        6 => (Mode::AbsoluteY, 4),
        _ => (Mode::AbsoluteX, 4),
    }
}

/// The ALU opcodes (`aaabbb01`) decode by their bits: the top three name the operation (ORA,
/// AND, EOR, ADC, STA, LDA, CMP, SBC) and the middle three the addressing mode, the same for every
/// operation. A store has no immediate mode, and takes one cycle more where an index could cross
/// a page.
pub proof fn lemma_alu_group_decoding(row: u8, col: u8)
    requires
        row < 8,
        col < 8,
        !(row == 4 && col == 2),
    ensures
        decode_entry((row * 32 + col * 4 + 1) as u8) == Some(
            Decoded {
                opcode: alu_group_opcode(row),
                address_mode: alu_group_mode(col).0,
                cycles: (alu_group_mode(col).1 + if row == 4 && (col == 4 || col == 6 || col == 7) {
                    1usize
                } else {
                    0usize
                }) as usize,
            },
        ),
{
}

/// The operation of a read-modify-write opcode (low two bits 10) by its top three bits.
pub open spec fn rmw_group_opcode(row: u8) -> Opcode {
    match row {
        0 => Opcode::ASL,
        1 => Opcode::ROL,
        2 => Opcode::LSR,
        3 => Opcode::ROR,
        6 => Opcode::DEC,
        _ => Opcode::INC,
    }
}

/// The addressing mode of a read-modify-write opcode by its middle three bits, and its cycles.
pub open spec fn rmw_group_mode(col: u8) -> (Mode, usize) {
    match col {
        1 => (Mode::ZeroPage, 5),
        2 => (Mode::Accumulator, 2),
        3 => (Mode::Absolute, 6),
        5 => (Mode::ZeroPageX, 6),
        _ => (Mode::AbsoluteX, 7),
    }
}

/// The shifts, rotations, INC and DEC (`aaabbb10`) decode by their bits: the top three name the
/// operation (ASL, ROL, LSR, ROR, DEC, INC) and the middle three the addressing mode. INC and
/// DEC have no accumulator mode.
pub proof fn lemma_rmw_group_decoding(row: u8, col: u8)
    requires
        row < 4 || row == 6 || row == 7,
        col == 1 || col == 2 || col == 3 || col == 5 || col == 7,
        !(row >= 6 && col == 2),
    ensures
        decode_entry((row * 32 + col * 4 + 2) as u8) == Some(
            Decoded {
                opcode: rmw_group_opcode(row),
                address_mode: rmw_group_mode(col).0,
                cycles: rmw_group_mode(col).1,
            },
        ),
{
}

/// The branch taken on a flag by its bits (`xxy10000`): the top two name the flag (negative,
/// overflow, carry, zero) and the third whether the branch is taken on it set or clear.
pub open spec fn branch_opcode(flag: u8, set: bool) -> Opcode {
    match (flag, set) {
        (0, false) => Opcode::BPL,
        (0, true) => Opcode::BMI,
        (1, false) => Opcode::BVC,
        (1, true) => Opcode::BVS,
        (2, false) => Opcode::BCC,
        (2, true) => Opcode::BCS,
        (3, false) => Opcode::BNE,
        _ => Opcode::BEQ,
    }
}

/// The branches (`xxy10000`) decode by their bits into the branch on the flag that the top two
/// bits name, taken when the flag equals the third bit, with a relative operand in 2 cycles.
pub proof fn lemma_branch_decoding(flag: u8, set: bool)
    requires
        flag < 4,
    ensures
        decode_entry((flag * 64 + (if set { 32u8 } else { 0u8 }) + 0x10) as u8) == Some(
            Decoded { opcode: branch_opcode(flag, set), address_mode: Mode::Relative, cycles: 2 },
        ),
{
}

/// The status bit that the branches on flag `flag` (as their opcode bits number them) test:
/// negative, overflow, carry, zero.
pub open spec fn branch_flag_mask(flag: u8) -> u8 {
    match flag {
        0 => 0x80,
        1 => 0x40,
        2 => 0x01,
        _ => 0x02,
    }
}

/// A branch on a flag is taken exactly when the flag equals the value the branch asks for: the
/// program counter then moves by the signed offset that follows the opcode, counted from the
/// next instruction; otherwise it moves past the offset. No register but the program counter,
/// and no byte of the bus, changes.
pub proof fn lemma_branch<B: Bus>(cpu: CPU, bus: B, d: Decoded, flag: u8, set: bool)
    requires
        flag < 4,
        d.opcode == branch_opcode(flag, set),
        d.address_mode is Relative,
        cpu.pc < 0xFFFF,
    ensures
        ({
            let (after, bus2, _i) = handle_spec(cpu, bus, d);
            let taken = ((cpu.status@ & branch_flag_mask(flag)) != 0) == set;
            let next: int = cpu.pc + 1;
            &&& after.pc == if taken {
                (next + twos_complement(bus.byte_at(cpu.pc))) % 0x10000
            } else {
                next
            }
            &&& after.a == cpu.a && after.x == cpu.x && after.y == cpu.y && after.sp == cpu.sp
            &&& after.status == cpu.status
            &&& bus2 == bus
        }),
{
}

/// Each flag instruction sets or clears its own flag and leaves every other bit of the status,
/// the other registers and the bus as they were: CLC/SEC the carry, CLI/SEI interrupt disable,
/// CLD/SED decimal mode, CLV overflow.
pub proof fn lemma_flag_instructions<B: Bus>(cpu: CPU, bus: B, d: Decoded, bit: u8)
    requires
        d.opcode is CLC || d.opcode is SEC || d.opcode is CLI || d.opcode is SEI || d.opcode is CLD
            || d.opcode is SED || d.opcode is CLV,
        bit < 8,
    ensures
        ({
            let (after, bus2, _i) = handle_spec(cpu, bus, d);
            let mask: u8 = if d.opcode is CLC || d.opcode is SEC {
                0x01
            } else if d.opcode is CLI || d.opcode is SEI {
                0x04
            } else if d.opcode is CLD || d.opcode is SED {
                0x08
            } else {
                0x40
            };
            let on = d.opcode is SEC || d.opcode is SEI || d.opcode is SED;
            let b = (1u8 << bit) as u8;
            &&& (after.status@ & b != 0) == if b == mask { on } else { cpu.status@ & b != 0 }
            &&& after.a == cpu.a && after.x == cpu.x && after.y == cpu.y && after.sp == cpu.sp
            &&& after.pc == cpu.pc
            &&& bus2 == bus
        }),
{
    let p = cpu.status@;
    let mask: u8 = if d.opcode is CLC || d.opcode is SEC {
        0x01
    } else if d.opcode is CLI || d.opcode is SEI {
        0x04
    } else if d.opcode is CLD || d.opcode is SED {
        0x08
    } else {
        0x40
    };
    let on = d.opcode is SEC || d.opcode is SEI || d.opcode is SED;
    let q: u8 = if on { p | mask } else { p & !mask };
    let b = (1u8 << bit) as u8;
    assert((q & b != 0) == if b == mask { on } else { p & b != 0 }) by (bit_vector)
        requires
            bit < 8,
            b == 1u8 << bit,
            mask == 0x01 || mask == 0x04 || mask == 0x08 || mask == 0x40,
            q == if on { p | mask } else { p & !mask },
    ;
}

/// Loads put the operand in their register (LDA in A, LDX in X, LDY in Y), transfers copy one
/// register into another (TAX, TAY, TXA, TYA, TSX, TXS), and INX, INY, DEX, DEY add or take one,
/// wrapping at 256. Each leaves the other registers and the bus as they were, and all but TXS
/// set zero and negative from the new value.
pub proof fn lemma_register_moves<B: Bus>(cpu: CPU, bus: B, d: Decoded)
    requires
        d.opcode is LDA || d.opcode is LDX || d.opcode is LDY || d.opcode is TAX || d.opcode is TAY
            || d.opcode is TXA || d.opcode is TYA || d.opcode is TSX || d.opcode is TXS
            || d.opcode is INX || d.opcode is INY || d.opcode is DEX || d.opcode is DEY,
    ensures
        ({
            let (c1, op) = fetch_spec(d.address_mode, cpu, bus);
            let v = operand_value(op, c1, bus);
            let (after, bus2, _i) = handle_spec(cpu, bus, d);
            let (target, value): (Reg, int) = match d.opcode {
                Opcode::LDA => (Reg::A, v as int),
                Opcode::LDX => (Reg::X, v as int),
                Opcode::LDY => (Reg::Y, v as int),
                Opcode::TAX => (Reg::X, cpu.a as int),
                Opcode::TAY => (Reg::Y, cpu.a as int),
                Opcode::TXA => (Reg::A, cpu.x as int),
                Opcode::TYA => (Reg::A, cpu.y as int),
                Opcode::TSX => (Reg::X, cpu.sp as int),
                Opcode::TXS => (Reg::SP, cpu.x as int),
                Opcode::INX => (Reg::X, (cpu.x + 1) % 256),
                Opcode::INY => (Reg::Y, (cpu.y + 1) % 256),
                Opcode::DEX => (Reg::X, (cpu.x - 1) % 256),
                _ => (Reg::Y, (cpu.y - 1) % 256),
            };
            &&& reg_value(after, target) == value
            &&& target != Reg::A ==> after.a == cpu.a
            &&& target != Reg::X ==> after.x == cpu.x
            &&& target != Reg::Y ==> after.y == cpu.y
            &&& target != Reg::SP ==> after.sp == cpu.sp
            &&& !(d.opcode is TXS) ==> has(after.status@, 0x02) == (value == 0) && has(
                after.status@,
                0x80,
            ) == (value >= 0x80)
            &&& bus2 == bus
        }),
{
    let (c1, op) = fetch_spec(d.address_mode, cpu, bus);
    let v = operand_value(op, c1, bus);
    let p = cpu.status@;
    assert forall|x: u8| #[trigger] has(nz(p, x), 0x02) == (x == 0) && has(nz(p, x), 0x80) == (x
        >= 0x80) by {
        let n = x >= 0x80;
        let z = x == 0;
        let p3: u8 = if n { p | 0x80 } else { p & !0x80u8 };
        let q: u8 = if z { p3 | 0x02 } else { p3 & !0x02u8 };
        assert((q & 0x02 != 0) == z && (q & 0x80 != 0) == n) by (bit_vector)
            requires
                p3 == if n { p | 0x80 } else { p & !0x80u8 },
                q == if z { p3 | 0x02 } else { p3 & !0x02u8 },
        ;
    }
}

/// Stores write their register (STA A, STX X, STY Y) at the operand's address and change no
/// register but the program counter. INC and DEC write the operand plus or less one, wrapping
/// at 256, back where it was read; ASL, LSR, ROL and ROR write it shifted or rotated by one,
/// ROL and ROR bringing the old carry in, and carry takes the bit moved out.
pub proof fn lemma_memory_writes<B: Bus>(cpu: CPU, bus: B, d: Decoded)
    requires
        d.opcode is STA || d.opcode is STX || d.opcode is STY || d.opcode is INC || d.opcode is DEC
            || d.opcode is ASL || d.opcode is LSR || d.opcode is ROL || d.opcode is ROR,
    ensures
        ({
            let (c1, op) = fetch_spec(d.address_mode, cpu, bus);
            let v = operand_value(op, c1, bus);
            let c: int = if has(cpu.status@, 0x01) { 1 } else { 0 };
            let (after, bus2, _i) = handle_spec(cpu, bus, d);
            let written: int = match d.opcode {
                Opcode::STA => cpu.a as int,
                Opcode::STX => cpu.x as int,
                Opcode::STY => cpu.y as int,
                Opcode::INC => (v + 1) % 256,
                Opcode::DEC => (v - 1) % 256,
                Opcode::ASL => (v * 2) % 256,
                Opcode::LSR => v as int / 2,
                Opcode::ROL => (v * 2) % 256 + c,
                _ => v as int / 2 + 128 * c,
            };
            &&& op is Accumulator ==> after.a == written && bus2 == bus
            &&& !(op is Accumulator) ==> bus2 == bus.after_write(operand_addr(op, cpu, bus),
                written as u8) && after.a == cpu.a
            &&& after.x == cpu.x && after.y == cpu.y && after.sp == cpu.sp
            &&& (d.opcode is ASL || d.opcode is ROL) ==> has(after.status@, 0x01) == (v >= 128)
            &&& (d.opcode is LSR || d.opcode is ROR) ==> has(after.status@, 0x01) == (v % 2 == 1)
        }),
{
    let (c1, op) = fetch_spec(d.address_mode, cpu, bus);
    let v = operand_value(op, c1, bus);
    let p = cpu.status@;
    assert forall|b: bool, x: u8| #[trigger] has(nz(with_bit(p, 0x01, b), x), 0x01) == b by {
        let p1: u8 = if b { p | 0x01 } else { p & !0x01u8 };
        let n = x >= 0x80;
        let z = x == 0;
        let p3: u8 = if n { p1 | 0x80 } else { p1 & !0x80u8 };
        let q: u8 = if z { p3 | 0x02 } else { p3 & !0x02u8 };
        assert((q & 0x01 != 0) == b) by (bit_vector)
            requires
                p1 == if b { p | 0x01 } else { p & !0x01u8 },
                p3 == if n { p1 | 0x80 } else { p1 & !0x80u8 },
                q == if z { p3 | 0x02 } else { p3 & !0x02u8 },
        ;
    }
}

/// What an operand fetched through each mode reads, from the bytes that follow the opcode (`lo`,
/// then `hi`): the byte itself for an immediate operand; in page zero at `lo`, plus X or plus Y
/// wrapping within the page; at the absolute address `hi:lo`, plus X or plus Y wrapping at the end
/// of memory; through the pointer at `lo + X`, or through the pointer at `lo` plus Y; or the
/// accumulator. The program counter moves past the operand bytes.
pub proof fn lemma_operand_fetch<B: Bus>(m: Mode, cpu: CPU, bus: B)
    requires
        cpu.pc + 2 <= 0xFFFF,
        !(m is Implied || m is Relative || m is Indirect),
    ensures
        ({
            let (c1, op) = fetch_spec(m, cpu, bus);
            let lo = bus.byte_at(cpu.pc) as int;
            let hi = bus.byte_at((cpu.pc + 1) as u16) as int;
            let abs = hi * 256 + lo;
            let at = |a: int| bus.byte_at(a as u16);
            let ptr = |a: int| at(a) as int + 256 * at((a + 1) % 0x10000) as int;
            &&& operand_value(op, c1, bus) as int == match m {
                Mode::Immediate => lo,
                Mode::ZeroPage => at(lo) as int,
                Mode::ZeroPageX => at((lo + cpu.x) % 256) as int,
                Mode::ZeroPageY => at((lo + cpu.y) % 256) as int,
                Mode::Absolute => at(abs) as int,
                Mode::AbsoluteX => at((abs + cpu.x) % 0x10000) as int,
                Mode::AbsoluteY => at((abs + cpu.y) % 0x10000) as int,
                Mode::IndirectX => at(ptr((lo + cpu.x) % 0x10000)) as int,
                Mode::IndirectY => at((ptr(lo) + cpu.y) % 0x10000) as int,
                _ => cpu.a as int,
            }
            &&& c1.pc == cpu.pc + match m {
                Mode::Absolute | Mode::AbsoluteX | Mode::AbsoluteY => 2int,
                Mode::Accumulator => 0int,
                _ => 1int,
            }
            &&& c1.a == cpu.a && c1.x == cpu.x && c1.y == cpu.y && c1.sp == cpu.sp
        }),
{
    let lo = bus.byte_at(cpu.pc);
    let hi = bus.byte_at((cpu.pc + 1) as u16);
    assert(word(lo, hi) == hi as int * 256 + lo as int);
    assert forall|a: u16| #[trigger] word_at(bus, a) as int == bus.byte_at(a) as int + 256
        * bus.byte_at(((a + 1) % 0x10000) as u16) as int by {
        assert(next_addr(a) == ((a + 1) % 0x10000) as u16);
    }
}

/// What JSR to an absolute address does: it pushes the address of its own last byte and jumps.
proof fn lemma_jsr_effect<B: Bus>(cpu: CPU, bus: B, call: Decoded)
    requires
        call.opcode is JSR,
        call.address_mode is Absolute,
    ensures
        ({
            let target = word(bus.byte_at(cpu.pc), bus.byte_at((cpu.pc + 1) as u16));
            let c1 = CPU { pc: (cpu.pc + 2) as u16, ..cpu };
            let (cp, bp) = pushed_word(c1, bus, (c1.pc - 1) as u16);
            &&& handle_spec(cpu, bus, call).0 == (CPU { pc: target, ..cp })
            &&& handle_spec(cpu, bus, call).1 == bp
        }),
{
}

/// What RTS does: it pops a word and goes to the address after it.
proof fn lemma_rts_effect<B: Bus>(cpu: CPU, bus: B, ret: Decoded)
    requires
        ret.opcode is RTS,
    ensures
        handle_spec(cpu, bus, ret).0.pc == ((popped_word(cpu, bus) + 1) % 0x10000) as u16,
        handle_spec(cpu, bus, ret).0.sp == sp_up(cpu.sp, 2),
        handle_spec(cpu, bus, ret).1 == bus,
{
}

/// A subroutine call and its return: JSR to an absolute address jumps there and pushes the
/// return address, and an RTS run right after it on the plain memory bus comes back to the
/// instruction that follows the JSR, with the stack pointer where it was before the call.
pub proof fn lemma_call_return(cpu: CPU, bus: FakeBus, call: Decoded, ret: Decoded)
    requires
        call.opcode is JSR,
        call.address_mode is Absolute,
        ret.opcode is RTS,
        cpu.pc + 2 <= 0xFFFF,
    ensures
        ({
            let (c2, b2, _i) = handle_spec(cpu, bus, call);
            let (c3, b3, _j) = handle_spec(c2, b2, ret);
            &&& c2.pc as int == bus.byte_at(cpu.pc) as int + 256 * bus.byte_at((cpu.pc + 1) as u16)
                as int
            &&& c3.pc == cpu.pc + 2
            &&& c3.sp == cpu.sp
            &&& b3 == b2
        }),
{
    let lo = bus.byte_at(cpu.pc);
    let hi = bus.byte_at((cpu.pc + 1) as u16);
    let c1 = CPU { pc: (cpu.pc + 2) as u16, ..cpu };
    let back = (c1.pc - 1) as u16;
    lemma_jsr_effect(cpu, bus, call);
    crate::cpu::w65c02::cpu::lemma_push_pop_word(c1, bus, back);
    let (cp, bp) = pushed_word(c1, bus, back);
    let c2 = CPU { pc: word(lo, hi), ..cp };
    assert(popped_word(c2, bp) == popped_word(cp, bp));
    lemma_rts_effect(c2, bp, ret);
    assert(word(lo, hi) == hi as int * 256 + lo as int);
}

/// BIT sets zero exactly when the accumulator and the operand have no bit in common, and
/// copies the operand's top bit into negative and the bit below into overflow. It changes no
/// register but the status and the program counter, and the bus not at all.
pub proof fn lemma_bit_test<B: Bus>(cpu: CPU, bus: B, d: Decoded)
    requires
        d.opcode is BIT,
    ensures
        ({
            let (c1, op) = fetch_spec(d.address_mode, cpu, bus);
            let v = operand_value(op, c1, bus);
            let (after, bus2, _i) = handle_spec(cpu, bus, d);
            &&& has(after.status@, 0x02) == (cpu.a & v == 0)
            &&& has(after.status@, 0x80) == (v & 0x80 != 0)
            &&& has(after.status@, 0x40) == (v & 0x40 != 0)
            &&& after.a == cpu.a && after.x == cpu.x && after.y == cpu.y && after.sp == cpu.sp
            &&& bus2 == bus
        }),
{
    let (c1, op) = fetch_spec(d.address_mode, cpu, bus);
    let v = operand_value(op, c1, bus);
    let p = cpu.status@;
    let n = v >= 0x80;
    let o = (v / 64) % 2 == 1;
    let z = cpu.a & v == 0;
    let p1: u8 = if n { p | 0x80 } else { p & !0x80u8 };
    let p2: u8 = if o { p1 | 0x40 } else { p1 & !0x40u8 };
    let p3: u8 = if z { p2 | 0x02 } else { p2 & !0x02u8 };
    assert((p3 & 0x02 != 0) == z && (p3 & 0x80 != 0) == (v & 0x80 != 0) && (p3 & 0x40 != 0) == (v
        & 0x40 != 0)) by (bit_vector)
        requires
            n == (v >= 0x80),
            o == ((v / 64) % 2 == 1),
            p1 == if n { p | 0x80 } else { p & !0x80u8 },
            p2 == if o { p1 | 0x40 } else { p1 & !0x40u8 },
            p3 == if z { p2 | 0x02 } else { p2 & !0x02u8 },
    ;
}

/// Fetches the opcode at the program counter and decodes it.
pub fn decode<B: Bus>(cpu: &mut CPU, bus: &mut B) -> (r: Decoded)
    requires
        old(cpu).pc < 0xFFFF,
        decode_entry(old(bus).byte_at(old(cpu).pc)) is Some,
    ensures
        (*final(cpu), Some(r)) == decode_spec(*old(cpu), *old(bus)),
        decoded_ok(r),
        *final(bus) == *old(bus),
{
    let byte = cpu.fetch_byte(bus);
    match decode_opcode(byte) {
        Some(d) => d,
        None => Decoded { opcode: Opcode::NOP, cycles: 0, address_mode: Mode::Implied },
    }
}

/// A register of the W65C02 that instructions load, store, compare or transfer.
#[derive(Debug, Copy, Clone, PartialEq, Eq, Structural)]
pub enum Reg {
    A,
    X,
    Y,
    SP,
}

/// The value of a register.
pub open spec fn reg_value(cpu: CPU, r: Reg) -> u8 {
    match r {
        Reg::A => cpu.a,
        Reg::X => cpu.x,
        Reg::Y => cpu.y,
        Reg::SP => cpu.sp,
    }
}

/// The CPU with a register set to `v`.
pub open spec fn with_reg(cpu: CPU, r: Reg, v: u8) -> CPU {
    match r {
        Reg::A => CPU { a: v, ..cpu },
        Reg::X => CPU { x: v, ..cpu },
        Reg::Y => CPU { y: v, ..cpu },
        Reg::SP => CPU { sp: v, ..cpu },
    }
}

/// The CPU with its status register set to the byte `p`.
pub open spec fn with_status(cpu: CPU, p: u8) -> CPU {
    CPU { status: Status { bits: p }, ..cpu }
}

/// The status byte `p` with the negative and zero flags set from the result `v`.
pub open spec fn nz(p: u8, v: u8) -> u8 {
    with_bit(with_bit(p, 0x80, v >= 0x80), 0x02, v == 0)
}

/// Whether the flag of `mask` is set in the status byte `p`.
pub open spec fn has(p: u8, mask: u8) -> bool {
    p & mask != 0
}

/// The carry flag as a number.
pub open spec fn carry_of(p: u8) -> int {
    if has(p, 0x01) {
        1
    } else {
        0
    }
}

/// What an instruction reports: its decoded operation and cycles, and its operand.
pub open spec fn inst_of(d: Decoded, op: Operand) -> Instruction {
    Instruction { opcode: d.opcode, operand: op, cycles: d.cycles }
}

/// Loads into a register the value of the operand (LDA, LDX, LDY).
pub open spec fn load_spec<B: Bus>(cpu: CPU, bus: B, d: Decoded, r: Reg) -> (CPU, B, Instruction) {
    let (c1, op) = fetch_spec(d.address_mode, cpu, bus);
    let v = operand_value(op, c1, bus);
    (with_status(with_reg(c1, r, v), nz(c1.status@, v)), bus, inst_of(d, op))
}

/// A bitwise operation of the accumulator with a value.
#[derive(Debug, Copy, Clone, PartialEq, Eq, Structural)]
pub enum Logic {
    And,
    Or,
    Xor,
}

/// The result of a bitwise operation.
pub open spec fn logic_result(l: Logic, a: u8, v: u8) -> u8 {
    match l {
        Logic::And => a & v,
        Logic::Or => a | v,
        Logic::Xor => a ^ v,
    }
}

/// The accumulator combined bitwise with the operand (AND, ORA, EOR).
pub open spec fn logic_spec<B: Bus>(cpu: CPU, bus: B, d: Decoded, l: Logic) -> (CPU, B, Instruction) {
    let (c1, op) = fetch_spec(d.address_mode, cpu, bus);
    let res = logic_result(l, c1.a, operand_value(op, c1, bus));
    (with_status(CPU { a: res, ..c1 }, nz(c1.status@, res)), bus, inst_of(d, op))
}

/// A register compared with the operand (CMP, CPX, CPY): carry set when the register is not
/// below the operand, negative and zero set from the difference.
pub open spec fn compare_spec<B: Bus>(cpu: CPU, bus: B, d: Decoded, r: Reg) -> (CPU, B, Instruction) {
    let (c1, op) = fetch_spec(d.address_mode, cpu, bus);
    let v = operand_value(op, c1, bus);
    let rv = reg_value(c1, r);
    let diff = ((rv - v) % 256) as u8;
    (with_status(c1, nz(with_bit(c1.status@, 0x01, rv >= v), diff)), bus, inst_of(d, op))
}

/// Whether `x + y + c`, read as two's complement bytes, falls outside the signed byte range.
pub open spec fn add_overflows(x: u8, y: u8, c: int) -> bool {
    !(-128 <= signed8(x) + signed8(y) + c <= 127)
}

/// Whether `x - y - b`, read as two's complement bytes, falls outside the signed byte range.
pub open spec fn sub_overflows(x: u8, y: u8, b: int) -> bool {
    !(-128 <= signed8(x) - signed8(y) - b <= 127)
}

/// The decimal adjustment after an addition: the adjusted byte and whether it carries out.
pub open spec fn adc_decimal(bin: u8) -> (u8, bool) {
    let lo: int = bin as int % 16;
    let hi: int = bin as int / 16;
    let lo2 = if lo > 9 { lo + 6 } else { lo };
    let hi2 = if lo > 9 { hi + 1 } else { hi };
    let hi3 = if hi2 > 9 { hi2 + 6 } else { hi2 };
    (((hi3 % 16) * 16 + lo2 % 16) as u8, hi2 > 9)
}

/// The decimal adjustment after a subtraction: the adjusted byte and whether it borrows.
pub open spec fn sbc_decimal(bin: u8) -> (u8, bool) {
    let lo: int = bin as int % 16;
    let hi: int = bin as int / 16;
    let lo2 = if lo > 9 { lo - 6 } else { lo };
    let hi2 = if lo > 9 { hi - 1 } else { hi };
    let hi3 = if hi2 > 9 { hi2 - 6 } else { hi2 };
    (((hi3 % 16) * 16 + lo2 % 16) as u8, hi2 > 9)
}

/// Add with carry: the accumulator plus the operand plus the carry. Carry is set when the
/// unsigned sum does not fit a byte, overflow when the signed sum does not; negative and
/// zero follow the binary sum. In decimal mode the sum is then adjusted digit by digit.
pub open spec fn adc_spec<B: Bus>(cpu: CPU, bus: B, d: Decoded) -> (CPU, B, Instruction) {
    let (c1, op) = fetch_spec(d.address_mode, cpu, bus);
    let v = operand_value(op, c1, bus);
    let c = carry_of(c1.status@);
    let sum = c1.a + v + c;
    let bin = (sum % 256) as u8;
    let p1 = with_bit(c1.status@, 0x01, sum >= 256);
    let p2 = nz(with_bit(p1, 0x40, add_overflows(c1.a, v, c)), bin);
    if has(p2, 0x08) {
        let (res, carry) = adc_decimal(bin);
        let p3 = if carry { p2 | 0x01 } else { p2 };
        (with_status(CPU { a: res, ..c1 }, p3), bus, inst_of(d, op))
    } else {
        (with_status(CPU { a: bin, ..c1 }, p2), bus, inst_of(d, op))
    }
}

/// The decimal adjustment of a binary sum of two packed decimal bytes whose digit sums stay
/// within their nibbles gives the decimal sum modulo 100, and carries exactly when it reaches 100.
#[verifier::spinoff_prover]
#[verifier::rlimit(100)]
proof fn lemma_adc_decimal_digits(a: u8, v: u8, c: int)
    requires
        0 <= c <= 1,
        a % 16 <= 9 && a / 16 <= 9 && v % 16 <= 9 && v / 16 <= 9,
        a % 16 + v % 16 + c <= 15,
        a / 16 + v / 16 <= 15,
    ensures
        a + v + c < 256,
        ({
            let (res, carry) = adc_decimal(((a + v + c) % 256) as u8);
            let sum = a % 16 + 10 * (a / 16) + v % 16 + 10 * (v / 16) + c;
            &&& res % 16 <= 9 && res / 16 <= 9
            &&& res % 16 + 10 * (res / 16) == sum % 100
            &&& carry == (sum >= 100)
        }),
{
    let la: int = a as int % 16;
    let ha: int = a as int / 16;
    let lv: int = v as int % 16;
    let hv: int = v as int / 16;
    let lo: int = la + lv + c;
    let hi: int = ha + hv;
    lemma_fundamental_div_mod(a as int, 16);
    lemma_fundamental_div_mod(v as int, 16);
    assert(a + v + c == hi * 16 + lo);
    let bin = ((a + v + c) % 256) as u8;
    assert(bin as int == hi * 16 + lo);
    lemma_fundamental_div_mod_converse(bin as int, 16, hi, lo);
    let (res, carry) = adc_decimal(bin);
    let sum = la + 10 * ha + lv + 10 * hv + c;
    if lo > 9 {
        let h2 = hi + 1;
        if h2 > 9 {
            assert(res as int == (h2 - 10) * 16 + (lo - 10));
            lemma_fundamental_div_mod_converse(res as int, 16, (h2 - 10), (lo - 10));
            assert(sum == 100 + (h2 - 10) * 10 + (lo - 10));
        } else {
            assert(res as int == h2 * 16 + (lo - 10));
            lemma_fundamental_div_mod_converse(res as int, 16, h2, (lo - 10));
            assert(sum == h2 * 10 + (lo - 10));
        }
    } else {
        if hi > 9 {
            assert(res as int == (hi - 10) * 16 + lo);
            lemma_fundamental_div_mod_converse(res as int, 16, (hi - 10), lo);
            assert(sum == 100 + (hi - 10) * 10 + lo);
        } else {
            assert(res as int == hi * 16 + lo);
            lemma_fundamental_div_mod_converse(res as int, 16, hi, lo);
        }
    }
}

/// The status after ADC in decimal mode: with no binary carry, the carry flag is the decimal
/// carry, and the decimal flag stays set.
proof fn lemma_adc_decimal_flags(p: u8, o: bool, bin: u8, carry: bool)
    requires
        has(p, 0x08),
    ensures
        ({
            let p2 = nz(with_bit(with_bit(p, 0x01, false), 0x40, o), bin);
            let p3 = if carry { p2 | 0x01 } else { p2 };
            &&& has(p2, 0x08)
            &&& has(p3, 0x01) == carry
        }),
{
    let p1 = p & !0x01u8;
    let q = if o { p1 | 0x40 } else { p1 & !0x40u8 };
    let r = if bin >= 0x80 { q | 0x80 } else { q & !0x80u8 };
    let p2 = if bin == 0 { r | 0x02 } else { r & !0x02u8 };
    assert(p2 & 0x01 == 0 && p2 & 0x08 != 0 && (p2 | 0x01) & 0x01 != 0) by (bit_vector)
        requires
            p & 0x08 != 0,
            p1 == p & !0x01u8,
            q == p1 | 0x40 || q == p1 & !0x40u8,
            r == q | 0x80 || r == q & !0x80u8,
            p2 == r | 0x02 || p2 == r & !0x02u8,
    ;
}

/// The status after carry and overflow are set and negative and zero follow a result: each of
/// the four reads as set, and decimal mode stays as it was.
proof fn lemma_arith_flags(p: u8, c: bool, o: bool, res: u8)
    ensures
        ({
            let q = nz(with_bit(with_bit(p, 0x01, c), 0x40, o), res);
            &&& has(q, 0x01) == c
            &&& has(q, 0x40) == o
            &&& has(q, 0x02) == (res == 0)
            &&& has(q, 0x80) == (res >= 0x80)
            &&& has(q, 0x08) == has(p, 0x08)
        }),
{
    let p1: u8 = if c { p | 0x01 } else { p & !0x01u8 };
    let p2: u8 = if o { p1 | 0x40 } else { p1 & !0x40u8 };
    let n = res >= 0x80;
    let z = res == 0;
    let p3: u8 = if n { p2 | 0x80 } else { p2 & !0x80u8 };
    let p4: u8 = if z { p3 | 0x02 } else { p3 & !0x02u8 };
    assert((p4 & 0x01 != 0) == c && (p4 & 0x40 != 0) == o && (p4 & 0x02 != 0) == z
        && (p4 & 0x80 != 0) == n && (p4 & 0x08 != 0) == (p & 0x08 != 0)) by (bit_vector)
        requires
            p1 == if c { p | 0x01 } else { p & !0x01u8 },
            p2 == if o { p1 | 0x40 } else { p1 & !0x40u8 },
            p3 == if n { p2 | 0x80 } else { p2 & !0x80u8 },
            p4 == if z { p3 | 0x02 } else { p3 & !0x02u8 },
    ;
}

/// The signed value of a two's complement byte.
pub open spec fn twos_complement(b: u8) -> int {
    if b >= 0x80 { b - 0x100 } else { b as int }
}

/// Outside decimal mode ADC and SBC do binary arithmetic on the accumulator: ADC leaves
/// `A + M + C` modulo 256, with carry set exactly when that sum reaches 256; SBC leaves
/// `A - M - (1 - C)` modulo 256, with carry set exactly when nothing was borrowed. Overflow is set
/// exactly when the same sum or difference of the signed bytes leaves -128..=127, and negative
/// and zero follow the new accumulator.
pub proof fn lemma_add_sub_binary<B: Bus>(cpu: CPU, bus: B, d: Decoded)
    requires
        d.opcode is ADC || d.opcode is SBC,
        has(cpu.status@, 0x08) == false,
    ensures
        ({
            let v = operand_value(fetch_spec(d.address_mode, cpu, bus).1,
                fetch_spec(d.address_mode, cpu, bus).0, bus);
            let a = cpu.a;
            let c: int = if has(cpu.status@, 0x01) { 1 } else { 0 };
            let after = handle_spec(cpu, bus, d).0;
            let exact: int = if d.opcode is ADC { a + v + c } else { a - v - (1 - c) };
            let signed: int = if d.opcode is ADC {
                twos_complement(a) + twos_complement(v) + c
            } else {
                twos_complement(a) - twos_complement(v) - (1 - c)
            };
            &&& after.a as int == exact % 256
            &&& has(after.status@, 0x01) == if d.opcode is ADC { exact >= 256 } else { exact >= 0 }
            &&& has(after.status@, 0x40) == !(-128 <= signed <= 127)
            &&& has(after.status@, 0x02) == (after.a == 0)
            &&& has(after.status@, 0x80) == (after.a >= 0x80)
            &&& handle_spec(cpu, bus, d).1 == bus
        }),
{
    let (c1, op) = fetch_spec(d.address_mode, cpu, bus);
    let v = operand_value(op, c1, bus);
    let a = cpu.a;
    let p = cpu.status@;
    let c = carry_of(p);
    if d.opcode is ADC {
        let sum = a + v + c;
        let bin = (sum % 256) as u8;
        lemma_arith_flags(p, sum >= 256, add_overflows(a, v, c), bin);
    } else {
        let b = 1 - c;
        let diff = a - v - b;
        let bin = (diff % 256) as u8;
        lemma_arith_flags(p, diff >= 0, sub_overflows(a, v, b), bin);
    }
}

/// AND, ORA and EOR act bit by bit on the accumulator: a bit of the result of AND is set when it
/// is set in both the accumulator and the operand, of ORA when it is set in either, of EOR when it
/// is set in exactly one. Negative and zero follow the result, and the bus is not written.
pub proof fn lemma_logic_bitwise<B: Bus>(cpu: CPU, bus: B, d: Decoded, i: u8)
    requires
        d.opcode is AND || d.opcode is ORA || d.opcode is EOR,
        i < 8,
    ensures
        ({
            let v = operand_value(fetch_spec(d.address_mode, cpu, bus).1,
                fetch_spec(d.address_mode, cpu, bus).0, bus);
            let a = cpu.a;
            let after = handle_spec(cpu, bus, d).0;
            let bit = |x: u8| (x >> i) & 1 == 1;
            &&& bit(after.a) == if d.opcode is AND {
                bit(a) && bit(v)
            } else if d.opcode is ORA {
                bit(a) || bit(v)
            } else {
                bit(a) != bit(v)
            }
            &&& has(after.status@, 0x02) == (after.a == 0)
            &&& has(after.status@, 0x80) == (after.a >= 0x80)
            &&& handle_spec(cpu, bus, d).1 == bus
        }),
{
    let (c1, op) = fetch_spec(d.address_mode, cpu, bus);
    let v = operand_value(op, c1, bus);
    let a = cpu.a;
    let p = cpu.status@;
    assert((((a & v) >> i) & 1 == 1 <==> ((a >> i) & 1 == 1 && (v >> i) & 1 == 1)) && (((a | v)
        >> i) & 1 == 1 <==> ((a >> i) & 1 == 1 || (v >> i) & 1 == 1)) && (((a ^ v) >> i) & 1 == 1
        <==> ((a >> i) & 1 == 1 != ((v >> i) & 1 == 1)))) by (bit_vector);
    let res = if d.opcode is AND { a & v } else if d.opcode is ORA { a | v } else { a ^ v };
    let q = nz(p, res);
    let n = res >= 0x80;
    let z = res == 0;
    let p3: u8 = if n { p | 0x80 } else { p & !0x80u8 };
    assert((q & 0x02 != 0) == z && (q & 0x80 != 0) == n) by (bit_vector)
        requires
            p3 == if n { p | 0x80 } else { p & !0x80u8 },
            q == if z { p3 | 0x02 } else { p3 & !0x02u8 },
    ;
}

/// CMP, CPX and CPY compare a register with the operand as unsigned bytes: carry is set exactly
/// when the register is not below the operand, zero exactly when they are equal, negative from
/// the top bit of their difference modulo 256. No register and no byte of the bus changes.
pub proof fn lemma_compare<B: Bus>(cpu: CPU, bus: B, d: Decoded)
    requires
        d.opcode is CMP || d.opcode is CPX || d.opcode is CPY,
    ensures
        ({
            let (c1, op) = fetch_spec(d.address_mode, cpu, bus);
            let v = operand_value(op, c1, bus);
            let reg = if d.opcode is CMP { cpu.a } else if d.opcode is CPX { cpu.x } else { cpu.y };
            let after = handle_spec(cpu, bus, d).0;
            &&& has(after.status@, 0x01) == (reg >= v)
            &&& has(after.status@, 0x02) == (reg == v)
            &&& has(after.status@, 0x80) == ((reg - v) % 256 >= 0x80)
            &&& after.a == cpu.a && after.x == cpu.x && after.y == cpu.y && after.sp == cpu.sp
            &&& after.pc == c1.pc
            &&& handle_spec(cpu, bus, d).1 == bus
        }),
{
    let (c1, op) = fetch_spec(d.address_mode, cpu, bus);
    let v = operand_value(op, c1, bus);
    let reg = if d.opcode is CMP { cpu.a } else if d.opcode is CPX { cpu.x } else { cpu.y };
    let diff = ((reg - v) % 256) as u8;
    let p = cpu.status@;
    let p1 = with_bit(p, 0x01, reg >= v);
    let c = reg >= v;
    let n = diff >= 0x80;
    let z = diff == 0;
    let pc1: u8 = if c { p | 0x01 } else { p & !0x01u8 };
    let p3: u8 = if n { pc1 | 0x80 } else { pc1 & !0x80u8 };
    let q: u8 = if z { p3 | 0x02 } else { p3 & !0x02u8 };
    assert((q & 0x01 != 0) == c && (q & 0x02 != 0) == z && (q & 0x80 != 0) == n) by (bit_vector)
        requires
            pc1 == if c { p | 0x01 } else { p & !0x01u8 },
            p3 == if n { pc1 | 0x80 } else { pc1 & !0x80u8 },
            q == if z { p3 | 0x02 } else { p3 & !0x02u8 },
    ;
    assert(z == (reg == v));
}

/// In decimal mode ADC adds packed decimal bytes. Where the low digits and the carry sum to at
/// most 15 and the high digits to at most 15 (so that the binary sum keeps each digit sum in its
/// own nibble), the accumulator ends up holding the decimal sum modulo 100 as two decimal digits,
/// and carry is set exactly when the decimal sum reaches 100.
pub proof fn lemma_adc_decimal_sum<B: Bus>(cpu: CPU, bus: B, d: Decoded)
    requires
        has(cpu.status@, 0x08),
        ({
            let v = operand_value(fetch_spec(d.address_mode, cpu, bus).1,
                fetch_spec(d.address_mode, cpu, bus).0, bus);
            &&& is_bcd(cpu.a as int, 2) && is_bcd(v as int, 2)
            &&& cpu.a % 16 + v % 16 + carry_of(cpu.status@) <= 15
            &&& cpu.a / 16 + v / 16 <= 15
        }),
    ensures
        ({
            let v = operand_value(fetch_spec(d.address_mode, cpu, bus).1,
                fetch_spec(d.address_mode, cpu, bus).0, bus);
            let sum = bcd_value(cpu.a as int, 2) + bcd_value(v as int, 2) + carry_of(cpu.status@);
            let after = adc_spec(cpu, bus, d).0;
            &&& is_bcd(after.a as int, 2)
            &&& bcd_value(after.a as int, 2) == sum % 100
            &&& has(after.status@, 0x01) == (sum >= 100)
        }),
{
    reveal_with_fuel(is_bcd, 3);
    reveal_with_fuel(bcd_value, 3);
    let (c1, op) = fetch_spec(d.address_mode, cpu, bus);
    let v = operand_value(op, c1, bus);
    let a = cpu.a;
    let p = cpu.status@;
    let c = carry_of(p);
    lemma_adc_decimal_digits(a, v, c);
    let bin = ((a + v + c) % 256) as u8;
    let (res, carry) = adc_decimal(bin);
    lemma_adc_decimal_flags(p, add_overflows(a, v, c), bin, carry);
    assert(c1.a == a && c1.status == cpu.status);
    assert(bcd_value(res as int, 2) == res % 16 + 10 * (res / 16));
}

/// Subtract with carry: the accumulator minus the operand minus the borrow (the negated
/// carry). Carry is set when the unsigned difference does not go below zero, overflow when the
/// signed difference does not fit a byte; negative and zero follow the binary difference. In
/// decimal mode the difference is then adjusted digit by digit.
pub open spec fn sbc_spec<B: Bus>(cpu: CPU, bus: B, d: Decoded) -> (CPU, B, Instruction) {
    let (c1, op) = fetch_spec(d.address_mode, cpu, bus);
    let v = operand_value(op, c1, bus);
    let b = 1 - carry_of(c1.status@);
    let diff = c1.a - v - b;
    let bin = (diff % 256) as u8;
    let p1 = with_bit(c1.status@, 0x01, diff >= 0);
    let p2 = nz(with_bit(p1, 0x40, sub_overflows(c1.a, v, b)), bin);
    if has(p2, 0x08) {
        let (res, borrow) = sbc_decimal(bin);
        let p3 = if borrow { p2 & !0x01u8 } else { p2 };
        (with_status(CPU { a: res, ..c1 }, p3), bus, inst_of(d, op))
    } else {
        (with_status(CPU { a: bin, ..c1 }, p2), bus, inst_of(d, op))
    }
}

/// The decimal adjustment of a binary difference of two packed decimal bytes whose low digit
/// needs no borrow, and whose high digits differ by no less than -6, gives the decimal difference
/// modulo 100, and borrows exactly when that difference is below zero.
#[verifier::spinoff_prover]
#[verifier::rlimit(100)]
proof fn lemma_sbc_decimal_digits(a: u8, v: u8, b: int)
    requires
        0 <= b <= 1,
        a % 16 <= 9 && a / 16 <= 9 && v % 16 <= 9 && v / 16 <= 9,
        a % 16 - v % 16 - b >= 0,
        a / 16 - v / 16 >= -6,
    ensures
        ({
            let (res, borrow) = sbc_decimal(((a - v - b) % 256) as u8);
            let diff = a % 16 + 10 * (a / 16) - (v % 16 + 10 * (v / 16)) - b;
            &&& res % 16 <= 9 && res / 16 <= 9
            &&& res % 16 + 10 * (res / 16) == diff % 100
            &&& borrow == (diff < 0)
            &&& (diff < 0) == (a - v - b < 0)
        }),
{
    let la: int = a as int % 16;
    let ha: int = a as int / 16;
    let lv: int = v as int % 16;
    let hv: int = v as int / 16;
    let lo: int = la - lv - b;
    let hi: int = ha - hv;
    lemma_fundamental_div_mod(a as int, 16);
    lemma_fundamental_div_mod(v as int, 16);
    assert(a - v - b == hi * 16 + lo);
    let bin = ((a - v - b) % 256) as u8;
    let diff = la + 10 * ha - (lv + 10 * hv) - b;
    let (res, borrow) = sbc_decimal(bin);
    if hi >= 0 {
        assert(bin as int == hi * 16 + lo);
        lemma_fundamental_div_mod_converse(bin as int, 16, hi, lo);
        assert(res as int == hi * 16 + lo);
        lemma_fundamental_div_mod_converse(res as int, 16, hi, lo);
    } else {
        assert(bin as int == (hi + 16) * 16 + lo);
        lemma_fundamental_div_mod_converse(bin as int, 16, hi + 16, lo);
        assert(res as int == (hi + 10) * 16 + lo);
        lemma_fundamental_div_mod_converse(res as int, 16, hi + 10, lo);
        assert(diff + 100 == (hi + 10) * 10 + lo);
    }
}

/// In decimal mode SBC subtracts packed decimal bytes. Where the low digit needs no borrow and
/// the high digit of the accumulator is at most 6 below that of the operand, the accumulator ends
/// up holding the decimal difference modulo 100 as two decimal digits, and carry is set exactly
/// when nothing was borrowed, that is when the difference is not below zero.
pub proof fn lemma_sbc_decimal_difference<B: Bus>(cpu: CPU, bus: B, d: Decoded)
    requires
        has(cpu.status@, 0x08),
        ({
            let v = operand_value(fetch_spec(d.address_mode, cpu, bus).1,
                fetch_spec(d.address_mode, cpu, bus).0, bus);
            &&& is_bcd(cpu.a as int, 2) && is_bcd(v as int, 2)
            &&& cpu.a % 16 - v % 16 - (1 - carry_of(cpu.status@)) >= 0
            &&& cpu.a / 16 - v / 16 >= -6
        }),
    ensures
        ({
            let v = operand_value(fetch_spec(d.address_mode, cpu, bus).1,
                fetch_spec(d.address_mode, cpu, bus).0, bus);
            let diff = bcd_value(cpu.a as int, 2) - bcd_value(v as int, 2) - (1 - carry_of(
                cpu.status@,
            ));
            let after = sbc_spec(cpu, bus, d).0;
            &&& is_bcd(after.a as int, 2)
            &&& bcd_value(after.a as int, 2) == diff % 100
            &&& has(after.status@, 0x01) == (diff >= 0)
        }),
{
    reveal_with_fuel(is_bcd, 3);
    reveal_with_fuel(bcd_value, 3);
    let (c1, op) = fetch_spec(d.address_mode, cpu, bus);
    let v = operand_value(op, c1, bus);
    let a = cpu.a;
    let p = cpu.status@;
    let b = 1 - carry_of(p);
    lemma_sbc_decimal_digits(a, v, b);
    let diff = a - v - b;
    let bin = (diff % 256) as u8;
    let (res, borrow) = sbc_decimal(bin);
    let p1 = with_bit(p, 0x01, diff >= 0);
    let p2 = nz(with_bit(p1, 0x40, sub_overflows(a, v, b)), bin);
    lemma_arith_flags(p, diff >= 0, sub_overflows(a, v, b), bin);
    let p3 = if borrow { p2 & !0x01u8 } else { p2 };
    assert(has(p3, 0x01) == (has(p2, 0x01) && !borrow)) by {
        assert((p2 & !0x01u8) & 0x01 == 0) by (bit_vector);
    }
    assert(c1.a == a && c1.status == cpu.status);
    assert(bcd_value(res as int, 2) == res % 16 + 10 * (res / 16));
}

/// Whether a subtraction in decimal mode stays within what its digit adjustment handles: a
/// low digit above 9 needs a high digit to borrow from.
pub open spec fn sbc_ok<B: Bus>(cpu: CPU, bus: B, d: Decoded) -> bool {
    let (c1, op) = fetch_spec(d.address_mode, cpu, bus);
    let v = operand_value(op, c1, bus);
    let bin = ((c1.a - v - (1 - carry_of(c1.status@))) % 256) as u8;
    has(c1.status@, 0x08) && bin % 16 > 9 ==> bin / 16 > 0
}

/// A shift or rotation of one byte.
#[derive(Debug, Copy, Clone, PartialEq, Eq, Structural)]
pub enum Shift {
    Asl,
    Lsr,
    Rol,
    Ror,
}

/// The shifted byte, given the carry flag before the shift.
pub open spec fn shift_result(s: Shift, v: u8, c: int) -> u8 {
    match s {
        Shift::Asl => ((v * 2) % 256) as u8,
        Shift::Lsr => (v / 2) as u8,
        Shift::Rol => ((v * 2) % 256 + c) as u8,
        Shift::Ror => (v / 2 + 128 * c) as u8,
    }
}

/// The bit that a shift moves out into the carry.
pub open spec fn shift_carry(s: Shift, v: u8) -> bool {
    match s {
        Shift::Asl | Shift::Rol => v >= 128,
        Shift::Lsr | Shift::Ror => v % 2 == 1,
    }
}

/// The operand shifted or rotated in place (ASL, LSR, ROL, ROR): carry takes the bit moved
/// out, negative and zero follow the result.
pub open spec fn shift_spec<B: Bus>(cpu: CPU, bus: B, d: Decoded, s: Shift) -> (CPU, B, Instruction) {
    let (c1, op) = fetch_spec(d.address_mode, cpu, bus);
    let v = operand_value(op, c1, bus);
    let res = shift_result(s, v, carry_of(c1.status@));
    let c2 = with_status(c1, nz(with_bit(c1.status@, 0x01, shift_carry(s, v)), res));
    let (c3, b3) = operand_store(op, c2, bus, res);
    (c3, b3, inst_of(d, op))
}

/// The operand incremented or decremented in place (INC, DEC).
pub open spec fn step_mem_spec<B: Bus>(cpu: CPU, bus: B, d: Decoded, up: bool) -> (CPU, B, Instruction) {
    let (c1, op) = fetch_spec(d.address_mode, cpu, bus);
    let v = operand_value(op, c1, bus);
    let res = if up { ((v + 1) % 256) as u8 } else { ((v - 1) % 256) as u8 };
    let c2 = with_status(c1, nz(c1.status@, res));
    let (c3, b3) = operand_store(op, c2, bus, res);
    (c3, b3, inst_of(d, op))
}

/// A register incremented or decremented (INX, INY, DEX, DEY).
pub open spec fn step_reg_spec<B: Bus>(cpu: CPU, bus: B, d: Decoded, r: Reg, up: bool) -> (CPU, B, Instruction) {
    let v = reg_value(cpu, r);
    let res = if up { ((v + 1) % 256) as u8 } else { ((v - 1) % 256) as u8 };
    (with_status(with_reg(cpu, r, res), nz(cpu.status@, res)), bus, inst_of(d, Operand::Implied))
}

/// A relative branch taken when the flag of `mask` is set (or clear, when `set` is false).
/// A taken branch costs one more cycle, two when it lands on another page.
pub open spec fn branch_spec<B: Bus>(cpu: CPU, bus: B, d: Decoded, mask: u8, set: bool) -> (CPU, B, Instruction) {
    let (c1, op) = fetch_spec(d.address_mode, cpu, bus);
    if has(c1.status@, mask) == set {
        let target = operand_addr(op, c1, bus);
        let extra: usize = if c1.pc / 256 != target / 256 { 2 } else { 1 };
        (
            CPU { pc: target, ..c1 },
            bus,
            Instruction { opcode: d.opcode, operand: op, cycles: (d.cycles + extra) as usize },
        )
    } else {
        (c1, bus, inst_of(d, op))
    }
}

/// Tests the operand against the accumulator (BIT): negative and overflow take bits 7 and 6
/// of the operand, zero tells whether the operand and the accumulator share no bit.
pub open spec fn bit_spec<B: Bus>(cpu: CPU, bus: B, d: Decoded) -> (CPU, B, Instruction) {
    let (c1, op) = fetch_spec(d.address_mode, cpu, bus);
    let v = operand_value(op, c1, bus);
    let p1 = with_bit(c1.status@, 0x80, v >= 0x80);
    let p2 = with_bit(p1, 0x40, (v / 64) % 2 == 1);
    let p3 = with_bit(p2, 0x02, c1.a & v == 0);
    (with_status(c1, p3), bus, inst_of(d, op))
}

/// Software interrupt (BRK): skips the signature byte, pushes the return address and the
/// status with the break and unused bits set, disables interrupts and jumps through the
/// interrupt vector.
pub open spec fn brk_spec<B: Bus>(cpu: CPU, bus: B, d: Decoded) -> (CPU, B, Instruction) {
    let c1 = CPU { pc: (cpu.pc + 1) as u16, ..cpu };
    let (c2, b2) = pushed_word(c1, bus, c1.pc);
    let (c3, b3) = pushed_byte(c2, b2, c2.status@ | 0x10 | 0x20);
    let c4 = with_status(c3, c3.status@ | 0x04);
    (CPU { pc: word_at(b3, VECTOR_IRQ), ..c4 }, b3, inst_of(d, Operand::Implied))
}

/// Sets or clears one flag (CLC, CLD, CLI, CLV, SEC, SED, SEI).
pub open spec fn flag_spec<B: Bus>(cpu: CPU, bus: B, d: Decoded, mask: u8, on: bool) -> (CPU, B, Instruction) {
    (with_status(cpu, with_bit(cpu.status@, mask, on)), bus, inst_of(d, Operand::Implied))
}

/// Jumps to the operand address; through an indirect operand the pointer's high byte is read
/// within the pointer's page.
pub open spec fn jmp_spec<B: Bus>(cpu: CPU, bus: B, d: Decoded) -> (CPU, B, Instruction) {
    let (c1, op) = fetch_spec(d.address_mode, cpu, bus);
    let target = match op {
        Operand::Indirect(a) => word(bus.byte_at(a), bus.byte_at(next_in_page(a))),
        Operand::Absolute(a) => a,
        _ => c1.pc,
    };
    (CPU { pc: target, ..c1 }, bus, inst_of(d, op))
}

/// Calls a subroutine (JSR): pushes the address of the last byte of the instruction and
/// jumps.
pub open spec fn jsr_spec<B: Bus>(cpu: CPU, bus: B, d: Decoded) -> (CPU, B, Instruction) {
    let (c1, op) = fetch_spec(d.address_mode, cpu, bus);
    match op {
        Operand::Absolute(a) => {
            let (c2, b2) = pushed_word(c1, bus, (c1.pc - 1) as u16);
            (CPU { pc: a, ..c2 }, b2, inst_of(d, op))
        },
        _ => (c1, bus, inst_of(d, op)),
    }
}

/// The status byte as restored from the stack: the break and unused bits do not live in the
/// register.
pub open spec fn restored_status(v: u8) -> u8 {
    with_bit(with_bit(v, 0x10, false), 0x20, false)
}

/// What each operation does to the CPU and the bus, once the opcode has been fetched.
pub open spec fn handle_spec<B: Bus>(cpu: CPU, bus: B, d: Decoded) -> (CPU, B, Instruction) {
    let implied = inst_of(d, Operand::Implied);
    match d.opcode {
        Opcode::ADC => adc_spec(cpu, bus, d),
        Opcode::AND => logic_spec(cpu, bus, d, Logic::And),
        Opcode::ASL => shift_spec(cpu, bus, d, Shift::Asl),
        Opcode::BCC => branch_spec(cpu, bus, d, 0x01, false),
        Opcode::BCS => branch_spec(cpu, bus, d, 0x01, true),
        Opcode::BEQ => branch_spec(cpu, bus, d, 0x02, true),
        Opcode::BIT => bit_spec(cpu, bus, d),
        Opcode::BMI => branch_spec(cpu, bus, d, 0x80, true),
        Opcode::BNE => branch_spec(cpu, bus, d, 0x02, false),
        Opcode::BPL => branch_spec(cpu, bus, d, 0x80, false),
        Opcode::BRK => brk_spec(cpu, bus, d),
        Opcode::BVC => branch_spec(cpu, bus, d, 0x40, false),
        Opcode::BVS => branch_spec(cpu, bus, d, 0x40, true),
        Opcode::CLC => flag_spec(cpu, bus, d, 0x01, false),
        Opcode::CLD => flag_spec(cpu, bus, d, 0x08, false),
        Opcode::CLI => flag_spec(cpu, bus, d, 0x04, false),
        Opcode::CLV => flag_spec(cpu, bus, d, 0x40, false),
        Opcode::CMP => compare_spec(cpu, bus, d, Reg::A),
        Opcode::CPX => compare_spec(cpu, bus, d, Reg::X),
        Opcode::CPY => compare_spec(cpu, bus, d, Reg::Y),
        Opcode::DEC => step_mem_spec(cpu, bus, d, false),
        Opcode::DEX => step_reg_spec(cpu, bus, d, Reg::X, false),
        Opcode::DEY => step_reg_spec(cpu, bus, d, Reg::Y, false),
        Opcode::EOR => logic_spec(cpu, bus, d, Logic::Xor),
        Opcode::INC => step_mem_spec(cpu, bus, d, true),
        Opcode::INX => step_reg_spec(cpu, bus, d, Reg::X, true),
        Opcode::INY => step_reg_spec(cpu, bus, d, Reg::Y, true),
        Opcode::JMP => jmp_spec(cpu, bus, d),
        Opcode::JSR => jsr_spec(cpu, bus, d),
        Opcode::LDA => load_spec(cpu, bus, d, Reg::A),
        Opcode::LDX => load_spec(cpu, bus, d, Reg::X),
        Opcode::LDY => load_spec(cpu, bus, d, Reg::Y),
        Opcode::LSR => shift_spec(cpu, bus, d, Shift::Lsr),
        Opcode::NOP => (cpu, bus, implied),
        Opcode::ORA => logic_spec(cpu, bus, d, Logic::Or),
        Opcode::PHA => {
            let (c1, b1) = pushed_byte(cpu, bus, cpu.a);
            (c1, b1, implied)
        },
        Opcode::PHP => {
            let (c1, b1) = pushed_byte(cpu, bus, cpu.status@ | 0x10 | 0x20);
            (c1, b1, implied)
        },
        Opcode::PLA => {
            let v = popped_byte(cpu, bus);
            (with_status(CPU { a: v, sp: sp_up(cpu.sp, 1), ..cpu }, nz(cpu.status@, v)), bus, implied)
        },
        Opcode::PLP => {
            let v = popped_byte(cpu, bus);
            (with_status(CPU { sp: sp_up(cpu.sp, 1), ..cpu }, restored_status(v)), bus, implied)
        },
        Opcode::ROL => shift_spec(cpu, bus, d, Shift::Rol),
        Opcode::ROR => shift_spec(cpu, bus, d, Shift::Ror),
        Opcode::RTI => {
            let v = popped_byte(cpu, bus);
            let c1 = with_status(CPU { sp: sp_up(cpu.sp, 1), ..cpu }, restored_status(v));
            let ret = popped_word(c1, bus);
            (
                CPU { pc: ((ret + 1) % 0x10000) as u16, sp: sp_up(c1.sp, 2), ..c1 },
                bus,
                Instruction { opcode: d.opcode, operand: Operand::Implied, cycles: 6 },
            )
        },
        Opcode::RTS => {
            let ret = popped_word(cpu, bus);
            (
                CPU { pc: ((ret + 1) % 0x10000) as u16, sp: sp_up(cpu.sp, 2), ..cpu },
                bus,
                Instruction { opcode: d.opcode, operand: Operand::Implied, cycles: 6 },
            )
        },
        Opcode::SBC => sbc_spec(cpu, bus, d),
        Opcode::SEC => flag_spec(cpu, bus, d, 0x01, true),
        Opcode::SED => flag_spec(cpu, bus, d, 0x08, true),
        Opcode::SEI => flag_spec(cpu, bus, d, 0x04, true),
        Opcode::STA | Opcode::STX | Opcode::STY => {
            let (c1, op) = fetch_spec(d.address_mode, cpu, bus);
            let v = match d.opcode {
                Opcode::STA => c1.a,
                Opcode::STX => c1.x,
                _ => c1.y,
            };
            let (c2, b2) = operand_store(op, c1, bus, v);
            (c2, b2, inst_of(d, op))
        },
        Opcode::TAX => (with_status(CPU { x: cpu.a, ..cpu }, nz(cpu.status@, cpu.a)), bus, implied),
        Opcode::TAY => (with_status(CPU { y: cpu.a, ..cpu }, nz(cpu.status@, cpu.a)), bus, implied),
        Opcode::TSX => (with_status(CPU { x: cpu.sp, ..cpu }, nz(cpu.status@, cpu.sp)), bus, implied),
        Opcode::TXA => (with_status(CPU { a: cpu.x, ..cpu }, nz(cpu.status@, cpu.x)), bus, implied),
        Opcode::TXS => (CPU { sp: cpu.x, ..cpu }, bus, implied),
        Opcode::TYA => (with_status(CPU { a: cpu.y, ..cpu }, nz(cpu.status@, cpu.y)), bus, implied),
    }
}

/// Whether executing a decoded operation, its opcode already fetched, stays within what the
/// CPU handles: the operand fits before the end of memory, BRK can skip its signature byte,
/// and a decimal subtraction has a digit to borrow from.
pub open spec fn exec_ok<B: Bus>(cpu: CPU, bus: B, d: Decoded) -> bool {
    &&& cpu.pc + mode_len(d.address_mode) <= 0xFFFF
    &&& d.opcode is BRK ==> cpu.pc < 0xFFFF
    &&& d.opcode is SBC ==> sbc_ok(cpu, bus, d)
}

/// Whether the instruction at the program counter can be executed: its opcode is one of the
/// instruction set and it stays within what the CPU handles.
pub open spec fn can_exec<B: Bus>(cpu: CPU, bus: B) -> bool {
    &&& cpu.pc < 0xFFFF
    &&& decode_spec(cpu, bus).1 matches Some(d) && exec_ok(decode_spec(cpu, bus).0, bus, d)
}

/// What the execution of the instruction at the program counter does.
pub open spec fn exec_spec<B: Bus>(cpu: CPU, bus: B) -> (CPU, B, Instruction) {
    let (c1, decoded) = decode_spec(cpu, bus);
    match decoded {
        Some(d) => handle_spec(c1, bus, d),
        None => (cpu, bus, Instruction { opcode: Opcode::NOP, operand: Operand::Implied, cycles: 0 }),
    }
}

/// Sets the negative and zero flags from a result.
fn update_nz(status: &mut Status, v: u8)
    ensures
        final(status)@ == nz(old(status)@, v),
{
    proof {
        lemma_byte_bits(v);
    }
    status.set(Flags::NEGATIVE, v & 0x80 != 0);
    status.set(Flags::ZERO, v == 0);
}

/// The carry flag as a number.
fn carry_in(status: &Status) -> (r: u8)
    ensures
        r == carry_of(status@),
{
    if status.contains(Flags::CARRY) {
        1
    } else {
        0
    }
}

/// The sign-bit test of an addition detects signed overflow.
proof fn lemma_add_overflow(a: u8, v: u8, c: u8, r: u8)
    requires
        c <= 1,
        r == ((a + v + c) % 256) as u8,
    ensures
        ((a ^ r) & (v ^ r) & 0x80 != 0) == add_overflows(a, v, c as int),
{
    assert(((a ^ r) & (v ^ r) & 0x80 != 0) == ((a >= 128) == (v >= 128) && (r >= 128) != (a
        >= 128))) by (bit_vector);
}

/// The sign-bit test of a subtraction detects signed overflow.
proof fn lemma_sub_overflow(a: u8, v: u8, b: u8, r: u8)
    requires
        b <= 1,
        r == ((a - v - b) % 256) as u8,
    ensures
        ((a ^ v) & (a ^ r) & 0x80 != 0) == sub_overflows(a, v, b as int),
{
    assert(((a ^ v) & (a ^ r) & 0x80 != 0) == ((a >= 128) != (v >= 128) && (r >= 128) != (a
        >= 128))) by (bit_vector);
}

/// Nibbles of a byte.
proof fn lemma_nibbles(b: u8)
    ensures
        b & 0x0F == b % 16,
        b >> 4 == b / 16,
{
    lemma_byte_bits(b);
}

/// Joining two nibbles, each taken modulo 16.
proof fn lemma_join_nibbles(hi: u8, lo: u8)
    ensures
        ((hi & 0x0F) << 4) | (lo & 0x0F) == ((hi % 16) * 16 + lo % 16) as u8,
{
    assert(((hi & 0x0F) << 4) | (lo & 0x0F) == ((hi % 16) * 16 + lo % 16) as u8) by (bit_vector);
}

/// The decimal adjustment of a binary sum: each digit above 9 is brought back into range and
/// carries into the next one.
fn adc_adjust(binary_result: u8) -> (r: (u8, bool))
    ensures
        r == adc_decimal(binary_result),
{
    proof {
        lemma_nibbles(binary_result);
    }
    let mut al = binary_result & 0x0F;
    let mut ah = binary_result >> 4;
    let mut carry = false;

    if al > 9 {
        al += 6;
        ah += 1;
    }

    if ah > 9 {
        ah += 6;
        carry = true;
    }

    proof {
        lemma_join_nibbles(ah, al);
    }
    (((ah & 0x0F) << 4) | (al & 0x0F), carry)
}

/// The decimal adjustment of a binary difference: each digit above 9 is brought back into
/// range and borrows from the next one.
fn sbc_adjust(binary_result: u8) -> (r: (u8, bool))
    requires
        binary_result % 16 > 9 ==> binary_result / 16 > 0,
    ensures
        r == sbc_decimal(binary_result),
{
    proof {
        lemma_nibbles(binary_result);
    }
    let mut al = binary_result & 0x0F;
    let mut ah = binary_result >> 4;
    let mut borrow = false;

    if al > 9 {
        al -= 6;
        ah -= 1;
    }

    if ah > 9 {
        ah -= 6;
        borrow = true;
    }

    proof {
        lemma_join_nibbles(ah, al);
    }
    (((ah & 0x0F) << 4) | (al & 0x0F), borrow)
}

/// Setting or clearing the carry, zero, overflow or negative flag leaves the decimal flag as
/// it was.
proof fn lemma_keeps_decimal(p: u8, mask: u8, on: bool)
    requires
        mask == 0x01 || mask == 0x02 || mask == 0x40 || mask == 0x80,
    ensures
        with_bit(p, mask, on) & 0x08 == p & 0x08,
{
    assert((p | mask) & 0x08 == p & 0x08) by (bit_vector)
        requires
            mask == 0x01 || mask == 0x02 || mask == 0x40 || mask == 0x80,
    ;
    assert((p & !mask) & 0x08 == p & 0x08) by (bit_vector)
        requires
            mask == 0x01 || mask == 0x02 || mask == 0x40 || mask == 0x80,
    ;
}

/// Add with carry (ADC).
fn handle_adc<B: Bus>(cpu: &mut CPU, bus: &mut B, inst: &Decoded) -> (r: Instruction)
    requires
        old(cpu).pc + mode_len(inst.address_mode) <= 0xFFFF,
        !(inst.address_mode is Implied) && !(inst.address_mode is Relative),
    ensures
        (*final(cpu), *final(bus), r) == adc_spec(*old(cpu), *old(bus), *inst),
{
    let operand = inst.address_mode.fetch(cpu, bus);
    let value = operand.read(cpu, bus);
    let carry = carry_in(&cpu.status);

    // First do binary addition
    let binary_result = cpu.a.wrapping_add(value).wrapping_add(carry);
    let a = cpu.a;
    proof {
        lemma_add_overflow(a, value, carry, binary_result);
        assert(binary_result == ((a + value + carry) % 256) as u8);
    }
    let carry_out = binary_result < a || (binary_result == a && carry == 1);
    assert(carry_out == (a + value + carry >= 256));

    // Calculate flags based on binary result
    cpu.status.set(Flags::CARRY, carry_out);
    cpu.status.set(Flags::OVERFLOW, (a ^ binary_result) & (value ^ binary_result) & 0x80 != 0);
    update_nz(&mut cpu.status, binary_result);

    // If in BCD mode, adjust the result
    let result = if cpu.status.contains(Flags::DECIMAL) {
        let (adjusted, decimal_carry) = adc_adjust(binary_result);
        if decimal_carry {
            cpu.status.insert(Flags::CARRY);
        }
        adjusted
    } else {
        binary_result
    };

    cpu.a = result;

    Instruction { opcode: inst.opcode, operand, cycles: inst.cycles }
}

/// Subtract with carry (SBC).
#[verifier::spinoff_prover]
#[verifier::rlimit(40)]
fn handle_sbc<B: Bus>(cpu: &mut CPU, bus: &mut B, inst: &Decoded) -> (r: Instruction)
    requires
        old(cpu).pc + mode_len(inst.address_mode) <= 0xFFFF,
        !(inst.address_mode is Implied) && !(inst.address_mode is Relative),
        sbc_ok(*old(cpu), *old(bus), *inst),
    ensures
        (*final(cpu), *final(bus), r) == sbc_spec(*old(cpu), *old(bus), *inst),
{
    let operand = inst.address_mode.fetch(cpu, bus);
    let value = operand.read(cpu, bus);
    let carry = carry_in(&cpu.status);
    let ghost before = cpu.status@;

    // First do binary subtraction
    let binary_result = cpu.a.wrapping_sub(value).wrapping_sub(1 - carry);
    let a = cpu.a;
    proof {
        lemma_sub_overflow(a, value, (1 - carry) as u8, binary_result);
        assert(binary_result == ((a - value - (1 - carry)) % 256) as u8);
    }
    let carry_out = a >= value && (a > value || carry == 1);
    assert(carry_out == (a - value - (1 - carry) >= 0));

    // Calculate flags based on binary result
    cpu.status.set(Flags::CARRY, carry_out);
    cpu.status.set(Flags::OVERFLOW, (a ^ value) & (a ^ binary_result) & 0x80 != 0);
    update_nz(&mut cpu.status, binary_result);
    proof {
        let p1 = with_bit(before, 0x01, carry_out);
        let p2 = with_bit(p1, 0x40, sub_overflows(a, value, (1 - carry) as int));
        let p3 = with_bit(p2, 0x80, binary_result >= 0x80);
        lemma_keeps_decimal(before, 0x01, carry_out);
        lemma_keeps_decimal(p1, 0x40, sub_overflows(a, value, (1 - carry) as int));
        lemma_keeps_decimal(p2, 0x80, binary_result >= 0x80);
        lemma_keeps_decimal(p3, 0x02, binary_result == 0);
    }

    // If in BCD mode, adjust the result
    let result = if cpu.status.contains(Flags::DECIMAL) {
        let (adjusted, decimal_borrow) = sbc_adjust(binary_result);
        if decimal_borrow {
            cpu.status.remove(Flags::CARRY);
        }
        adjusted
    } else {
        binary_result
    };

    cpu.a = result;

    Instruction { opcode: inst.opcode, operand, cycles: inst.cycles }
}

/// Bitwise And of the accumulator with the operand (AND).
fn handle_and<B: Bus>(cpu: &mut CPU, bus: &mut B, inst: &Decoded) -> (r: Instruction)
    requires
        old(cpu).pc + mode_len(inst.address_mode) <= 0xFFFF,
        !(inst.address_mode is Implied) && !(inst.address_mode is Relative),
    ensures
        (*final(cpu), *final(bus), r) == logic_spec(*old(cpu), *old(bus), *inst, Logic::And),
{
    let operand = inst.address_mode.fetch(cpu, bus);
    let value = operand.read(cpu, bus);
    cpu.a = cpu.a & value;
    update_nz(&mut cpu.status, cpu.a);

    Instruction { opcode: inst.opcode, operand, cycles: inst.cycles }
}

/// Bitwise Xor of the accumulator with the operand (EOR).
fn handle_eor<B: Bus>(cpu: &mut CPU, bus: &mut B, inst: &Decoded) -> (r: Instruction)
    requires
        old(cpu).pc + mode_len(inst.address_mode) <= 0xFFFF,
        !(inst.address_mode is Implied) && !(inst.address_mode is Relative),
    ensures
        (*final(cpu), *final(bus), r) == logic_spec(*old(cpu), *old(bus), *inst, Logic::Xor),
{
    let operand = inst.address_mode.fetch(cpu, bus);
    let value = operand.read(cpu, bus);
    cpu.a = cpu.a ^ value;
    update_nz(&mut cpu.status, cpu.a);

    Instruction { opcode: inst.opcode, operand, cycles: inst.cycles }
}

/// Bitwise Or of the accumulator with the operand (ORA).
fn handle_ora<B: Bus>(cpu: &mut CPU, bus: &mut B, inst: &Decoded) -> (r: Instruction)
    requires
        old(cpu).pc + mode_len(inst.address_mode) <= 0xFFFF,
        !(inst.address_mode is Implied) && !(inst.address_mode is Relative),
    ensures
        (*final(cpu), *final(bus), r) == logic_spec(*old(cpu), *old(bus), *inst, Logic::Or),
{
    let operand = inst.address_mode.fetch(cpu, bus);
    let value = operand.read(cpu, bus);
    cpu.a = cpu.a | value;
    update_nz(&mut cpu.status, cpu.a);

    Instruction { opcode: inst.opcode, operand, cycles: inst.cycles }
}

/// Load register A (LDA).
fn handle_lda<B: Bus>(cpu: &mut CPU, bus: &mut B, inst: &Decoded) -> (r: Instruction)
    requires
        old(cpu).pc + mode_len(inst.address_mode) <= 0xFFFF,
        !(inst.address_mode is Implied) && !(inst.address_mode is Relative),
    ensures
        (*final(cpu), *final(bus), r) == load_spec(*old(cpu), *old(bus), *inst, Reg::A),
{
    let operand = inst.address_mode.fetch(cpu, bus);
    let value = operand.read(cpu, bus);
    cpu.a = value;
    update_nz(&mut cpu.status, cpu.a);

    Instruction { opcode: inst.opcode, operand, cycles: inst.cycles }
}

/// Load register X (LDX).
fn handle_ldx<B: Bus>(cpu: &mut CPU, bus: &mut B, inst: &Decoded) -> (r: Instruction)
    requires
        old(cpu).pc + mode_len(inst.address_mode) <= 0xFFFF,
        !(inst.address_mode is Implied) && !(inst.address_mode is Relative),
    ensures
        (*final(cpu), *final(bus), r) == load_spec(*old(cpu), *old(bus), *inst, Reg::X),
{
    let operand = inst.address_mode.fetch(cpu, bus);
    let value = operand.read(cpu, bus);
    cpu.x = value;
    update_nz(&mut cpu.status, cpu.x);

    Instruction { opcode: inst.opcode, operand, cycles: inst.cycles }
}

/// Load register Y (LDY).
fn handle_ldy<B: Bus>(cpu: &mut CPU, bus: &mut B, inst: &Decoded) -> (r: Instruction)
    requires
        old(cpu).pc + mode_len(inst.address_mode) <= 0xFFFF,
        !(inst.address_mode is Implied) && !(inst.address_mode is Relative),
    ensures
        (*final(cpu), *final(bus), r) == load_spec(*old(cpu), *old(bus), *inst, Reg::Y),
{
    let operand = inst.address_mode.fetch(cpu, bus);
    let value = operand.read(cpu, bus);
    cpu.y = value;
    update_nz(&mut cpu.status, cpu.y);

    Instruction { opcode: inst.opcode, operand, cycles: inst.cycles }
}

/// Compare register A with the operand (CMP).
fn handle_cmp<B: Bus>(cpu: &mut CPU, bus: &mut B, inst: &Decoded) -> (r: Instruction)
    requires
        old(cpu).pc + mode_len(inst.address_mode) <= 0xFFFF,
        !(inst.address_mode is Implied) && !(inst.address_mode is Relative),
    ensures
        (*final(cpu), *final(bus), r) == compare_spec(*old(cpu), *old(bus), *inst, Reg::A),
{
    let operand = inst.address_mode.fetch(cpu, bus);
    let value = operand.read(cpu, bus);
    let result = cpu.a.wrapping_sub(value);

    cpu.status.set(Flags::CARRY, cpu.a >= value);
    update_nz(&mut cpu.status, result);

    Instruction { opcode: inst.opcode, operand, cycles: inst.cycles }
}

/// Compare register X with the operand (CPX).
fn handle_cpx<B: Bus>(cpu: &mut CPU, bus: &mut B, inst: &Decoded) -> (r: Instruction)
    requires
        old(cpu).pc + mode_len(inst.address_mode) <= 0xFFFF,
        !(inst.address_mode is Implied) && !(inst.address_mode is Relative),
    ensures
        (*final(cpu), *final(bus), r) == compare_spec(*old(cpu), *old(bus), *inst, Reg::X),
{
    let operand = inst.address_mode.fetch(cpu, bus);
    let value = operand.read(cpu, bus);
    let result = cpu.x.wrapping_sub(value);

    cpu.status.set(Flags::CARRY, cpu.x >= value);
    update_nz(&mut cpu.status, result);

    Instruction { opcode: inst.opcode, operand, cycles: inst.cycles }
}

/// Compare register Y with the operand (CPY).
fn handle_cpy<B: Bus>(cpu: &mut CPU, bus: &mut B, inst: &Decoded) -> (r: Instruction)
    requires
        old(cpu).pc + mode_len(inst.address_mode) <= 0xFFFF,
        !(inst.address_mode is Implied) && !(inst.address_mode is Relative),
    ensures
        (*final(cpu), *final(bus), r) == compare_spec(*old(cpu), *old(bus), *inst, Reg::Y),
{
    let operand = inst.address_mode.fetch(cpu, bus);
    let value = operand.read(cpu, bus);
    let result = cpu.y.wrapping_sub(value);

    cpu.status.set(Flags::CARRY, cpu.y >= value);
    update_nz(&mut cpu.status, result);

    Instruction { opcode: inst.opcode, operand, cycles: inst.cycles }
}

/// Shift or rotate the operand in place (ASL).
fn handle_asl<B: Bus>(cpu: &mut CPU, bus: &mut B, inst: &Decoded) -> (r: Instruction)
    requires
        old(cpu).pc + mode_len(inst.address_mode) <= 0xFFFF,
        !(inst.address_mode is Implied) && !(inst.address_mode is Relative) && !(inst.address_mode is Immediate),
    ensures
        (*final(cpu), *final(bus), r) == shift_spec(*old(cpu), *old(bus), *inst, Shift::Asl),
{
    let operand = inst.address_mode.fetch(cpu, bus);
    let value = operand.read(cpu, bus);
    let result = value << 1;
    proof {
        lemma_byte_bits(value);
    }

    cpu.status.set(Flags::CARRY, value & 0x80 != 0);
    update_nz(&mut cpu.status, result);

    match inst.address_mode {
        Mode::Accumulator => cpu.a = result,
        _ => operand.write(cpu, bus, result),
    }

    Instruction { opcode: inst.opcode, operand, cycles: inst.cycles }
}

/// Shift or rotate the operand in place (LSR).
fn handle_lsr<B: Bus>(cpu: &mut CPU, bus: &mut B, inst: &Decoded) -> (r: Instruction)
    requires
        old(cpu).pc + mode_len(inst.address_mode) <= 0xFFFF,
        !(inst.address_mode is Implied) && !(inst.address_mode is Relative) && !(inst.address_mode is Immediate),
    ensures
        (*final(cpu), *final(bus), r) == shift_spec(*old(cpu), *old(bus), *inst, Shift::Lsr),
{
    let operand = inst.address_mode.fetch(cpu, bus);
    let value = operand.read(cpu, bus);
    let result = value >> 1;
    proof {
        lemma_byte_bits(value);
    }

    cpu.status.set(Flags::CARRY, value & 0x01 != 0);
    update_nz(&mut cpu.status, result);

    match inst.address_mode {
        Mode::Accumulator => cpu.a = result,
        _ => operand.write(cpu, bus, result),
    }

    Instruction { opcode: inst.opcode, operand, cycles: inst.cycles }
}

/// Shift or rotate the operand in place (ROL).
fn handle_rol<B: Bus>(cpu: &mut CPU, bus: &mut B, inst: &Decoded) -> (r: Instruction)
    requires
        old(cpu).pc + mode_len(inst.address_mode) <= 0xFFFF,
        !(inst.address_mode is Implied) && !(inst.address_mode is Relative) && !(inst.address_mode is Immediate),
    ensures
        (*final(cpu), *final(bus), r) == shift_spec(*old(cpu), *old(bus), *inst, Shift::Rol),
{
    let operand = inst.address_mode.fetch(cpu, bus);
    let value = operand.read(cpu, bus);
    let carry = carry_in(&cpu.status);
    let result = (value << 1) | carry;
    assert(result == ((value * 2) % 256 + carry) as u8) by (bit_vector)
        requires
            result == (value << 1) | carry,
            carry <= 1,
    ;

    proof {
        lemma_byte_bits(value);
    }
    cpu.status.set(Flags::CARRY, value & 0x80 != 0);
    update_nz(&mut cpu.status, result);

    match inst.address_mode {
        Mode::Accumulator => cpu.a = result,
        _ => operand.write(cpu, bus, result),
    }

    Instruction { opcode: inst.opcode, operand, cycles: inst.cycles }
}

/// Shift or rotate the operand in place (ROR).
fn handle_ror<B: Bus>(cpu: &mut CPU, bus: &mut B, inst: &Decoded) -> (r: Instruction)
    requires
        old(cpu).pc + mode_len(inst.address_mode) <= 0xFFFF,
        !(inst.address_mode is Implied) && !(inst.address_mode is Relative) && !(inst.address_mode is Immediate),
    ensures
        (*final(cpu), *final(bus), r) == shift_spec(*old(cpu), *old(bus), *inst, Shift::Ror),
{
    let operand = inst.address_mode.fetch(cpu, bus);
    let value = operand.read(cpu, bus);
    let carry: u8 = if cpu.status.contains(Flags::CARRY) { 0x80 } else { 0 };
    let result = (value >> 1) | carry;
    assert(result == (value / 2 + carry) as u8) by (bit_vector)
        requires
            result == (value >> 1) | carry,
            carry == 0 || carry == 0x80,
    ;

    proof {
        lemma_byte_bits(value);
    }
    cpu.status.set(Flags::CARRY, value & 0x01 != 0);
    update_nz(&mut cpu.status, result);

    match inst.address_mode {
        Mode::Accumulator => cpu.a = result,
        _ => operand.write(cpu, bus, result),
    }

    Instruction { opcode: inst.opcode, operand, cycles: inst.cycles }
}

/// Increment the operand in place (INC).
fn handle_inc<B: Bus>(cpu: &mut CPU, bus: &mut B, inst: &Decoded) -> (r: Instruction)
    requires
        old(cpu).pc + mode_len(inst.address_mode) <= 0xFFFF,
        !(inst.address_mode is Implied) && !(inst.address_mode is Relative) && !(inst.address_mode is Immediate),
    ensures
        (*final(cpu), *final(bus), r) == step_mem_spec(*old(cpu), *old(bus), *inst, true),
{
    let operand = inst.address_mode.fetch(cpu, bus);
    let value = operand.read(cpu, bus);
    let result = value.wrapping_add(1);

    update_nz(&mut cpu.status, result);

    operand.write(cpu, bus, result);
    Instruction { opcode: inst.opcode, operand, cycles: inst.cycles }
}

/// Decrement the operand in place (DEC).
fn handle_dec<B: Bus>(cpu: &mut CPU, bus: &mut B, inst: &Decoded) -> (r: Instruction)
    requires
        old(cpu).pc + mode_len(inst.address_mode) <= 0xFFFF,
        !(inst.address_mode is Implied) && !(inst.address_mode is Relative) && !(inst.address_mode is Immediate),
    ensures
        (*final(cpu), *final(bus), r) == step_mem_spec(*old(cpu), *old(bus), *inst, false),
{
    let operand = inst.address_mode.fetch(cpu, bus);
    let value = operand.read(cpu, bus);
    let result = value.wrapping_sub(1);

    update_nz(&mut cpu.status, result);

    operand.write(cpu, bus, result);
    Instruction { opcode: inst.opcode, operand, cycles: inst.cycles }
}

/// Increment register X (INX).
fn handle_inx<B: Bus>(cpu: &mut CPU, bus: &mut B, inst: &Decoded) -> (r: Instruction)
    ensures
        (*final(cpu), *final(bus), r) == step_reg_spec(*old(cpu), *old(bus), *inst, Reg::X, true),
{
    cpu.x = cpu.x.wrapping_add(1);

    update_nz(&mut cpu.status, cpu.x);

    Instruction { opcode: inst.opcode, operand: Operand::Implied, cycles: inst.cycles }
}

/// Increment register Y (INY).
fn handle_iny<B: Bus>(cpu: &mut CPU, bus: &mut B, inst: &Decoded) -> (r: Instruction)
    ensures
        (*final(cpu), *final(bus), r) == step_reg_spec(*old(cpu), *old(bus), *inst, Reg::Y, true),
{
    cpu.y = cpu.y.wrapping_add(1);

    update_nz(&mut cpu.status, cpu.y);

    Instruction { opcode: inst.opcode, operand: Operand::Implied, cycles: inst.cycles }
}

/// Decrement register X (DEX).
fn handle_dex<B: Bus>(cpu: &mut CPU, bus: &mut B, inst: &Decoded) -> (r: Instruction)
    ensures
        (*final(cpu), *final(bus), r) == step_reg_spec(*old(cpu), *old(bus), *inst, Reg::X, false),
{
    cpu.x = cpu.x.wrapping_sub(1);

    update_nz(&mut cpu.status, cpu.x);

    Instruction { opcode: inst.opcode, operand: Operand::Implied, cycles: inst.cycles }
}

/// Decrement register Y (DEY).
fn handle_dey<B: Bus>(cpu: &mut CPU, bus: &mut B, inst: &Decoded) -> (r: Instruction)
    ensures
        (*final(cpu), *final(bus), r) == step_reg_spec(*old(cpu), *old(bus), *inst, Reg::Y, false),
{
    cpu.y = cpu.y.wrapping_sub(1);

    update_nz(&mut cpu.status, cpu.y);

    Instruction { opcode: inst.opcode, operand: Operand::Implied, cycles: inst.cycles }
}

/// Branch when carry is clear (BCC).
fn handle_bcc<B: Bus>(cpu: &mut CPU, bus: &mut B, inst: &Decoded) -> (r: Instruction)
    requires
        old(cpu).pc + mode_len(inst.address_mode) <= 0xFFFF,
        inst.address_mode is Relative,
        inst.cycles <= 7,
    ensures
        (*final(cpu), *final(bus), r) == branch_spec(*old(cpu), *old(bus), *inst, 0x01, false),
{
    let operand = inst.address_mode.fetch(cpu, bus);
    let mut cycles = inst.cycles;
    if !cpu.status.contains(Flags::CARRY) {
        if let Operand::Relative(addr) = operand {
            let old_pc = cpu.pc;
            cpu.pc = addr;
            proof {
                lemma_same_page(old_pc, addr);
            }
            cycles += if (old_pc & 0xFF00) != (cpu.pc & 0xFF00) { 2 } else { 1 };
        }
    }
    Instruction { opcode: inst.opcode, operand, cycles }
}

/// Branch when carry is set (BCS).
fn handle_bcs<B: Bus>(cpu: &mut CPU, bus: &mut B, inst: &Decoded) -> (r: Instruction)
    requires
        old(cpu).pc + mode_len(inst.address_mode) <= 0xFFFF,
        inst.address_mode is Relative,
        inst.cycles <= 7,
    ensures
        (*final(cpu), *final(bus), r) == branch_spec(*old(cpu), *old(bus), *inst, 0x01, true),
{
    let operand = inst.address_mode.fetch(cpu, bus);
    let mut cycles = inst.cycles;
    if cpu.status.contains(Flags::CARRY) {
        if let Operand::Relative(addr) = operand {
            let old_pc = cpu.pc;
            cpu.pc = addr;
            proof {
                lemma_same_page(old_pc, addr);
            }
            cycles += if (old_pc & 0xFF00) != (cpu.pc & 0xFF00) { 2 } else { 1 };
        }
    }
    Instruction { opcode: inst.opcode, operand, cycles }
}

/// Branch when zero is set (BEQ).
fn handle_beq<B: Bus>(cpu: &mut CPU, bus: &mut B, inst: &Decoded) -> (r: Instruction)
    requires
        old(cpu).pc + mode_len(inst.address_mode) <= 0xFFFF,
        inst.address_mode is Relative,
        inst.cycles <= 7,
    ensures
        (*final(cpu), *final(bus), r) == branch_spec(*old(cpu), *old(bus), *inst, 0x02, true),
{
    let operand = inst.address_mode.fetch(cpu, bus);
    let mut cycles = inst.cycles;
    if cpu.status.contains(Flags::ZERO) {
        if let Operand::Relative(addr) = operand {
            let old_pc = cpu.pc;
            cpu.pc = addr;
            proof {
                lemma_same_page(old_pc, addr);
            }
            cycles += if (old_pc & 0xFF00) != (cpu.pc & 0xFF00) { 2 } else { 1 };
        }
    }
    Instruction { opcode: inst.opcode, operand, cycles }
}

/// Branch when negative is set (BMI).
fn handle_bmi<B: Bus>(cpu: &mut CPU, bus: &mut B, inst: &Decoded) -> (r: Instruction)
    requires
        old(cpu).pc + mode_len(inst.address_mode) <= 0xFFFF,
        inst.address_mode is Relative,
        inst.cycles <= 7,
    ensures
        (*final(cpu), *final(bus), r) == branch_spec(*old(cpu), *old(bus), *inst, 0x80, true),
{
    let operand = inst.address_mode.fetch(cpu, bus);
    let mut cycles = inst.cycles;
    if cpu.status.contains(Flags::NEGATIVE) {
        if let Operand::Relative(addr) = operand {
            let old_pc = cpu.pc;
            cpu.pc = addr;
            proof {
                lemma_same_page(old_pc, addr);
            }
            cycles += if (old_pc & 0xFF00) != (cpu.pc & 0xFF00) { 2 } else { 1 };
        }
    }
    Instruction { opcode: inst.opcode, operand, cycles }
}

/// Branch when zero is clear (BNE).
fn handle_bne<B: Bus>(cpu: &mut CPU, bus: &mut B, inst: &Decoded) -> (r: Instruction)
    requires
        old(cpu).pc + mode_len(inst.address_mode) <= 0xFFFF,
        inst.address_mode is Relative,
        inst.cycles <= 7,
    ensures
        (*final(cpu), *final(bus), r) == branch_spec(*old(cpu), *old(bus), *inst, 0x02, false),
{
    let operand = inst.address_mode.fetch(cpu, bus);
    let mut cycles = inst.cycles;
    if !cpu.status.contains(Flags::ZERO) {
        if let Operand::Relative(addr) = operand {
            let old_pc = cpu.pc;
            cpu.pc = addr;
            proof {
                lemma_same_page(old_pc, addr);
            }
            cycles += if (old_pc & 0xFF00) != (cpu.pc & 0xFF00) { 2 } else { 1 };
        }
    }
    Instruction { opcode: inst.opcode, operand, cycles }
}

/// Branch when negative is clear (BPL).
fn handle_bpl<B: Bus>(cpu: &mut CPU, bus: &mut B, inst: &Decoded) -> (r: Instruction)
    requires
        old(cpu).pc + mode_len(inst.address_mode) <= 0xFFFF,
        inst.address_mode is Relative,
        inst.cycles <= 7,
    ensures
        (*final(cpu), *final(bus), r) == branch_spec(*old(cpu), *old(bus), *inst, 0x80, false),
{
    let operand = inst.address_mode.fetch(cpu, bus);
    let mut cycles = inst.cycles;
    if !cpu.status.contains(Flags::NEGATIVE) {
        if let Operand::Relative(addr) = operand {
            let old_pc = cpu.pc;
            cpu.pc = addr;
            proof {
                lemma_same_page(old_pc, addr);
            }
            cycles += if (old_pc & 0xFF00) != (cpu.pc & 0xFF00) { 2 } else { 1 };
        }
    }
    Instruction { opcode: inst.opcode, operand, cycles }
}

/// Branch when overflow is clear (BVC).
fn handle_bvc<B: Bus>(cpu: &mut CPU, bus: &mut B, inst: &Decoded) -> (r: Instruction)
    requires
        old(cpu).pc + mode_len(inst.address_mode) <= 0xFFFF,
        inst.address_mode is Relative,
        inst.cycles <= 7,
    ensures
        (*final(cpu), *final(bus), r) == branch_spec(*old(cpu), *old(bus), *inst, 0x40, false),
{
    let operand = inst.address_mode.fetch(cpu, bus);
    let mut cycles = inst.cycles;
    if !cpu.status.contains(Flags::OVERFLOW) {
        if let Operand::Relative(addr) = operand {
            let old_pc = cpu.pc;
            cpu.pc = addr;
            proof {
                lemma_same_page(old_pc, addr);
            }
            cycles += if (old_pc & 0xFF00) != (cpu.pc & 0xFF00) { 2 } else { 1 };
        }
    }
    Instruction { opcode: inst.opcode, operand, cycles }
}

/// Branch when overflow is set (BVS).
fn handle_bvs<B: Bus>(cpu: &mut CPU, bus: &mut B, inst: &Decoded) -> (r: Instruction)
    requires
        old(cpu).pc + mode_len(inst.address_mode) <= 0xFFFF,
        inst.address_mode is Relative,
        inst.cycles <= 7,
    ensures
        (*final(cpu), *final(bus), r) == branch_spec(*old(cpu), *old(bus), *inst, 0x40, true),
{
    let operand = inst.address_mode.fetch(cpu, bus);
    let mut cycles = inst.cycles;
    if cpu.status.contains(Flags::OVERFLOW) {
        if let Operand::Relative(addr) = operand {
            let old_pc = cpu.pc;
            cpu.pc = addr;
            proof {
                lemma_same_page(old_pc, addr);
            }
            cycles += if (old_pc & 0xFF00) != (cpu.pc & 0xFF00) { 2 } else { 1 };
        }
    }
    Instruction { opcode: inst.opcode, operand, cycles }
}

/// Clear the carry flag (CLC).
fn handle_clc<B: Bus>(cpu: &mut CPU, bus: &mut B, inst: &Decoded) -> (r: Instruction)
    ensures
        (*final(cpu), *final(bus), r) == flag_spec(*old(cpu), *old(bus), *inst, 0x01, false),
{
    cpu.status.remove(Flags::CARRY);
    Instruction { opcode: inst.opcode, operand: Operand::Implied, cycles: inst.cycles }
}

/// Clear the decimal flag (CLD).
fn handle_cld<B: Bus>(cpu: &mut CPU, bus: &mut B, inst: &Decoded) -> (r: Instruction)
    ensures
        (*final(cpu), *final(bus), r) == flag_spec(*old(cpu), *old(bus), *inst, 0x08, false),
{
    cpu.status.remove(Flags::DECIMAL);
    Instruction { opcode: inst.opcode, operand: Operand::Implied, cycles: inst.cycles }
}

/// Clear the interrupt flag (CLI).
fn handle_cli<B: Bus>(cpu: &mut CPU, bus: &mut B, inst: &Decoded) -> (r: Instruction)
    ensures
        (*final(cpu), *final(bus), r) == flag_spec(*old(cpu), *old(bus), *inst, 0x04, false),
{
    cpu.status.remove(Flags::INTERRUPT);
    Instruction { opcode: inst.opcode, operand: Operand::Implied, cycles: inst.cycles }
}

/// Clear the overflow flag (CLV).
fn handle_clv<B: Bus>(cpu: &mut CPU, bus: &mut B, inst: &Decoded) -> (r: Instruction)
    ensures
        (*final(cpu), *final(bus), r) == flag_spec(*old(cpu), *old(bus), *inst, 0x40, false),
{
    cpu.status.remove(Flags::OVERFLOW);
    Instruction { opcode: inst.opcode, operand: Operand::Implied, cycles: inst.cycles }
}

/// Set the carry flag (SEC).
fn handle_sec<B: Bus>(cpu: &mut CPU, bus: &mut B, inst: &Decoded) -> (r: Instruction)
    ensures
        (*final(cpu), *final(bus), r) == flag_spec(*old(cpu), *old(bus), *inst, 0x01, true),
{
    cpu.status.insert(Flags::CARRY);
    Instruction { opcode: inst.opcode, operand: Operand::Implied, cycles: inst.cycles }
}

/// Set the decimal flag (SED).
fn handle_sed<B: Bus>(cpu: &mut CPU, bus: &mut B, inst: &Decoded) -> (r: Instruction)
    ensures
        (*final(cpu), *final(bus), r) == flag_spec(*old(cpu), *old(bus), *inst, 0x08, true),
{
    cpu.status.insert(Flags::DECIMAL);
    Instruction { opcode: inst.opcode, operand: Operand::Implied, cycles: inst.cycles }
}

/// Set the interrupt flag (SEI).
fn handle_sei<B: Bus>(cpu: &mut CPU, bus: &mut B, inst: &Decoded) -> (r: Instruction)
    ensures
        (*final(cpu), *final(bus), r) == flag_spec(*old(cpu), *old(bus), *inst, 0x04, true),
{
    cpu.status.insert(Flags::INTERRUPT);
    Instruction { opcode: inst.opcode, operand: Operand::Implied, cycles: inst.cycles }
}

/// Store register A at the operand (STA).
fn handle_sta<B: Bus>(cpu: &mut CPU, bus: &mut B, inst: &Decoded) -> (r: Instruction)
    requires
        old(cpu).pc + mode_len(inst.address_mode) <= 0xFFFF,
        !(inst.address_mode is Implied) && !(inst.address_mode is Relative) && !(inst.address_mode is Immediate),
        inst.opcode is STA,
    ensures
        (*final(cpu), *final(bus), r) == handle_spec(*old(cpu), *old(bus), *inst),
{
    let operand = inst.address_mode.fetch(cpu, bus);
    let value = cpu.a;
    operand.write(cpu, bus, value);
    Instruction { opcode: inst.opcode, operand, cycles: inst.cycles }
}

/// Store register X at the operand (STX).
fn handle_stx<B: Bus>(cpu: &mut CPU, bus: &mut B, inst: &Decoded) -> (r: Instruction)
    requires
        old(cpu).pc + mode_len(inst.address_mode) <= 0xFFFF,
        !(inst.address_mode is Implied) && !(inst.address_mode is Relative) && !(inst.address_mode is Immediate),
        inst.opcode is STX,
    ensures
        (*final(cpu), *final(bus), r) == handle_spec(*old(cpu), *old(bus), *inst),
{
    let operand = inst.address_mode.fetch(cpu, bus);
    let value = cpu.x;
    operand.write(cpu, bus, value);
    Instruction { opcode: inst.opcode, operand, cycles: inst.cycles }
}

/// Store register Y at the operand (STY).
fn handle_sty<B: Bus>(cpu: &mut CPU, bus: &mut B, inst: &Decoded) -> (r: Instruction)
    requires
        old(cpu).pc + mode_len(inst.address_mode) <= 0xFFFF,
        !(inst.address_mode is Implied) && !(inst.address_mode is Relative) && !(inst.address_mode is Immediate),
        inst.opcode is STY,
    ensures
        (*final(cpu), *final(bus), r) == handle_spec(*old(cpu), *old(bus), *inst),
{
    let operand = inst.address_mode.fetch(cpu, bus);
    let value = cpu.y;
    operand.write(cpu, bus, value);
    Instruction { opcode: inst.opcode, operand, cycles: inst.cycles }
}

/// Transfer A to X (TAX).
fn handle_tax<B: Bus>(cpu: &mut CPU, bus: &mut B, inst: &Decoded) -> (r: Instruction)
    requires
        inst.opcode is TAX,
    ensures
        (*final(cpu), *final(bus), r) == handle_spec(*old(cpu), *old(bus), *inst),
{
    cpu.x = cpu.a;
    update_nz(&mut cpu.status, cpu.x);
    Instruction { opcode: inst.opcode, operand: Operand::Implied, cycles: inst.cycles }
}

/// Transfer A to Y (TAY).
fn handle_tay<B: Bus>(cpu: &mut CPU, bus: &mut B, inst: &Decoded) -> (r: Instruction)
    requires
        inst.opcode is TAY,
    ensures
        (*final(cpu), *final(bus), r) == handle_spec(*old(cpu), *old(bus), *inst),
{
    cpu.y = cpu.a;
    update_nz(&mut cpu.status, cpu.y);
    Instruction { opcode: inst.opcode, operand: Operand::Implied, cycles: inst.cycles }
}

/// Transfer SP to X (TSX).
fn handle_tsx<B: Bus>(cpu: &mut CPU, bus: &mut B, inst: &Decoded) -> (r: Instruction)
    requires
        inst.opcode is TSX,
    ensures
        (*final(cpu), *final(bus), r) == handle_spec(*old(cpu), *old(bus), *inst),
{
    cpu.x = cpu.sp;
    update_nz(&mut cpu.status, cpu.x);
    Instruction { opcode: inst.opcode, operand: Operand::Implied, cycles: inst.cycles }
}

/// Transfer X to A (TXA).
fn handle_txa<B: Bus>(cpu: &mut CPU, bus: &mut B, inst: &Decoded) -> (r: Instruction)
    requires
        inst.opcode is TXA,
    ensures
        (*final(cpu), *final(bus), r) == handle_spec(*old(cpu), *old(bus), *inst),
{
    cpu.a = cpu.x;
    update_nz(&mut cpu.status, cpu.a);
    Instruction { opcode: inst.opcode, operand: Operand::Implied, cycles: inst.cycles }
}

/// Transfer X to SP (TXS).
fn handle_txs<B: Bus>(cpu: &mut CPU, bus: &mut B, inst: &Decoded) -> (r: Instruction)
    requires
        inst.opcode is TXS,
    ensures
        (*final(cpu), *final(bus), r) == handle_spec(*old(cpu), *old(bus), *inst),
{
    cpu.sp = cpu.x;
    Instruction { opcode: inst.opcode, operand: Operand::Implied, cycles: inst.cycles }
}

/// Transfer Y to A (TYA).
fn handle_tya<B: Bus>(cpu: &mut CPU, bus: &mut B, inst: &Decoded) -> (r: Instruction)
    requires
        inst.opcode is TYA,
    ensures
        (*final(cpu), *final(bus), r) == handle_spec(*old(cpu), *old(bus), *inst),
{
    cpu.a = cpu.y;
    update_nz(&mut cpu.status, cpu.a);
    Instruction { opcode: inst.opcode, operand: Operand::Implied, cycles: inst.cycles }
}

/// Test bits of the operand against the accumulator (BIT).
fn handle_bit<B: Bus>(cpu: &mut CPU, bus: &mut B, inst: &Decoded) -> (r: Instruction)
    requires
        old(cpu).pc + mode_len(inst.address_mode) <= 0xFFFF,
        !(inst.address_mode is Implied) && !(inst.address_mode is Relative),
    ensures
        (*final(cpu), *final(bus), r) == bit_spec(*old(cpu), *old(bus), *inst),
{
    let operand = inst.address_mode.fetch(cpu, bus);
    let value = operand.read(cpu, bus);
    let result = cpu.a & value;

    cpu.status.set(Flags::NEGATIVE, value & 0x80 != 0);
    cpu.status.set(Flags::OVERFLOW, value & 0x40 != 0);
    cpu.status.set(Flags::ZERO, result == 0);
    proof {
        lemma_byte_bits(value);
    }

    Instruction { opcode: inst.opcode, operand, cycles: inst.cycles }
}

/// Software interrupt (BRK).
fn handle_brk<B: Bus>(cpu: &mut CPU, bus: &mut B, inst: &Decoded) -> (r: Instruction)
    requires
        old(cpu).pc < 0xFFFF,
    ensures
        (*final(cpu), *final(bus), r) == brk_spec(*old(cpu), *old(bus), *inst),
{
    cpu.pc = cpu.pc + 1;
    let pc = cpu.pc;
    cpu.push_word(bus, pc);
    let mut status = cpu.status;
    status.insert(Flags::BREAK);
    status.insert(Flags::UNUSED);
    cpu.push_byte(bus, status.bits());
    cpu.status.insert(Flags::INTERRUPT);
    cpu.pc = bus.mem_read_word(VECTOR_IRQ);

    Instruction { opcode: inst.opcode, operand: Operand::Implied, cycles: inst.cycles }
}

/// Jump (JMP).
fn handle_jmp<B: Bus>(cpu: &mut CPU, bus: &mut B, inst: &Decoded) -> (r: Instruction)
    requires
        old(cpu).pc + mode_len(inst.address_mode) <= 0xFFFF,
        inst.address_mode is Absolute || inst.address_mode is Indirect,
    ensures
        (*final(cpu), *final(bus), r) == jmp_spec(*old(cpu), *old(bus), *inst),
{
    let operand = inst.address_mode.fetch(cpu, bus);
    match operand {
        Operand::Absolute(addr) => cpu.pc = addr,
        Operand::Indirect(addr) => cpu.pc = bus.mem_read_word_page_wrap(addr),
        _ => {},
    }
    Instruction { opcode: inst.opcode, operand, cycles: inst.cycles }
}

/// Jump to subroutine (JSR).
fn handle_jsr<B: Bus>(cpu: &mut CPU, bus: &mut B, inst: &Decoded) -> (r: Instruction)
    requires
        old(cpu).pc + mode_len(inst.address_mode) <= 0xFFFF,
    ensures
        (*final(cpu), *final(bus), r) == jsr_spec(*old(cpu), *old(bus), *inst),
{
    let operand = inst.address_mode.fetch(cpu, bus);
    if let Operand::Absolute(addr) = operand {
        let ret = cpu.pc - 1;
        cpu.push_word(bus, ret);
        cpu.pc = addr;
    }
    Instruction { opcode: inst.opcode, operand, cycles: inst.cycles }
}

/// No operation (NOP).
fn handle_nop<B: Bus>(cpu: &mut CPU, bus: &mut B, inst: &Decoded) -> (r: Instruction)
    requires
        inst.opcode is NOP,
    ensures
        (*final(cpu), *final(bus), r) == handle_spec(*old(cpu), *old(bus), *inst),
{
    Instruction { opcode: inst.opcode, operand: Operand::Implied, cycles: inst.cycles }
}

/// Push the accumulator (PHA).
fn handle_pha<B: Bus>(cpu: &mut CPU, bus: &mut B, inst: &Decoded) -> (r: Instruction)
    requires
        inst.opcode is PHA,
    ensures
        (*final(cpu), *final(bus), r) == handle_spec(*old(cpu), *old(bus), *inst),
{
    let a = cpu.a;
    cpu.push_byte(bus, a);
    Instruction { opcode: inst.opcode, operand: Operand::Implied, cycles: inst.cycles }
}

/// Push the status register with the break and unused bits set (PHP).
fn handle_php<B: Bus>(cpu: &mut CPU, bus: &mut B, inst: &Decoded) -> (r: Instruction)
    requires
        inst.opcode is PHP,
    ensures
        (*final(cpu), *final(bus), r) == handle_spec(*old(cpu), *old(bus), *inst),
{
    let mut status = cpu.status;
    status.insert(Flags::BREAK);
    status.insert(Flags::UNUSED);
    cpu.push_byte(bus, status.bits());
    Instruction { opcode: inst.opcode, operand: Operand::Implied, cycles: inst.cycles }
}

/// Pull the accumulator (PLA).
fn handle_pla<B: Bus>(cpu: &mut CPU, bus: &mut B, inst: &Decoded) -> (r: Instruction)
    requires
        inst.opcode is PLA,
    ensures
        (*final(cpu), *final(bus), r) == handle_spec(*old(cpu), *old(bus), *inst),
{
    cpu.a = cpu.pop_byte(bus);
    update_nz(&mut cpu.status, cpu.a);
    Instruction { opcode: inst.opcode, operand: Operand::Implied, cycles: inst.cycles }
}

/// Pull the status register (PLP).
fn handle_plp<B: Bus>(cpu: &mut CPU, bus: &mut B, inst: &Decoded) -> (r: Instruction)
    requires
        inst.opcode is PLP,
    ensures
        (*final(cpu), *final(bus), r) == handle_spec(*old(cpu), *old(bus), *inst),
{
    let status = cpu.pop_byte(bus);
    cpu.status = Flags::from_bits_truncate(status);
    cpu.status.remove(Flags::BREAK);
    cpu.status.remove(Flags::UNUSED);
    Instruction { opcode: inst.opcode, operand: Operand::Implied, cycles: inst.cycles }
}

/// Return from interrupt (RTI).
fn handle_rti<B: Bus>(cpu: &mut CPU, bus: &mut B, inst: &Decoded) -> (r: Instruction)
    requires
        inst.opcode is RTI,
    ensures
        (*final(cpu), *final(bus), r) == handle_spec(*old(cpu), *old(bus), *inst),
{
    let status = cpu.pop_byte(bus);
    cpu.status = Flags::from_bits_truncate(status);
    cpu.status.remove(Flags::BREAK);
    cpu.status.remove(Flags::UNUSED);
    cpu.pc = cpu.pop_word(bus).wrapping_add(1);
    Instruction { opcode: inst.opcode, operand: Operand::Implied, cycles: 6 }
}

/// Return from subroutine (RTS).
fn handle_rts<B: Bus>(cpu: &mut CPU, bus: &mut B, inst: &Decoded) -> (r: Instruction)
    requires
        inst.opcode is RTS,
    ensures
        (*final(cpu), *final(bus), r) == handle_spec(*old(cpu), *old(bus), *inst),
{
    cpu.pc = cpu.pop_word(bus).wrapping_add(1);
    Instruction { opcode: inst.opcode, operand: Operand::Implied, cycles: 6 }
}

/// Executes a decoded instruction whose opcode has been fetched.
pub fn dispatch<B: Bus>(cpu: &mut CPU, bus: &mut B, inst: &Decoded) -> (r: Instruction)
    requires
        decoded_ok(*inst),
        exec_ok(*old(cpu), *old(bus), *inst),
    ensures
        (*final(cpu), *final(bus), r) == handle_spec(*old(cpu), *old(bus), *inst),
{
    match inst.opcode {
        Opcode::ADC => handle_adc(cpu, bus, inst),
        Opcode::AND => handle_and(cpu, bus, inst),
        Opcode::ASL => handle_asl(cpu, bus, inst),
        Opcode::BCC => handle_bcc(cpu, bus, inst),
        Opcode::BCS => handle_bcs(cpu, bus, inst),
        Opcode::BEQ => handle_beq(cpu, bus, inst),
        Opcode::BIT => handle_bit(cpu, bus, inst),
        Opcode::BMI => handle_bmi(cpu, bus, inst),
        Opcode::BNE => handle_bne(cpu, bus, inst),
        Opcode::BPL => handle_bpl(cpu, bus, inst),
        Opcode::BRK => handle_brk(cpu, bus, inst),
        Opcode::BVC => handle_bvc(cpu, bus, inst),
        Opcode::BVS => handle_bvs(cpu, bus, inst),
        Opcode::CLC => handle_clc(cpu, bus, inst),
        Opcode::CLD => handle_cld(cpu, bus, inst),
        Opcode::CLI => handle_cli(cpu, bus, inst),
        Opcode::CLV => handle_clv(cpu, bus, inst),
        Opcode::CMP => handle_cmp(cpu, bus, inst),
        Opcode::CPX => handle_cpx(cpu, bus, inst),
        Opcode::CPY => handle_cpy(cpu, bus, inst),
        Opcode::DEC => handle_dec(cpu, bus, inst),
        Opcode::DEX => handle_dex(cpu, bus, inst),
        Opcode::DEY => handle_dey(cpu, bus, inst),
        Opcode::EOR => handle_eor(cpu, bus, inst),
        Opcode::INC => handle_inc(cpu, bus, inst),
        Opcode::INX => handle_inx(cpu, bus, inst),
        Opcode::INY => handle_iny(cpu, bus, inst),
        Opcode::JMP => handle_jmp(cpu, bus, inst),
        Opcode::JSR => handle_jsr(cpu, bus, inst),
        Opcode::LDA => handle_lda(cpu, bus, inst),
        Opcode::LDX => handle_ldx(cpu, bus, inst),
        Opcode::LDY => handle_ldy(cpu, bus, inst),
        Opcode::LSR => handle_lsr(cpu, bus, inst),
        Opcode::NOP => handle_nop(cpu, bus, inst),
        Opcode::ORA => handle_ora(cpu, bus, inst),
        Opcode::PHA => handle_pha(cpu, bus, inst),
        Opcode::PHP => handle_php(cpu, bus, inst),
        Opcode::PLA => handle_pla(cpu, bus, inst),
        Opcode::PLP => handle_plp(cpu, bus, inst),
        Opcode::ROL => handle_rol(cpu, bus, inst),
        Opcode::ROR => handle_ror(cpu, bus, inst),
        Opcode::RTI => handle_rti(cpu, bus, inst),
        Opcode::RTS => handle_rts(cpu, bus, inst),
        Opcode::SBC => handle_sbc(cpu, bus, inst),
        Opcode::SEC => handle_sec(cpu, bus, inst),
        Opcode::SED => handle_sed(cpu, bus, inst),
        Opcode::SEI => handle_sei(cpu, bus, inst),
        Opcode::STA => handle_sta(cpu, bus, inst),
        Opcode::STX => handle_stx(cpu, bus, inst),
        Opcode::STY => handle_sty(cpu, bus, inst),
        Opcode::TAX => handle_tax(cpu, bus, inst),
        Opcode::TAY => handle_tay(cpu, bus, inst),
        Opcode::TSX => handle_tsx(cpu, bus, inst),
        Opcode::TXA => handle_txa(cpu, bus, inst),
        Opcode::TXS => handle_txs(cpu, bus, inst),
        Opcode::TYA => handle_tya(cpu, bus, inst),
    }
}

/// The mnemonic of an opcode.
pub open spec fn opcode_name(op: Opcode) -> Seq<char> {
    match op {
        Opcode::ADC => seq!['A', 'D', 'C'],
        Opcode::AND => seq!['A', 'N', 'D'],
        Opcode::ASL => seq!['A', 'S', 'L'],
        Opcode::BCC => seq!['B', 'C', 'C'],
        Opcode::BCS => seq!['B', 'C', 'S'],
        Opcode::BEQ => seq!['B', 'E', 'Q'],
        Opcode::BIT => seq!['B', 'I', 'T'],
        Opcode::BMI => seq!['B', 'M', 'I'],
        Opcode::BNE => seq!['B', 'N', 'E'],
        Opcode::BPL => seq!['B', 'P', 'L'],
        Opcode::BRK => seq!['B', 'R', 'K'],
        Opcode::BVC => seq!['B', 'V', 'C'],
        Opcode::BVS => seq!['B', 'V', 'S'],
        Opcode::CLC => seq!['C', 'L', 'C'],
        Opcode::CLD => seq!['C', 'L', 'D'],
        Opcode::CLI => seq!['C', 'L', 'I'],
        Opcode::CLV => seq!['C', 'L', 'V'],
        Opcode::CMP => seq!['C', 'M', 'P'],
        Opcode::CPX => seq!['C', 'P', 'X'],
        Opcode::CPY => seq!['C', 'P', 'Y'],
        Opcode::DEC => seq!['D', 'E', 'C'],
        Opcode::DEX => seq!['D', 'E', 'X'],
        Opcode::DEY => seq!['D', 'E', 'Y'],
        Opcode::EOR => seq!['E', 'O', 'R'],
        Opcode::INC => seq!['I', 'N', 'C'],
        Opcode::INX => seq!['I', 'N', 'X'],
        Opcode::INY => seq!['I', 'N', 'Y'],
        Opcode::JMP => seq!['J', 'M', 'P'],
        Opcode::JSR => seq!['J', 'S', 'R'],
        Opcode::LDA => seq!['L', 'D', 'A'],
        Opcode::LDX => seq!['L', 'D', 'X'],
        Opcode::LDY => seq!['L', 'D', 'Y'],
        Opcode::LSR => seq!['L', 'S', 'R'],
        Opcode::NOP => seq!['N', 'O', 'P'],
        Opcode::ORA => seq!['O', 'R', 'A'],
        Opcode::PHA => seq!['P', 'H', 'A'],
        Opcode::PHP => seq!['P', 'H', 'P'],
        Opcode::PLA => seq!['P', 'L', 'A'],
        Opcode::PLP => seq!['P', 'L', 'P'],
        Opcode::ROL => seq!['R', 'O', 'L'],
        Opcode::ROR => seq!['R', 'O', 'R'],
        Opcode::RTI => seq!['R', 'T', 'I'],
        Opcode::RTS => seq!['R', 'T', 'S'],
        Opcode::SBC => seq!['S', 'B', 'C'],
        Opcode::SEC => seq!['S', 'E', 'C'],
        Opcode::SED => seq!['S', 'E', 'D'],
        Opcode::SEI => seq!['S', 'E', 'I'],
        Opcode::STA => seq!['S', 'T', 'A'],
        Opcode::STX => seq!['S', 'T', 'X'],
        Opcode::STY => seq!['S', 'T', 'Y'],
        Opcode::TAX => seq!['T', 'A', 'X'],
        Opcode::TAY => seq!['T', 'A', 'Y'],
        Opcode::TSX => seq!['T', 'S', 'X'],
        Opcode::TXA => seq!['T', 'X', 'A'],
        Opcode::TXS => seq!['T', 'X', 'S'],
        Opcode::TYA => seq!['T', 'Y', 'A'],
    }
}

/// The text of an operand, as the assembler writes it.
pub open spec fn operand_text(o: Operand) -> Seq<char> {
    match o {
        Operand::Immediate(v) => seq!['#', '$'] + hex2(v),
        Operand::ZeroPage(v) => seq!['$'] + hex2(v),
        Operand::ZeroPageX(v) => seq!['$'] + hex2(v) + seq![',', 'X'],
        Operand::ZeroPageY(v) => seq!['$'] + hex2(v) + seq![',', 'Y'],
        Operand::Absolute(v) => seq!['$'] + hex4(v),
        Operand::AbsoluteX(v) => seq!['$'] + hex4(v) + seq![',', 'X'],
        Operand::AbsoluteY(v) => seq!['$'] + hex4(v) + seq![',', 'Y'],
        Operand::Indirect(v) => seq!['(', '$'] + hex4(v) + seq![')'],
        Operand::IndirectX(v) => seq!['(', '$'] + hex2(v) + seq![',', 'X', ')'],
        Operand::IndirectY(v) => seq!['(', '$'] + hex2(v) + seq![')', ',', 'Y'],
        Operand::Relative(v) => seq!['$'] + hex4(v),
        Operand::Accumulator => seq!['A'],
        Operand::Implied => Seq::empty(),
    }
}

/// The text of an instruction: its mnemonic, a space and its operand.
pub open spec fn instruction_text(i: Instruction) -> Seq<char> {
    opcode_name(i.opcode) + seq![' '] + operand_text(i.operand)
}

impl Opcode {
    /// The mnemonic of this opcode.
    pub fn name(&self) -> (r: &'static str)
        ensures
            r@ == opcode_name(*self),
    {
        match *self {
            Opcode::ADC => {
                proof {
                    reveal_strlit("ADC");
                }
                "ADC"
            },
            Opcode::AND => {
                proof {
                    reveal_strlit("AND");
                }
                "AND"
            },
            Opcode::ASL => {
                proof {
                    reveal_strlit("ASL");
                }
                "ASL"
            },
            Opcode::BCC => {
                proof {
                    reveal_strlit("BCC");
                }
                "BCC"
            },
            Opcode::BCS => {
                proof {
                    reveal_strlit("BCS");
                }
                "BCS"
            },
            Opcode::BEQ => {
                proof {
                    reveal_strlit("BEQ");
                }
                "BEQ"
            },
            Opcode::BIT => {
                proof {
                    reveal_strlit("BIT");
                }
                "BIT"
            },
            Opcode::BMI => {
                proof {
                    reveal_strlit("BMI");
                }
                "BMI"
            },
            Opcode::BNE => {
                proof {
                    reveal_strlit("BNE");
                }
                "BNE"
            },
            Opcode::BPL => {
                proof {
                    reveal_strlit("BPL");
                }
                "BPL"
            },
            Opcode::BRK => {
                proof {
                    reveal_strlit("BRK");
                }
                "BRK"
            },
            Opcode::BVC => {
                proof {
                    reveal_strlit("BVC");
                }
                "BVC"
            },
            Opcode::BVS => {
                proof {
                    reveal_strlit("BVS");
                }
                "BVS"
            },
            Opcode::CLC => {
                proof {
                    reveal_strlit("CLC");
                }
                "CLC"
            },
            Opcode::CLD => {
                proof {
                    reveal_strlit("CLD");
                }
                "CLD"
            },
            Opcode::CLI => {
                proof {
                    reveal_strlit("CLI");
                }
                "CLI"
            },
            Opcode::CLV => {
                proof {
                    reveal_strlit("CLV");
                }
                "CLV"
            },
            Opcode::CMP => {
                proof {
                    reveal_strlit("CMP");
                }
                "CMP"
            },
            Opcode::CPX => {
                proof {
                    reveal_strlit("CPX");
                }
                "CPX"
            },
            Opcode::CPY => {
                proof {
                    reveal_strlit("CPY");
                }
                "CPY"
            },
            Opcode::DEC => {
                proof {
                    reveal_strlit("DEC");
                }
                "DEC"
            },
            Opcode::DEX => {
                proof {
                    reveal_strlit("DEX");
                }
                "DEX"
            },
            Opcode::DEY => {
                proof {
                    reveal_strlit("DEY");
                }
                "DEY"
            },
            Opcode::EOR => {
                proof {
                    reveal_strlit("EOR");
                }
                "EOR"
            },
            Opcode::INC => {
                proof {
                    reveal_strlit("INC");
                }
                "INC"
            },
            Opcode::INX => {
                proof {
                    reveal_strlit("INX");
                }
                "INX"
            },
            Opcode::INY => {
                proof {
                    reveal_strlit("INY");
                }
                "INY"
            },
            Opcode::JMP => {
                proof {
                    reveal_strlit("JMP");
                }
                "JMP"
            },
            Opcode::JSR => {
                proof {
                    reveal_strlit("JSR");
                }
                "JSR"
            },
            Opcode::LDA => {
                proof {
                    reveal_strlit("LDA");
                }
                "LDA"
            },
            Opcode::LDX => {
                proof {
                    reveal_strlit("LDX");
                }
                "LDX"
            },
            Opcode::LDY => {
                proof {
                    reveal_strlit("LDY");
                }
                "LDY"
            },
            Opcode::LSR => {
                proof {
                    reveal_strlit("LSR");
                }
                "LSR"
            },
            Opcode::NOP => {
                proof {
                    reveal_strlit("NOP");
                }
                "NOP"
            },
            Opcode::ORA => {
                proof {
                    reveal_strlit("ORA");
                }
                "ORA"
            },
            Opcode::PHA => {
                proof {
                    reveal_strlit("PHA");
                }
                "PHA"
            },
            Opcode::PHP => {
                proof {
                    reveal_strlit("PHP");
                }
                "PHP"
            },
            Opcode::PLA => {
                proof {
                    reveal_strlit("PLA");
                }
                "PLA"
            },
            Opcode::PLP => {
                proof {
                    reveal_strlit("PLP");
                }
                "PLP"
            },
            Opcode::ROL => {
                proof {
                    reveal_strlit("ROL");
                }
                "ROL"
            },
            Opcode::ROR => {
                proof {
                    reveal_strlit("ROR");
                }
                "ROR"
            },
            Opcode::RTI => {
                proof {
                    reveal_strlit("RTI");
                }
                "RTI"
            },
            Opcode::RTS => {
                proof {
                    reveal_strlit("RTS");
                }
                "RTS"
            },
            Opcode::SBC => {
                proof {
                    reveal_strlit("SBC");
                }
                "SBC"
            },
            Opcode::SEC => {
                proof {
                    reveal_strlit("SEC");
                }
                "SEC"
            },
            Opcode::SED => {
                proof {
                    reveal_strlit("SED");
                }
                "SED"
            },
            Opcode::SEI => {
                proof {
                    reveal_strlit("SEI");
                }
                "SEI"
            },
            Opcode::STA => {
                proof {
                    reveal_strlit("STA");
                }
                "STA"
            },
            Opcode::STX => {
                proof {
                    reveal_strlit("STX");
                }
                "STX"
            },
            Opcode::STY => {
                proof {
                    reveal_strlit("STY");
                }
                "STY"
            },
            Opcode::TAX => {
                proof {
                    reveal_strlit("TAX");
                }
                "TAX"
            },
            Opcode::TAY => {
                proof {
                    reveal_strlit("TAY");
                }
                "TAY"
            },
            Opcode::TSX => {
                proof {
                    reveal_strlit("TSX");
                }
                "TSX"
            },
            Opcode::TXA => {
                proof {
                    reveal_strlit("TXA");
                }
                "TXA"
            },
            Opcode::TXS => {
                proof {
                    reveal_strlit("TXS");
                }
                "TXS"
            },
            Opcode::TYA => {
                proof {
                    reveal_strlit("TYA");
                }
                "TYA"
            },
        }
    }
}

impl Operand {
    /// The text of this operand, as the assembler writes it.
    pub fn to_string(&self) -> (r: String)
        ensures
            r@ == operand_text(*self),
    {
        proof {
            reveal_strlit("#$");
            reveal_strlit("$");
            reveal_strlit("($");
            reveal_strlit(")");
            reveal_strlit("),Y");
            reveal_strlit(",X");
            reveal_strlit(",X)");
            reveal_strlit(",Y");
            reveal_strlit("A");
        }
        let mut s = String::new();
        match *self {
            Operand::Immediate(v) => {
                s.append("#$");
                append_hex2(&mut s, v);
            },
            Operand::ZeroPage(v) => {
                s.append("$");
                append_hex2(&mut s, v);
            },
            Operand::ZeroPageX(v) => {
                s.append("$");
                append_hex2(&mut s, v);
                s.append(",X");
            },
            Operand::ZeroPageY(v) => {
                s.append("$");
                append_hex2(&mut s, v);
                s.append(",Y");
            },
            Operand::Absolute(v) => {
                s.append("$");
                append_hex4(&mut s, v);
            },
            Operand::AbsoluteX(v) => {
                s.append("$");
                append_hex4(&mut s, v);
                s.append(",X");
            },
            Operand::AbsoluteY(v) => {
                s.append("$");
                append_hex4(&mut s, v);
                s.append(",Y");
            },
            Operand::Indirect(v) => {
                s.append("($");
                append_hex4(&mut s, v);
                s.append(")");
            },
            Operand::IndirectX(v) => {
                s.append("($");
                append_hex2(&mut s, v);
                s.append(",X)");
            },
            Operand::IndirectY(v) => {
                s.append("($");
                append_hex2(&mut s, v);
                s.append("),Y");
            },
            Operand::Relative(v) => {
                s.append("$");
                append_hex4(&mut s, v);
            },
            Operand::Accumulator => {
            s.append("A");
            },
            Operand::Implied => {},
        }
        s
    }
}

impl Instruction {
    /// The text of this instruction: its mnemonic, a space and its operand.
    pub fn to_string(&self) -> (r: String)
        ensures
            r@ == instruction_text(*self),
    {
        proof {
            reveal_strlit(" ");
        }
        let mut s = String::new();
        s.append(self.opcode.name());
        s.append(" ");
        let operand = self.operand.to_string();
        s.append(operand.as_str());
        s
    }
}


} // verus!
