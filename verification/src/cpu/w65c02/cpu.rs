//! The registers of the W65C02 and the primitive operations on them.
use vstd::prelude::*;

use crate::cpu::w65c02::bus::{Bus, FakeBus, next_addr, next_in_page};
pub use crate::cpu::w65c02::flags::{Flags, Status};
use crate::cpu::w65c02::inst;
use crate::utils::word::{high, low, make_word, word, high_byte, low_byte};

verus! {

/// Where the address to jump to on reset is stored.
pub const VECTOR_RESET: u16 = 0xFFFC;

/// Where the address to jump to on an interrupt request or a BRK is stored.
pub const VECTOR_IRQ: u16 = 0xFFFE;

/// Where the address to jump to on a non-maskable interrupt is stored.
pub const VECTOR_NMI: u16 = 0xFFFA;

/// Western Design Center W65C02 CPU
pub struct CPU {
    pub a: u8,
    pub x: u8,
    pub y: u8,
    pub pc: u16,
    pub sp: u8,
    pub status: Status,
}

/// The address of the stack slot that the stack pointer `sp` designates: the stack lives in
/// page 1.
pub open spec fn stack_addr(sp: u8) -> u16 {
    (0x100 + sp) as u16
}

/// `sp` moved `n` slots up, wrapping within the stack page.
pub open spec fn sp_up(sp: u8, n: int) -> u8 {
    ((sp + n) % 256) as u8
}

/// `sp` moved `n` slots down, wrapping within the stack page.
pub open spec fn sp_down(sp: u8, n: int) -> u8 {
    ((sp - n) % 256) as u8
}

/// The zero-page address `addr + offset`, wrapping within page zero.
pub open spec fn zp_addr(addr: u8, offset: u8) -> u16 {
    ((addr + offset) % 256) as u16
}

/// The CPU after a push of `value`: the byte is written at the top of the stack.
pub open spec fn pushed_byte<B: Bus>(cpu: CPU, bus: B, value: u8) -> (CPU, B) {
    (CPU { sp: sp_down(cpu.sp, 1), ..cpu }, bus.after_write(stack_addr(cpu.sp), value))
}

/// The CPU after a push of the word `value`, its high byte first.
pub open spec fn pushed_word<B: Bus>(cpu: CPU, bus: B, value: u16) -> (CPU, B) {
    let (c1, b1) = pushed_byte(cpu, bus, high_byte(value));
    pushed_byte(c1, b1, low_byte(value))
}

/// The byte that a pop gives.
pub open spec fn popped_byte<B: Bus>(cpu: CPU, bus: B) -> u8 {
    bus.byte_at(stack_addr(sp_up(cpu.sp, 1)))
}

/// The word that a pop of a word gives: its low byte is the first one popped.
pub open spec fn popped_word<B: Bus>(cpu: CPU, bus: B) -> u16 {
    word(
        bus.byte_at(stack_addr(sp_up(cpu.sp, 1))),
        bus.byte_at(stack_addr(sp_up(cpu.sp, 2))),
    )
}

impl CPU {
    /// A CPU whose registers are all zero.
    pub fn new() -> (r: Self)
        ensures
            r.a == 0 && r.x == 0 && r.y == 0 && r.pc == 0 && r.sp == 0,
            r.status@ == 0,
    {
        Self { a: 0, x: 0, y: 0, pc: 0, sp: 0, status: Flags::empty() }
    }

    /// Resets the registers and jumps to the address held by the reset vector.
    pub fn reset<B: Bus>(&mut self, bus: &mut B)
        ensures
            final(self).a == 0 && final(self).x == 0 && final(self).y == 0,
            final(self).sp == 0xFF,
            final(self).status@ == 0x04,
            final(self).pc == word(old(bus).byte_at(VECTOR_RESET), old(bus).byte_at(
                next_addr(VECTOR_RESET),
            )),
            *final(bus) == *old(bus),
    {
        self.a = 0;
        self.x = 0;
        self.y = 0;
        self.sp = 0xFF;
        self.status = Flags::from_bits_truncate(Flags::INTERRUPT.mask());
        self.pc = bus.mem_read_word(VECTOR_RESET);
    }

    /// Decodes and executes the instruction at the program counter.
    pub fn exec<B: Bus>(&mut self, bus: &mut B) -> (r: inst::Instruction)
        requires
            inst::can_exec(*old(self), *old(bus)),
        ensures
            (*final(self), *final(bus), r) == inst::exec_spec(*old(self), *old(bus)),
    {
        let decoded = inst::decode(self, bus);
        inst::dispatch(self, bus, &decoded)
    }

    /// Reads the byte at the program counter and moves past it.
    pub fn fetch_byte<B: Bus>(&mut self, bus: &mut B) -> (r: u8)
        requires
            old(self).pc < 0xFFFF,
        ensures
            r == old(bus).byte_at(old(self).pc),
            *final(self) == (CPU { pc: (old(self).pc + 1) as u16, ..*old(self) }),
            *final(bus) == *old(bus),
    {
        let byte = bus.mem_read(self.pc);
        self.pc = self.pc + 1;
        byte
    }

    /// Reads the word at the program counter and moves past it.
    pub fn fetch_word<B: Bus>(&mut self, bus: &mut B) -> (r: u16)
        requires
            old(self).pc < 0xFFFE,
        ensures
            r == word(old(bus).byte_at(old(self).pc), old(bus).byte_at((old(self).pc + 1) as u16)),
            *final(self) == (CPU { pc: (old(self).pc + 2) as u16, ..*old(self) }),
            *final(bus) == *old(bus),
    {
        let w = bus.mem_read_word(self.pc);
        self.pc = self.pc + 2;
        w
    }

    /// Pushes a byte on the stack.
    pub fn push_byte<B: Bus>(&mut self, bus: &mut B, value: u8)
        ensures
            (*final(self), *final(bus)) == pushed_byte(*old(self), *old(bus), value),
    {
        bus.mem_write(0x0100 + self.sp as u16, value);
        self.sp = self.sp.wrapping_sub(1);
    }

    /// Pops a byte from the stack.
    pub fn pop_byte<B: Bus>(&mut self, bus: &mut B) -> (r: u8)
        ensures
            r == popped_byte(*old(self), *old(bus)),
            *final(self) == (CPU { sp: sp_up(old(self).sp, 1), ..*old(self) }),
            *final(bus) == *old(bus),
    {
        self.sp = self.sp.wrapping_add(1);
        bus.mem_read(0x0100 + self.sp as u16)
    }

    /// Pushes a word on the stack, its high byte first.
    pub fn push_word<B: Bus>(&mut self, bus: &mut B, value: u16)
        ensures
            (*final(self), *final(bus)) == pushed_word(*old(self), *old(bus), value),
    {
        self.push_byte(bus, high(value));
        self.push_byte(bus, low(value));
    }

    /// Pops a word from the stack, its low byte first.
    pub fn pop_word<B: Bus>(&mut self, bus: &mut B) -> (r: u16)
        ensures
            r == popped_word(*old(self), *old(bus)),
            *final(self) == (CPU { sp: sp_up(old(self).sp, 2), ..*old(self) }),
            *final(bus) == *old(bus),
    {
        let low = self.pop_byte(bus);
        let high = self.pop_byte(bus);
        make_word(low, high)
    }

    /// Reads the zero-page byte at `addr + offset`.
    pub fn zeropage_read_byte<B: Bus>(&mut self, bus: &mut B, addr: u8, offset: u8) -> (r: u8)
        ensures
            r == old(bus).byte_at(zp_addr(addr, offset)),
            *final(self) == *old(self),
            *final(bus) == *old(bus),
    {
        bus.mem_read(u8::wrapping_add(addr, offset) as u16)
    }

    /// Writes the zero-page byte at `addr + offset`.
    pub fn zeropage_write_byte<B: Bus>(&mut self, bus: &mut B, addr: u8, offset: u8, val: u8)
        ensures
            *final(self) == *old(self),
            *final(bus) == old(bus).after_write(zp_addr(addr, offset), val),
    {
        bus.mem_write(u8::wrapping_add(addr, offset) as u16, val);
    }

    /// Reads the word at the zero-page address `addr + offset`, its high byte wrapping within
    /// page zero.
    pub fn zeropage_read_word<B: Bus>(&mut self, bus: &mut B, addr: u8, offset: u8) -> (r: u16)
        ensures
            r == word(
                old(bus).byte_at(zp_addr(addr, offset)),
                old(bus).byte_at(next_in_page(zp_addr(addr, offset))),
            ),
            *final(self) == *old(self),
            *final(bus) == *old(bus),
    {
        bus.mem_read_word_page_wrap(u8::wrapping_add(addr, offset) as u16)
    }

    /// Writes the word at the zero-page address `addr + offset`, its high byte wrapping within
    /// page zero.
    pub fn zeropage_write_word<B: Bus>(
        &mut self,
        bus: &mut B,
        addr: u8,
        offset: u8,
        val: u16,
    )
        ensures
            *final(self) == *old(self),
            *final(bus) == old(bus).after_write(zp_addr(addr, offset), low_byte(val)).after_write(
                next_in_page(zp_addr(addr, offset)),
                high_byte(val),
            ),
    {
        bus.mem_write_word_page_wrap(u8::wrapping_add(addr, offset) as u16, val);
    }
}

/// A byte pushed on the stack of a plain memory is what the next pop gives, and the pop puts
/// the stack pointer back where it was.
pub proof fn lemma_push_pop_byte(cpu: CPU, bus: FakeBus, value: u8)
    ensures
        ({
            let (c1, b1) = pushed_byte(cpu, bus, value);
            &&& popped_byte(c1, b1) == value
            &&& sp_up(c1.sp, 1) == cpu.sp
        }),
{
    let (c1, b1) = pushed_byte(cpu, bus, value);
    assert(sp_up(c1.sp, 1) == cpu.sp);
    crate::cpu::w65c02::bus::lemma_fake_bus_read_after_write(bus, stack_addr(cpu.sp), value, stack_addr(cpu.sp));
}

/// A word pushed on the stack of a plain memory is what the next pop of a word gives, and the
/// pop puts the stack pointer back where it was.
pub proof fn lemma_push_pop_word(cpu: CPU, bus: FakeBus, value: u16)
    ensures
        ({
            let (c2, b2) = pushed_word(cpu, bus, value);
            &&& popped_word(c2, b2) == value
            &&& sp_up(c2.sp, 2) == cpu.sp
        }),
{
    let (c1, b1) = pushed_byte(cpu, bus, high_byte(value));
    let (c2, b2) = pushed_byte(c1, b1, low_byte(value));
    assert(c1.sp == sp_down(cpu.sp, 1));
    assert(sp_up(c2.sp, 1) == c1.sp);
    assert(sp_up(c2.sp, 2) == cpu.sp);
    assert(stack_addr(c1.sp) != stack_addr(cpu.sp));
    crate::cpu::w65c02::bus::lemma_fake_bus_read_after_write(b1, stack_addr(c1.sp), low_byte(value), stack_addr(c1.sp));
    crate::cpu::w65c02::bus::lemma_fake_bus_read_after_write(b1, stack_addr(c1.sp), low_byte(value), stack_addr(cpu.sp));
    crate::cpu::w65c02::bus::lemma_fake_bus_read_after_write(bus, stack_addr(cpu.sp), high_byte(value), stack_addr(cpu.sp));
    crate::utils::word::lemma_word_of_bytes(value);
}

} // verus!
