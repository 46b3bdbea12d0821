//! The bus the W65C02 reads and writes its memory through.
use vstd::prelude::*;

use crate::utils::word::{make_word, high, low, word, low_byte, high_byte};

verus! {

/// The address that follows `addr`, wrapping at the end of the address space.
pub open spec fn next_addr(addr: u16) -> u16 {
    ((addr + 1) % 0x10000) as u16
}

/// The address that follows `addr` within its 256-byte page: the low byte wraps and the page
/// stays.
pub open spec fn next_in_page(addr: u16) -> u16 {
    (addr / 256 * 256 + (addr + 1) % 256) as u16
}

/// A bus of 64KB addressed by 16 bits.
///
/// A read gives a byte that depends on the bus state alone; a write gives the bus a new state.
/// What the bus does with the values is up to each bus: `byte_at` and `after_write` say it.
pub trait Bus: Sized {
    /// The byte that a read of `addr` gives in this state.
    spec fn byte_at(&self, addr: u16) -> u8;

    /// The state of the bus after `val` is written at `addr`.
    spec fn after_write(self, addr: u16, val: u8) -> Self;

    /// Reads the byte at `addr`.
    fn mem_read(&self, addr: u16) -> (r: u8)
        ensures
            r == self.byte_at(addr),
    ;

    /// Writes `val` at `addr`.
    fn mem_write(&mut self, addr: u16, val: u8)
        ensures
            *final(self) == old(self).after_write(addr, val),
    ;

    /// Reads the little-endian word at `addr`, its high byte at the following address.
    fn mem_read_word(&self, addr: u16) -> (r: u16)
        ensures
            r == word(self.byte_at(addr), self.byte_at(next_addr(addr))),
    {
        let lo = self.mem_read(addr);
        let hi = self.mem_read(addr.wrapping_add(1));
        make_word(lo, hi)
    }

    /// Reads the little-endian word at `addr`, its high byte at the following address of the
    /// same page.
    fn mem_read_word_page_wrap(&self, addr: u16) -> (r: u16)
        ensures
            r == word(self.byte_at(addr), self.byte_at(next_in_page(addr))),
    {
        let lo = self.mem_read(addr);
        let next = page_next(addr);
        let hi = self.mem_read(next);
        make_word(lo, hi)
    }

    /// Writes `val` as a little-endian word at `addr`.
    fn mem_write_word(&mut self, addr: u16, val: u16)
        ensures
            *final(self) == old(self).after_write(addr, low_byte(val)).after_write(
                next_addr(addr),
                high_byte(val),
            ),
    {
        self.mem_write(addr, low(val));
        self.mem_write(addr.wrapping_add(1), high(val));
    }

    /// Writes `val` as a little-endian word at `addr`, its high byte at the following address
    /// of the same page.
    fn mem_write_word_page_wrap(&mut self, addr: u16, val: u16)
        ensures
            *final(self) == old(self).after_write(addr, low_byte(val)).after_write(
                next_in_page(addr),
                high_byte(val),
            ),
    {
        self.mem_write(addr, low(val));
        let next = page_next(addr);
        self.mem_write(next, high(val));
    }
}

/// The address after `addr` in its page.
fn page_next(addr: u16) -> (r: u16)
    ensures
        r == next_in_page(addr),
{
    let n = addr.wrapping_add(1);
    let r = (addr & 0xFF00) | (n & 0xFF);
    assert(r == (addr / 256 * 256 + (addr + 1) % 256) as u16) by (bit_vector)
        requires
            n == ((addr + 1) % 0x10000) as u16,
            r == (addr & 0xFF00) | (n & 0xFF),
    ;
    r
}

/// A bus backed by 64KB of plain memory.
pub struct FakeBus {
    mem: [u8; 65536],
}

impl FakeBus {
    /// A bus whose every byte is zero.
    pub fn new() -> (r: Self)
        ensures
            forall|a: u16| #[trigger] r.byte_at(a) == 0,
    {
        Self { mem: [0u8; 65536] }
    }
}

impl Bus for FakeBus {
    closed spec fn byte_at(&self, addr: u16) -> u8 {
        self.mem@[addr as int]
    }

    closed spec fn after_write(self, addr: u16, val: u8) -> Self {
        FakeBus { mem: vstd::array::spec_array_update(self.mem, addr as int, val) }
    }

    fn mem_read(&self, addr: u16) -> (r: u8) {
        self.mem[addr as usize]
    }

    fn mem_write(&mut self, addr: u16, val: u8) {
        self.mem[addr as usize] = val;
    }
}

/// A byte written to the plain memory bus is read back at its address, and every other address
/// reads as before.
pub proof fn lemma_fake_bus_read_after_write(bus: FakeBus, addr: u16, val: u8, other: u16)
    ensures
        bus.after_write(addr, val).byte_at(addr) == val,
        other != addr ==> bus.after_write(addr, val).byte_at(other) == bus.byte_at(other),
{
}

/// A word written to the plain memory bus is read back at its address, whether its high byte
/// goes to the next address or to the next one within the page.
pub proof fn lemma_fake_bus_word_round_trip(bus: FakeBus, addr: u16, val: u16)
    ensures
        ({
            let after = bus.after_write(addr, low_byte(val)).after_write(next_addr(addr), high_byte(val));
            word(after.byte_at(addr), after.byte_at(next_addr(addr))) == val
        }),
        ({
            let after = bus.after_write(addr, low_byte(val)).after_write(next_in_page(addr), high_byte(val));
            word(after.byte_at(addr), after.byte_at(next_in_page(addr))) == val
        }),
{
    crate::utils::word::lemma_word_of_bytes(val);
}

} // verus!
