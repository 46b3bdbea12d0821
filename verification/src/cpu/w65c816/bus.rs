//! Addresses of the W65C816 and the bus it reads and writes through.
use vstd::prelude::*;

use crate::utils::word::{high, low, make_word, word, high_byte, low_byte};

verus! {

/// An address used by the W65C816 CPU buses. In essence, it is a 24-bit value, with the upper 8
/// bits representing the bank and the lower 16 bits representing the offset within the bank.
#[derive(Debug, Clone, Copy, PartialEq, Eq, Structural)]
pub struct Addr {
    raw: usize,
}

impl Addr {
    /// Every address fits in 24 bits.
    #[verifier::type_invariant]
    spec fn fits(self) -> bool {
        self.raw < 0x1000000
    }
}

impl View for Addr {
    type V = int;

    closed spec fn view(&self) -> int {
        self.raw as int
    }
}

/// Indicates how an Addr value must wrap while adding a value. Allowed values are Byte, Word and
/// Long for 8-bit byte, 16-bit word or 24-bit long wrapping respectively.
#[derive(Debug, Clone, Copy, PartialEq, Eq, Structural)]
pub enum AddrWrap {
    Byte,
    Word,
    Long,
}

/// The address of `offset` in `bank`.
pub open spec fn addr_of(bank: u8, offset: u16) -> int {
    bank as int * 0x10000 + offset as int
}

/// The address `a + n`: with byte wrapping only the low byte moves, with word wrapping only
/// the low word, with long wrapping the whole 24-bit address.
pub open spec fn wrap_add(a: int, n: int, wrap: AddrWrap) -> int {
    match wrap {
        AddrWrap::Byte => (a / 0x100) % 0x10000 * 0x100 + (a + n) % 0x100,
        AddrWrap::Word => (a / 0x10000) % 0x100 * 0x10000 + (a + n) % 0x10000,
        AddrWrap::Long => (a + n) % 0x1000000,
    }
}

/// A number that can be added to an address. Addresses wrap at 24 bits at the most, so only
/// the low 24 bits of the number count.
pub trait AddrOffset: Copy {
    /// The low 24 bits of the number.
    spec fn offset_value(self) -> nat;

    /// The low 24 bits of the number.
    fn to_offset(self) -> (r: usize)
        ensures
            r == self.offset_value(),
            r < 0x1000000,
    ;
}

impl AddrOffset for u8 {
    open spec fn offset_value(self) -> nat {
        self as nat
    }

    fn to_offset(self) -> (r: usize) {
        self as usize
    }
}

impl AddrOffset for u16 {
    open spec fn offset_value(self) -> nat {
        self as nat
    }

    fn to_offset(self) -> (r: usize) {
        self as usize
    }
}

impl AddrOffset for usize {
    open spec fn offset_value(self) -> nat {
        (self % 0x1000000) as nat
    }

    fn to_offset(self) -> (r: usize) {
        assert(self & 0xFFFFFF == self % 0x1000000) by (bit_vector);
        self & 0xFFFFFF
    }
}

impl Addr {
    /// Creates a new Addr value from a bank and an offset.
    pub fn from(bank: u8, offset: u16) -> (r: Self)
        ensures
            r@ == addr_of(bank, offset),
    {
        let raw = (bank as usize) << 16 | offset as usize;
        assert(raw == bank as usize * 0x10000 + offset as usize) by (bit_vector)
            requires
                raw == (bank as usize) << 16 | offset as usize,
        ;
        assert(raw < 0x1000000);
        Self { raw }
    }

    /// Add the given magnitude to the address, wrapping around the address space if necessary.
    pub fn wrapping_add<T: AddrOffset>(self, other: T, wrap: AddrWrap) -> (r: Self)
        ensures
            r@ == wrap_add(self@, other.offset_value() as int, wrap),
    {
        proof {
            use_type_invariant(&self);
        }
        let n = other.to_offset();
        let sum = self.raw + n;
        let raw = self.raw;
        match wrap {
            AddrWrap::Byte => {
                let r = (raw & 0xFFFF00) | (sum & 0xFF);
                assert(r == (raw / 0x100) % 0x10000 * 0x100 + sum % 0x100 && r < 0x1000000)
                    by (bit_vector)
                    requires
                        r == (raw & 0xFFFF00) | (sum & 0xFF),
                ;
                Self { raw: r }
            },
            AddrWrap::Word => {
                let r = (raw & 0xFF0000) | (sum & 0xFFFF);
                assert(r == (raw / 0x10000) % 0x100 * 0x10000 + sum % 0x10000 && r < 0x1000000)
                    by (bit_vector)
                    requires
                        r == (raw & 0xFF0000) | (sum & 0xFFFF),
                ;
                Self { raw: r }
            },
            AddrWrap::Long => {
                let r = sum & 0xFFFFFF;
                assert(r == sum % 0x1000000 && r < 0x1000000) by (bit_vector)
                    requires
                        r == sum & 0xFFFFFF,
                ;
                Self { raw: r }
            },
        }
    }

    /// Increment the address by one, wrapping around the address space if necessary.
    pub fn inc(self, wrap: AddrWrap) -> (r: Self)
        ensures
            r@ == wrap_add(self@, 1, wrap),
    {
        self.wrapping_add(1usize, wrap)
    }

    /// Two addresses with the same number are the same address.
    pub proof fn lemma_view_injective(self, other: Addr)
        requires
            self@ == other@,
        ensures
            self == other,
    {
    }

    /// An address made from a bank and an offset is made from no other pair: two such addresses
    /// are the same exactly when their banks and their offsets are.
    pub proof fn lemma_addr_of_injective(b1: u8, o1: u16, b2: u8, o2: u16)
        ensures
            (addr_of(b1, o1) == addr_of(b2, o2)) == (b1 == b2 && o1 == o2),
    {
    }

    /// Returns true if the two addresses are in the same page.
    pub fn same_page(&self, other: Self) -> (r: bool)
        ensures
            r == ((self@ / 0x100) % 0x10000 == (other@ / 0x100) % 0x10000),
    {
        let a = self.raw;
        let b = other.raw;
        assert((a & 0xFFFF00 == b & 0xFFFF00) == ((a / 0x100) % 0x10000 == (b / 0x100) % 0x10000))
            by (bit_vector);
        self.raw & 0xFFFF00 == other.raw & 0xFFFF00
    }

    /// The address as a number.
    pub fn raw(&self) -> (r: usize)
        ensures
            r == self@,
            r < 0x1000000,
    {
        proof {
            use_type_invariant(self);
        }
        self.raw
    }
}

impl From<Addr> for usize {
    fn from(addr: Addr) -> (r: usize) {
        addr.raw()
    }
}

impl vstd::std_specs::convert::FromSpecImpl<Addr> for usize {
    open spec fn obeys_from_spec() -> bool {
        true
    }

    open spec fn from_spec(addr: Addr) -> usize {
        addr@ as usize
    }
}

/// The address after `a`, wrapping as `wrap` says.
pub open spec fn addr_inc(a: int, wrap: AddrWrap) -> int {
    wrap_add(a, 1, wrap)
}

/// A bus of the W65C816: reads and writes of bytes at 24-bit addresses.
///
/// Each bus chooses a model of its state (`Mem`): a read gives a byte that depends on the
/// model alone, and a write gives a new model. `peek` and `poke` say how.
pub trait Bus {
    /// What this bus holds, as far as reads and writes are concerned.
    type Mem;

    /// The state of the bus.
    spec fn mem(&self) -> Self::Mem;

    /// The byte that a read at `addr` gives in state `m`.
    spec fn peek(m: Self::Mem, addr: int) -> u8;

    /// The state after `val` is written at `addr` in state `m`.
    spec fn poke(m: Self::Mem, addr: int, val: u8) -> Self::Mem;

    /// Reads the byte at `addr`.
    fn read_byte(&self, addr: Addr) -> (r: u8)
        ensures
            r == Self::peek(self.mem(), addr@),
    ;

    /// Writes `val` at `addr`.
    fn write_byte(&mut self, addr: Addr, val: u8)
        ensures
            final(self).mem() == Self::poke(old(self).mem(), addr@, val),
    ;

    /// Reads the little-endian word at `addr`; its high byte is at the following address as
    /// `wrap` counts.
    fn read_word(&self, addr: Addr, wrap: AddrWrap) -> (r: u16)
        ensures
            r == word(Self::peek(self.mem(), addr@), Self::peek(self.mem(), addr_inc(addr@, wrap))),
    {
        let lo = self.read_byte(addr);
        let hi = self.read_byte(addr.inc(wrap));
        make_word(lo, hi)
    }

    /// Writes `val` as a little-endian word at `addr`; its high byte goes to the following
    /// address as `wrap` counts.
    fn write_word(&mut self, addr: Addr, wrap: AddrWrap, val: u16)
        ensures
            final(self).mem() == Self::poke(
                Self::poke(old(self).mem(), addr@, low_byte(val)),
                addr_inc(addr@, wrap),
                high_byte(val),
            ),
    {
        let lo = low(val);
        let hi = high(val);
        self.write_byte(addr, lo);
        self.write_byte(addr.inc(wrap), hi);
    }
}

/// The empty bus: every read gives 0xFF and writes go nowhere.
impl Bus for () {
    type Mem = ();

    open spec fn mem(&self) -> () {
        ()
    }

    open spec fn peek(m: (), addr: int) -> u8 {
        0xFF
    }

    open spec fn poke(m: (), addr: int, val: u8) -> () {
        ()
    }

    fn read_byte(&self, _addr: Addr) -> (r: u8) {
        0xFF
    }

    fn write_byte(&mut self, _addr: Addr, _val: u8) {
    }
}

/// A bus backed by plain memory over the whole 16MB address space.
pub struct Fake {
    banks: Vec<u8>,
}

impl Fake {

    /// A bus whose every byte is zero.
    pub fn new() -> (r: Self)
        ensures
            r.mem() == Seq::new(0x1000000, |i: int| 0u8),
    {
        Self { banks: vec![0u8; 0x1000000] }
    }
}

impl Bus for Fake {
    type Mem = Seq<u8>;

    closed spec fn mem(&self) -> Seq<u8> {
        self.banks@
    }

    open spec fn peek(m: Seq<u8>, addr: int) -> u8 {
        if 0 <= addr < m.len() {
            m[addr]
        } else {
            0
        }
    }

    open spec fn poke(m: Seq<u8>, addr: int, val: u8) -> Seq<u8> {
        if 0 <= addr < m.len() {
            m.update(addr, val)
        } else {
            m
        }
    }

    fn read_byte(&self, addr: Addr) -> (r: u8) {
        let i = addr.raw();
        if i < self.banks.len() {
            self.banks[i]
        } else {
            0
        }
    }

    fn write_byte(&mut self, addr: Addr, val: u8) {
        let i = addr.raw();
        if i < self.banks.len() {
            self.banks.set(i, val);
        }
    }
}

/// Adding to an address with byte wrapping changes only its low byte, and with word wrapping
/// only its low word; whatever the wrapping, the address stays within 24 bits.
pub proof fn lemma_wrap_add_bounds(a: int, n: int)
    requires
        0 <= a < 0x1000000,
    ensures
        wrap_add(a, n, AddrWrap::Byte) / 0x100 == a / 0x100,
        wrap_add(a, n, AddrWrap::Word) / 0x10000 == a / 0x10000,
        0 <= wrap_add(a, n, AddrWrap::Byte) < 0x1000000,
        0 <= wrap_add(a, n, AddrWrap::Word) < 0x1000000,
        0 <= wrap_add(a, n, AddrWrap::Long) < 0x1000000,
{
}

/// The address after another one, as any wrapping counts, is a different one.
pub proof fn lemma_addr_inc_differs(a: int, wrap: AddrWrap)
    requires
        0 <= a < 0x1000000,
    ensures
        addr_inc(a, wrap) != a,
{
}

/// A byte written to the plain memory bus is read back at its address, and every other address
/// reads as before.
pub proof fn lemma_fake_read_after_write(m: Seq<u8>, addr: int, val: u8, other: int)
    requires
        m.len() == 0x1000000,
        0 <= addr < 0x1000000,
    ensures
        Fake::peek(Fake::poke(m, addr, val), addr) == val,
        other != addr ==> Fake::peek(Fake::poke(m, addr, val), other) == Fake::peek(m, other),
{
}

/// A word written to the plain memory bus is read back at its address, whatever the wrapping
/// of its high byte.
pub proof fn lemma_fake_word_round_trip(m: Seq<u8>, addr: int, wrap: AddrWrap, val: u16)
    requires
        m.len() == 0x1000000,
        0 <= addr < 0x1000000,
    ensures
        ({
            let next = addr_inc(addr, wrap);
            let w = Fake::poke(Fake::poke(m, addr, low_byte(val)), next, high_byte(val));
            word(Fake::peek(w, addr), Fake::peek(w, next)) == val
        }),
{
    lemma_wrap_add_bounds(addr, 1);
    lemma_addr_inc_differs(addr, wrap);
    crate::utils::word::lemma_word_of_bytes(val);
}

} // verus!
