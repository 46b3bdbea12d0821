//! Memories of bytes and the banks they are made of.
use vstd::prelude::*;

use vstd::arithmetic::power2::{lemma_pow2_pos, lemma_pow2_strictly_increases, lemma_pow2_unfold, pow2};
use vstd::bits::{lemma_low_bits_mask_unfold, lemma_usize_low_bits_mask_is_mod, low_bits_mask};

use super::addr::Address;
use super::endian::{bytes_in_order, lemma_order_round_trip, word_in_order, Endianness};

verus! {

/// A memory of bytes, each at an address.
///
/// Each memory chooses a model of what it holds (`Model`): a read gives a byte that depends on
/// the model alone, and a write gives a new model. `peek` and `poke` say how.
pub trait Memory {
    /// What this memory holds, as far as reads and writes are concerned.
    type Model;

    /// The model of this memory.
    spec fn model(&self) -> Self::Model;

    /// The byte that a read of `addr` gives in the model `m`.
    spec fn peek(m: Self::Model, addr: Address) -> u8;

    /// The model after `val` is written at `addr` in the model `m`.
    spec fn poke(m: Self::Model, addr: Address, val: u8) -> Self::Model;

    /// Reads the byte at `addr`.
    fn read_byte(&self, addr: Address) -> (r: u8)
        ensures
            r == Self::peek(self.model(), addr),
    ;

    /// Writes `val` at `addr`.
    fn write_byte(&mut self, addr: Address, val: u8)
        ensures
            final(self).model() == Self::poke(old(self).model(), addr, val),
    ;

    /// Reads the word at `addr` and the address after it, its bytes in the order `O`.
    fn read_word<O: Endianness>(&self, addr: Address) -> (r: u16)
        requires
            addr@ < usize::MAX,
        ensures
            r == word_in_order(
                O::msb_first(),
                Self::peek(self.model(), addr),
                Self::peek(self.model(), addr.plus(1)),
            ),
    {
        let data = [self.read_byte(addr), self.read_byte(addr.offset(1))];
        O::read_u16(&data)
    }

    /// Writes `val` at `addr` and the address after it, its bytes in the order `O`.
    fn write_word<O: Endianness>(&mut self, addr: Address, val: u16)
        requires
            addr@ < usize::MAX,
        ensures
            final(self).model() == Self::poke(
                Self::poke(old(self).model(), addr, bytes_in_order(O::msb_first(), val)[0]),
                addr.plus(1),
                bytes_in_order(O::msb_first(), val)[1],
            ),
    {
        let mut data = [0u8; 2];
        O::write_u16(&mut data, val);
        self.write_byte(addr, data[0]);
        self.write_byte(addr.offset(1), data[1]);
    }
}

/// The number of address bits that a bank of `size` bytes decodes: the exponent of the largest
/// power of two that is not above `size`.
pub open spec fn bank_bits(size: nat) -> nat
    decreases size,
{
    if size <= 1 {
        0
    } else {
        1 + bank_bits(size / 2)
    }
}

/// What a memory bank holds: its bytes, whether it is marked read-only, and the number of
/// address bits it decodes.
pub struct BankState {
    pub data: Seq<u8>,
    pub readonly: bool,
    pub bits: nat,
}

impl BankState {
    /// Every location that the decoded address bits reach is a byte of the bank.
    pub open spec fn valid(self) -> bool {
        pow2(self.bits) <= self.data.len()
    }

    /// The location of the bank that `addr` reaches: the bank sees only the low `bits` bits of
    /// an address, so that its content repeats every `2^bits` addresses.
    pub open spec fn offset(self, addr: Address) -> int {
        (addr@ % pow2(self.bits)) as int
    }
}

/// A bank of memory: a run of bytes, of which the first power of two are reached by the low
/// bits of an address.
pub struct MemoryBank {
    data: Vec<u8>,
    readonly: bool,
    addr_mask: usize,
    bits: Ghost<nat>,
}

/// A power of two that fits in a `usize` has an exponent below its width.
proof fn lemma_bits_below_width(bits: nat)
    requires
        pow2(bits) <= usize::MAX,
    ensures
        bits < usize::BITS,
{
    vstd::arithmetic::power2::lemma2_to64();
    if bits >= usize::BITS {
        if bits > usize::BITS {
            lemma_pow2_strictly_increases(usize::BITS as nat, bits);
        }
    }
}

/// The largest power of two that is not above `size` is not above it.
proof fn lemma_bank_bits_fit(size: nat)
    requires
        size >= 1,
    ensures
        pow2(bank_bits(size)) <= size,
    decreases size,
{
    if size > 1 {
        lemma_bank_bits_fit(size / 2);
        lemma_pow2_unfold(bank_bits(size));
    } else {
        vstd::arithmetic::power2::lemma2_to64();
    }
}

impl MemoryBank {
    /// The mask holds the decoded bits, and they reach only bytes of the bank.
    #[verifier::type_invariant]
    spec fn decodes(self) -> bool {
        &&& self.bits@ < usize::BITS
        &&& pow2(self.bits@) <= self.data.len()
        &&& self.addr_mask == low_bits_mask(self.bits@)
    }

    /// A bank of `size` bytes, all zero and writable.
    pub fn with_size(size: usize) -> (r: MemoryBank)
        requires
            size >= 1,
        ensures
            r@.data == Seq::new(size as nat, |i: int| 0u8),
            !r@.readonly,
            r@.bits == bank_bits(size as nat),
            r@.valid(),
    {
        let data = vec![0u8; size];
        let addr_mask = Self::addr_mask_from_size(size);
        proof {
            lemma_bank_bits_fit(size as nat);
            lemma_bits_below_width(bank_bits(size as nat));
            assert(data@ == Seq::new(size as nat, |i: int| 0u8));
        }
        MemoryBank { data, readonly: false, addr_mask, bits: Ghost(bank_bits(size as nat)) }
    }

    /// The number of bytes of the bank.
    pub fn size(&self) -> (r: usize)
        ensures
            r == self@.data.len(),
    {
        self.data.len()
    }

    /// Marks the bank read-only, or not.
    pub fn set_readonly(&mut self, val: bool)
        ensures
            final(self)@ == (BankState { readonly: val, ..old(self)@ }),
    {
        proof {
            use_type_invariant(&*self);
        }
        self.readonly = val;
    }

    /// The mask of the address bits that a bank of `size` bytes decodes.
    fn addr_mask_from_size(size: usize) -> (r: usize)
        requires
            size >= 1,
        ensures
            r == low_bits_mask(bank_bits(size as nat)),
    {
        let total = size;
        let mut size = size;
        let mut mask: usize = 0;
        let ghost mut k: nat = 0;
        proof {
            lemma_bank_bits_fit(total as nat);
            vstd::arithmetic::power2::lemma2_to64();
        }
        while (size - 1) > 0
            invariant
                size >= 1,
                mask == low_bits_mask(k),
                k + bank_bits(size as nat) == bank_bits(total as nat),
                pow2(bank_bits(total as nat)) <= total,
            decreases size,
        {
            assert(size >> 1 == size / 2) by (bit_vector);
            size = size >> 1;
            proof {
                lemma_low_bits_mask_unfold(k + 1);
                lemma_pow2_pos(k + 1);
                if k + 1 < bank_bits(total as nat) {
                    lemma_pow2_strictly_increases(k + 1, bank_bits(total as nat));
                }
            }
            assert(2 * mask + 2 <= total);
            assert((mask << 1) | 1 == 2 * mask + 1) by (bit_vector)
                requires
                    2 * mask + 2 <= total,
            ;
            mask = (mask << 1) | 1;
            proof {
                k = k + 1;
            }
        }
        mask
    }
}

/// The error of std's I/O functions, so that signatures can name it; nothing is stated of it.
#[verifier::external_type_specification]
#[verifier::external_body]
pub struct ExIoError(std::io::Error);

/// `std::io::copy` from a byte slice into a vector. Reading from a `&[u8]` and writing to a
/// `Vec<u8>` never fail, and a `Vec<u8>` takes what is written to it by appending it: the copy
/// succeeds, appends all of `input` and returns its length.
#[verifier::external_body]
fn copy_into(input: &[u8], output: &mut Vec<u8>) -> (r: std::io::Result<u64>)
    ensures
        r is Ok,
        r->Ok_0 == input@.len(),
        final(output)@ == old(output)@ + input@,
    no_unwind
{
    let mut reader = input;
    std::io::copy(&mut reader, output)
}

impl MemoryBank {
    /// Appends `data` to the bytes of the bank and returns how many were appended; this always
    /// succeeds. The address bits that the bank decodes do not change.
    pub fn set_data(&mut self, data: &[u8]) -> (r: std::io::Result<u64>)
        ensures
            final(self)@.readonly == old(self)@.readonly,
            final(self)@.bits == old(self)@.bits,
            r is Ok,
            r->Ok_0 == data@.len(),
            final(self)@.data == old(self)@.data + data@,
        no_unwind
    {
        proof {
            use_type_invariant(&*self);
        }
        copy_into(data, &mut self.data)
    }
}

impl View for MemoryBank {
    type V = BankState;

    closed spec fn view(&self) -> BankState {
        BankState { data: self.data@, readonly: self.readonly, bits: self.bits@ }
    }
}

impl Memory for MemoryBank {
    type Model = BankState;

    open spec fn model(&self) -> BankState {
        self@
    }

    open spec fn peek(m: BankState, addr: Address) -> u8 {
        m.data[m.offset(addr)]
    }

    open spec fn poke(m: BankState, addr: Address, val: u8) -> BankState {
        BankState { data: m.data.update(m.offset(addr), val), ..m }
    }

    fn read_byte(&self, addr: Address) -> (r: u8) {
        proof {
            use_type_invariant(self);
            lemma_usize_low_bits_mask_is_mod(addr@ as usize, self.bits@);
            lemma_pow2_pos(self.bits@);
        }
        let offset = addr.value() & self.addr_mask;
        self.data[offset]
    }

    fn write_byte(&mut self, addr: Address, val: u8) {
        proof {
            use_type_invariant(&*self);
            lemma_usize_low_bits_mask_is_mod(addr@ as usize, self.bits@);
            lemma_pow2_pos(self.bits@);
        }
        let offset = addr.value() & self.addr_mask;
        self.data[offset] = val;
    }
}

/// A byte written to a bank is read back at its address, and an address that reaches another
/// location of the bank reads as before.
pub proof fn lemma_bank_read_after_write(m: BankState, addr: Address, val: u8, other: Address)
    requires
        m.valid(),
    ensures
        MemoryBank::peek(MemoryBank::poke(m, addr, val), addr) == val,
        m.offset(other) != m.offset(addr) ==> MemoryBank::peek(MemoryBank::poke(m, addr, val), other)
            == MemoryBank::peek(m, other),
{
    lemma_pow2_pos(m.bits);
}

/// The content of a bank repeats every `2^bits` addresses: two addresses that far apart read
/// the same byte.
pub proof fn lemma_bank_mirrors(m: BankState, addr: Address, other: Address, k: nat)
    requires
        other@ == addr@ + k * pow2(m.bits),
    ensures
        MemoryBank::peek(m, other) == MemoryBank::peek(m, addr),
{
    lemma_pow2_pos(m.bits);
    vstd::arithmetic::div_mod::lemma_mod_multiples_vanish(k as int, addr@ as int, pow2(m.bits) as int);
    vstd::arithmetic::mul::lemma_mul_is_commutative(k as int, pow2(m.bits) as int);
}

/// A power of two decodes as many address bits as its exponent.
pub proof fn lemma_bank_bits_power_of_two(k: nat)
    ensures
        bank_bits(pow2(k)) == k,
    decreases k,
{
    vstd::arithmetic::power2::lemma2_to64();
    if k > 0 {
        lemma_pow2_unfold(k);
        lemma_pow2_pos((k - 1) as nat);
        lemma_bank_bits_power_of_two((k - 1) as nat);
        assert(pow2(k) / 2 == pow2((k - 1) as nat));
    }
}

/// A bank made with a size that is a power of two reaches the location of an address modulo
/// its size.
pub proof fn lemma_power_of_two_bank_offset(m: BankState, addr: Address, k: nat)
    requires
        m.data.len() == pow2(k),
        m.bits == bank_bits(m.data.len()),
    ensures
        m.offset(addr) == addr@ % m.data.len(),
{
    lemma_bank_bits_power_of_two(k);
}

/// Adjacent addresses reach different locations of a bank that decodes at least one bit.
proof fn lemma_next_offset_differs(m: BankState, addr: Address)
    requires
        m.bits >= 1,
        addr@ < usize::MAX,
    ensures
        m.offset(addr.plus(1)) != m.offset(addr),
{
    let p = pow2(m.bits) as int;
    lemma_pow2_unfold(m.bits);
    lemma_pow2_pos((m.bits - 1) as nat);
    addr.lemma_plus(1);
    let a = addr@ as int;
    vstd::arithmetic::div_mod::lemma_add_mod_noop(a, 1, p);
    vstd::arithmetic::div_mod::lemma_small_mod(1, p as nat);
    let r = a % p;
    if r + 1 < p {
        vstd::arithmetic::div_mod::lemma_small_mod((r + 1) as nat, p as nat);
    } else {
        vstd::arithmetic::div_mod::lemma_mod_add_multiples_vanish(0, p);
    }
}

/// A word written to a bank of more than one byte is read back at its address, in either byte
/// order.
pub proof fn lemma_bank_word_round_trip(m: BankState, addr: Address, val: u16, msb_first: bool)
    requires
        m.valid(),
        m.bits >= 1,
        addr@ < usize::MAX,
    ensures
        ({
            let bytes = bytes_in_order(msb_first, val);
            let w = MemoryBank::poke(MemoryBank::poke(m, addr, bytes[0]), addr.plus(1), bytes[1]);
            word_in_order(msb_first, MemoryBank::peek(w, addr), MemoryBank::peek(w, addr.plus(1)))
                == val
        }),
{
    let bytes = bytes_in_order(msb_first, val);
    let m1 = MemoryBank::poke(m, addr, bytes[0]);
    lemma_next_offset_differs(m, addr);
    lemma_bank_read_after_write(m, addr, bytes[0], addr);
    lemma_bank_read_after_write(m1, addr.plus(1), bytes[1], addr.plus(1));
    lemma_bank_read_after_write(m1, addr.plus(1), bytes[1], addr);
    lemma_order_round_trip(msb_first, val);
}

/// A memory made of banks: each address is served by the bank that the controller selects for
/// it, if any. Reads and writes may be served by different banks, so that a read-only bank
/// can be shadowed on writes.
pub trait MemoryController {
    /// What the controller holds, its banks among it.
    type Banks;

    /// The model of this controller.
    spec fn banks(&self) -> Self::Banks;

    /// The bank that serves reads of `addr`, if any.
    spec fn bank_for(m: Self::Banks, addr: Address) -> Option<BankState>;

    /// The bank that serves writes to `addr`, if any.
    spec fn writable_bank_for(m: Self::Banks, addr: Address) -> Option<BankState>;

    /// The model after the bank that serves writes to `addr` becomes `bank`.
    spec fn with_bank(m: Self::Banks, addr: Address, bank: BankState) -> Self::Banks;

    /// The bank that serves reads of `addr`.
    fn bank(&self, addr: Address) -> (r: Option<&MemoryBank>)
        ensures
            match r {
                Some(b) => Self::bank_for(self.banks(), addr) == Some(b@),
                None => Self::bank_for(self.banks(), addr) is None,
            },
    ;

    /// The bank that serves writes to `addr`.
    fn bank_mut(&mut self, addr: Address) -> (r: Option<&mut MemoryBank>)
        ensures
            match r {
                Some(b) => {
                    &&& Self::writable_bank_for(old(self).banks(), addr) == Some(b@)
                    &&& final(self).banks() == Self::with_bank(old(self).banks(), addr, final(b)@)
                },
                None => {
                    &&& Self::writable_bank_for(old(self).banks(), addr) is None
                    &&& final(self).banks() == old(self).banks()
                },
            },
    ;
}

impl<M: MemoryController> Memory for M {
    type Model = M::Banks;

    open spec fn model(&self) -> M::Banks {
        self.banks()
    }

    open spec fn peek(m: M::Banks, addr: Address) -> u8 {
        match M::bank_for(m, addr) {
            Some(b) => <MemoryBank as Memory>::peek(b, addr),
            None => 0,
        }
    }

    open spec fn poke(m: M::Banks, addr: Address, val: u8) -> M::Banks {
        match M::writable_bank_for(m, addr) {
            Some(b) => M::with_bank(m, addr, <MemoryBank as Memory>::poke(b, addr, val)),
            None => m,
        }
    }

    fn read_byte(&self, addr: Address) -> (r: u8) {
        match self.bank(addr) {
            Some(bank) => bank.read_byte(addr),
            None => 0,
        }
    }

    fn write_byte(&mut self, addr: Address, val: u8) {
        if let Some(bank) = self.bank_mut(addr) {
            bank.write_byte(addr, val);
        }
    }
}

} // verus!
