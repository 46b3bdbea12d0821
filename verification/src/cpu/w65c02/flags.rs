use vstd::prelude::*;

verus! {

/// One flag of the W65C02 processor status register.
#[allow(non_camel_case_types)]
#[derive(Clone, Copy, Debug, PartialEq, Eq, Structural)]
pub enum Flags {
    CARRY,
    ZERO,
    INTERRUPT,
    DECIMAL,
    BREAK,
    UNUSED,
    OVERFLOW,
    NEGATIVE,
}

/// The processor status register of the W65C02: a set of flags, one bit each.
#[derive(Clone, Copy, Debug, PartialEq, Eq, Structural)]
pub struct Status {
    pub bits: u8,
}

/// The bit that a flag occupies in the status register.
pub open spec fn flag_mask(f: Flags) -> u8 {
    match f {
        Flags::CARRY => 0x01,
        Flags::ZERO => 0x02,
        Flags::INTERRUPT => 0x04,
        Flags::DECIMAL => 0x08,
        Flags::BREAK => 0x10,
        Flags::UNUSED => 0x20,
        Flags::OVERFLOW => 0x40,
        Flags::NEGATIVE => 0x80,
    }
}

/// The status byte `p` with the bit `mask` set when `on` holds and cleared otherwise.
pub open spec fn with_bit(p: u8, mask: u8, on: bool) -> u8 {
    if on {
        p | mask
    } else {
        p & !mask
    }
}

impl View for Status {
    type V = u8;

    open spec fn view(&self) -> u8 {
        self.bits
    }
}

impl Flags {
    /// The bit of this flag in the status register.
    pub fn mask(self) -> (r: u8)
        ensures
            r == flag_mask(self),
    {
        match self {
            Flags::CARRY => 0x01,
            Flags::ZERO => 0x02,
            Flags::INTERRUPT => 0x04,
            Flags::DECIMAL => 0x08,
            Flags::BREAK => 0x10,
            Flags::UNUSED => 0x20,
            Flags::OVERFLOW => 0x40,
            Flags::NEGATIVE => 0x80,
        }
    }

    /// The status register with no flag set.
    pub fn empty() -> (r: Status)
        ensures
            r@ == 0,
    {
        Status { bits: 0 }
    }

    /// The status register holding exactly the given bits; every bit names a flag, so
    /// this always succeeds.
    pub fn from_bits(bits: u8) -> (r: Option<Status>)
        ensures
            r matches Some(s) && s@ == bits,
    {
        Some(Status { bits })
    }

    /// The status register holding the given bits, those naming no flag dropped (none is).
    pub fn from_bits_truncate(bits: u8) -> (r: Status)
        ensures
            r@ == bits,
    {
        Status { bits }
    }
}

impl Status {
    /// The register holding exactly the given bits.
    pub fn from_bits_retain(bits: u8) -> (r: Status)
        ensures
            r@ == bits,
    {
        Status { bits }
    }

    /// The raw bits of the register.
    pub fn bits(&self) -> (r: u8)
        ensures
            r == self@,
    {
        self.bits
    }

    /// Whether the given flag is set.
    pub fn contains(&self, flag: Flags) -> (r: bool)
        ensures
            r == (self@ & flag_mask(flag) != 0),
    {
        self.bits & flag.mask() != 0
    }

    /// Sets the given flag.
    pub fn insert(&mut self, flag: Flags)
        ensures
            final(self)@ == old(self)@ | flag_mask(flag),
    {
        self.bits = self.bits | flag.mask();
    }

    /// Clears the given flag.
    pub fn remove(&mut self, flag: Flags)
        ensures
            final(self)@ == old(self)@ & !flag_mask(flag),
    {
        self.bits = self.bits & !flag.mask();
    }

    /// Sets the given flag when `value` holds and clears it otherwise.
    pub fn set(&mut self, flag: Flags, value: bool)
        ensures
            final(self)@ == with_bit(old(self)@, flag_mask(flag), value),
    {
        if value {
            self.insert(flag);
        } else {
            self.remove(flag);
        }
    }
}

/// Once a flag is set the register contains it, and once it is cleared the register does not;
/// either leaves every other flag as it was.
pub proof fn lemma_insert_remove(p: u8, f: Flags, g: Flags)
    ensures
        (p | flag_mask(f)) & flag_mask(f) != 0,
        (p & !flag_mask(f)) & flag_mask(f) == 0,
        g != f ==> ((p | flag_mask(f)) & flag_mask(g) != 0) == (p & flag_mask(g) != 0),
        g != f ==> ((p & !flag_mask(f)) & flag_mask(g) != 0) == (p & flag_mask(g) != 0),
{
    crate::utils::word::lemma_single_bit_ops(p, flag_mask(f), flag_mask(g));
}

impl core::ops::BitOr for Flags {
    type Output = Status;

    fn bitor(self, rhs: Flags) -> (r: Status) {
        Status { bits: self.mask() | rhs.mask() }
    }
}

impl vstd::std_specs::ops::BitOrSpecImpl for Flags {
    open spec fn obeys_bitor_spec() -> bool {
        true
    }

    open spec fn bitor_req(self, rhs: Flags) -> bool {
        true
    }

    open spec fn bitor_spec(self, rhs: Flags) -> Status {
        Status { bits: flag_mask(self) | flag_mask(rhs) }
    }
}

impl core::ops::BitOr<Flags> for Status {
    type Output = Status;

    fn bitor(self, rhs: Flags) -> (r: Status) {
        Status { bits: self.bits | rhs.mask() }
    }
}

impl vstd::std_specs::ops::BitOrSpecImpl<Flags> for Status {
    open spec fn obeys_bitor_spec() -> bool {
        true
    }

    open spec fn bitor_req(self, rhs: Flags) -> bool {
        true
    }

    open spec fn bitor_spec(self, rhs: Flags) -> Status {
        Status { bits: self.bits | flag_mask(rhs) }
    }
}

} // verus!
