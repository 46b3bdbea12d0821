//! Addresses of a memory, as offsets from its first location.
use vstd::prelude::*;

use std::ops::Add;

verus! {

/// The address of a memory location: its offset from the first one.
#[derive(Clone, Copy, Debug, Eq, PartialEq, Structural)]
pub struct Address(usize);

impl View for Address {
    type V = nat;

    closed spec fn view(&self) -> nat {
        self.0 as nat
    }
}

impl Address {
    /// The address `n` locations after this one.
    pub closed spec fn plus(self, n: nat) -> Address {
        Address((self.0 + n) as usize)
    }

    /// An address `n` locations after another one is `n` further, unless it falls outside the
    /// addresses that a `usize` can hold.
    pub proof fn lemma_plus(self, n: nat)
        requires
            self@ + n <= usize::MAX,
        ensures
            self.plus(n)@ == self@ + n,
    {
    }

    /// The address `n` locations after this one.
    pub fn offset(self, n: usize) -> (r: Address)
        requires
            self@ + n <= usize::MAX,
        ensures
            r@ == self@ + n,
            r == self.plus(n as nat),
    {
        Address(self.0 + n)
    }

    /// The address as a number.
    pub fn value(self) -> (r: usize)
        ensures
            r == self@,
    {
        self.0
    }
}

impl Add for Address {
    type Output = Address;

    fn add(self, rhs: Address) -> (r: Address)
        ensures
            r@ == self@ + rhs@,
            r == self.plus(rhs@),
    {
        self.offset(rhs.0)
    }
}

impl vstd::std_specs::ops::AddSpecImpl for Address {
    open spec fn obeys_add_spec() -> bool {
        true
    }

    open spec fn add_req(self, rhs: Address) -> bool {
        self@ + rhs@ <= usize::MAX
    }

    open spec fn add_spec(self, rhs: Address) -> Address {
        self.plus(rhs@)
    }
}

impl Add<usize> for Address {
    type Output = Address;

    fn add(self, rhs: usize) -> (r: Address)
        ensures
            r@ == self@ + rhs,
            r == self.plus(rhs as nat),
    {
        self.offset(rhs)
    }
}

impl vstd::std_specs::ops::AddSpecImpl<usize> for Address {
    open spec fn obeys_add_spec() -> bool {
        true
    }

    open spec fn add_req(self, rhs: usize) -> bool {
        self@ + rhs <= usize::MAX
    }

    open spec fn add_spec(self, rhs: usize) -> Address {
        self.plus(rhs as nat)
    }
}

impl From<u16> for Address {
    fn from(val: u16) -> (r: Address)
        ensures
            r@ == val,
    {
        Address(val as usize)
    }
}

impl vstd::std_specs::convert::FromSpecImpl<u16> for Address {
    open spec fn obeys_from_spec() -> bool {
        true
    }

    closed spec fn from_spec(val: u16) -> Address {
        Address(val as usize)
    }
}

impl From<Address> for u16 {
    fn from(val: Address) -> (r: u16)
        ensures
            r == val@ % 0x10000,
    {
        let v = val.0;
        let r = v as u16;
        assert(r == v % 0x10000) by (bit_vector)
            requires
                r == v as u16,
        ;
        r
    }
}

impl vstd::std_specs::convert::FromSpecImpl<Address> for u16 {
    open spec fn obeys_from_spec() -> bool {
        true
    }

    open spec fn from_spec(val: Address) -> u16 {
        (val@ % 0x10000) as u16
    }
}

impl From<Address> for usize {
    fn from(val: Address) -> (r: usize)
        ensures
            r == val@,
    {
        val.0
    }
}

impl vstd::std_specs::convert::FromSpecImpl<Address> for usize {
    open spec fn obeys_from_spec() -> bool {
        true
    }

    open spec fn from_spec(val: Address) -> usize {
        val@ as usize
    }
}

} // verus!
