//! Buses: channels through which devices exchange data, each identified by an address.
use vstd::prelude::*;

pub mod addr;
pub mod endian;
pub mod memory;

use self::endian::{word_in_order, Endianness};

verus! {

/// An address is any type that can be used to identify a bus target
pub trait Address: Copy + Into<usize> {}

impl Address for u8 {}

impl Address for u16 {}

/// A data is any type that be used to represented exchanged information
pub trait Data: Copy + Default {}

impl Data for u8 {}

impl Data for u16 {}

/// A bus is a channel that can be used to communicate devices.
///
/// The bus is operated via read and write operations using an address to identify the target.
/// Both the data exchanged and the addresses are defined by the implementation. Please note
/// a memory system is a special case of a bus. In such case, each memory location can be seen
/// as a independent device.
pub trait Bus<A: Address, D: Data> {
    /// Whether a read of `addr` may give `val` and leave the bus as `after`. Each bus says what
    /// its reads do; a bus of devices may answer as they decide.
    spec fn reads(&self, addr: A, after: &Self, val: D) -> bool;

    /// Whether a write of `val` to `addr` may leave the bus as `after`.
    spec fn writes(&self, addr: A, val: D, after: &Self) -> bool;

    /// Read data from the given address.
    fn read_from(&mut self, addr: A) -> (r: D)
        ensures
            old(self).reads(addr, final(self), r),
    ;

    /// Write data to the given address.
    fn write_to(&mut self, addr: A, val: D)
        ensures
            old(self).writes(addr, val, final(self)),
    ;
}

/// A boxed bus is the bus in the box: reads and writes go to it.
impl<T: Bus<A, D>, A: Address, D: Data> Bus<A, D> for Box<T> {
    open spec fn reads(&self, addr: A, after: &Self, val: D) -> bool {
        (**self).reads(addr, &**after, val)
    }

    open spec fn writes(&self, addr: A, val: D, after: &Self) -> bool {
        (**self).writes(addr, val, &**after)
    }

    fn read_from(&mut self, addr: A) -> (r: D) {
        (**self).read_from(addr)
    }

    fn write_to(&mut self, addr: A, val: D) {
        (**self).write_to(addr, val)
    }
}

/// A dead bus is a bus that does not respond to read or write operations.
///
/// For read operations, it returns the default value for the data type used in the bus. For write
/// actions, it simply ignores the operation. It only makes sense for testing or development only.
pub struct Dead;

impl<A: Address, D: Data> Bus<A, D> for Dead {
    open spec fn reads(&self, addr: A, after: &Self, val: D) -> bool {
        *after == *self && call_ensures(D::default, (), val)
    }

    open spec fn writes(&self, addr: A, val: D, after: &Self) -> bool {
        *after == *self
    }

    fn read_from(&mut self, _addr: A) -> (r: D)
        ensures
            *final(self) == *old(self),
            call_ensures(D::default, (), r),
    {
        D::default()
    }

    fn write_to(&mut self, _addr: A, _val: D)
        ensures
            *final(self) == *old(self),
    {
    }
}

/// A memory that reads runs of bytes from an address.
pub trait Memory {
    /// How a location of this memory is identified.
    type Addr;

    /// The `n` bytes that a read at `addr` gives.
    spec fn bytes_from(&self, addr: Self::Addr, n: nat) -> Seq<u8>;

    /// Fills `buf` with the bytes from `addr` on.
    fn read(&self, addr: Self::Addr, buf: &mut [u8])
        ensures
            final(buf)@ == self.bytes_from(addr, old(buf)@.len()),
    ;

    /// Reads the byte at `addr` as a signed number.
    fn read_i8(&self, addr: Self::Addr) -> (r: i8)
        ensures
            r == self.bytes_from(addr, 1)[0] as i8,
    {
        let mut buf = [0u8; 1];
        self.read(addr, &mut buf);
        buf[0] as i8
    }

    /// Reads the signed word at `addr`, its bytes in the order `O`.
    fn read_i16<O: Endianness>(&self, addr: Self::Addr) -> (r: i16)
        ensures
            r == word_in_order(O::msb_first(), self.bytes_from(addr, 2)[0], self.bytes_from(addr, 2)[1]) as i16,
    {
        let mut buf = [0u8; 2];
        self.read(addr, &mut buf);
        O::read_i16(&buf)
    }
}

} // verus!
