//! The buses of the Z80: a memory bus and an I/O bus.
use vstd::prelude::*;

use std::collections::HashMap;

use byteorder::LittleEndian;

use crate::bus::endian::Endianness;
use crate::utils::word::{high_byte, low_byte, word};

verus! {

broadcast use vstd::std_specs::hash::group_hash_axioms;

/// An address of the memory bus.
pub type MemAddr = u16;

/// An address of the I/O bus.
pub type IOAddr = u8;

/// The memory address after `addr`, wrapping at the end of the address space.
pub open spec fn mem_next(addr: MemAddr) -> MemAddr {
    ((addr + 1) % 0x10000) as u16
}

/// A memory bus.
///
/// Each bus chooses a model of what it holds (`Mem`): a read gives a byte that depends on the
/// model alone, and a write gives a new model. `mem_peek` and `mem_poke` say how. A bus can
/// be read and written only while `mem_usable` holds, which a write keeps.
pub trait MemBus {
    /// What this bus holds, as far as reads and writes are concerned.
    type Mem;

    /// The model of this bus.
    spec fn mem(&self) -> Self::Mem;

    /// Whether the bus can be read and written.
    spec fn mem_usable(&self) -> bool;

    /// The byte that a read of `addr` gives in the model `m`.
    spec fn mem_peek(m: Self::Mem, addr: MemAddr) -> u8;

    /// The model after `val` is written at `addr` in the model `m`.
    spec fn mem_poke(m: Self::Mem, addr: MemAddr, val: u8) -> Self::Mem;

    /// Reads the byte at `addr`.
    fn mem_read(&self, addr: MemAddr) -> (r: u8)
        requires
            self.mem_usable(),
        ensures
            r == Self::mem_peek(self.mem(), addr),
    ;

    /// Writes `val` at `addr`.
    fn mem_write(&mut self, addr: MemAddr, val: u8)
        requires
            old(self).mem_usable(),
        ensures
            final(self).mem_usable(),
            final(self).mem() == Self::mem_poke(old(self).mem(), addr, val),
    ;

    /// Reads the little-endian word at `addr`, its high byte at the following address.
    fn mem_read16(&self, addr: MemAddr) -> (r: u16)
        requires
            self.mem_usable(),
        ensures
            r == word(
                Self::mem_peek(self.mem(), addr),
                Self::mem_peek(self.mem(), mem_next(addr)),
            ),
    {
        let addr2 = addr.wrapping_add(1);
        let bytes = [self.mem_read(addr), self.mem_read(addr2)];
        <LittleEndian as Endianness>::read_u16(&bytes)
    }

    /// Writes `val` as a little-endian word at `addr`, its high byte at the following address.
    fn mem_write16(&mut self, addr: MemAddr, val: u16)
        requires
            old(self).mem_usable(),
        ensures
            final(self).mem_usable(),
            final(self).mem() == Self::mem_poke(
                Self::mem_poke(old(self).mem(), addr, low_byte(val)),
                mem_next(addr),
                high_byte(val),
            ),
    {
        let addr2 = addr.wrapping_add(1);
        let mut data = [0u8; 2];
        <LittleEndian as Endianness>::write_u16(&mut data, val);
        self.mem_write(addr, data[0]);
        self.mem_write(addr2, data[1]);
    }
}

/// A vector of bytes as a memory bus, for testing: the address space wraps around the vector.
impl MemBus for Vec<u8> {
    type Mem = Seq<u8>;

    open spec fn mem(&self) -> Seq<u8> {
        self@
    }

    open spec fn mem_usable(&self) -> bool {
        self@.len() > 0
    }

    open spec fn mem_peek(m: Seq<u8>, addr: MemAddr) -> u8 {
        m[addr as int % m.len() as int]
    }

    open spec fn mem_poke(m: Seq<u8>, addr: MemAddr, val: u8) -> Seq<u8> {
        m.update(addr as int % m.len() as int, val)
    }

    fn mem_read(&self, addr: MemAddr) -> (r: u8) {
        let offset = (addr as usize) % self.len();
        self[offset]
    }

    fn mem_write(&mut self, addr: MemAddr, val: u8) {
        let offset = (addr as usize) % self.len();
        self[offset] = val;
    }
}

/// A byte written to a vector memory is read back at its address, and an address that reaches
/// another byte of the vector reads as before.
pub proof fn lemma_vec_read_after_write(m: Seq<u8>, addr: MemAddr, val: u8, other: MemAddr)
    requires
        m.len() > 0,
    ensures
        <Vec<u8> as MemBus>::mem_peek(<Vec<u8> as MemBus>::mem_poke(m, addr, val), addr) == val,
        other as int % m.len() as int != addr as int % m.len() as int ==> <Vec<u8> as MemBus>::mem_peek(
            <Vec<u8> as MemBus>::mem_poke(m, addr, val),
            other,
        ) == <Vec<u8> as MemBus>::mem_peek(m, other),
{
}

/// A word written to a vector memory is read back at its address, unless its two bytes land
/// on the same byte of the vector.
pub proof fn lemma_vec_word_round_trip(m: Seq<u8>, addr: MemAddr, val: u16)
    requires
        m.len() > 0,
        addr as int % m.len() as int != mem_next(addr) as int % m.len() as int,
    ensures
        ({
            let w = <Vec<u8> as MemBus>::mem_poke(
                <Vec<u8> as MemBus>::mem_poke(m, addr, low_byte(val)),
                mem_next(addr),
                high_byte(val),
            );
            word(<Vec<u8> as MemBus>::mem_peek(w, addr), <Vec<u8> as MemBus>::mem_peek(w, mem_next(addr)))
                == val
        }),
{
    crate::utils::word::lemma_word_of_bytes(val);
}

/// An I/O bus.
///
/// Each bus chooses a model of its ports (`Ports`): a read gives a byte that depends on the
/// model alone, and a write gives a new model. `io_peek` and `io_poke` say how. A port can be
/// read only where `io_readable` holds.
pub trait IOBus {
    /// What the ports of this bus hold.
    type Ports;

    /// The model of this bus.
    spec fn ports(&self) -> Self::Ports;

    /// Whether the port `addr` can be read.
    spec fn io_readable(&self, addr: IOAddr) -> bool;

    /// The byte that a read of the port `addr` gives in the model `p`.
    spec fn io_peek(p: Self::Ports, addr: IOAddr) -> u8;

    /// The model after `val` is written to the port `addr` in the model `p`.
    spec fn io_poke(p: Self::Ports, addr: IOAddr, val: u8) -> Self::Ports;

    /// Reads the port `addr`.
    fn io_read(&self, addr: IOAddr) -> (r: u8)
        requires
            self.io_readable(addr),
        ensures
            r == Self::io_peek(self.ports(), addr),
    ;

    /// Writes `val` to the port `addr`.
    fn io_write(&mut self, addr: IOAddr, val: u8)
        ensures
            final(self).ports() == Self::io_poke(old(self).ports(), addr, val),
    ;
}

/// A map from ports to bytes as an I/O bus, for testing: a port can be read once it holds a
/// byte.
impl IOBus for HashMap<IOAddr, u8> {
    type Ports = Map<IOAddr, u8>;

    open spec fn ports(&self) -> Map<IOAddr, u8> {
        self@
    }

    open spec fn io_readable(&self, addr: IOAddr) -> bool {
        self@.contains_key(addr)
    }

    open spec fn io_peek(p: Map<IOAddr, u8>, addr: IOAddr) -> u8 {
        p[addr]
    }

    open spec fn io_poke(p: Map<IOAddr, u8>, addr: IOAddr, val: u8) -> Map<IOAddr, u8> {
        p.insert(addr, val)
    }

    fn io_read(&self, addr: IOAddr) -> (r: u8) {
        match self.get(&addr) {
            Some(v) => *v,
            None => 0,
        }
    }

    fn io_write(&mut self, addr: IOAddr, val: u8) {
        self.insert(addr, val);
    }
}

/// A byte written to a port of a map is read back from that port, and every other port reads as
/// before.
pub proof fn lemma_map_io_read_after_write(p: Map<IOAddr, u8>, addr: IOAddr, val: u8, other: IOAddr)
    ensures
        <HashMap<IOAddr, u8> as IOBus>::io_peek(<HashMap<IOAddr, u8> as IOBus>::io_poke(p, addr, val), addr)
            == val,
        other != addr ==> <HashMap<IOAddr, u8> as IOBus>::io_peek(
            <HashMap<IOAddr, u8> as IOBus>::io_poke(p, addr, val),
            other,
        ) == <HashMap<IOAddr, u8> as IOBus>::io_peek(p, other),
{
}

/// A Z80 bus, comprised by memory and IO sub-buses.
pub trait Bus: MemBus + IOBus {}

impl<T: MemBus + IOBus> Bus for T {}

} // verus!
