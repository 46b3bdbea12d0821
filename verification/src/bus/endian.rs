//! The order in which the two bytes of a 16-bit word are laid out in memory.
use vstd::prelude::*;

use byteorder::{BigEndian, ByteOrder, LittleEndian};

use crate::utils::word::{high_byte, low_byte, word};

verus! {

/// The big-endian byte order of byteorder (a type without values), so that signatures can name
/// it; nothing is stated of it.
#[verifier::external_type_specification]
#[verifier::external_body]
pub struct ExBigEndian(BigEndian);

/// The little-endian byte order of byteorder (a type without values), so that signatures can
/// name it; nothing is stated of it.
#[verifier::external_type_specification]
#[verifier::external_body]
pub struct ExLittleEndian(LittleEndian);

/// The word whose bytes, in memory order, are `b0` then `b1`: with the most significant byte
/// first, `b0` is the high byte; otherwise it is the low one.
pub open spec fn word_in_order(msb_first: bool, b0: u8, b1: u8) -> u16 {
    if msb_first {
        word(b1, b0)
    } else {
        word(b0, b1)
    }
}

/// The two bytes of `v`, in memory order.
pub open spec fn bytes_in_order(msb_first: bool, v: u16) -> Seq<u8> {
    if msb_first {
        seq![high_byte(v), low_byte(v)]
    } else {
        seq![low_byte(v), high_byte(v)]
    }
}

/// The word read back from the two bytes that a word was written as is that word, in either
/// byte order.
pub proof fn lemma_order_round_trip(msb_first: bool, v: u16)
    ensures
        word_in_order(msb_first, bytes_in_order(msb_first, v)[0], bytes_in_order(msb_first, v)[1])
            == v,
{
    crate::utils::word::lemma_word_of_bytes(v);
}

/// A byte order: how a 16-bit word is read from two bytes and written to two bytes.
pub trait Endianness {
    /// Whether the most significant byte comes first.
    spec fn msb_first() -> bool;

    /// The word held by the two bytes of `buf`.
    fn read_u16(buf: &[u8; 2]) -> (r: u16)
        ensures
            r == word_in_order(Self::msb_first(), buf@[0], buf@[1]),
    ;

    /// The signed word held by the two bytes of `buf`.
    fn read_i16(buf: &[u8; 2]) -> (r: i16)
        ensures
            r == word_in_order(Self::msb_first(), buf@[0], buf@[1]) as i16,
    ;

    /// Writes `n` in the two bytes of `buf`.
    fn write_u16(buf: &mut [u8; 2], n: u16)
        ensures
            final(buf)@ == bytes_in_order(Self::msb_first(), n),
    ;
}

/// `BigEndian::read_u16` of byteorder: the first byte of `buf` is the high byte of the result.
#[verifier::external_body]
fn big_endian_read_u16(buf: &[u8; 2]) -> (r: u16)
    ensures
        r == word(buf@[1], buf@[0]),
{
    <BigEndian as ByteOrder>::read_u16(buf)
}

/// `BigEndian::read_i16` of byteorder: the big-endian word of `buf`, taken as signed.
#[verifier::external_body]
fn big_endian_read_i16(buf: &[u8; 2]) -> (r: i16)
    ensures
        r == word(buf@[1], buf@[0]) as i16,
{
    <BigEndian as ByteOrder>::read_i16(buf)
}

/// `BigEndian::write_u16` of byteorder: the high byte of `n` goes first, then the low one.
#[verifier::external_body]
fn big_endian_write_u16(buf: &mut [u8; 2], n: u16)
    ensures
        final(buf)@ == seq![high_byte(n), low_byte(n)],
{
    <BigEndian as ByteOrder>::write_u16(buf, n)
}

/// `LittleEndian::read_u16` of byteorder: the first byte of `buf` is the low byte of the result.
#[verifier::external_body]
fn little_endian_read_u16(buf: &[u8; 2]) -> (r: u16)
    ensures
        r == word(buf@[0], buf@[1]),
{
    <LittleEndian as ByteOrder>::read_u16(buf)
}

/// `LittleEndian::read_i16` of byteorder: the little-endian word of `buf`, taken as signed.
#[verifier::external_body]
fn little_endian_read_i16(buf: &[u8; 2]) -> (r: i16)
    ensures
        r == word(buf@[0], buf@[1]) as i16,
{
    <LittleEndian as ByteOrder>::read_i16(buf)
}

/// `LittleEndian::write_u16` of byteorder: the low byte of `n` goes first, then the high one.
#[verifier::external_body]
fn little_endian_write_u16(buf: &mut [u8; 2], n: u16)
    ensures
        final(buf)@ == seq![low_byte(n), high_byte(n)],
{
    <LittleEndian as ByteOrder>::write_u16(buf, n)
}

impl Endianness for BigEndian {
    open spec fn msb_first() -> bool {
        true
    }

    fn read_u16(buf: &[u8; 2]) -> (r: u16) {
        proof {
            assert(Self::msb_first() == true);
        }
        big_endian_read_u16(buf)
    }

    fn read_i16(buf: &[u8; 2]) -> (r: i16) {
        proof {
            assert(Self::msb_first() == true);
        }
        big_endian_read_i16(buf)
    }

    fn write_u16(buf: &mut [u8; 2], n: u16) {
        proof {
            assert(Self::msb_first() == true);
        }
        big_endian_write_u16(buf, n)
    }
}

impl Endianness for LittleEndian {
    open spec fn msb_first() -> bool {
        false
    }

    fn read_u16(buf: &[u8; 2]) -> (r: u16) {
        proof {
            assert(Self::msb_first() == false);
        }
        little_endian_read_u16(buf)
    }

    fn read_i16(buf: &[u8; 2]) -> (r: i16) {
        proof {
            assert(Self::msb_first() == false);
        }
        little_endian_read_i16(buf)
    }

    fn write_u16(buf: &mut [u8; 2], n: u16) {
        proof {
            assert(Self::msb_first() == false);
        }
        little_endian_write_u16(buf, n)
    }
}

} // verus!
