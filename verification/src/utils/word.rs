//! Bytes and 16-bit words, and how one is made from the other.
use vstd::prelude::*;

verus! {

/// The 16-bit word whose low byte is `lo` and high byte is `hi`.
pub open spec fn word(lo: u8, hi: u8) -> u16 {
    (hi as int * 256 + lo as int) as u16
}

/// The low byte of a word.
pub open spec fn low_byte(v: u16) -> u8 {
    (v % 256) as u8
}

/// The high byte of a word.
pub open spec fn high_byte(v: u16) -> u8 {
    (v / 256) as u8
}

/// Joins a low and a high byte into a word.
pub fn make_word(lo: u8, hi: u8) -> (r: u16)
    ensures
        r == word(lo, hi),
{
    let r = ((hi as u16) << 8) | (lo as u16);
    assert(r == hi as u16 * 256 + lo as u16) by (bit_vector)
        requires
            r == ((hi as u16) << 8) | (lo as u16),
    ;
    r
}

/// The low byte of a word.
pub fn low(v: u16) -> (r: u8)
    ensures
        r == low_byte(v),
{
    assert(v as u8 == (v % 256) as u8) by (bit_vector);
    v as u8
}

/// The high byte of a word.
pub fn high(v: u16) -> (r: u8)
    ensures
        r == high_byte(v),
{
    assert((v >> 8) as u8 == (v / 256) as u8) by (bit_vector);
    (v >> 8) as u8
}

/// A word split in bytes and joined again is the same word.
pub proof fn lemma_word_of_bytes(v: u16)
    ensures
        word(low_byte(v), high_byte(v)) == v,
{
}

/// The bytes of a word made from two bytes are those two bytes.
pub proof fn lemma_bytes_of_word(lo: u8, hi: u8)
    ensures
        low_byte(word(lo, hi)) == lo,
        high_byte(word(lo, hi)) == hi,
{
}

/// What the bits of a byte say of its value.
pub proof fn lemma_byte_bits(v: u8)
    by (bit_vector)
    ensures
        (v & 0x80 != 0) == (v >= 0x80),
        (v & 0x40 != 0) == ((v / 64) % 2 == 1),
        (v & 0x01 != 0) == (v % 2 == 1),
        v >> 1 == v / 2,
        v << 1 == ((v * 2) % 256) as u8,
        v & 0x0F == v % 16,
        v >> 4 == v / 16,
{
}

/// What the bits of a word say of its value.
pub proof fn lemma_word_bits(v: u16)
    by (bit_vector)
    ensures
        v & 0x00FF == v % 0x100,
        v as u8 == v % 0x100,
        (v >> 8) as u8 == v / 0x100,
        (v & 0x00FF == 0) == (v % 0x100 == 0),
        (v & 0x0080 != 0) == (v % 0x100 >= 0x80),
        (v & 0x8000 != 0) == (v >= 0x8000),
        (v & 0x0040 != 0) == (v % 0x80 >= 0x40),
        (v & 0x4000 != 0) == (v % 0x8000 >= 0x4000),
        v << 1 == ((v * 2) % 0x10000) as u16,
        (v & 0x00FF) | 0x0100 == v % 0x100 + 0x100,
{
}

/// Two words are in the same 256-byte page when their high bytes agree.
pub proof fn lemma_same_page(a: u16, b: u16)
    by (bit_vector)
    ensures
        ((a & 0xFF00) != (b & 0xFF00)) == (a / 256 != b / 256),
{
}

/// A word whose low byte is replaced by `lo`.
pub proof fn lemma_replace_low_byte(v: u16, lo: u8)
    by (bit_vector)
    ensures
        (v & 0xFF00) | (lo as u16) == v / 0x100 * 0x100 + lo,
{
}

/// Whether `m` is a byte with exactly one bit set.
pub open spec fn single_bit(m: u8) -> bool {
    m == 0x01 || m == 0x02 || m == 0x04 || m == 0x08 || m == 0x10 || m == 0x20 || m == 0x40 || m
        == 0x80
}

/// Setting a single bit turns it on and clearing it turns it off; either leaves every other
/// single bit as it was.
pub proof fn lemma_single_bit_ops(p: u8, m: u8, n: u8)
    by (bit_vector)
    requires
        single_bit(m),
        single_bit(n),
    ensures
        (p | m) & m == m,
        (p & !m) & m == 0,
        m != n ==> (p | m) & n == p & n,
        m != n ==> (p & !m) & n == p & n,
{
}

} // verus!
