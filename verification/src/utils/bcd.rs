//! Arithmetic on packed binary-coded decimal words: four decimal digits, one per nibble.
use vstd::prelude::*;

verus! {

/// The digit sum of two nibbles and a carry, with the carry it produces: a sum above 9 drops 10
/// and carries one. Nibbles above 9 are no decimal digit; they add as numbers all the same and
/// the digit is kept modulo 16.
pub open spec fn add_digit(x: int, y: int, c: int) -> (int, int) {
    let s = x + y + c;
    if s > 9 {
        ((s - 10) % 16, 1)
    } else {
        (s % 16, 0)
    }
}

/// The digit difference of two nibbles and a borrow, with the borrow it produces: a difference
/// below zero adds 10 and borrows one, the digit kept modulo 16.
pub open spec fn sub_digit(x: int, y: int, b: int) -> (int, int) {
    let s = x - y - b;
    if s < 0 {
        ((s + 10) % 16, 1)
    } else {
        (s % 16, 0)
    }
}

/// The decimal sum of the lowest `n` digits of `a` and `b`, with carry-in `c`, digit by digit.
pub open spec fn bcd_add_digits(a: int, b: int, c: int, n: nat) -> int
    decreases n,
{
    if n == 0 {
        0
    } else {
        let (d, c2) = add_digit(a % 16, b % 16, c);
        d + 16 * bcd_add_digits(a / 16, b / 16, c2, (n - 1) as nat)
    }
}

/// The decimal difference of the lowest `n` digits of `a` and `b`, with borrow-in `c`, digit by
/// digit.
pub open spec fn bcd_sub_digits(a: int, b: int, c: int, n: nat) -> int
    decreases n,
{
    if n == 0 {
        0
    } else {
        let (d, c2) = sub_digit(a % 16, b % 16, c);
        d + 16 * bcd_sub_digits(a / 16, b / 16, c2, (n - 1) as nat)
    }
}

/// One digit step of a decimal addition.
fn digit_add(x: u16, y: u16, c: u16) -> (r: (u16, u16))
    requires
        x < 16,
        y < 16,
        c <= 1,
    ensures
        (r.0 as int, r.1 as int) == add_digit(x as int, y as int, c as int),
        r.0 < 16,
        r.1 <= 1,
{
    let s = x + y + c;
    if s > 9 {
        ((s - 10) % 16, 1)
    } else {
        (s % 16, 0)
    }
}

/// One digit step of a decimal subtraction.
fn digit_sub(x: u16, y: u16, b: u16) -> (r: (u16, u16))
    requires
        x < 16,
        y < 16,
        b <= 1,
    ensures
        (r.0 as int, r.1 as int) == sub_digit(x as int, y as int, b as int),
        r.0 < 16,
        r.1 <= 1,
{
    if x >= y + b {
        ((x - y - b) % 16, 0)
    } else {
        ((x + 26 - y - b) % 16, 1)
    }
}

/// Adds two packed-BCD words digit by digit; a carry out of the fourth digit is dropped.
pub fn add_word(a: u16, b: u16) -> (r: u16)
    ensures
        r == bcd_add_digits(a as int, b as int, 0, 4),
{
    let (d0, c0) = digit_add(a % 16, b % 16, 0);
    let (d1, c1) = digit_add((a / 16) % 16, (b / 16) % 16, c0);
    let (d2, c2) = digit_add((a / 256) % 16, (b / 256) % 16, c1);
    let (d3, _c3) = digit_add((a / 4096) % 16, (b / 4096) % 16, c2);
    proof {
        reveal_with_fuel(bcd_add_digits, 5);
        assert(a / 16 / 16 == a / 256);
        assert(b / 16 / 16 == b / 256);
        assert(a / 16 / 16 / 16 == a / 4096);
        assert(b / 16 / 16 / 16 == b / 4096);
    }
    d0 + 16 * d1 + 256 * d2 + 4096 * d3
}

/// Subtracts two packed-BCD words digit by digit; a borrow out of the fourth digit is dropped.
pub fn sub_word(a: u16, b: u16) -> (r: u16)
    ensures
        r == bcd_sub_digits(a as int, b as int, 0, 4),
{
    let (d0, c0) = digit_sub(a % 16, b % 16, 0);
    let (d1, c1) = digit_sub((a / 16) % 16, (b / 16) % 16, c0);
    let (d2, c2) = digit_sub((a / 256) % 16, (b / 256) % 16, c1);
    let (d3, _c3) = digit_sub((a / 4096) % 16, (b / 4096) % 16, c2);
    proof {
        reveal_with_fuel(bcd_sub_digits, 5);
        assert(a / 16 / 16 == a / 256);
        assert(b / 16 / 16 == b / 256);
        assert(a / 16 / 16 / 16 == a / 4096);
        assert(b / 16 / 16 / 16 == b / 4096);
    }
    d0 + 16 * d1 + 256 * d2 + 4096 * d3
}

/// 10 to the power `n`.
pub open spec fn pow10(n: nat) -> int
    decreases n,
{
    if n == 0 {
        1
    } else {
        10 * pow10((n - 1) as nat)
    }
}

/// Whether the lowest `n` nibbles of `a` are decimal digits.
pub open spec fn is_bcd(a: int, n: nat) -> bool
    decreases n,
{
    n == 0 || (a % 16 <= 9 && is_bcd(a / 16, (n - 1) as nat))
}

/// The decimal number that the lowest `n` nibbles of `a` stand for, one digit per nibble.
pub open spec fn bcd_value(a: int, n: nat) -> int
    decreases n,
{
    if n == 0 {
        0
    } else {
        a % 16 + 10 * bcd_value(a / 16, (n - 1) as nat)
    }
}

/// A digit below a multiple of ten: `(d + 10y) mod 10p` keeps the digit and reduces `y`.
proof fn lemma_digit_mod(d: int, y: int, p: int)
    requires
        0 <= d < 10,
        p > 0,
    ensures
        (d + 10 * y) % (10 * p) == d + 10 * (y % p),
{
    let q = y / p;
    let r = y % p;
    vstd::arithmetic::div_mod::lemma_fundamental_div_mod(y, p);
    assert(0 <= r < p);
    assert(d + 10 * y == (10 * p) * q + (d + 10 * r)) by (nonlinear_arith)
        requires
            y == p * q + r,
    ;
    assert(0 <= d + 10 * r < 10 * p) by (nonlinear_arith)
        requires
            0 <= r < p,
            0 <= d < 10,
    ;
    vstd::arithmetic::div_mod::lemma_mod_multiples_vanish(q, d + 10 * r, 10 * p);
    vstd::arithmetic::div_mod::lemma_small_mod((d + 10 * r) as nat, (10 * p) as nat);
}

/// The powers of ten are positive.
proof fn lemma_pow10_pos(n: nat)
    ensures
        pow10(n) > 0,
    decreases n,
{
    if n > 0 {
        lemma_pow10_pos((n - 1) as nat);
    }
}

/// A digit-by-digit decimal sum of `n` decimal digits is the sum of their values, with the
/// carry-in, modulo `10^n`, and its digits are decimal.
pub proof fn lemma_bcd_add_digits(a: int, b: int, c: int, n: nat)
    requires
        a >= 0,
        b >= 0,
        0 <= c <= 1,
        is_bcd(a, n),
        is_bcd(b, n),
    ensures
        bcd_add_digits(a, b, c, n) >= 0,
        is_bcd(bcd_add_digits(a, b, c, n), n),
        bcd_value(bcd_add_digits(a, b, c, n), n) == (bcd_value(a, n) + bcd_value(b, n) + c) % pow10(n),
    decreases n,
{
    if n > 0 {
        let (d, c2) = add_digit(a % 16, b % 16, c);
        let rest = bcd_add_digits(a / 16, b / 16, c2, (n - 1) as nat);
        lemma_bcd_add_digits(a / 16, b / 16, c2, (n - 1) as nat);
        let r = bcd_add_digits(a, b, c, n);
        assert(r == d + 16 * rest);
        assert(0 <= d <= 9);
        assert(r % 16 == d && r / 16 == rest);
        lemma_pow10_pos((n - 1) as nat);
        let y = bcd_value(a / 16, (n - 1) as nat) + bcd_value(b / 16, (n - 1) as nat) + c2;
        lemma_digit_mod(d, y, pow10((n - 1) as nat));
        assert(d + 10 * c2 == a % 16 + b % 16 + c);
        assert(bcd_value(a, n) + bcd_value(b, n) + c == d + 10 * y);
    }
}

/// A digit-by-digit decimal difference of `n` decimal digits is the difference of their
/// values, less the borrow-in, modulo `10^n`, and its digits are decimal.
pub proof fn lemma_bcd_sub_digits(a: int, b: int, c: int, n: nat)
    requires
        a >= 0,
        b >= 0,
        0 <= c <= 1,
        is_bcd(a, n),
        is_bcd(b, n),
    ensures
        bcd_sub_digits(a, b, c, n) >= 0,
        is_bcd(bcd_sub_digits(a, b, c, n), n),
        bcd_value(bcd_sub_digits(a, b, c, n), n) == (bcd_value(a, n) - bcd_value(b, n) - c) % pow10(n),
    decreases n,
{
    if n > 0 {
        let (d, c2) = sub_digit(a % 16, b % 16, c);
        let rest = bcd_sub_digits(a / 16, b / 16, c2, (n - 1) as nat);
        lemma_bcd_sub_digits(a / 16, b / 16, c2, (n - 1) as nat);
        let r = bcd_sub_digits(a, b, c, n);
        assert(r == d + 16 * rest);
        assert(0 <= d <= 9);
        assert(r % 16 == d && r / 16 == rest);
        lemma_pow10_pos((n - 1) as nat);
        let y = bcd_value(a / 16, (n - 1) as nat) - bcd_value(b / 16, (n - 1) as nat) - c2;
        lemma_digit_mod(d, y, pow10((n - 1) as nat));
        assert(d - 10 * c2 == a % 16 - b % 16 - c);
        assert(bcd_value(a, n) - bcd_value(b, n) - c == d + 10 * y);
    }
}

/// The packed decimal sum of two four-digit decimal words is a decimal word, whose value is the
/// sum of theirs modulo 10000.
pub proof fn lemma_add_word_decimal(a: u16, b: u16)
    requires
        is_bcd(a as int, 4),
        is_bcd(b as int, 4),
    ensures
        0 <= bcd_add_digits(a as int, b as int, 0, 4) < 0x10000,
        is_bcd(bcd_add_digits(a as int, b as int, 0, 4), 4),
        bcd_value(bcd_add_digits(a as int, b as int, 0, 4), 4) == (bcd_value(a as int, 4)
            + bcd_value(b as int, 4)) % 10000,
{
    lemma_bcd_add_digits(a as int, b as int, 0, 4);
    reveal_with_fuel(pow10, 5);
    reveal_with_fuel(bcd_add_digits, 5);
}

/// The packed decimal difference of two four-digit decimal words is a decimal word, whose
/// value is the difference of theirs modulo 10000.
pub proof fn lemma_sub_word_decimal(a: u16, b: u16)
    requires
        is_bcd(a as int, 4),
        is_bcd(b as int, 4),
    ensures
        0 <= bcd_sub_digits(a as int, b as int, 0, 4) < 0x10000,
        is_bcd(bcd_sub_digits(a as int, b as int, 0, 4), 4),
        bcd_value(bcd_sub_digits(a as int, b as int, 0, 4), 4) == (bcd_value(a as int, 4)
            - bcd_value(b as int, 4)) % 10000,
{
    lemma_bcd_sub_digits(a as int, b as int, 0, 4);
    reveal_with_fuel(pow10, 5);
    reveal_with_fuel(bcd_sub_digits, 5);
}

} // verus!
