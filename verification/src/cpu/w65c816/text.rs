//! Processor states written as text: comma-separated properties `name:value` that set the
//! registers of a CPU one after the other.
use vstd::prelude::*;
use vstd::string::*;

use crate::cpu::w65c816::reg::{emulated, with_flag, with_sp, with_x, with_y, Bank, Regs};
use crate::cpu::w65c816::status::{flag_mask, Flag};
use crate::cpu::w65c816::CPU;
use crate::utils::text::{lemma_split_acc_prefix, split, split_acc};

verus! {

/// The value of a hexadecimal digit, in either case.
pub open spec fn hex_digit_value(c: char) -> Option<int> {
    if '0' <= c <= '9' {
        Some(c as int - '0' as int)
    } else if 'a' <= c <= 'f' {
        Some(c as int - 'a' as int + 10)
    } else if 'A' <= c <= 'F' {
        Some(c as int - 'A' as int + 10)
    } else {
        None
    }
}

/// The number that a run of hexadecimal digits stands for, if they all are digits.
pub open spec fn hex_digits_value(ds: Seq<char>) -> Option<int>
    decreases ds.len(),
{
    if ds.len() == 0 {
        Some(0)
    } else {
        match (hex_digits_value(ds.drop_last()), hex_digit_value(ds.last())) {
            (Some(a), Some(d)) => Some(16 * a + d),
            _ => None,
        }
    }
}

/// The number that a text stands for in base 16, read as `from_str_radix` reads an unsigned
/// number whose largest value is `max`: an optional `+`, then at least one digit, and a number
/// no larger than `max`.
pub open spec fn hex_number(cs: Seq<char>, max: int) -> Option<int> {
    let ds = if cs.len() > 0 && cs[0] == '+' {
        cs.drop_first()
    } else {
        cs
    };
    if ds.len() == 0 {
        None
    } else {
        match hex_digits_value(ds) {
            Some(v) => if v <= max {
                Some(v)
            } else {
                None
            },
            None => None,
        }
    }
}

/// A run of hexadecimal digits stands for no negative number.
proof fn lemma_hex_digits_nonneg(ds: Seq<char>)
    ensures
        hex_digits_value(ds) matches Some(v) ==> v >= 0,
    decreases ds.len(),
{
    if ds.len() > 0 {
        lemma_hex_digits_nonneg(ds.drop_last());
    }
}

/// The value of a hexadecimal digit.
fn digit_value(c: char) -> (r: Option<u32>)
    ensures
        match hex_digit_value(c) {
            Some(d) => r == Some(d as u32),
            None => r is None,
        },
{
    if '0' <= c && c <= '9' {
        Some(c as u32 - '0' as u32)
    } else if 'a' <= c && c <= 'f' {
        Some(c as u32 - 'a' as u32 + 10)
    } else if 'A' <= c && c <= 'F' {
        Some(c as u32 - 'A' as u32 + 10)
    } else {
        None
    }
}

/// Reads `t` as a number in base 16 no larger than `max`.
fn read_hex(t: &str, max: u32) -> (r: Option<u32>)
    requires
        max <= 0xFFFF,
    ensures
        match hex_number(t@, max as int) {
            Some(v) => 0 <= v <= max && r == Some(v as u32),
            None => r is None,
        },
{
    let n = t.unicode_len();
    let ghost cs = t@;
    let start: usize = if n > 0 && t.get_char(0) == '+' {
        1
    } else {
        0
    };
    let ghost ds = if cs.len() > 0 && cs[0] == '+' {
        cs.drop_first()
    } else {
        cs
    };
    assert(ds =~= cs.subrange(start as int, n as int));
    if start == n {
        return None;
    }
    let mut acc: u32 = 0;
    let mut ok = true;
    let mut j: usize = start;
    while j < n
        invariant
            cs == t@,
            n == cs.len(),
            start <= j <= n,
            max <= 0xFFFF,
            ds == cs.subrange(start as int, n as int),
            match hex_digits_value(cs.subrange(start as int, j as int)) {
                Some(v) => ok && acc == (if v > max { max + 1 } else { v }),
                None => !ok,
            },
        decreases n - j,
    {
        let c = t.get_char(j);
        let ghost prefix = cs.subrange(start as int, j as int);
        assert(cs.subrange(start as int, j + 1).drop_last() =~= prefix);
        assert(cs.subrange(start as int, j + 1).last() == c);
        match digit_value(c) {
            Some(d) => {
                if ok {
                    if acc > max {
                        acc = max + 1;
                    } else {
                        let next = 16 * acc + d;
                        acc = if next > max {
                            max + 1
                        } else {
                            next
                        };
                    }
                }
            },
            None => {
                ok = false;
            },
        }
        j = j + 1;
    }
    assert(cs.subrange(start as int, n as int) == ds);
    proof {
        lemma_hex_digits_nonneg(ds);
    }
    if ok && acc <= max {
        Some(acc)
    } else {
        None
    }
}

/// What a property does to the registers: sets them, names nothing, or has a value that is no
/// number that fits its register.
#[derive(Clone, Copy, Debug, PartialEq, Eq, Structural)]
pub enum PropEffect {
    Applies(Regs),
    Unknown,
    BadValue,
}

/// What the property `name:value` does to the registers `r`. `P.C`, `P.Z`, `P.I`, `P.D`,
/// `P.X`, `P.M`, `P.O` (overflow), `P.N` and `P.B` set a flag when the value is `1` and clear it
/// otherwise; `P.E` switches to emulation mode when the value is `1` and to native mode otherwise;
/// `PBR`, `DBR` and `P` take a hexadecimal byte; `PC`, `SP`, `DP`, `A`, `X` and `Y` a hexadecimal
/// word. Only the part of the value before a second colon counts.
pub open spec fn prop_effect(r: Regs, prop: Seq<char>) -> PropEffect {
    let parts = split(prop, ':');
    if parts.len() < 2 {
        PropEffect::Unknown
    } else {
        kv_effect(r, parts[0], parts[1])
    }
}

/// What the property with name `k` and value `v` does to the registers `r`.
pub open spec fn kv_effect(r: Regs, k: Seq<char>, v: Seq<char>) -> PropEffect {
    let one = v == seq!['1'];
    if k == seq!['P', '.', 'C'] {
        PropEffect::Applies(with_flag(r, flag_mask(Flag::C), one))
    } else if k == seq!['P', '.', 'Z'] {
        PropEffect::Applies(with_flag(r, flag_mask(Flag::Z), one))
    } else if k == seq!['P', '.', 'I'] {
        PropEffect::Applies(with_flag(r, flag_mask(Flag::I), one))
    } else if k == seq!['P', '.', 'D'] {
        PropEffect::Applies(with_flag(r, flag_mask(Flag::D), one))
    } else if k == seq!['P', '.', 'X'] {
        PropEffect::Applies(with_flag(r, flag_mask(Flag::X), one))
    } else if k == seq!['P', '.', 'M'] {
        PropEffect::Applies(with_flag(r, flag_mask(Flag::M), one))
    } else if k == seq!['P', '.', 'O'] {
        PropEffect::Applies(with_flag(r, flag_mask(Flag::V), one))
    } else if k == seq!['P', '.', 'N'] {
        PropEffect::Applies(with_flag(r, flag_mask(Flag::N), one))
    } else if k == seq!['P', '.', 'B'] {
        PropEffect::Applies(with_flag(r, flag_mask(Flag::B), one))
    } else if k == seq!['P', '.', 'E'] {
        PropEffect::Applies(if one { emulated(r) } else { Regs { e: false, ..r } })
    } else if k == seq!['P', 'B', 'R'] {
        match hex_number(v, 0xFF) {
            Some(b) => PropEffect::Applies(Regs { pbr: b as u8, ..r }),
            None => PropEffect::BadValue,
        }
    } else if k == seq!['D', 'B', 'R'] {
        match hex_number(v, 0xFF) {
            Some(b) => PropEffect::Applies(Regs { dbr: b as u8, ..r }),
            None => PropEffect::BadValue,
        }
    } else if k == seq!['P', 'C'] {
        match hex_number(v, 0xFFFF) {
            Some(w) => PropEffect::Applies(Regs { pc: w as u16, ..r }),
            None => PropEffect::BadValue,
        }
    } else if k == seq!['S', 'P'] {
        match hex_number(v, 0xFFFF) {
            Some(w) => PropEffect::Applies(with_sp(r, w as u16)),
            None => PropEffect::BadValue,
        }
    } else if k == seq!['D', 'P'] {
        match hex_number(v, 0xFFFF) {
            Some(w) => PropEffect::Applies(Regs { dp: w as u16, ..r }),
            None => PropEffect::BadValue,
        }
    } else if k == seq!['P'] {
        match hex_number(v, 0xFF) {
            Some(b) => PropEffect::Applies(Regs { p: b as u8, ..r }),
            None => PropEffect::BadValue,
        }
    } else if k == seq!['A'] {
        match hex_number(v, 0xFFFF) {
            Some(w) => PropEffect::Applies(Regs { a: w as u16, ..r }),
            None => PropEffect::BadValue,
        }
    } else if k == seq!['X'] {
        match hex_number(v, 0xFFFF) {
            Some(w) => PropEffect::Applies(with_x(r, w as u16)),
            None => PropEffect::BadValue,
        }
    } else if k == seq!['Y'] {
        match hex_number(v, 0xFFFF) {
            Some(w) => PropEffect::Applies(with_y(r, w as u16)),
            None => PropEffect::BadValue,
        }
    } else {
        PropEffect::Unknown
    }
}

/// What reading the properties `props` in order does, from the registers `r`: the registers
/// they leave (`Ok`), or the first property that names nothing (`Err`); `None` when a value
/// that is no number comes first, which cannot be read.
pub open spec fn props_outcome(r: Regs, props: Seq<Seq<char>>) -> Option<Result<Regs, Seq<char>>>
    decreases props.len(),
{
    if props.len() == 0 {
        Some(Ok(r))
    } else {
        match props_outcome(r, props.drop_last()) {
            Some(Ok(r1)) => match prop_effect(r1, props.last()) {
                PropEffect::Applies(r2) => Some(Ok(r2)),
                PropEffect::Unknown => Some(Err(props.last())),
                PropEffect::BadValue => None,
            },
            other => other,
        }
    }
}

/// The registers that a default CPU starts with.
pub open spec fn default_regs() -> Regs {
    Regs { p: 0, e: false, a: 0, x: 0, y: 0, pc: 0, sp: 0, dp: 0, pbr: 0, dbr: 0 }
}

/// What a processor text describes: the registers of a default CPU after each of its
/// comma-separated properties, or the first property that names nothing; nothing for a text
/// with a value that is no number before that.
pub open spec fn cpu_text(cs: Seq<char>) -> Option<Result<Regs, Seq<char>>> {
    if cs.len() == 0 {
        Some(Ok(default_regs()))
    } else {
        props_outcome(default_regs(), split(cs, ','))
    }
}

/// Once the properties read have named nothing or held a bad value, reading more changes
/// nothing.
proof fn lemma_outcome_settled(r: Regs, props: Seq<Seq<char>>, k: int)
    requires
        0 <= k <= props.len(),
        !(props_outcome(r, props.take(k)) matches Some(Ok(_))),
    ensures
        props_outcome(r, props) == props_outcome(r, props.take(k)),
    decreases props.len() - k,
{
    if k < props.len() {
        assert(props.drop_last().take(k) =~= props.take(k));
        lemma_outcome_settled(r, props.drop_last(), k);
    } else {
        assert(props.take(k) =~= props);
    }
}

/// Whether `t` is the one character `a`.
fn is1(t: &str, a: char) -> (r: bool)
    ensures
        r == (t@ == seq![a]),
{
    let n = t.unicode_len();
    if n != 1 {
        return false;
    }
    let r = t.get_char(0) == a;
    assert(r ==> t@ =~= seq![a]);
    r
}

/// Whether `t` is the two characters `a`, `b`.
fn is2(t: &str, a: char, b: char) -> (r: bool)
    ensures
        r == (t@ == seq![a, b]),
{
    let n = t.unicode_len();
    if n != 2 {
        return false;
    }
    let r = t.get_char(0) == a && t.get_char(1) == b;
    assert(r ==> t@ =~= seq![a, b]);
    r
}

/// Whether `t` is the three characters `a`, `b`, `c`.
fn is3(t: &str, a: char, b: char, c: char) -> (r: bool)
    ensures
        r == (t@ == seq![a, b, c]),
{
    let n = t.unicode_len();
    if n != 3 {
        return false;
    }
    let r = t.get_char(0) == a && t.get_char(1) == b && t.get_char(2) == c;
    assert(r ==> t@ =~= seq![a, b, c]);
    r
}

/// How far the parts of a property have been read, up to `j`: the colons seen, where the first
/// two are (`k1`, `k2`), and the pieces they end.
spec fn parts_read(cs: Seq<char>, j: int, colons: nat, k1: int, k2: int) -> bool {
    let (kd, kc) = split_acc(cs.take(j), ':');
    &&& colons == kd.len()
    &&& colons == 0 ==> kc == cs.subrange(0, j)
    &&& colons >= 1 ==> 0 <= k1 < j && kd[0] == cs.subrange(0, k1)
    &&& colons == 1 ==> kc == cs.subrange(k1 + 1, j)
    &&& colons >= 2 ==> k1 < k2 < j && kd[1] == cs.subrange(k1 + 1, k2)
}

/// Reading one more character of a property keeps `parts_read`: a colon ends a part and is
/// remembered if it is the first or the second.
proof fn lemma_parts_step(cs: Seq<char>, j: int, colons: nat, k1: int, k2: int)
    requires
        0 <= j < cs.len(),
        parts_read(cs, j, colons, k1, k2),
    ensures
        cs[j] == ':' && colons == 0 ==> parts_read(cs, j + 1, 1, j, k2),
        cs[j] == ':' && colons == 1 ==> parts_read(cs, j + 1, 2, k1, j),
        cs[j] == ':' && colons >= 2 ==> parts_read(cs, j + 1, colons + 1, k1, k2),
        cs[j] != ':' ==> parts_read(cs, j + 1, colons, k1, k2),
{
    assert(cs.take(j + 1).drop_last() =~= cs.take(j));
    assert(cs.take(j + 1).last() == cs[j]);
    let (kd, kc) = split_acc(cs.take(j), ':');
    if cs[j] != ':' {
        if colons == 0 {
            assert(kc.push(cs[j]) =~= cs.subrange(0, j + 1));
        } else if colons == 1 {
            assert(kc.push(cs[j]) =~= cs.subrange(k1 + 1, j + 1));
        }
    } else {
        assert(Seq::<char>::empty() =~= cs.subrange(j + 1, j + 1));
    }
}

/// Applies the property with name `key` and value `value` to the registers, and says whether
/// the name is that of a register.
#[verifier::rlimit(40)]
fn apply_kv(regs: &mut Bank, key: &str, value: &str) -> (r: bool)
    requires
        !(kv_effect(old(regs)@, key@, value@) is BadValue),
    ensures
        match kv_effect(old(regs)@, key@, value@) {
            PropEffect::Applies(r2) => r && final(regs)@ == r2,
            _ => !r && final(regs)@ == old(regs)@,
        },
{
    let one = is1(value, '1');
    if is3(key, 'P', '.', 'C') {
        regs.set_status_flag(Flag::C, one);
    } else if is3(key, 'P', '.', 'Z') {
        regs.set_status_flag(Flag::Z, one);
    } else if is3(key, 'P', '.', 'I') {
        regs.set_status_flag(Flag::I, one);
    } else if is3(key, 'P', '.', 'D') {
        regs.set_status_flag(Flag::D, one);
    } else if is3(key, 'P', '.', 'X') {
        regs.set_status_flag(Flag::X, one);
    } else if is3(key, 'P', '.', 'M') {
        regs.set_status_flag(Flag::M, one);
    } else if is3(key, 'P', '.', 'O') {
        regs.set_status_flag(Flag::V, one);
    } else if is3(key, 'P', '.', 'N') {
        regs.set_status_flag(Flag::N, one);
    } else if is3(key, 'P', '.', 'B') {
        regs.set_status_flag(Flag::B, one);
    } else if is3(key, 'P', '.', 'E') {
        if one {
            regs.set_mode_emulated();
        } else {
            regs.set_mode_native();
        }
    } else if is3(key, 'P', 'B', 'R') {
        match read_hex(value, 0xFF) {
            Some(v) => regs.pbr_set(v as u8),
            None => {
                return false;
            },
        }
    } else if is3(key, 'D', 'B', 'R') {
        match read_hex(value, 0xFF) {
            Some(v) => regs.dbr_set(v as u8),
            None => {
                return false;
            },
        }
    } else if is2(key, 'P', 'C') {
        match read_hex(value, 0xFFFF) {
            Some(v) => regs.pc_jump(v as u16),
            None => {
                return false;
            },
        }
    } else if is2(key, 'S', 'P') {
        match read_hex(value, 0xFFFF) {
            Some(v) => regs.sp_set(v as u16),
            None => {
                return false;
            },
        }
    } else if is2(key, 'D', 'P') {
        match read_hex(value, 0xFFFF) {
            Some(v) => regs.dp_set(v as u16),
            None => {
                return false;
            },
        }
    } else if is1(key, 'P') {
        match read_hex(value, 0xFF) {
            Some(v) => regs.p_set(v as u8),
            None => {
                return false;
            },
        }
    } else if is1(key, 'A') {
        match read_hex(value, 0xFFFF) {
            Some(v) => regs.a_set(v as u16),
            None => {
                return false;
            },
        }
    } else if is1(key, 'X') {
        match read_hex(value, 0xFFFF) {
            Some(v) => regs.x_set(v as u16),
            None => {
                return false;
            },
        }
    } else if is1(key, 'Y') {
        match read_hex(value, 0xFFFF) {
            Some(v) => regs.y_set(v as u16),
            None => {
                return false;
            },
        }
    } else {
        return false;
    }
    true
}

/// Applies the property `prop` to the registers, and says whether it named a register.
#[verifier::rlimit(40)]
fn apply_prop(regs: &mut Bank, prop: &str) -> (r: bool)
    requires
        !(prop_effect(old(regs)@, prop@) is BadValue),
    ensures
        match prop_effect(old(regs)@, prop@) {
            PropEffect::Applies(r2) => r && final(regs)@ == r2,
            _ => !r && final(regs)@ == old(regs)@,
        },
{
    let n = prop.unicode_len();
    let ghost cs = prop@;
    let mut colons: usize = 0;
    let mut k1: usize = 0;
    let mut k2: usize = n;
    let mut j: usize = 0;
    proof {
        assert(cs.take(0) =~= Seq::<char>::empty());
        assert(cs.subrange(0, 0) =~= Seq::<char>::empty());
    }
    while j < n
        invariant
            cs == prop@,
            n == cs.len(),
            j <= n,
            colons <= j,
            k2 <= n,
            parts_read(cs, j as int, colons as nat, k1 as int, k2 as int),
            colons < 2 ==> k2 == n,
        decreases n - j,
    {
        let c = prop.get_char(j);
        proof {
            lemma_parts_step(cs, j as int, colons as nat, k1 as int, k2 as int);
        }
        if c == ':' {
            if colons == 0 {
                k1 = j;
            } else if colons == 1 {
                k2 = j;
            }
            colons = colons + 1;
        }
        j = j + 1;
    }
    proof {
        assert(cs.take(n as int) =~= cs);
    }
    if colons == 0 {
        return false;
    }
    let key = prop.substring_char(0, k1);
    let value_end = if colons >= 2 {
        k2
    } else {
        n
    };
    let value = prop.substring_char(k1 + 1, value_end);
    proof {
        let parts = split(cs, ':');
        assert(parts.len() >= 2);
        assert(key@ == parts[0]);
        assert(value@ == parts[1]);
    }
    apply_kv(regs, key, value)
}

/// The message of a property that names nothing.
fn invalid_prop(prop: &str) -> (r: String)
    ensures
        r@ == "Invalid property: "@ + prop@,
{
    let mut m = String::new();
    m.append("Invalid property: ");
    m.append(prop);
    assert(m@ =~= "Invalid property: "@ + prop@);
    m
}

/// The properties read so far are the first of all the properties of the text.
proof fn lemma_done_props(cs: Seq<char>, i: int)
    requires
        0 <= i <= cs.len(),
    ensures
        split(cs, ',').take(split_acc(cs.take(i), ',').0.len() as int) == split_acc(cs.take(i), ',').0,
        split_acc(cs.take(i), ',').0.len() < split(cs, ',').len(),
{
    lemma_split_acc_prefix(cs, ',', i, cs.len() as int);
    assert(cs.take(cs.len() as int) =~= cs);
    let done = split_acc(cs.take(i), ',').0;
    let whole = split_acc(cs, ',').0;
    assert(split(cs, ',').take(done.len() as int) =~= whole.take(done.len() as int));
}

impl CPU {
    /// A CPU in the state that a text describes: a default CPU, then each comma-separated
    /// property `name:value` applied in order (see `prop_effect`). A property that names no
    /// register is refused with the message `Invalid property: ` and its text.
    pub fn from_str(s: &str) -> (r: Result<CPU, String>)
        requires
            cpu_text(s@) is Some,
        ensures
            match r {
                Ok(cpu) => cpu_text(s@) == Some(Ok::<Regs, Seq<char>>(cpu@.regs)) && cpu@.cycles == 0,
                Err(m) => match cpu_text(s@) {
                    Some(Err(p)) => m@ == "Invalid property: "@ + p,
                    _ => false,
                },
            },
    {
        let mut cpu = CPU::default();
        let n = s.unicode_len();
        if n == 0 {
            return Ok(cpu);
        }
        let ghost cs = s@;
        let mut start: usize = 0;
        let mut i: usize = 0;
        proof {
            assert(cs.take(0) =~= Seq::<char>::empty());
            assert(cs.subrange(0, 0) =~= Seq::<char>::empty());
        }
        while i < n
            invariant
                cs == s@,
                n == cs.len(),
                n > 0,
                start <= i <= n,
                cpu@.cycles == 0,
                split_acc(cs.take(i as int), ',').1 == cs.subrange(start as int, i as int),
                props_outcome(default_regs(), split_acc(cs.take(i as int), ',').0) == Some(
                    Ok::<Regs, Seq<char>>(cpu@.regs),
                ),
                props_outcome(default_regs(), split(cs, ',')) is Some,
            decreases n - i,
        {
            let c = s.get_char(i);
            let ghost done = split_acc(cs.take(i as int), ',').0;
            proof {
                assert(cs.take(i + 1).drop_last() =~= cs.take(i as int));
                assert(cs.take(i + 1).last() == c);
            }
            if c == ',' {
                let prop = s.substring_char(start, i);
                proof {
                    let k = done.len() as int;
                    assert(split_acc(cs.take(i + 1), ',').0 == done.push(prop@));
                    assert(done.push(prop@).drop_last() =~= done);
                    lemma_done_props(cs, i + 1);
                    if prop_effect(cpu@.regs, prop@) is BadValue {
                        lemma_outcome_settled(default_regs(), split(cs, ','), k + 1);
                    }
                }
                if !apply_prop(&mut cpu.regs, prop) {
                    proof {
                        let k = done.len() as int;
                        lemma_outcome_settled(default_regs(), split(cs, ','), k + 1);
                    }
                    return Err(invalid_prop(prop));
                }
                start = i + 1;
                proof {
                    assert(cs.subrange(start as int, start as int) =~= Seq::<char>::empty());
                }
            } else {
                proof {
                    assert(cs.subrange(start as int, i as int).push(c) =~= cs.subrange(
                        start as int,
                        i + 1,
                    ));
                }
            }
            i = i + 1;
        }
        let prop = s.substring_char(start, n);
        proof {
            assert(cs.take(n as int) =~= cs);
            assert(split(cs, ',').drop_last() =~= split_acc(cs, ',').0);
        }
        if !apply_prop(&mut cpu.regs, prop) {
            return Err(invalid_prop(prop));
        }
        Ok(cpu)
    }
}

} // verus!
