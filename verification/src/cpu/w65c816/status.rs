//! The flags of the W65C816 processor status register.
use vstd::prelude::*;
use vstd::string::*;

use std::str::FromStr;

use crate::utils::text::{lemma_split_acc_prefix, split, split_acc, COLON, COMMA, ONE};

verus! {

/// A flag of the processor status register.
#[derive(Clone, Copy, Debug, Eq, PartialEq, Hash, Structural)]
pub enum Flag {
    C,  // bit 0: carry flag
    Z,  // bit 1: zero flag
    I,  // bit 2: IRQ disable flag
    D,  // bit 3: decimal mode flag
    X,  // bit 4 (native mode): index register select flag
    M,  // bit 5 (native mode): memory select flag
    V,  // bit 6: overflow flag
    N,  // bit 7: negative flag
}

/// The bit that a flag occupies in the status register.
pub open spec fn flag_mask(f: Flag) -> u8 {
    match f {
        Flag::C => 0b0000_0001,
        Flag::Z => 0b0000_0010,
        Flag::I => 0b0000_0100,
        Flag::D => 0b0000_1000,
        Flag::X => 0b0001_0000,
        Flag::M => 0b0010_0000,
        Flag::V => 0b0100_0000,
        Flag::N => 0b1000_0000,
    }
}

impl Flag {
    /// bit 4 (emulation mode): break flag
    pub const B: Flag = Flag::X;

    /// The bit of this flag in the status register.
    pub fn mask(self) -> (r: u8)
        ensures
            r == flag_mask(self),
    {
        match self {
            Flag::C => 0b0000_0001,
            Flag::Z => 0b0000_0010,
            Flag::I => 0b0000_0100,
            Flag::D => 0b0000_1000,
            Flag::X => 0b0001_0000,
            Flag::M => 0b0010_0000,
            Flag::V => 0b0100_0000,
            Flag::N => 0b1000_0000,
        }
    }

    /// Sets this flag in the status byte `p`.
    pub fn set(self, p: &mut u8)
        ensures
            *final(p) == *old(p) | flag_mask(self),
    {
        *p = *p | self.mask();
    }

    /// Clears this flag in the status byte `p`.
    pub fn clear(self, p: &mut u8)
        ensures
            *final(p) == *old(p) & !flag_mask(self),
    {
        *p = *p & !self.mask();
    }
}

/// Whether the flag `f` is set in the status byte `p` exactly when `set` says so.
pub open spec fn flag_is(p: u8, f: Flag, set: bool) -> bool {
    if set {
        p & flag_mask(f) == flag_mask(f)
    } else {
        p & flag_mask(f) == 0
    }
}

/// Once a flag is set it reads as set, and once it is cleared it reads as clear; either leaves
/// every other flag as it was.
pub proof fn lemma_set_clear(p: u8, f: Flag, g: Flag)
    ensures
        flag_is(p | flag_mask(f), f, true),
        flag_is(p & !flag_mask(f), f, false),
        g != f ==> (p | flag_mask(f)) & flag_mask(g) == p & flag_mask(g),
        g != f ==> (p & !flag_mask(f)) & flag_mask(g) == p & flag_mask(g),
{
    crate::utils::word::lemma_single_bit_ops(p, flag_mask(f), flag_mask(g));
}

/// What is expected of some flags of a status byte: for each, whether it is set.
pub struct FlagExpectation(pub Vec<(Flag, bool)>);

impl FlagExpectation {
    /// Whether the status byte `p` has every flag as expected.
    pub fn holds(&self, p: u8) -> (r: bool)
        ensures
            r == (forall|i: int| 0 <= i < self.0@.len() ==> flag_is(p, #[trigger] self.0@[i].0, self.0@[i].1)),
    {
        let mut i: usize = 0;
        while i < self.0.len()
            invariant
                i <= self.0@.len(),
                forall|j: int| 0 <= j < i ==> flag_is(p, #[trigger] self.0@[j].0, self.0@[j].1),
            decreases self.0@.len() - i,
        {
            let (flag, expected) = self.0[i];
            let m = flag.mask();
            let ok = if expected {
                p & m == m
            } else {
                p & m == 0
            };
            if !ok {
                return false;
            }
            i = i + 1;
        }
        true
    }
}

/// The flag that the key of an expectation names: its one letter, `B` for the break flag and
/// `E` for the negative flag.
pub open spec fn flag_named(k: Seq<u8>) -> Option<Flag> {
    if k.len() != 1 {
        None
    } else if k[0] == 0x43 {  // C
        Some(Flag::C)
    } else if k[0] == 0x5A {  // Z
        Some(Flag::Z)
    } else if k[0] == 0x49 {  // I
        Some(Flag::I)
    } else if k[0] == 0x44 {  // D
        Some(Flag::D)
    } else if k[0] == 0x58 {  // X
        Some(Flag::X)
    } else if k[0] == 0x4D {  // M
        Some(Flag::M)
    } else if k[0] == 0x56 {  // V
        Some(Flag::V)
    } else if k[0] == 0x4E || k[0] == 0x45 {  // N E
        Some(Flag::N)
    } else if k[0] == 0x42 {  // B
        Some(Flag::B)
    } else {
        None
    }
}

/// What a property `key:value` expects: the flag that its key names, set when its value is
/// `1`. A property without a colon, or whose key names no flag, expects nothing.
pub open spec fn expectation_of(prop: Seq<u8>) -> Option<(Flag, bool)> {
    let parts = split(prop, COLON);
    if parts.len() < 2 {
        None
    } else {
        match flag_named(parts[0]) {
            Some(f) => Some((f, parts[1] == seq![ONE])),
            None => None,
        }
    }
}

/// The expectations that a text states, when it is well formed: none for the empty text, and
/// otherwise one for each of its comma-separated properties, all of which must expect something.
pub open spec fn expectations_of(b: Seq<u8>) -> Option<Seq<(Flag, bool)>> {
    if b.len() == 0 {
        Some(seq![])
    } else {
        let props = split(b, COMMA);
        if forall|i: int| 0 <= i < props.len() ==> (#[trigger] expectation_of(props[i])) is Some {
            Some(Seq::new(props.len(), |i: int| expectation_of(props[i])->0))
        } else {
            None
        }
    }
}

/// How far a property has been read: the colons seen, the key before the first one and the
/// value between the first and the second.
spec fn prop_read(cur: Seq<u8>, key: Seq<u8>, value: Seq<u8>, colons: nat) -> bool {
    let (kd, kc) = split_acc(cur, COLON);
    &&& colons == kd.len()
    &&& key == (if kd.len() >= 1 { kd[0] } else { kc })
    &&& value == (if kd.len() >= 2 { kd[1] } else if kd.len() == 1 { kc } else { seq![] })
}

/// What a property expects, from the key, value and colons read of it.
proof fn lemma_prop_read_expects(cur: Seq<u8>, key: Seq<u8>, value: Seq<u8>, colons: nat)
    requires
        prop_read(cur, key, value, colons),
    ensures
        expectation_of(cur) == (if colons == 0 {
            None
        } else {
            match flag_named(key) {
                Some(f) => Some((f, value == seq![ONE])),
                None => None,
            }
        }),
{
    let (kd, kc) = split_acc(cur, COLON);
    assert(split(cur, COLON) == kd.push(kc));
}

/// Reading one more byte of a property, other than a comma: a colon ends a part, another byte
/// adds to the key before the first colon and to the value before the second.
proof fn lemma_prop_read_step(cur: Seq<u8>, key: Seq<u8>, value: Seq<u8>, colons: nat, c: u8)
    requires
        prop_read(cur, key, value, colons),
    ensures
        c == COLON ==> prop_read(cur.push(c), key, value, colons + 1),
        c != COLON && colons == 0 ==> prop_read(cur.push(c), key.push(c), value, colons),
        c != COLON && colons == 1 ==> prop_read(cur.push(c), key, value.push(c), colons),
        c != COLON && colons >= 2 ==> prop_read(cur.push(c), key, value, colons),
{
    assert(cur.push(c).drop_last() =~= cur);
}

/// What the property read so far expects.
fn prop_expectation(key: &Vec<u8>, value: &Vec<u8>, colons: usize) -> (r: Option<(Flag, bool)>)
    ensures
        r == (if colons == 0 {
            None
        } else {
            match flag_named(key@) {
                Some(f) => Some((f, value@ == seq![ONE])),
                None => None,
            }
        }),
{
    if colons == 0 || key.len() != 1 {
        return None;
    }
    let flag = match key[0] {
        0x43 => Flag::C,  // C
        0x5A => Flag::Z,  // Z
        0x49 => Flag::I,  // I
        0x44 => Flag::D,  // D
        0x58 => Flag::X,  // X
        0x4D => Flag::M,  // M
        0x56 => Flag::V,  // V
        0x4E => Flag::N,  // N
        0x45 => Flag::N,  // E
        0x42 => Flag::B,  // B
        _ => {
            return None;
        },
    };
    let set = value.len() == 1 && value[0] == ONE;
    assert(set == (value@ == seq![ONE])) by {
        if value@.len() == 1 && value@[0] == 0x31 {  // 1
            assert(value@ =~= seq![ONE]);
        }
    }
    Some((flag, set))
}

/// The message of a text that is no flag expectation.
fn invalid_text(s: &str) -> (r: String)
    ensures
        r@ == "Invalid flag expectation: "@ + s@,
{
    let mut m = String::new();
    m.append("Invalid flag expectation: ");
    m.append(s);
    assert(m@ =~= "Invalid flag expectation: "@ + s@);
    m
}

impl FlagExpectation {
    /// Reads the expectations that a text states: comma-separated properties `flag:value`, each
    /// of which expects its flag set when its value is `1` and clear otherwise.
    pub fn parse(s: &str) -> (r: Result<FlagExpectation, String>)
        ensures
            match r {
                Ok(e) => expectations_of(s.spec_bytes()) == Some(e.0@),
                Err(m) => {
                    &&& expectations_of(s.spec_bytes()) is None
                    &&& m@ == "Invalid flag expectation: "@ + s@
                },
            },
    {
        let b = s.as_bytes();
        let n = b.len();
        if n == 0 {
            return Ok(FlagExpectation(Vec::new()));
        }
        let ghost bs = b@;
        let mut flags: Vec<(Flag, bool)> = Vec::new();
        let mut key: Vec<u8> = Vec::new();
        let mut value: Vec<u8> = Vec::new();
        let mut colons: usize = 0;
        let mut i: usize = 0;
        while i < n
            invariant
                n == bs.len(),
                bs == b@,
                bs == s.spec_bytes(),
                0 <= i <= n,
                colons <= i,
                flags@.len() == split_acc(bs.take(i as int), COMMA).0.len(),
                forall|j: int|
                    0 <= j < flags@.len() ==> expectation_of(
                        #[trigger] split_acc(bs.take(i as int), COMMA).0[j],
                    ) == Some(flags@[j]),
                prop_read(split_acc(bs.take(i as int), COMMA).1, key@, value@, colons as nat),
            decreases n - i,
        {
            let c = b[i];
            let ghost cur = split_acc(bs.take(i as int), COMMA).1;
            proof {
                assert(bs.take(i + 1).drop_last() =~= bs.take(i as int));
                assert(bs.take(i + 1).last() == c);
                lemma_prop_read_expects(cur, key@, value@, colons as nat);
                lemma_prop_read_step(cur, key@, value@, colons as nat, c);
            }
            if c == COMMA {
                match prop_expectation(&key, &value, colons) {
                    Some(e) => flags.push(e),
                    None => {
                        proof {
                            let k = flags@.len() as int;
                            let done = split_acc(bs.take(i as int), COMMA).0;
                            assert(split_acc(bs.take(i + 1), COMMA).0 == done.push(cur));
                            lemma_split_acc_prefix(bs, COMMA, i + 1, n as int);
                            assert(bs.take(n as int) =~= bs);
                            let whole = split_acc(bs, COMMA).0;
                            assert(whole.take(k + 1) == done.push(cur));
                            assert(whole.take(k + 1)[k] == cur);
                            assert(whole[k] == cur);
                            assert(split(bs, COMMA)[k] == cur);
                            assert(expectation_of(split(bs, COMMA)[k]) is None);
                        }
                        return Err(invalid_text(s));
                    },
                }
                key = Vec::new();
                value = Vec::new();
                colons = 0;
            } else if c == COLON {
                colons = colons + 1;
            } else if colons == 0 {
                key.push(c);
            } else if colons == 1 {
                value.push(c);
            }
            i = i + 1;
        }
        let ghost cur = split_acc(bs, COMMA).1;
        proof {
            assert(bs.take(n as int) =~= bs);
            lemma_prop_read_expects(cur, key@, value@, colons as nat);
        }
        match prop_expectation(&key, &value, colons) {
            Some(e) => flags.push(e),
            None => {
                proof {
                    let k = flags@.len() as int;
                    assert(split(bs, COMMA)[k] == cur);
                    assert(expectation_of(split(bs, COMMA)[k]) is None);
                }
                return Err(invalid_text(s));
            },
        }
        proof {
            let props = split(bs, COMMA);
            assert(flags@ =~= Seq::new(props.len(), |i: int| expectation_of(props[i])->0));
        }
        Ok(FlagExpectation(flags))
    }
}

impl FromStr for FlagExpectation {
    type Err = String;

    fn from_str(s: &str) -> (r: Result<Self, Self::Err>)
        ensures
            match r {
                Ok(e) => expectations_of(s.spec_bytes()) == Some(e.0@),
                Err(m) => {
                    &&& expectations_of(s.spec_bytes()) is None
                    &&& m@ == "Invalid flag expectation: "@ + s@
                },
            },
    {
        Self::parse(s)
    }
}

} // verus!
