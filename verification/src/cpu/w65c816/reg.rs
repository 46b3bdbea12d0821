//! The register bank of the W65C816.
use vstd::prelude::*;

use crate::cpu::w65c816::bus::{Addr, AddrWrap, Bus, addr_inc, addr_of};
use crate::cpu::w65c816::interrupt;
use crate::cpu::w65c816::status::{self, flag_mask};
use crate::utils::word::{lemma_replace_low_byte, lemma_word_bits, word};

verus! {

/// The content of the registers.
#[derive(Clone, Copy, Debug, PartialEq, Eq, Structural)]
pub struct Regs {
    /// Processor status register
    pub p: u8,
    /// Emulation mode flag
    pub e: bool,
    /// Accumulator
    pub a: u16,
    /// Index register X
    pub x: u16,
    /// Index register Y
    pub y: u16,
    /// Program counter
    pub pc: u16,
    /// Stack pointer
    pub sp: u16,
    /// Direct page register
    pub dp: u16,
    /// Program bank register
    pub pbr: u8,
    /// Data bank register
    pub dbr: u8,
}

/// The bits of the status register that emulation mode forces to one: M and X.
pub open spec fn mx_bits() -> u8 {
    0x30
}

/// The stack pointer as emulation mode keeps it: in page one.
pub open spec fn sp_in_page_one(sp: u16) -> u16 {
    (sp % 0x100 + 0x100) as u16
}

/// Whether the flag of `mask` is set in the status register.
pub open spec fn flag_set(r: Regs, mask: u8) -> bool {
    r.p & mask != 0
}

/// The registers after a flag is set (or cleared, when `active` is false); in emulation mode the
/// M and X flags stay set.
pub open spec fn with_flag(r: Regs, mask: u8, active: bool) -> Regs {
    let p1 = if active { r.p | mask } else { r.p & !mask };
    Regs { p: if r.e { p1 | mx_bits() } else { p1 }, ..r }
}

/// The registers after the switch to emulation mode.
pub open spec fn emulated(r: Regs) -> Regs {
    Regs {
        e: true,
        sp: sp_in_page_one(r.sp),
        p: r.p | mx_bits(),
        x: (r.x % 0x100) as u16,
        y: (r.y % 0x100) as u16,
        ..r
    }
}

/// Whether the accumulator and memory accesses are 8-bit wide (M set).
pub open spec fn accum_byte(r: Regs) -> bool {
    flag_set(r, 0x20)
}

/// Whether the index registers are 8-bit wide (X set).
pub open spec fn index_byte(r: Regs) -> bool {
    flag_set(r, 0x10)
}

/// The program bank as the CPU uses it: zero in emulation mode.
pub open spec fn eff_pbr(r: Regs) -> u8 {
    if r.e { 0 } else { r.pbr }
}

/// The data bank as the CPU uses it: zero in emulation mode.
pub open spec fn eff_dbr(r: Regs) -> u8 {
    if r.e { 0 } else { r.dbr }
}

/// The low byte of the direct page register.
pub open spec fn dl(r: Regs) -> u8 {
    (r.dp % 0x100) as u8
}

/// The registers with X set; 8-bit index registers keep only the low byte.
pub open spec fn with_x(r: Regs, v: u16) -> Regs {
    Regs { x: if index_byte(r) { (v % 0x100) as u16 } else { v }, ..r }
}

/// The registers with Y set; 8-bit index registers keep only the low byte.
pub open spec fn with_y(r: Regs, v: u16) -> Regs {
    Regs { y: if index_byte(r) { (v % 0x100) as u16 } else { v }, ..r }
}

/// The registers with the low byte of the accumulator set.
pub open spec fn with_al(r: Regs, v: u8) -> Regs {
    Regs { a: (r.a / 0x100 * 0x100 + v) as u16, ..r }
}

/// The registers with the stack pointer set; emulation mode keeps it in page one.
pub open spec fn with_sp(r: Regs, v: u16) -> Regs {
    Regs { sp: if r.e { sp_in_page_one(v) } else { v }, ..r }
}

/// The registers after a reset: emulation mode, banks and direct page at zero, and the program
/// counter loaded from the reset vector.
pub open spec fn reset_regs<B: Bus>(r: Regs, m: B::Mem) -> Regs {
    emulated(
        Regs {
            e: true,
            pc: word(
                B::peek(m, interrupt::VECTOR_EMULATION_RESET as int),
                B::peek(m, interrupt::VECTOR_EMULATION_RESET + 1),
            ),
            pbr: 0,
            dbr: 0,
            dp: 0,
            ..r
        },
    )
}

/// Emulation mode keeps the stack in page one, the M and X flags set and the index registers
/// within a byte: the switch to it does all three, and setting the stack pointer or a flag in it
/// keeps the first two.
pub proof fn lemma_emulation_mode_forces(r: Regs, v: u16, mask: u8, active: bool)
    ensures
        emulated(r).e,
        0x100 <= emulated(r).sp <= 0x1FF,
        emulated(r).p & mx_bits() == mx_bits(),
        emulated(r).x < 0x100 && emulated(r).y < 0x100,
        r.e ==> 0x100 <= with_sp(r, v).sp <= 0x1FF,
        r.e ==> with_flag(r, mask, active).p & mx_bits() == mx_bits(),
{
    assert(forall|q: u8| #[trigger] (q | 0x30) & 0x30 == 0x30) by (bit_vector);
}

/// Whether the index registers fit their width: below 0x100 while the X flag makes them 8-bit.
pub open spec fn index_fits(r: Regs) -> bool {
    index_byte(r) ==> r.x < 0x100 && r.y < 0x100
}

/// A write to X or Y keeps what the index width holds: with 8-bit index registers the written
/// register ends below 0x100 with the low byte of the value, with 16-bit ones it holds the whole
/// value, and the other index register is untouched. So writes keep the index registers within
/// their width, and the switch to emulation mode brings them within it.
pub proof fn lemma_index_writes_fit(r: Regs, v: u16)
    ensures
        index_byte(r) ==> with_x(r, v).x < 0x100 && with_y(r, v).y < 0x100,
        with_x(r, v).x % 0x100 == v % 0x100 && with_y(r, v).y % 0x100 == v % 0x100,
        !index_byte(r) ==> with_x(r, v).x == v && with_y(r, v).y == v,
        with_x(r, v).y == r.y && with_y(r, v).x == r.x,
        index_fits(r) ==> index_fits(with_x(r, v)) && index_fits(with_y(r, v)),
        index_fits(emulated(r)),
{
}

/// Setting the low byte of the accumulator keeps its high byte: afterwards the accumulator is the
/// old high byte followed by the new low byte, and no other register changes.
pub proof fn lemma_low_byte_write(r: Regs, v: u8)
    ensures
        with_al(r, v).a / 0x100 == r.a / 0x100,
        with_al(r, v).a % 0x100 == v,
        with_al(r, v) == (Regs { a: with_al(r, v).a, ..r }),
{
    let a = r.a as int;
    let n: int = a / 0x100 * 0x100 + v;
    assert(n < 0x10000);
    vstd::arithmetic::div_mod::lemma_fundamental_div_mod_converse(n, 0x100, a / 0x100, v as int);
}

/// Setting or clearing a flag changes that bit of the status alone, except that emulation mode
/// keeps the M and X flags set: every bit other than the flag's keeps its value (or is set, for M
/// and X in emulation mode), and the flag's bit takes the value asked for (or stays set, for M
/// and X in emulation mode). No other register changes.
pub proof fn lemma_status_flag_write(r: Regs, mask: u8, active: bool, i: u8)
    requires
        mask == 0x01 || mask == 0x02 || mask == 0x04 || mask == 0x08 || mask == 0x10 || mask == 0x20
            || mask == 0x40 || mask == 0x80,
        i < 8,
    ensures
        ({
            let b = (1u8 << i) as u8;
            let forced = r.e && (b == 0x10 || b == 0x20);
            &&& (with_flag(r, mask, active).p & b != 0) == if forced {
                true
            } else if b == mask {
                active
            } else {
                r.p & b != 0
            }
            &&& with_flag(r, mask, active) == (Regs { p: with_flag(r, mask, active).p, ..r })
        }),
{
    let p = r.p;
    let e = r.e;
    let b = (1u8 << i) as u8;
    let p1: u8 = if active { p | mask } else { p & !mask };
    let p2: u8 = if e { p1 | 0x30 } else { p1 };
    assert((p2 & b != 0) == if e && (b == 0x10 || b == 0x20) {
        true
    } else if b == mask {
        active
    } else {
        p & b != 0
    }) by (bit_vector)
        requires
            i < 8,
            b == 1u8 << i,
            mask == 0x01 || mask == 0x02 || mask == 0x04 || mask == 0x08 || mask == 0x10 || mask
                == 0x20 || mask == 0x40 || mask == 0x80,
            p1 == if active { p | mask } else { p & !mask },
            p2 == if e { p1 | 0x30 } else { p1 },
    ;
}

/// Writing the stack pointer keeps the value asked for in native mode, and in emulation mode only
/// its low byte, in page one. So the stack pointer stays in page one in emulation mode, and a
/// move of the stack pointer by `n` in emulation mode wraps within that page.
pub proof fn lemma_stack_pointer_write(r: Regs, v: u16, n: u16)
    ensures
        with_sp(r, v).sp == if r.e { 0x100 + v % 0x100 } else { v as int },
        with_sp(r, v) == (Regs { sp: with_sp(r, v).sp, ..r }),
        r.e ==> 0x100 <= with_sp(r, v).sp <= 0x1FF,
        r.e ==> with_sp(r, ((r.sp + n) % 0x10000) as u16).sp == 0x100 + (r.sp + n) % 0x100,
        r.e ==> with_sp(r, ((r.sp - n) % 0x10000) as u16).sp == 0x100 + (r.sp - n) % 0x100,
{
    vstd::arithmetic::div_mod::lemma_mod_mod(r.sp + n, 0x100, 0x100);
    vstd::arithmetic::div_mod::lemma_mod_mod(r.sp - n, 0x100, 0x100);
}

/// Setting or clearing the carry, zero or negative flag sets that flag as asked and leaves the
/// other two as they were; the M and X flags stay as they were, or set in emulation mode.
pub proof fn lemma_with_flag_result(r: Regs, mask: u8, active: bool, other: u8)
    requires
        mask == 0x01 || mask == 0x02 || mask == 0x80,
        other == 0x01 || other == 0x02 || other == 0x80 || other == 0x10 || other == 0x20,
        other != mask,
    ensures
        flag_set(with_flag(r, mask, active), mask) == active,
        flag_set(with_flag(r, mask, active), other) == if other == 0x10 || other == 0x20 {
            flag_set(r, other) || r.e
        } else {
            flag_set(r, other)
        },
{
    let p = r.p;
    let e = r.e;
    let p1: u8 = if active { p | mask } else { p & !mask };
    let p2: u8 = if e { p1 | 0x30 } else { p1 };
    assert((p2 & mask != 0) == active && (p2 & other != 0) == (if other == 0x10 || other == 0x20 {
        p & other != 0 || e
    } else {
        p & other != 0
    })) by (bit_vector)
        requires
            mask == 0x01 || mask == 0x02 || mask == 0x80,
            other == 0x01 || other == 0x02 || other == 0x80 || other == 0x10 || other == 0x20,
            other != mask,
            p1 == if active { p | mask } else { p & !mask },
            p2 == if e { p1 | 0x30 } else { p1 },
    ;
}

/// The registers after a sequence of mode switches, in order: `true` is a switch to emulation
/// mode (`Bank::set_mode_emulated`), `false` one to native mode (`Bank::set_mode_native`).
pub open spec fn after_mode_switches(r: Regs, switches: Seq<bool>) -> Regs
    decreases switches.len(),
{
    if switches.len() == 0 {
        r
    } else {
        let r1 = if switches[0] { emulated(r) } else { Regs { e: false, ..r } };
        after_mode_switches(r1, switches.drop_first())
    }
}

/// The stored program and data banks survive any sequence of mode switches: the CPU uses them
/// again whenever it ends in native mode, and bank zero whenever it ends in emulation mode.
pub proof fn lemma_banks_survive_mode_switches(r: Regs, switches: Seq<bool>)
    ensures
        after_mode_switches(r, switches).pbr == r.pbr,
        after_mode_switches(r, switches).dbr == r.dbr,
        after_mode_switches(r, switches).e == if switches.len() == 0 {
            r.e
        } else {
            switches.last()
        },
        eff_pbr(after_mode_switches(r, switches)) == if after_mode_switches(r, switches).e {
            0
        } else {
            r.pbr
        },
        eff_dbr(after_mode_switches(r, switches)) == if after_mode_switches(r, switches).e {
            0
        } else {
            r.dbr
        },
    decreases switches.len(),
{
    if switches.len() > 0 {
        let r1 = if switches[0] { emulated(r) } else { Regs { e: false, ..r } };
        let rest = switches.drop_first();
        lemma_banks_survive_mode_switches(r1, rest);
        if rest.len() > 0 {
            assert(rest.last() == switches.last());
        }
    }
}

/// The register bank.
pub struct Bank {
    p: u8,      // Processor Status Register
    e: bool,    // Emulation Mode flag

    a: u16,     // Accumulator
    x: u16,     // Index Register X
    y: u16,     // Index Register Y

    pc: u16,    // Program Counter
    sp: u16,    // Stack Pointer
    dp: u16,    // Direct Page Register
    pbr: u8,    // Program Bank Register
    dbr: u8,    // Data Bank Register
}

impl View for Bank {
    type V = Regs;

    closed spec fn view(&self) -> Regs {
        Regs {
            p: self.p,
            e: self.e,
            a: self.a,
            x: self.x,
            y: self.y,
            pc: self.pc,
            sp: self.sp,
            dp: self.dp,
            pbr: self.pbr,
            dbr: self.dbr,
        }
    }
}

impl Default for Bank {
    fn default() -> (r: Self)
        ensures
            r@ == (Regs { p: 0, e: false, a: 0, x: 0, y: 0, pc: 0, sp: 0, dp: 0, pbr: 0, dbr: 0 }),
    {
        Bank { p: 0, e: false, a: 0, x: 0, y: 0, pc: 0, sp: 0, dp: 0, pbr: 0, dbr: 0 }
    }
}

impl Bank {
    /// Resets the registers: emulation mode, banks and direct page at zero, and the program
    /// counter loaded from the reset vector.
    pub fn reset<B: Bus>(&mut self, bus: &mut B)
        ensures
            final(self)@ == reset_regs::<B>(old(self)@, old(bus).mem()),
            final(bus).mem() == old(bus).mem(),
    {
        self.e = true;
        self.pc = bus.read_word(Addr::from(0, interrupt::VECTOR_EMULATION_RESET), AddrWrap::Long);
        self.pbr = 0;
        self.dbr = 0;
        self.dp = 0;
        self.set_mode_emulated();
    }

    /// Whether the flag is set.
    pub fn status_flag_is_set(&self, flag: status::Flag) -> (r: bool)
        ensures
            r == flag_set(self@, flag_mask(flag)),
    {
        self.p & flag.mask() != 0
    }

    /// Whether the flag is clear.
    pub fn status_flag_is_clear(&self, flag: status::Flag) -> (r: bool)
        ensures
            r == !flag_set(self@, flag_mask(flag)),
    {
        self.p & flag.mask() == 0
    }

    /// Sets the flag when `active` holds and clears it otherwise; in emulation mode the M and X
    /// flags stay set.
    pub fn set_status_flag(&mut self, flag: status::Flag, active: bool)
        ensures
            final(self)@ == with_flag(old(self)@, flag_mask(flag), active),
    {
        if active {
            flag.set(&mut self.p);
        } else {
            flag.clear(&mut self.p);
        }

        if self.mode_is_emulated() {
            assert(0x20u8 | 0x10u8 == 0x30u8) by (bit_vector);
            self.p = self.p | (status::Flag::M.mask() | status::Flag::X.mask());
        }
    }

    /// Switches to emulation mode.
    pub fn set_mode_emulated(&mut self)
        ensures
            final(self)@ == emulated(old(self)@),
    {
        self.e = true;

        // When the e flag is 1, the SH register is forced to $01...
        self.force_sp_emulation();

        // ...the m flag is forced to 1, and the x flag is forced to 1.
        assert(0x20u8 | 0x10u8 == 0x30u8) by (bit_vector);
        self.p = self.p | (status::Flag::M.mask() | status::Flag::X.mask());

        // As a consequence of the x flag being forced to 1, the XH register and the YH register
        // are forced to $00.
        let x = self.x;
        let y = self.y;
        proof {
            lemma_word_bits(x);
            lemma_word_bits(y);
        }
        self.x = x & 0x00FF;
        self.y = y & 0x00FF;
    }

    /// Switches to native mode.
    pub fn set_mode_native(&mut self)
        ensures
            final(self)@ == (Regs { e: false, ..old(self)@ }),
    {
        self.e = false;
    }

    /// Whether the CPU runs in emulation mode.
    pub fn mode_is_emulated(&self) -> (r: bool)
        ensures
            r == self@.e,
    {
        self.e
    }

    /// Whether the CPU runs in native mode.
    pub fn mode_is_native(&self) -> (r: bool)
        ensures
            r == !self@.e,
    {
        !self.e
    }

    /// Whether the accumulator and memory accesses are 8-bit wide.
    pub fn accum_is_byte(&self) -> (r: bool)
        ensures
            r == accum_byte(self@),
    {
        self.p & status::Flag::M.mask() != 0
    }

    /// Whether the index registers are 8-bit wide.
    pub fn index_is_byte(&self) -> (r: bool)
        ensures
            r == index_byte(self@),
    {
        self.p & status::Flag::X.mask() != 0
    }

    /// The status register.
    pub fn p(&self) -> (r: u8)
        ensures
            r == self@.p,
    {
        self.p
    }

    /// Sets the status register.
    pub fn p_set(&mut self, value: u8)
        ensures
            final(self)@ == (Regs { p: value, ..old(self)@ }),
    {
        self.p = value;
    }

    /// The direct page register.
    pub fn dp(&self) -> (r: u16)
        ensures
            r == self@.dp,
    {
        self.dp
    }

    /// The low byte of the direct page register.
    pub fn dl(&self) -> (r: u8)
        ensures
            r == dl(self@),
    {
        let dp = self.dp;
        proof {
            lemma_word_bits(dp);
        }
        dp as u8
    }

    /// The high byte of the direct page register.
    pub fn dh(&self) -> (r: u8)
        ensures
            r == self@.dp / 0x100,
    {
        let dp = self.dp;
        proof {
            lemma_word_bits(dp);
        }
        (dp >> 8) as u8
    }

    /// Sets the direct page register.
    pub fn dp_set(&mut self, value: u16)
        ensures
            final(self)@ == (Regs { dp: value, ..old(self)@ }),
    {
        self.dp = value;
    }

    /// The accumulator.
    pub fn a(&self) -> (r: u16)
        ensures
            r == self@.a,
    {
        self.a
    }

    /// The index register X.
    pub fn x(&self) -> (r: u16)
        ensures
            r == self@.x,
    {
        self.x
    }

    /// The index register Y.
    pub fn y(&self) -> (r: u16)
        ensures
            r == self@.y,
    {
        self.y
    }

    /// The low byte of the accumulator.
    pub fn al(&self) -> (r: u8)
        ensures
            r == self@.a % 0x100,
    {
        let a = self.a;
        proof {
            lemma_word_bits(a);
        }
        a as u8
    }

    /// Sets the low byte of the accumulator, keeping its high byte.
    pub fn al_set(&mut self, value: u8)
        ensures
            final(self)@ == with_al(old(self)@, value),
    {
        let a = self.a;
        let r = (a & 0xFF00) | (value as u16);
        proof {
            lemma_replace_low_byte(a, value);
        }
        self.a = r;
    }

    /// Sets the whole accumulator.
    pub fn a_set(&mut self, value: u16)
        ensures
            final(self)@ == (Regs { a: value, ..old(self)@ }),
    {
        self.a = value
    }

    /// Sets the index register X; 8-bit index registers keep only the low byte.
    pub fn x_set(&mut self, value: u16)
        ensures
            final(self)@ == with_x(old(self)@, value),
    {
        self.x = value;
        if self.index_is_byte() {
            proof {
                lemma_word_bits(self.x);
            }
            self.x = self.x & 0x00FF;
        }
    }

    /// Sets the index register Y; 8-bit index registers keep only the low byte.
    pub fn y_set(&mut self, value: u16)
        ensures
            final(self)@ == with_y(old(self)@, value),
    {
        self.y = value;
        if self.index_is_byte() {
            proof {
                lemma_word_bits(self.y);
            }
            self.y = self.y & 0x00FF;
        }
    }

    /// The program bank register as the CPU uses it.
    pub fn pbr(&self) -> (r: u8)
        ensures
            r == eff_pbr(self@),
    {
        if self.mode_is_native() {
            self.pbr
        } else {
            0
        }
    }

    /// Sets the program bank register.
    pub fn pbr_set(&mut self, value: u8)
        ensures
            final(self)@ == (Regs { pbr: value, ..old(self)@ }),
    {
        self.pbr = value;
    }

    /// The data bank register as the CPU uses it.
    pub fn dbr(&self) -> (r: u8)
        ensures
            r == eff_dbr(self@),
    {
        if self.mode_is_native() {
            self.dbr
        } else {
            0
        }
    }

    /// Sets the data bank register.
    pub fn dbr_set(&mut self, value: u8)
        ensures
            final(self)@ == (Regs { dbr: value, ..old(self)@ }),
    {
        self.dbr = value;
    }

    /// The stack pointer.
    pub fn sp(&self) -> (r: u16)
        ensures
            r == self@.sp,
    {
        self.sp
    }

    /// Moves the stack pointer up.
    pub fn sp_inc(&mut self, n: u16)
        ensures
            final(self)@ == with_sp(old(self)@, ((old(self)@.sp + n) % 0x10000) as u16),
    {
        self.sp_set(self.sp.wrapping_add(n));
    }

    /// Moves the stack pointer down.
    pub fn sp_dec(&mut self, n: u16)
        ensures
            final(self)@ == with_sp(old(self)@, ((old(self)@.sp - n) % 0x10000) as u16),
    {
        self.sp_set(self.sp.wrapping_sub(n));
    }

    /// Sets the stack pointer; emulation mode keeps it in page one.
    pub fn sp_set(&mut self, n: u16)
        ensures
            final(self)@ == with_sp(old(self)@, n),
    {
        self.sp = n;
        if self.mode_is_emulated() {
            self.force_sp_emulation()
        }
    }

    /// The program counter.
    pub fn pc(&self) -> (r: u16)
        ensures
            r == self@.pc,
    {
        self.pc
    }

    /// Moves the program counter forward and gives its new value.
    pub fn pc_inc(&mut self, n: u16) -> (r: u16)
        requires
            old(self)@.pc + n <= 0xFFFF,
        ensures
            final(self)@ == (Regs { pc: (old(self)@.pc + n) as u16, ..old(self)@ }),
            r == final(self)@.pc,
    {
        self.pc = self.pc + n;
        self.pc
    }

    /// Sets the program counter.
    pub fn pc_jump(&mut self, n: u16)
        ensures
            final(self)@ == (Regs { pc: n, ..old(self)@ }),
    {
        self.pc = n;
    }

    /// Puts the stack pointer in page one.
    fn force_sp_emulation(&mut self)
        ensures
            final(self)@ == (Regs { sp: sp_in_page_one(old(self)@.sp), ..old(self)@ }),
    {
        let sp = self.sp;
        let r = (sp & 0x00FF) | 0x0100;
        proof {
            lemma_word_bits(sp);
        }
        self.sp = r;
    }
}

} // verus!
