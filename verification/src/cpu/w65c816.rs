//! The Western Design Center W65C816, a 16-bit CPU with a 24-bit address bus.
pub mod addr;
pub mod branch;
pub mod bus;
pub mod ev;
pub mod interrupt;
pub mod reg;
pub mod status;
pub mod text;

use vstd::prelude::*;

pub use bus::{Addr, AddrWrap, Bus};
pub use ev::{Event, NullReporter, Reporter};

use addr::{Mode, ModeRead, mode_read_spec, mode_text, mode_write_spec, readable, writable};
use bus::{addr_inc, addr_of, wrap_add};
use ev::EventView;
use crate::utils::bcd::{self, bcd_add_digits, bcd_sub_digits};
use vstd::string::*;
use vstd::arithmetic::div_mod::{
    lemma_add_mod_noop, lemma_fundamental_div_mod_converse, lemma_mod_mod, lemma_small_mod,
    lemma_sub_mod_noop,
};
use reg::{
    Regs, accum_byte, dl, eff_dbr, eff_pbr, flag_set, index_byte, lemma_with_flag_result, with_al,
    with_flag, with_sp, with_x, with_y,
};
use status::{Flag, flag_mask};
use crate::utils::word::{high, high_byte, lemma_word_bits, low, low_byte, word};

verus! {

/// The W65C816 CPU: its registers and the count of cycles it has run.
pub struct CPU {
    pub cycles: u64,
    pub regs: reg::Bank,
}

/// The state of the CPU as the specifications see it.
#[derive(Clone, Copy, Debug, PartialEq, Eq, Structural)]
pub struct State {
    pub cycles: u64,
    pub regs: Regs,
}

impl View for CPU {
    type V = State;

    open spec fn view(&self) -> State {
        State { cycles: self.cycles, regs: self.regs@ }
    }
}

impl Default for CPU {
    fn default() -> (r: Self)
        ensures
            r@ == (State {
                cycles: 0,
                regs: Regs { p: 0, e: false, a: 0, x: 0, y: 0, pc: 0, sp: 0, dp: 0, pbr: 0, dbr: 0 },
            }),
    {
        CPU { cycles: 0, regs: reg::Bank::default() }
    }
}

/// The little-endian word at `a` in bus state `m`, its high byte at the following address as
/// `wrap` counts.
pub open spec fn word_in<B: Bus>(m: B::Mem, a: int, wrap: AddrWrap) -> u16 {
    word(B::peek(m, a), B::peek(m, addr_inc(a, wrap)))
}

/// The bus state after `val` is written as a little-endian word at `a`.
pub open spec fn word_poked<B: Bus>(m: B::Mem, a: int, wrap: AddrWrap, val: u16) -> B::Mem {
    B::poke(B::poke(m, a, low_byte(val)), addr_inc(a, wrap), high_byte(val))
}

/// How direct page addresses wrap: within the page in emulation mode when the direct page is
/// page aligned, within the bank otherwise.
pub open spec fn direct_wrap(r: Regs) -> AddrWrap {
    if r.e && dl(r) == 0 {
        AddrWrap::Byte
    } else {
        AddrWrap::Word
    }
}

/// The address of the direct page location `dir` indexed by the low byte of `idx`.
pub open spec fn direct_addr_of(r: Regs, dir: u8, idx: u16) -> int {
    wrap_add(wrap_add(addr_of(0, r.dp), dir as int, direct_wrap(r)), idx as int % 0x100, direct_wrap(r))
}

/// The word at a direct page location.
pub open spec fn direct_word<B: Bus>(r: Regs, m: B::Mem, dir: u8, idx: u16) -> u16 {
    word_in::<B>(m, direct_addr_of(r, dir, idx), direct_wrap(r))
}

/// The address in the data bank that a direct page location points to.
pub open spec fn direct_ptr<B: Bus>(r: Regs, m: B::Mem, dir: u8, idx: u16) -> int {
    addr_of(eff_dbr(r), direct_word::<B>(r, m, dir, idx))
}

/// The long address that a direct page location points to: offset first, then bank.
pub open spec fn direct_ptr_long<B: Bus>(r: Regs, m: B::Mem, dir: u8, idx: u16) -> int {
    addr_of(
        low_byte(direct_word::<B>(r, m, dir, ((idx + 2) % 0x10000) as u16)),
        direct_word::<B>(r, m, dir, idx),
    )
}

/// The word at `idx` above the stack pointer; in emulation mode the stack wraps within its page.
pub open spec fn stack_word<B: Bus>(r: Regs, m: B::Mem, idx: u16) -> u16 {
    let wrap = if r.e { AddrWrap::Byte } else { AddrWrap::Word };
    word_in::<B>(m, wrap_add(addr_of(0, r.sp), idx as int, wrap), wrap)
}

/// The address of the program byte at `offset` past the program counter.
pub open spec fn pc_addr(r: Regs, offset: u16) -> int {
    wrap_add(addr_of(eff_pbr(r), r.pc), offset as int, AddrWrap::Word)
}

/// The program byte at `offset` past the program counter.
pub open spec fn pc_byte<B: Bus>(r: Regs, m: B::Mem, offset: u16) -> u8 {
    B::peek(m, pc_addr(r, offset))
}

/// The program word at `offset` past the program counter.
pub open spec fn pc_word<B: Bus>(r: Regs, m: B::Mem, offset: u16) -> u16 {
    word_in::<B>(m, pc_addr(r, offset), AddrWrap::Word)
}

/// The registers and bus after a byte is pushed: it goes where the stack pointer points, in
/// bank zero, and the stack pointer moves down.
pub open spec fn pushed_byte<B: Bus>(r: Regs, m: B::Mem, value: u8) -> (Regs, B::Mem) {
    (with_sp(r, ((r.sp - 1) % 0x10000) as u16), B::poke(m, addr_of(0, r.sp), value))
}

/// The registers and bus after a word is pushed, its high byte first.
pub open spec fn pushed_word<B: Bus>(r: Regs, m: B::Mem, value: u16) -> (Regs, B::Mem) {
    let (r1, m1) = pushed_byte::<B>(r, m, high_byte(value));
    pushed_byte::<B>(r1, m1, low_byte(value))
}

/// The registers and bus after the program counter is pushed; native mode pushes the program
/// bank first.
pub open spec fn pushed_pc<B: Bus>(r: Regs, m: B::Mem) -> (Regs, B::Mem) {
    let (r1, m1) = if !r.e { pushed_byte::<B>(r, m, eff_pbr(r)) } else { (r, m) };
    pushed_word::<B>(r1, m1, r1.pc)
}

/// A byte read as a two's complement number.
pub open spec fn signed8(b: u8) -> int {
    if b < 0x80 { b as int } else { b as int - 0x100 }
}

/// A word read as a two's complement number.
pub open spec fn signed16(w: u16) -> int {
    if w < 0x8000 { w as int } else { w as int - 0x10000 }
}

/// Zero flag from a result, 8 or 16 bits wide as the flag of `mask8` says.
pub open spec fn upd_zero(r: Regs, result: u16, mask8: u8) -> Regs {
    with_flag(r, 0x02, if flag_set(r, mask8) { result % 0x100 == 0 } else { result == 0 })
}

/// Negative flag from the top bit of a result, 8 or 16 bits wide.
pub open spec fn upd_negative(r: Regs, result: u16, mask8: u8) -> Regs {
    with_flag(r, 0x80, if flag_set(r, mask8) { result % 0x100 >= 0x80 } else { result >= 0x8000 })
}

/// Overflow flag from the bit below the top of a value, 8 or 16 bits wide.
pub open spec fn upd_negative_second(r: Regs, result: u16, mask8: u8) -> Regs {
    with_flag(r, 0x40, if flag_set(r, mask8) { result % 0x80 >= 0x40 } else { result % 0x8000 >= 0x4000 })
}

/// Carry flag set when the result is below the previous value, 8 or 16 bits wide.
pub open spec fn upd_carry_arithmetic(r: Regs, prev: u16, result: u16, mask8: u8) -> Regs {
    with_flag(r, 0x01, if flag_set(r, mask8) { result % 0x100 < prev % 0x100 } else { result < prev })
}

/// Carry flag from the top bit of the value shifted out, 8 or 16 bits wide.
pub open spec fn upd_carry_shift_left(r: Regs, prev: u16, mask8: u8) -> Regs {
    with_flag(r, 0x01, if flag_set(r, mask8) { prev % 0x100 >= 0x80 } else { prev >= 0x8000 })
}

/// Overflow flag set when the signed result is below the signed previous value.
pub open spec fn upd_overflow(r: Regs, prev: u16, result: u16, mask8: u8) -> Regs {
    with_flag(
        r,
        0x40,
        if flag_set(r, mask8) {
            signed8(low_byte(result)) < signed8(low_byte(prev))
        } else {
            signed16(result) < signed16(prev)
        },
    )
}

/// Overflow flag set when the signed result is above the signed previous value.
pub open spec fn upd_underflow(r: Regs, prev: u16, result: u16, mask8: u8) -> Regs {
    with_flag(
        r,
        0x40,
        if flag_set(r, mask8) {
            signed8(low_byte(result)) > signed8(low_byte(prev))
        } else {
            signed16(result) > signed16(prev)
        },
    )
}

impl CPU {
    /// Resets the registers as `reg::Bank::reset` does.
    pub fn reset<B: Bus>(&mut self, bus: &mut B)
        ensures
            final(self)@.cycles == old(self)@.cycles,
            final(self)@.regs == reg::reset_regs::<B>(old(self)@.regs, old(bus).mem()),
            final(bus).mem() == old(bus).mem(),
    {
        self.regs.reset(bus);
    }

    /// The byte at a direct page location.
    fn read_direct_byte<B: Bus>(&self, bus: &B, dir: u8, idx: u16) -> (r: u8)
        ensures
            r == low_byte(direct_word::<B>(self@.regs, bus.mem(), dir, idx)),
    {
        low(self.read_direct_word(bus, dir, idx))
    }

    /// The word at a direct page location.
    fn read_direct_word<B: Bus>(&self, bus: &B, dir: u8, idx: u16) -> (r: u16)
        ensures
            r == direct_word::<B>(self@.regs, bus.mem(), dir, idx),
    {
        let (addr, wrap) = self.direct_addr(dir, idx);
        bus.read_word(addr, wrap)
    }

    /// The address in the data bank that a direct page location points to.
    fn read_direct_ptr<B: Bus>(&self, bus: &B, dir: u8, idx: u16) -> (r: Addr)
        ensures
            r@ == direct_ptr::<B>(self@.regs, bus.mem(), dir, idx),
    {
        Addr::from(self.regs.dbr(), self.read_direct_word(bus, dir, idx))
    }

    /// The long address that a direct page location points to.
    fn read_direct_ptr_long<B: Bus>(&self, bus: &B, dir: u8, idx: u16) -> (r: Addr)
        ensures
            r@ == direct_ptr_long::<B>(self@.regs, bus.mem(), dir, idx),
    {
        Addr::from(
            self.read_direct_byte(bus, dir, add16(idx, 2)),
            self.read_direct_word(bus, dir, idx),
        )
    }

    /// The word at `idx` above the stack pointer.
    fn read_stack_word<B: Bus>(&self, bus: &B, idx: u16) -> (r: u16)
        ensures
            r == stack_word::<B>(self@.regs, bus.mem(), idx),
    {
        let wrap = if self.regs.mode_is_emulated() {
            AddrWrap::Byte
        } else {
            AddrWrap::Word
        };

        let addr = Addr::from(0, self.regs.sp()).wrapping_add(idx, wrap);
        bus.read_word(addr, wrap)
    }

    /// The program byte at `offset` past the program counter.
    fn fetch_pc_byte<B: Bus>(&self, bus: &mut B, offset: u16) -> (r: u8)
        ensures
            r == pc_byte::<B>(self@.regs, old(bus).mem(), offset),
            final(bus).mem() == old(bus).mem(),
    {
        let addr = Addr::from(self.regs.pbr(), self.regs.pc()).wrapping_add(offset, AddrWrap::Word);
        bus.read_byte(addr)
    }

    /// The program word at `offset` past the program counter.
    fn fetch_pc_word<B: Bus>(&self, bus: &mut B, offset: u16) -> (r: u16)
        ensures
            r == pc_word::<B>(self@.regs, old(bus).mem(), offset),
            final(bus).mem() == old(bus).mem(),
    {
        let addr = Addr::from(self.regs.pbr(), self.regs.pc()).wrapping_add(offset, AddrWrap::Word);
        bus.read_word(addr, AddrWrap::Word)
    }

    /// Writes a byte at a direct page location.
    fn write_direct_byte<B: Bus>(&mut self, bus: &mut B, dir: u8, idx: u16, value: u8)
        ensures
            final(self)@ == old(self)@,
            final(bus).mem() == B::poke(old(bus).mem(), direct_addr_of(old(self)@.regs, dir, idx), value),
    {
        let (addr, _) = self.direct_addr(dir, idx);
        bus.write_byte(addr, value);
    }

    /// Writes a word at a direct page location.
    fn write_direct_word<B: Bus>(&mut self, bus: &mut B, dir: u8, idx: u16, value: u16)
        ensures
            final(self)@ == old(self)@,
            final(bus).mem() == word_poked::<B>(
                old(bus).mem(),
                direct_addr_of(old(self)@.regs, dir, idx),
                direct_wrap(old(self)@.regs),
                value,
            ),
    {
        let (addr, wrap) = self.direct_addr(dir, idx);
        bus.write_word(addr, wrap, value);
    }

    /// Pushes a byte on the stack.
    fn push_byte<B: Bus>(&mut self, bus: &mut B, value: u8)
        ensures
            final(self)@.cycles == old(self)@.cycles,
            (final(self)@.regs, final(bus).mem()) == pushed_byte::<B>(old(self)@.regs, old(bus).mem(), value),
    {
        bus.write_byte(Addr::from(0, self.regs.sp()), value);
        self.regs.sp_dec(1);
    }

    /// Pushes a word on the stack, its high byte first.
    fn push_word<B: Bus>(&mut self, bus: &mut B, value: u16)
        ensures
            final(self)@.cycles == old(self)@.cycles,
            (final(self)@.regs, final(bus).mem()) == pushed_word::<B>(old(self)@.regs, old(bus).mem(), value),
    {
        self.push_byte(bus, high(value));
        self.push_byte(bus, low(value));
    }

    /// Pushes the program counter, and in native mode the program bank before it.
    fn push_pc<B: Bus>(&mut self, bus: &mut B)
        ensures
            final(self)@.cycles == old(self)@.cycles,
            (final(self)@.regs, final(bus).mem()) == pushed_pc::<B>(old(self)@.regs, old(bus).mem()),
    {
        if self.regs.mode_is_native() {
            let pbr = self.regs.pbr();
            self.push_byte(bus, pbr);
        }
        let pc = self.regs.pc();
        self.push_word(bus, pc);
    }

    /// The address of a direct page location and how it wraps.
    fn direct_addr(&self, dir: u8, idx: u16) -> (r: (Addr, AddrWrap))
        ensures
            r.0@ == direct_addr_of(self@.regs, dir, idx),
            r.1 == direct_wrap(self@.regs),
    {
        let wrap = if self.regs.mode_is_emulated() && self.regs.dl() == 0 {
            AddrWrap::Byte
        } else {
            AddrWrap::Word
        };
        let low_idx = idx as u8;
        proof {
            lemma_word_bits(idx);
        }
        (Addr::from(0, self.regs.dp()).wrapping_add(dir, wrap).wrapping_add(low_idx, wrap), wrap)
    }

    /// Sets the zero flag from a result.
    fn update_status_zero(&mut self, result: u16, flag_8bit: Flag)
        ensures
            final(self)@ == (State { regs: upd_zero(old(self)@.regs, result, flag_mask(flag_8bit)), ..old(self)@ }),
    {
        if self.regs.status_flag_is_set(flag_8bit) {
            proof {
                lemma_word_bits(result);
            }
            self.regs.set_status_flag(Flag::Z, result & 0x00FF == 0);
        } else {
            self.regs.set_status_flag(Flag::Z, result == 0);
        }
    }

    /// Sets the negative flag from a result.
    fn update_status_negative(&mut self, result: u16, flag_8bit: Flag)
        ensures
            final(self)@ == (State { regs: upd_negative(old(self)@.regs, result, flag_mask(flag_8bit)), ..old(self)@ }),
    {
        if self.regs.status_flag_is_set(flag_8bit) {
            proof {
                lemma_word_bits(result);
            }
            self.regs.set_status_flag(Flag::N, result & 0x0080 != 0);
        } else {
            proof {
                lemma_word_bits(result);
            }
            self.regs.set_status_flag(Flag::N, result & 0x8000 != 0);
        }
    }

    /// Sets the overflow flag from the bit below the top of a value.
    fn update_status_negative_second(&mut self, result: u16, flag_8bit: Flag)
        ensures
            final(self)@ == (State { regs: upd_negative_second(old(self)@.regs, result, flag_mask(flag_8bit)), ..old(self)@ }),
    {
        if self.regs.status_flag_is_set(flag_8bit) {
            proof {
                lemma_word_bits(result);
            }
            self.regs.set_status_flag(Flag::V, result & 0x0040 != 0);
        } else {
            proof {
                lemma_word_bits(result);
            }
            self.regs.set_status_flag(Flag::V, result & 0x4000 != 0);
        }
    }

    /// Sets the carry flag when the result is below the previous value.
    fn update_status_carry_arithmetic(&mut self, prev: u16, result: u16, flag_8bit: Flag)
        ensures
            final(self)@ == (State { regs: upd_carry_arithmetic(old(self)@.regs, prev, result, flag_mask(flag_8bit)), ..old(self)@ }),
    {
        if self.regs.status_flag_is_set(flag_8bit) {
            proof {
                lemma_word_bits(result);
                lemma_word_bits(prev);
            }
            self.regs.set_status_flag(Flag::C, (result as u8) < (prev as u8));
        } else {
            self.regs.set_status_flag(Flag::C, result < prev);
        }
    }

    /// Sets the carry flag from the top bit of the value shifted left.
    fn update_status_carry_shift_left(&mut self, prev: u16, flag_8bit: Flag)
        ensures
            final(self)@ == (State { regs: upd_carry_shift_left(old(self)@.regs, prev, flag_mask(flag_8bit)), ..old(self)@ }),
    {
        if self.regs.status_flag_is_set(flag_8bit) {
            proof {
                lemma_word_bits(prev);
            }
            self.regs.set_status_flag(Flag::C, prev & 0x0080 != 0);
        } else {
            proof {
                lemma_word_bits(prev);
            }
            self.regs.set_status_flag(Flag::C, prev & 0x8000 != 0);
        }
    }

    /// Sets the overflow flag when the signed result is below the signed previous value.
    fn update_status_overflow(&mut self, prev: u16, result: u16, flag_8bit: Flag)
        ensures
            final(self)@ == (State { regs: upd_overflow(old(self)@.regs, prev, result, flag_mask(flag_8bit)), ..old(self)@ }),
    {
        if self.regs.status_flag_is_set(flag_8bit) {
            let r8 = signed_byte(low(result));
            let p8 = signed_byte(low(prev));
            self.regs.set_status_flag(Flag::V, r8 < p8);
        } else {
            let r16 = signed_word(result);
            let p16 = signed_word(prev);
            self.regs.set_status_flag(Flag::V, r16 < p16);
        }
    }

    /// Sets the overflow flag when the signed result is above the signed previous value.
    fn update_status_underflow(&mut self, prev: u16, result: u16, flag_8bit: Flag)
        ensures
            final(self)@ == (State { regs: upd_underflow(old(self)@.regs, prev, result, flag_mask(flag_8bit)), ..old(self)@ }),
    {
        if self.regs.status_flag_is_set(flag_8bit) {
            let r8 = signed_byte(low(result));
            let p8 = signed_byte(low(prev));
            self.regs.set_status_flag(Flag::V, r8 > p8);
        } else {
            let r16 = signed_word(result);
            let p16 = signed_word(prev);
            self.regs.set_status_flag(Flag::V, r16 > p16);
        }
    }
}

/// `a + b`, wrapping at 16 bits.
fn add16(a: u16, b: u16) -> (r: u16)
    ensures
        r == ((a + b) % 0x10000) as u16,
{
    a.wrapping_add(b)
}

/// `a - b`, wrapping at 16 bits.
fn sub16(a: u16, b: u16) -> (r: u16)
    ensures
        r == ((a - b) % 0x10000) as u16,
{
    a.wrapping_sub(b)
}

/// The result of an addition with carry: in decimal digit by digit, in binary wrapping at 16
/// bits.
fn add_with_carry(prev: u16, val: u16, carry: u16, decimal: bool) -> (r: u16)
    requires
        carry <= 1,
    ensures
        r == (if decimal {
            bcd_add(bcd_add(prev, val), carry)
        } else {
            ((prev + val + carry) % 0x10000) as u16
        }),
{
    if decimal {
        bcd::add_word(bcd::add_word(prev, val), carry)
    } else {
        proof {
            vstd::arithmetic::div_mod::lemma_add_mod_noop(prev + val, carry as int, 0x10000);
        }
        add16(add16(prev, val), carry)
    }
}

/// The result of a subtraction with borrow: in decimal digit by digit, in binary wrapping at 16
/// bits.
fn sub_with_borrow(prev: u16, val: u16, borrow: u16, decimal: bool) -> (r: u16)
    requires
        borrow <= 1,
    ensures
        r == (if decimal {
            bcd_sub(bcd_sub(prev, val), borrow)
        } else {
            ((prev - val - borrow) % 0x10000) as u16
        }),
{
    if decimal {
        bcd::sub_word(bcd::sub_word(prev, val), borrow)
    } else {
        proof {
            vstd::arithmetic::div_mod::lemma_sub_mod_noop(prev - val, borrow as int, 0x10000);
        }
        sub16(sub16(prev, val), borrow)
    }
}

/// A byte read as a two's complement number.
fn signed_byte(b: u8) -> (r: i8)
    ensures
        r == signed8(b),
{
    if b < 0x80 {
        b as i8
    } else {
        (b as i16 - 0x100) as i8
    }
}

/// A word read as a two's complement number.
fn signed_word(w: u16) -> (r: i16)
    ensures
        r == signed16(w),
{
    if w < 0x8000 {
        w as i16
    } else {
        (w as i32 - 0x10000) as i16
    }
}

/// An operation of the W65C816 instruction set, as far as this CPU runs it.
#[derive(Clone, Copy, Debug, PartialEq, Eq, Structural)]
pub enum Op {
    Adc,
    And,
    Asl,
    Bit,
    Brk,
    Cmp,
    Cpx,
    Cpy,
    Dec,
    Dex,
    Dey,
    Eor,
    Inc,
    Inx,
    Iny,
    Ora,
    Sbc,
    Trb,
    Tsb,
}

/// The assembler mnemonic of an operation.
pub open spec fn mnemonic(op: Op) -> Seq<char> {
    match op {
        Op::Adc => seq!['A', 'D', 'C'],
        Op::And => seq!['A', 'N', 'D'],
        Op::Asl => seq!['A', 'S', 'L'],
        Op::Bit => seq!['B', 'I', 'T'],
        Op::Brk => seq!['B', 'R', 'K'],
        Op::Cmp => seq!['C', 'M', 'P'],
        Op::Cpx => seq!['C', 'P', 'X'],
        Op::Cpy => seq!['C', 'P', 'Y'],
        Op::Dec => seq!['D', 'E', 'C'],
        Op::Dex => seq!['D', 'E', 'X'],
        Op::Dey => seq!['D', 'E', 'Y'],
        Op::Eor => seq!['E', 'O', 'R'],
        Op::Inc => seq!['I', 'N', 'C'],
        Op::Inx => seq!['I', 'N', 'X'],
        Op::Iny => seq!['I', 'N', 'Y'],
        Op::Ora => seq!['O', 'R', 'A'],
        Op::Sbc => seq!['S', 'B', 'C'],
        Op::Trb => seq!['T', 'R', 'B'],
        Op::Tsb => seq!['T', 'S', 'B'],
    }
}

/// Whether an operation takes no operand.
pub open spec fn implied(op: Op) -> bool {
    op is Brk || op is Dex || op is Dey || op is Inx || op is Iny
}

/// Whether an operation writes back through its addressing mode.
pub open spec fn writes_back(op: Op) -> bool {
    op is Asl || op is Dec || op is Inc || op is Trb || op is Tsb
}

/// The event an operation reports before it runs: where it is, its mnemonic and its operand.
pub open spec fn op_event(op: Op, mode: Mode, r: Regs) -> EventView {
    (eff_pbr(r), r.pc, mnemonic(op), if implied(op) { Seq::empty() } else { mode_text(mode) })
}

/// The state once an instruction that read through a mode is over: the program counter past
/// its bytes and its cycles counted.
pub open spec fn finished(s: State, r: Regs, rd: ModeRead) -> State {
    State { cycles: (s.cycles + rd.cycles) as u64, regs: Regs { pc: (r.pc + rd.prog_bytes) as u16, ..r } }
}

/// The packed-BCD sum of two words.
pub open spec fn bcd_add(a: u16, b: u16) -> u16 {
    bcd_add_digits(a as int, b as int, 0, 4) as u16
}

/// The packed-BCD difference of two words.
pub open spec fn bcd_sub(a: u16, b: u16) -> u16 {
    bcd_sub_digits(a as int, b as int, 0, 4) as u16
}

/// The accumulator after a result is stored in it: its low byte only when it is 8-bit wide.
pub open spec fn acc_stored(r: Regs, val: u16) -> Regs {
    if accum_byte(r) { with_al(r, low_byte(val)) } else { Regs { a: val, ..r } }
}

/// The register that a compare operation compares.
pub open spec fn compared(op: Op, r: Regs) -> u16 {
    match op {
        Op::Cpx => r.x,
        Op::Cpy => r.y,
        _ => r.a,
    }
}

/// The state after an index register is incremented or decremented (DEX, DEY, INX, INY).
pub open spec fn index_step(op: Op, s: State) -> State {
    let r = s.regs;
    let prev = if op is Dex || op is Inx { r.x } else { r.y };
    let result = if op is Inx || op is Iny {
        ((prev + 1) % 0x10000) as u16
    } else {
        ((prev - 1) % 0x10000) as u16
    };
    let r1 = if op is Dex || op is Inx { with_x(r, result) } else { with_y(r, result) };
    let r2 = upd_negative(r1, result, 0x10);
    let r3 = upd_zero(r2, result, 0x10);
    State { cycles: (s.cycles + 2) as u64, regs: Regs { pc: (r3.pc + 1) as u16, ..r3 } }
}

/// Add with carry (ADC): in decimal the sum is made digit by digit.
pub open spec fn adc_spec<B: Bus>(mode: Mode, s: State, m: B::Mem) -> (State, B::Mem) {
    let r = s.regs;
    let rd = mode_read_spec::<B>(mode, r, m);
    let prev = r.a;
    let carry: u16 = if flag_set(r, 0x01) { 1 } else { 0 };
    let result = if flag_set(r, 0x08) {
        bcd_add(bcd_add(prev, rd.val), carry)
    } else {
        ((prev + rd.val + carry) % 0x10000) as u16
    };
    let r1 = acc_stored(r, result);
    let r2 = upd_zero(r1, result, 0x20);
    let r3 = upd_negative(r2, result, 0x20);
    let r4 = upd_carry_arithmetic(r3, prev, result, 0x20);
    let r5 = upd_overflow(r4, prev, result, 0x20);
    (finished(s, r5, rd), m)
}

/// Subtract with borrow (SBC): in decimal the difference is made digit by digit.
pub open spec fn sbc_spec<B: Bus>(mode: Mode, s: State, m: B::Mem) -> (State, B::Mem) {
    let r = s.regs;
    let rd = mode_read_spec::<B>(mode, r, m);
    let prev = r.a;
    let borrow: u16 = if flag_set(r, 0x01) { 0 } else { 1 };
    let result = if flag_set(r, 0x08) {
        bcd_sub(bcd_sub(prev, rd.val), borrow)
    } else {
        ((prev - rd.val - borrow) % 0x10000) as u16
    };
    let r1 = acc_stored(r, result);
    let r2 = upd_zero(r1, result, 0x20);
    let r3 = upd_negative(r2, result, 0x20);
    let r4 = upd_carry_arithmetic(r3, prev, result, 0x20);
    let r5 = upd_underflow(r4, prev, result, 0x20);
    (finished(s, r5, rd), m)
}

/// Bitwise and of the accumulator with the operand (AND).
pub open spec fn and_spec<B: Bus>(mode: Mode, s: State, m: B::Mem) -> (State, B::Mem) {
    let r = s.regs;
    let rd = mode_read_spec::<B>(mode, r, m);
    let result = r.a & rd.val;
    let r1 = acc_stored(r, result);
    let r2 = upd_zero(r1, result, 0x20);
    let r3 = upd_negative(r2, result, 0x20);
    (finished(s, r3, rd), m)
}

/// Exclusive (EOR) or inclusive (ORA) or of the accumulator with the operand.
pub open spec fn logic_spec<B: Bus>(op: Op, mode: Mode, s: State, m: B::Mem) -> (State, B::Mem) {
    let r = s.regs;
    let rd = mode_read_spec::<B>(mode, r, m);
    let result = if op is Eor { r.a ^ rd.val } else { r.a | rd.val };
    let r1 = acc_stored(r, result);
    let r2 = upd_negative(r1, result, 0x20);
    let r3 = upd_zero(r2, result, 0x20);
    (finished(s, r3, rd), m)
}

/// Arithmetic shift left of the operand in place (ASL).
pub open spec fn asl_spec<B: Bus>(mode: Mode, s: State, m: B::Mem) -> (State, B::Mem) {
    let r = s.regs;
    let rd = mode_read_spec::<B>(mode, r, m);
    let result = ((rd.val * 2) % 0x10000) as u16;
    let (r1, m1, _w) = mode_write_spec::<B>(mode, r, m, result);
    let r2 = upd_zero(r1, result, 0x20);
    let r3 = upd_negative(r2, result, 0x20);
    let r4 = upd_carry_shift_left(r3, rd.val, 0x20);
    (finished(s, r4, rd), m1)
}

/// Bit test (BIT): an immediate operand only sets zero.
pub open spec fn bit_spec<B: Bus>(mode: Mode, s: State, m: B::Mem) -> (State, B::Mem) {
    let r = s.regs;
    let rd = mode_read_spec::<B>(mode, r, m);
    let result = r.a & rd.val;
    let r2 = if !(mode is Immediate) {
        upd_negative_second(upd_negative(r, rd.val, 0x20), rd.val, 0x20)
    } else {
        r
    };
    let r3 = upd_zero(r2, result, 0x20);
    (finished(s, r3, rd), m)
}

/// Compare of a register with the operand (CMP, CPX, CPY).
pub open spec fn compare_spec<B: Bus>(op: Op, mode: Mode, s: State, m: B::Mem) -> (State, B::Mem) {
    let r = s.regs;
    let rd = mode_read_spec::<B>(mode, r, m);
    let prev = compared(op, r);
    let result = ((prev - rd.val) % 0x10000) as u16;
    let r1 = upd_zero(r, result, 0x20);
    let r2 = upd_negative(r1, result, 0x20);
    let r3 = upd_carry_arithmetic(r2, prev, result, 0x20);
    (finished(s, r3, rd), m)
}

/// Increment (INC) or decrement (DEC) of the operand in place.
pub open spec fn step_operand_spec<B: Bus>(op: Op, mode: Mode, s: State, m: B::Mem) -> (State, B::Mem) {
    let r = s.regs;
    let rd = mode_read_spec::<B>(mode, r, m);
    let result = if op is Inc {
        ((rd.val + 1) % 0x10000) as u16
    } else {
        ((rd.val - 1) % 0x10000) as u16
    };
    let (r1, m1, _w) = mode_write_spec::<B>(mode, r, m, result);
    let r2 = upd_negative(r1, result, 0x20);
    let r3 = upd_zero(r2, result, 0x20);
    (finished(s, r3, rd), m1)
}

/// Test and reset (TRB) or set (TSB) of the bits of the accumulator in the operand.
pub open spec fn test_bits_spec<B: Bus>(op: Op, mode: Mode, s: State, m: B::Mem) -> (State, B::Mem) {
    let r = s.regs;
    let rd = mode_read_spec::<B>(mode, r, m);
    let mask = r.a;
    let result = if op is Trb { rd.val & !mask } else { rd.val | mask };
    let (r1, m1, _w) = mode_write_spec::<B>(mode, r, m, result);
    let r2 = upd_zero(r1, rd.val & mask, 0x20);
    (finished(s, r2, rd), m1)
}

/// Software interrupt (BRK): the return address and the status are pushed (in emulation mode
/// with the break flag set), interrupts are then disabled and decimal mode cleared, and the CPU
/// jumps through the BRK vector of its mode into bank 0.
pub open spec fn brk_spec<B: Bus>(s: State, m: B::Mem) -> (State, B::Mem) {
    let r = s.regs;
    let r1 = if r.e { with_flag(r, 0x10, true) } else { r };
    let r2 = Regs { pc: (r1.pc + 2) as u16, ..r1 };
    let (r3, m3) = pushed_pc::<B>(r2, m);
    let (r4, m4) = pushed_byte::<B>(r3, m3, r3.p);
    let r5 = with_flag(with_flag(r4, flag_mask(Flag::I), true), flag_mask(Flag::D), false);
    let vector = if r5.e { interrupt::VECTOR_EMULATION_IRQBRK } else { interrupt::VECTOR_NATIVE_BRK };
    let r6 = Regs { pc: word_in::<B>(m4, addr_of(0, vector), AddrWrap::Long), pbr: 0, ..r5 };
    (State { cycles: (s.cycles + 7) as u64, regs: r6 }, m4)
}

/// BRK pushes three bytes in emulation mode (the return address, then the status) and four in
/// native mode (the program bank first), so the stack pointer ends that many bytes lower,
/// wrapping within page one in emulation mode. It then disables interrupts, leaves decimal mode,
/// and jumps to the address held at the BRK vector of its mode (0xFFFE in emulation mode, 0xFFE6
/// in native mode) in bank zero, as the bus holds it after the pushes. It takes 7 cycles.
pub proof fn lemma_brk<B: Bus>(s: State, m: B::Mem)
    requires
        s.cycles + 7 <= u64::MAX,
    ensures
        ({
            let r = s.regs;
            let (s2, m2) = op_spec::<B>(Op::Brk, Mode::Accumulator, s, m);
            let r2 = s2.regs;
            let vector: int = if r.e { 0xFFFE } else { 0xFFE6 };
            &&& r2.pc == B::peek(m2, vector) as int + 0x100 * B::peek(m2, vector + 1) as int
            &&& r2.pbr == 0
            &&& flag_set(r2, 0x04) && !flag_set(r2, 0x08)
            &&& r2.e == r.e
            &&& r2.sp == if r.e { 0x100 + (r.sp - 3) % 0x100 } else { (r.sp - 4) % 0x10000 }
            &&& s2.cycles == s.cycles + 7
            &&& r2.a == r.a && r2.x == r.x && r2.y == r.y && r2.dbr == r.dbr && r2.dp == r.dp
        }),
{
    let r = s.regs;
    let r1 = if r.e { with_flag(r, 0x10, true) } else { r };
    let r2 = Regs { pc: (r1.pc + 2) as u16, ..r1 };
    let (r3, m3) = pushed_pc::<B>(r2, m);
    let (r4, m4) = pushed_byte::<B>(r3, m3, r3.p);
    lemma_brk_flags(r4);
    assert(flag_mask(Flag::I) == 0x04 && flag_mask(Flag::D) == 0x08);
    let sp = r.sp as int;
    assert(r2.e == r.e && r2.sp == r.sp);
    lemma_small_mod(r.sp as nat, 0x10000);
    let ra = if !r2.e { pushed_byte::<B>(r2, m, eff_pbr(r2)).0 } else { r2 };
    if !r2.e {
        lemma_push_sp(r2, sp);
    }
    let x0: int = if r.e { sp } else { sp - 1 };
    let hi = high_byte(ra.pc);
    let rb = pushed_byte::<B>(ra, m, hi).0;
    lemma_push_sp(ra, x0);
    lemma_push_sp(rb, x0 - 1);
    assert(r3.sp == pushed_byte::<B>(rb, m, 0).0.sp);
    lemma_push_sp(r3, x0 - 2);
}

/// The flags that BRK sets and clears after its pushes: interrupts disabled, decimal mode off.
proof fn lemma_brk_flags(r: Regs)
    ensures
        flag_set(with_flag(with_flag(r, 0x04, true), 0x08, false), 0x04),
        !flag_set(with_flag(with_flag(r, 0x04, true), 0x08, false), 0x08),
{
    let p = r.p;
    let e = r.e;
    let q1: u8 = if e { (p | 0x04) | 0x30 } else { p | 0x04 };
    let q2: u8 = if e { (q1 & !0x08u8) | 0x30 } else { q1 & !0x08u8 };
    assert(q2 & 0x04 != 0 && q2 & 0x08 == 0) by (bit_vector)
        requires
            q1 == if e { (p | 0x04) | 0x30 } else { p | 0x04 },
            q2 == if e { (q1 & !0x08u8) | 0x30 } else { q1 & !0x08u8 },
    ;
}

/// A push moves the stack pointer one lower, within page one in emulation mode: from a pointer
/// that stands for `x` (its low byte in emulation mode, itself in native mode) to one that stands
/// for `x - 1`.
proof fn lemma_push_sp(r: Regs, x: int)
    requires
        r.e ==> r.sp % 0x100 == x % 0x100,
        !r.e ==> r.sp == x % 0x10000,
    ensures
        ({
            let r2 = with_sp(r, ((r.sp - 1) % 0x10000) as u16);
            &&& r2.e == r.e && r2.p == r.p && r2.pc == r.pc && r2.pbr == r.pbr
            &&& r.e ==> r2.sp == 0x100 + (x - 1) % 0x100 && r2.sp % 0x100 == (x - 1) % 0x100
            &&& !r.e ==> r2.sp == (x - 1) % 0x10000
        }),
{
    let sp = r.sp as int;
    lemma_mod_mod(sp - 1, 0x100, 0x100);
    lemma_sub_mod_noop(sp, 1, 0x100);
    lemma_sub_mod_noop(x, 1, 0x100);
    lemma_sub_mod_noop(x, 1, 0x10000);
    lemma_sub_mod_noop(sp, 1, 0x10000);
    lemma_small_mod(1, 0x100);
    lemma_small_mod(1, 0x10000);
    if r.e {
        let v = (sp - 1) % 0x10000;
        assert(v % 0x100 == (sp - 1) % 0x100);
        lemma_fundamental_div_mod_converse(0x100 + (x - 1) % 0x100, 0x100, 1, (x - 1) % 0x100);
    } else {
        lemma_mod_mod(x, 0x10000, 1);
    }
}

/// The state and bus after an operation runs with addressing mode `mode`.
pub open spec fn op_spec<B: Bus>(op: Op, mode: Mode, s: State, m: B::Mem) -> (State, B::Mem) {
    match op {
        Op::Adc => adc_spec::<B>(mode, s, m),
        Op::Sbc => sbc_spec::<B>(mode, s, m),
        Op::And => and_spec::<B>(mode, s, m),
        Op::Eor | Op::Ora => logic_spec::<B>(op, mode, s, m),
        Op::Asl => asl_spec::<B>(mode, s, m),
        Op::Bit => bit_spec::<B>(mode, s, m),
        Op::Cmp | Op::Cpx | Op::Cpy => compare_spec::<B>(op, mode, s, m),
        Op::Dec | Op::Inc => step_operand_spec::<B>(op, mode, s, m),
        Op::Trb | Op::Tsb => test_bits_spec::<B>(op, mode, s, m),
        Op::Dex | Op::Dey | Op::Inx | Op::Iny => (index_step(op, s), m),
        Op::Brk => brk_spec::<B>(s, m),
    }
}

/// Whether bit `i` of `x` is set.
pub open spec fn bit_of(x: u16, i: u16) -> bool {
    (x >> i) & 1 == 1
}

/// An accumulator whose low byte alone is replaced keeps the bits of its high byte.
proof fn lemma_low_byte_replaced_bits(a: u16, w: u16, i: u16)
    requires
        i < 16,
    ensures
        bit_of((a / 0x100 * 0x100 + w % 0x100) as u16, i) == if i >= 8 {
            bit_of(a, i)
        } else {
            bit_of(w, i)
        },
{
    let merged: u16 = (a & 0xFF00) | (w & 0xFF);
    assert(merged == a / 0x100 * 0x100 + w % 0x100) by (bit_vector)
        requires
            merged == (a & 0xFF00) | (w & 0xFF),
    ;
    assert(((merged >> i) & 1 == 1) == if i >= 8 { (a >> i) & 1 == 1 } else { (w >> i) & 1 == 1 })
        by (bit_vector)
        requires
            merged == (a & 0xFF00) | (w & 0xFF),
            i < 16,
    ;
}

/// AND, ORA and EOR act bit by bit on the accumulator, as wide as it is: a bit of the result of
/// AND is set when it is set in both the accumulator and the operand, of ORA when it is set in
/// either, of EOR when it is set in exactly one of them. With an 8-bit accumulator the high byte
/// stays as it was. None of them changes the bus.
pub proof fn lemma_logic_bitwise<B: Bus>(op: Op, mode: Mode, s: State, m: B::Mem, i: u16)
    requires
        op is And || op is Ora || op is Eor,
        i < 16,
    ensures
        ({
            let a = s.regs.a;
            let v = mode_read_spec::<B>(mode, s.regs, m).val;
            let (s2, m2) = op_spec::<B>(op, mode, s, m);
            &&& m2 == m
            &&& bit_of(s2.regs.a, i) == if accum_byte(s.regs) && i >= 8 {
                bit_of(a, i)
            } else if op is And {
                bit_of(a, i) && bit_of(v, i)
            } else if op is Ora {
                bit_of(a, i) || bit_of(v, i)
            } else {
                bit_of(a, i) != bit_of(v, i)
            }
        }),
{
    let a = s.regs.a;
    let v = mode_read_spec::<B>(mode, s.regs, m).val;
    let w: u16 = if op is And { a & v } else if op is Ora { a | v } else { a ^ v };
    assert(bit_of(w, i) == if op is And {
        bit_of(a, i) && bit_of(v, i)
    } else if op is Ora {
        bit_of(a, i) || bit_of(v, i)
    } else {
        bit_of(a, i) != bit_of(v, i)
    }) by {
        assert((((a & v) >> i) & 1 == 1 <==> ((a >> i) & 1 == 1 && (v >> i) & 1 == 1)) && (((a
            | v) >> i) & 1 == 1 <==> ((a >> i) & 1 == 1 || (v >> i) & 1 == 1)) && (((a ^ v) >> i)
            & 1 == 1 <==> ((a >> i) & 1 == 1 != ((v >> i) & 1 == 1)))) by (bit_vector);
    }
    lemma_low_byte_replaced_bits(a, w, i);
    assert(op_spec::<B>(op, mode, s, m).0.regs.a == if accum_byte(s.regs) {
        (a / 0x100 * 0x100 + w % 0x100) as u16
    } else {
        w
    });
}

/// A result stored in an 8-bit accumulator keeps its high byte and takes the result modulo 256.
proof fn lemma_acc_stored_byte(r: Regs, x: int)
    requires
        accum_byte(r),
    ensures
        acc_stored(r, (x % 0x10000) as u16).a / 0x100 == r.a / 0x100,
        acc_stored(r, (x % 0x10000) as u16).a % 0x100 == x % 0x100,
{
    lemma_mod_mod(x, 0x100, 0x100);
    let v = low_byte((x % 0x10000) as u16);
    assert(v as int == x % 0x100);
    let a2: int = r.a / 0x100 * 0x100 + v;
    assert(a2 < 0x10000);
    assert(a2 / 0x100 == r.a / 0x100 && a2 % 0x100 == v) by {
        lemma_fundamental_div_mod_converse(a2, 0x100, (r.a / 0x100) as int, v as int);
    }
}

/// A carry of 0 or 1 is a four-digit decimal word of its own value.
proof fn lemma_one_digit_bcd(k: u16)
    requires
        k <= 1,
    ensures
        bcd::is_bcd(k as int, 4),
        bcd::bcd_value(k as int, 4) == k,
{
    reveal_with_fuel(bcd::is_bcd, 5);
    reveal_with_fuel(bcd::bcd_value, 5);
}

/// Adding, or taking away, first a four-digit decimal word and then a carry of 0 or 1 gives the
/// decimal sum or difference modulo 10000.
#[verifier::spinoff_prover]
proof fn lemma_bcd_with_carry(add: bool, a: u16, v: u16, k: u16)
    requires
        k <= 1,
        bcd::is_bcd(a as int, 4),
        bcd::is_bcd(v as int, 4),
    ensures
        ({
            let res = if add { bcd_add(bcd_add(a, v), k) } else { bcd_sub(bcd_sub(a, v), k) };
            &&& bcd::is_bcd(res as int, 4)
            &&& bcd::bcd_value(res as int, 4) == if add {
                (bcd::bcd_value(a as int, 4) + bcd::bcd_value(v as int, 4) + k) % 10000
            } else {
                (bcd::bcd_value(a as int, 4) - bcd::bcd_value(v as int, 4) - k) % 10000
            }
        }),
{
    lemma_one_digit_bcd(k);
    let va = bcd::bcd_value(a as int, 4);
    let vv = bcd::bcd_value(v as int, 4);
    if add {
        bcd::lemma_add_word_decimal(a, v);
        let x = bcd_add(a, v);
        assert(bcd::is_bcd(x as int, 4) && bcd::bcd_value(x as int, 4) == (va + vv) % 10000);
        bcd::lemma_add_word_decimal(x, k);
        assert(bcd::bcd_value(bcd_add(x, k) as int, 4) == ((va + vv) % 10000 + k) % 10000);
        lemma_add_mod_noop(va + vv, k as int, 10000);
        lemma_small_mod(k as nat, 10000);
    } else {
        bcd::lemma_sub_word_decimal(a, v);
        let x = bcd_sub(a, v);
        assert(bcd::is_bcd(x as int, 4) && bcd::bcd_value(x as int, 4) == (va - vv) % 10000);
        bcd::lemma_sub_word_decimal(x, k);
        assert(bcd::bcd_value(bcd_sub(x, k) as int, 4) == ((va - vv) % 10000 - k) % 10000);
        lemma_sub_mod_noop(va - vv, k as int, 10000);
        lemma_small_mod(k as nat, 10000);
    }
}

/// ADC and SBC on the accumulator, as wide as it is. Outside decimal mode ADC leaves
/// `A + M + C` and SBC `A - M - (1 - C)`, modulo 2^16 with a 16-bit accumulator, and modulo 256
/// in the low byte of an 8-bit one, whose high byte stays as it was. In decimal mode, on
/// a 16-bit accumulator and four-digit decimal words, they leave the decimal sum or difference
/// modulo 10000, as four decimal digits. Neither writes to the bus.
pub proof fn lemma_add_sub_accumulator<B: Bus>(op: Op, mode: Mode, s: State, m: B::Mem)
    requires
        op is Adc || op is Sbc,
    ensures
        ({
            let r = s.regs;
            let a = r.a;
            let v = mode_read_spec::<B>(mode, r, m).val;
            let c: int = if flag_set(r, 0x01) { 1 } else { 0 };
            let (s2, m2) = op_spec::<B>(op, mode, s, m);
            let a2 = s2.regs.a;
            let exact: int = if op is Adc { a + v + c } else { a - v - (1 - c) };
            let decimal: int = if op is Adc {
                bcd::bcd_value(a as int, 4) + bcd::bcd_value(v as int, 4) + c
            } else {
                bcd::bcd_value(a as int, 4) - bcd::bcd_value(v as int, 4) - (1 - c)
            };
            &&& m2 == m
            &&& !flag_set(r, 0x08) && !accum_byte(r) ==> a2 == exact % 0x10000
            &&& !flag_set(r, 0x08) && accum_byte(r) ==> a2 / 0x100 == a / 0x100 && a2 % 0x100
                == exact % 0x100
            &&& flag_set(r, 0x08) && !accum_byte(r) && bcd::is_bcd(a as int, 4) && bcd::is_bcd(
                v as int,
                4,
            ) ==> bcd::is_bcd(a2 as int, 4) && bcd::bcd_value(a2 as int, 4) == decimal % 10000
        }),
{
    let r = s.regs;
    let a = r.a;
    let v = mode_read_spec::<B>(mode, r, m).val;
    let c: int = if flag_set(r, 0x01) { 1 } else { 0 };
    let exact: int = if op is Adc { a + v + c } else { a - v - (1 - c) };
    let k: u16 = if op is Adc { c as u16 } else { (1 - c) as u16 };
    let result: u16 = if flag_set(r, 0x08) {
        if op is Adc { bcd_add(bcd_add(a, v), k) } else { bcd_sub(bcd_sub(a, v), k) }
    } else {
        (exact % 0x10000) as u16
    };
    assert(op_spec::<B>(op, mode, s, m).1 == m);
    assert(op_spec::<B>(op, mode, s, m).0.regs.a == acc_stored(r, result).a);
    if !flag_set(r, 0x08) && accum_byte(r) {
        lemma_acc_stored_byte(r, exact);
    }
    if flag_set(r, 0x08) && !accum_byte(r) && bcd::is_bcd(a as int, 4) && bcd::is_bcd(v as int, 4) {
        lemma_bcd_with_carry(op is Adc, a, v, k);
    }
}

/// The flags of a compare from the wrapped difference: zero when the two are equal in the
/// width, negative from the difference's top bit, carry when the operand is nonzero and not above.
proof fn lemma_compare_arith(prev: u16, val: u16, byte: bool)
    ensures
        ({
            let result = ((prev - val) % 0x10000) as u16;
            let width: int = if byte { 0x100 } else { 0x10000 };
            let p = prev as int % width;
            let v = val as int % width;
            &&& (if byte { result % 0x100 == 0 } else { result == 0 }) == (p == v)
            &&& (if byte { result % 0x100 >= 0x80 } else { result >= 0x8000 }) == ((p - v) % width
                >= width / 2)
            &&& (if byte { result % 0x100 < prev % 0x100 } else { result < prev }) == (0 < v <= p)
        }),
{
    let result = ((prev - val) % 0x10000) as u16;
    if byte {
        lemma_mod_mod(prev - val, 0x100, 0x100);
        lemma_sub_mod_noop(prev as int, val as int, 0x100);
        assert(result % 0x100 == (prev % 0x100 - val % 0x100) % 0x100);
    }
}

/// The registers after the flags of a compare are set from a register's value and the operand.
proof fn lemma_compare_regs(r: Regs, prev: u16, val: u16)
    requires
        r.e ==> accum_byte(r),
    ensures
        ({
            let result = ((prev - val) % 0x10000) as u16;
            let r3 = upd_carry_arithmetic(
                upd_negative(upd_zero(r, result, 0x20), result, 0x20),
                prev,
                result,
                0x20,
            );
            let width: int = if accum_byte(r) { 0x100 } else { 0x10000 };
            let p = prev as int % width;
            let v = val as int % width;
            &&& flag_set(r3, 0x02) == (p == v)
            &&& flag_set(r3, 0x80) == ((p - v) % width >= width / 2)
            &&& flag_set(r3, 0x01) == (0 < v <= p)
            &&& r3.a == r.a && r3.x == r.x && r3.y == r.y && r3.sp == r.sp && r3.e == r.e
            &&& r3.pc == r.pc
        }),
{
    let result = ((prev - val) % 0x10000) as u16;
    let z = if flag_set(r, 0x20) { result % 0x100 == 0 } else { result == 0 };
    let r1 = upd_zero(r, result, 0x20);
    let n = if flag_set(r1, 0x20) { result % 0x100 >= 0x80 } else { result >= 0x8000 };
    let r2 = upd_negative(r1, result, 0x20);
    let c = if flag_set(r2, 0x20) { result % 0x100 < prev % 0x100 } else { result < prev };
    lemma_with_flag_result(r, 0x02, z, 0x20);
    lemma_with_flag_result(r1, 0x80, n, 0x20);
    lemma_with_flag_result(r1, 0x80, n, 0x02);
    lemma_with_flag_result(r2, 0x01, c, 0x02);
    lemma_with_flag_result(r2, 0x01, c, 0x80);
    lemma_compare_arith(prev, val, accum_byte(r));
}

/// CMP, CPX and CPY compare a register with the operand, as wide as the accumulator: zero is set
/// exactly when the two are equal, negative from the top bit of their difference, and carry
/// exactly when the operand is not zero and not above the register. No register but the status
/// and the program counter changes, and the bus is not written.
pub proof fn lemma_compare<B: Bus>(op: Op, mode: Mode, s: State, m: B::Mem)
    requires
        op is Cmp || op is Cpx || op is Cpy,
        s.regs.e ==> accum_byte(s.regs),
    ensures
        ({
            let r = s.regs;
            let width: int = if accum_byte(r) { 0x100 } else { 0x10000 };
            let reg: int = (if op is Cmp { r.a } else if op is Cpx { r.x } else { r.y }) as int % width;
            let v: int = mode_read_spec::<B>(mode, r, m).val as int % width;
            let (s2, m2) = op_spec::<B>(op, mode, s, m);
            let r2 = s2.regs;
            &&& m2 == m
            &&& flag_set(r2, 0x02) == (reg == v)
            &&& flag_set(r2, 0x80) == ((reg - v) % width >= width / 2)
            &&& flag_set(r2, 0x01) == (0 < v <= reg)
            &&& r2.a == r.a && r2.x == r.x && r2.y == r.y && r2.sp == r.sp && r2.e == r.e
        }),
{
    let r = s.regs;
    let rd = mode_read_spec::<B>(mode, r, m);
    lemma_compare_regs(r, compared(op, r), rd.val);
}

/// One flag update of a result or of a value shifted out, as wide as the accumulator: it sets its
/// own flag from that value and leaves the other flags, the accumulator width and the registers
/// as they were.
proof fn lemma_flag_updates(r: Regs, result: u16, prev: u16)
    requires
        r.e ==> accum_byte(r),
    ensures
        ({
            let w: int = if accum_byte(r) { 0x100 } else { 0x10000 };
            let z = upd_zero(r, result, 0x20);
            let n = upd_negative(r, result, 0x20);
            let c = upd_carry_shift_left(r, prev, 0x20);
            &&& flag_set(z, 0x02) == (result as int % w == 0)
            &&& flag_set(n, 0x80) == (result as int % w >= w / 2)
            &&& flag_set(c, 0x01) == (prev as int % w >= w / 2)
            &&& flag_set(z, 0x01) == flag_set(r, 0x01) && flag_set(z, 0x80) == flag_set(r, 0x80)
            &&& flag_set(n, 0x01) == flag_set(r, 0x01) && flag_set(n, 0x02) == flag_set(r, 0x02)
            &&& flag_set(c, 0x02) == flag_set(r, 0x02) && flag_set(c, 0x80) == flag_set(r, 0x80)
            &&& accum_byte(z) == accum_byte(r) && accum_byte(n) == accum_byte(r) && accum_byte(c)
                == accum_byte(r)
            &&& z.a == r.a && n.a == r.a && c.a == r.a
            &&& z.e == r.e && n.e == r.e && c.e == r.e
        }),
{
    let byte = flag_set(r, 0x20);
    let zb = if byte { result % 0x100 == 0 } else { result == 0 };
    let nb = if byte { result % 0x100 >= 0x80 } else { result >= 0x8000 };
    let cb = if byte { prev % 0x100 >= 0x80 } else { prev >= 0x8000 };
    lemma_with_flag_result(r, 0x02, zb, 0x01);
    lemma_with_flag_result(r, 0x02, zb, 0x80);
    lemma_with_flag_result(r, 0x02, zb, 0x20);
    lemma_with_flag_result(r, 0x80, nb, 0x01);
    lemma_with_flag_result(r, 0x80, nb, 0x02);
    lemma_with_flag_result(r, 0x80, nb, 0x20);
    lemma_with_flag_result(r, 0x01, cb, 0x02);
    lemma_with_flag_result(r, 0x01, cb, 0x80);
    lemma_with_flag_result(r, 0x01, cb, 0x20);
}

/// The registers after the flags of BIT are set from the accumulator and the operand.
proof fn lemma_bit_regs(r: Regs, v: u16, immediate: bool)
    requires
        r.e ==> accum_byte(r),
    ensures
        ({
            let w: int = if accum_byte(r) { 0x100 } else { 0x10000 };
            let rr = if !immediate {
                upd_negative_second(upd_negative(r, v, 0x20), v, 0x20)
            } else {
                r
            };
            let r2 = upd_zero(rr, r.a & v, 0x20);
            &&& flag_set(r2, 0x02) == ((r.a & v) as int % w == 0)
            &&& !immediate ==> flag_set(r2, 0x80) == (v as int % w >= w / 2) && flag_set(r2, 0x40)
                == (v as int % (w / 2) >= w / 4)
            &&& immediate ==> flag_set(r2, 0x80) == flag_set(r, 0x80) && flag_set(r2, 0x40)
                == flag_set(r, 0x40)
            &&& r2.a == r.a && r2.x == r.x && r2.y == r.y && r2.sp == r.sp && r2.e == r.e
            &&& r2.pc == r.pc
        }),
{
    let byte = flag_set(r, 0x20);
    let e = r.e;
    let nb = if byte { v % 0x100 >= 0x80 } else { v >= 0x8000 };
    let ob = if byte { v % 0x80 >= 0x40 } else { v % 0x8000 >= 0x4000 };
    let zb = if byte { (r.a & v) % 0x100 == 0 } else { (r.a & v) == 0 };
    let p = r.p;
    let p1a: u8 = if nb { p | 0x80 } else { p & !0x80u8 };
    let p1: u8 = if e { p1a | 0x30 } else { p1a };
    let p2a: u8 = if ob { p1 | 0x40 } else { p1 & !0x40u8 };
    let p2: u8 = if e { p2a | 0x30 } else { p2a };
    let q: u8 = if !immediate { p2 } else { p };
    let q1: u8 = if zb { q | 0x02 } else { q & !0x02u8 };
    let q2: u8 = if e { q1 | 0x30 } else { q1 };
    assert(e ==> p & 0x20 != 0);
    assert((q2 & 0x02 != 0) == zb && (!immediate ==> (q2 & 0x80 != 0) == nb && (q2 & 0x40 != 0)
        == ob) && (immediate ==> (q2 & 0x80 != 0) == (p & 0x80 != 0) && (q2 & 0x40 != 0) == (p
        & 0x40 != 0)) && (p1 & 0x20 != 0) == (p & 0x20 != 0) && (q & 0x20 != 0) == (p & 0x20 != 0))
        by (bit_vector)
        requires
            e ==> p & 0x20 != 0,
            p1a == if nb { p | 0x80 } else { p & !0x80u8 },
            p1 == if e { p1a | 0x30 } else { p1a },
            p2a == if ob { p1 | 0x40 } else { p1 & !0x40u8 },
            p2 == if e { p2a | 0x30 } else { p2a },
            q == if !immediate { p2 } else { p },
            q1 == if zb { q | 0x02 } else { q & !0x02u8 },
            q2 == if e { q1 | 0x30 } else { q1 },
    ;
}

/// BIT sets zero exactly when the accumulator and the operand have no bit in common, as wide
/// as the accumulator; with an operand in memory it also copies the operand's top bit into
/// negative and the bit below into overflow, and with an immediate operand it changes no other
/// flag. It changes no register but the status and the program counter, and the bus not at all.
pub proof fn lemma_bit_test<B: Bus>(mode: Mode, s: State, m: B::Mem)
    requires
        s.regs.e ==> accum_byte(s.regs),
    ensures
        ({
            let r = s.regs;
            let w: int = if accum_byte(r) { 0x100 } else { 0x10000 };
            let v = mode_read_spec::<B>(mode, r, m).val;
            let (s2, m2) = op_spec::<B>(Op::Bit, mode, s, m);
            let r2 = s2.regs;
            &&& m2 == m
            &&& flag_set(r2, 0x02) == ((r.a & v) as int % w == 0)
            &&& !(mode is Immediate) ==> flag_set(r2, 0x80) == (v as int % w >= w / 2)
                && flag_set(r2, 0x40) == (v as int % (w / 2) >= w / 4)
            &&& mode is Immediate ==> flag_set(r2, 0x80) == flag_set(r, 0x80) && flag_set(r2, 0x40)
                == flag_set(r, 0x40)
            &&& r2.a == r.a && r2.x == r.x && r2.y == r.y && r2.sp == r.sp && r2.e == r.e
        }),
{
    let r = s.regs;
    let v = mode_read_spec::<B>(mode, r, m).val;
    lemma_bit_regs(r, v, mode is Immediate);
}

/// The value that ASL, INC, DEC, TSB and TRB write back: the operand shifted left, plus one,
/// less one, with the accumulator's bits set, or with them cleared.
pub open spec fn modified_operand(op: Op, v: u16, a: u16) -> u16 {
    match op {
        Op::Asl => ((v as int * 2) % 0x10000) as u16,
        Op::Inc => ((v as int + 1) % 0x10000) as u16,
        Op::Dec => ((v as int - 1) % 0x10000) as u16,
        Op::Tsb => v | a,
        _ => v & !a,
    }
}

/// ASL, INC, DEC, TSB and TRB read the operand and write it back changed through the same mode
/// (its low byte alone with an 8-bit accumulator): shifted left by one, plus one or less one
/// (wrapping), with the bits of the accumulator set, or cleared. ASL, INC and DEC set zero and
/// negative from the value written, as wide as the accumulator, and ASL sets carry from the bit
/// shifted out; TSB and TRB set zero exactly when the operand and the accumulator have no bit
/// in common.
pub proof fn lemma_read_modify_write<B: Bus>(op: Op, mode: Mode, s: State, m: B::Mem)
    requires
        op is Asl || op is Inc || op is Dec || op is Tsb || op is Trb,
        s.regs.e ==> accum_byte(s.regs),
    ensures
        ({
            let r = s.regs;
            let w: int = if accum_byte(r) { 0x100 } else { 0x10000 };
            let v = mode_read_spec::<B>(mode, r, m).val;
            let written = modified_operand(op, v, r.a);
            let (rw, mw, _cycles) = mode_write_spec::<B>(mode, r, m, written);
            let (s2, m2) = op_spec::<B>(op, mode, s, m);
            let r2 = s2.regs;
            &&& m2 == mw
            &&& r2.a == rw.a
            &&& if op is Tsb || op is Trb {
                flag_set(r2, 0x02) == ((v & r.a) as int % w == 0)
            } else {
                &&& flag_set(r2, 0x02) == (written as int % w == 0)
                &&& flag_set(r2, 0x80) == (written as int % w >= w / 2)
            }
            &&& op is Asl ==> flag_set(r2, 0x01) == (v as int % w >= w / 2)
        }),
{
    let r = s.regs;
    let v = mode_read_spec::<B>(mode, r, m).val;
    let written = modified_operand(op, v, r.a);
    let (r1, m1, _c) = mode_write_spec::<B>(mode, r, m, written);
    assert(r1.p == r.p && r1.e == r.e);
    if op is Asl {
        lemma_flag_updates(r1, written, v);
        let r2 = upd_zero(r1, written, 0x20);
        lemma_flag_updates(r2, written, v);
        let r3 = upd_negative(r2, written, 0x20);
        lemma_flag_updates(r3, written, v);
        assert(op_spec::<B>(op, mode, s, m) == (finished(s, upd_carry_shift_left(r3, v, 0x20), mode_read_spec::<B>(mode, r, m)), m1));
    } else if op is Inc || op is Dec {
        lemma_flag_updates(r1, written, v);
        let r2 = upd_negative(r1, written, 0x20);
        lemma_flag_updates(r2, written, v);
        assert(op_spec::<B>(op, mode, s, m) == (finished(s, upd_zero(r2, written, 0x20), mode_read_spec::<B>(mode, r, m)), m1));
    } else {
        lemma_flag_updates(r1, v & r.a, v);
        assert(op_spec::<B>(op, mode, s, m) == (finished(s, upd_zero(r1, v & r.a, 0x20), mode_read_spec::<B>(mode, r, m)), m1));
    }
}

/// Whether an operation can run with a mode: the mode designates what the operation reads and
/// writes, the program counter does not run past the end of the bank and the cycle count does
/// not overflow.
pub open spec fn op_ok<B: Bus>(op: Op, mode: Mode, s: State, m: B::Mem) -> bool {
    let r = s.regs;
    let rd = mode_read_spec::<B>(mode, r, m);
    if op is Brk {
        r.pc + 2 <= 0xFFFF && s.cycles + 7 <= u64::MAX
    } else if implied(op) {
        r.pc + 1 <= 0xFFFF && s.cycles + 2 <= u64::MAX
    } else {
        &&& readable(mode)
        &&& writes_back(op) ==> writable(mode)
        &&& r.pc + rd.prog_bytes <= 0xFFFF
        &&& s.cycles + rd.cycles <= u64::MAX
    }
}

/// The text of a mnemonic.
fn mnemonic_text(op: Op) -> (r: &'static str)
    ensures
        r@ == mnemonic(op),
{
    proof {
        reveal_strlit("ADC");
        reveal_strlit("AND");
        reveal_strlit("ASL");
        reveal_strlit("BIT");
        reveal_strlit("BRK");
        reveal_strlit("CMP");
        reveal_strlit("CPX");
        reveal_strlit("CPY");
        reveal_strlit("DEC");
        reveal_strlit("DEX");
        reveal_strlit("DEY");
        reveal_strlit("EOR");
        reveal_strlit("INC");
        reveal_strlit("INX");
        reveal_strlit("INY");
        reveal_strlit("ORA");
        reveal_strlit("SBC");
        reveal_strlit("TRB");
        reveal_strlit("TSB");
    }
    match op {
        Op::Adc => "ADC",
        Op::And => "AND",
        Op::Asl => "ASL",
        Op::Bit => "BIT",
        Op::Brk => "BRK",
        Op::Cmp => "CMP",
        Op::Cpx => "CPX",
        Op::Cpy => "CPY",
        Op::Dec => "DEC",
        Op::Dex => "DEX",
        Op::Dey => "DEY",
        Op::Eor => "EOR",
        Op::Inc => "INC",
        Op::Inx => "INX",
        Op::Iny => "INY",
        Op::Ora => "ORA",
        Op::Sbc => "SBC",
        Op::Trb => "TRB",
        Op::Tsb => "TSB",
    }
}

/// The empty text.
fn empty_text() -> (r: String)
    ensures
        r@ == Seq::<char>::empty(),
{
    String::new()
}

impl CPU {
    /// The event that an operation reports before it runs.
    fn exec_event(&self, op: Op, operands: String) -> (r: Event)
        ensures
            r@ == (eff_pbr(self@.regs), self@.regs.pc, mnemonic(op), operands@),
    {
        Event::Exec {
            pbr: self.regs.pbr(),
            pc: self.regs.pc(),
            instruction: String::from_str(mnemonic_text(op)),
            operands,
        }
    }

    /// Counts the cycles of an instruction and moves the program counter past it.
    fn finish(&mut self, read: ModeRead)
        requires
            old(self)@.regs.pc + read.prog_bytes <= 0xFFFF,
            old(self)@.cycles + read.cycles <= u64::MAX,
        ensures
            final(self)@ == finished(old(self)@, old(self)@.regs, read),
    {
        self.regs.pc_inc(read.prog_bytes);
        self.cycles = self.cycles + read.cycles;
    }

    /// Add with carry (ADC), in decimal when the D flag is set.
    fn adc<B: Bus, R: Reporter>(&mut self, bus: &mut B, mode: addr::Mode, rep: &mut R)
        requires
            op_ok::<B>(Op::Adc, mode, old(self)@, old(bus).mem()),
        ensures
            (final(self)@, final(bus).mem()) == op_spec::<B>(Op::Adc, mode, old(self)@, old(bus).mem()),
            final(rep).log() == R::logged(old(rep).log(), op_event(Op::Adc, mode, old(self)@.regs)),
    {
        rep.report(self.exec_event(Op::Adc, mode.to_string()));

        let read = mode.read(self, bus);
        let prev = self.regs.a();

        let carry: u16 = if self.regs.status_flag_is_set(Flag::C) { 1 } else { 0 };
        let result = add_with_carry(prev, read.val, carry, self.regs.status_flag_is_set(Flag::D));

        addr::Mode::Accumulator.write(self, bus, result);
        self.update_status_zero(result, Flag::M);
        self.update_status_negative(result, Flag::M);
        self.update_status_carry_arithmetic(prev, result, Flag::M);
        self.update_status_overflow(prev, result, Flag::M);
        self.finish(read);
    }

    /// Bitwise and of the accumulator with the operand (AND).
    fn and<B: Bus, R: Reporter>(&mut self, bus: &mut B, mode: addr::Mode, rep: &mut R)
        requires
            op_ok::<B>(Op::And, mode, old(self)@, old(bus).mem()),
        ensures
            (final(self)@, final(bus).mem()) == op_spec::<B>(Op::And, mode, old(self)@, old(bus).mem()),
            final(rep).log() == R::logged(old(rep).log(), op_event(Op::And, mode, old(self)@.regs)),
    {
        rep.report(self.exec_event(Op::And, mode.to_string()));

        let read = mode.read(self, bus);
        let result = self.regs.a() & read.val;

        addr::Mode::Accumulator.write(self, bus, result);
        self.update_status_zero(result, Flag::M);
        self.update_status_negative(result, Flag::M);
        self.finish(read);
    }

    /// Arithmetic shift left of the operand in place (ASL).
    fn asl<B: Bus, R: Reporter>(&mut self, bus: &mut B, mode: addr::Mode, rep: &mut R)
        requires
            op_ok::<B>(Op::Asl, mode, old(self)@, old(bus).mem()),
        ensures
            (final(self)@, final(bus).mem()) == op_spec::<B>(Op::Asl, mode, old(self)@, old(bus).mem()),
            final(rep).log() == R::logged(old(rep).log(), op_event(Op::Asl, mode, old(self)@.regs)),
    {
        rep.report(self.exec_event(Op::Asl, mode.to_string()));

        let read = mode.read(self, bus);
        let val = read.val;
        let result = val << 1;
        proof {
            lemma_word_bits(val);
        }

        mode.write(self, bus, result);
        self.update_status_zero(result, Flag::M);
        self.update_status_negative(result, Flag::M);
        self.update_status_carry_shift_left(read.val, Flag::M);
        self.finish(read);
    }

    /// Tests bits of the operand against the accumulator (BIT).
    fn bit<B: Bus, R: Reporter>(&mut self, bus: &mut B, mode: addr::Mode, rep: &mut R)
        requires
            op_ok::<B>(Op::Bit, mode, old(self)@, old(bus).mem()),
        ensures
            (final(self)@, final(bus).mem()) == op_spec::<B>(Op::Bit, mode, old(self)@, old(bus).mem()),
            final(rep).log() == R::logged(old(rep).log(), op_event(Op::Bit, mode, old(self)@.regs)),
    {
        rep.report(self.exec_event(Op::Bit, mode.to_string()));

        let read = mode.read(self, bus);
        let result = self.regs.a() & read.val;

        if !matches!(mode, addr::Mode::Immediate(_)) {
            self.update_status_negative(read.val, Flag::M);
            self.update_status_negative_second(read.val, Flag::M);
        }
        self.update_status_zero(result, Flag::M);
        self.finish(read);
    }

    /// Software interrupt (BRK): pushes the return address and the status, then jumps through
    /// the break vector of the current mode.
    fn brk<B: Bus, R: Reporter>(&mut self, bus: &mut B, rep: &mut R)
        requires
            op_ok::<B>(Op::Brk, addr::Mode::Accumulator, old(self)@, old(bus).mem()),
        ensures
            (final(self)@, final(bus).mem()) == op_spec::<B>(Op::Brk, addr::Mode::Accumulator, old(self)@, old(bus).mem()),
            final(rep).log() == R::logged(old(rep).log(), op_event(Op::Brk, addr::Mode::Accumulator, old(self)@.regs)),
    {
        rep.report(self.exec_event(Op::Brk, empty_text()));

        if self.regs.mode_is_emulated() {
            self.regs.set_status_flag(status::Flag::B, true);
        }
        self.regs.pc_inc(2);
        self.push_pc(bus);
        let p = self.regs.p();
        self.push_byte(bus, p);
        self.regs.set_status_flag(status::Flag::I, true);
        self.regs.set_status_flag(status::Flag::D, false);

        let vector = if self.regs.mode_is_emulated() {
            interrupt::VECTOR_EMULATION_IRQBRK
        } else {
            interrupt::VECTOR_NATIVE_BRK
        };

        let target = bus.read_word(Addr::from(0, vector), AddrWrap::Long);
        self.regs.pc_jump(target);
        self.regs.pbr_set(0);

        self.cycles = self.cycles + 7;
    }

    /// Compares a register with the operand (CMP, CPX, CPY).
    fn compare<B: Bus, R: Reporter>(&mut self, bus: &mut B, mode: addr::Mode, rep: &mut R, op: Op)
        requires
            op is Cmp || op is Cpx || op is Cpy,
            op_ok::<B>(op, mode, old(self)@, old(bus).mem()),
        ensures
            (final(self)@, final(bus).mem()) == compare_spec::<B>(op, mode, old(self)@, old(bus).mem()),
            final(rep).log() == R::logged(old(rep).log(), op_event(op, mode, old(self)@.regs)),
    {
        rep.report(self.exec_event(op, mode.to_string()));

        let read = mode.read(self, bus);
        let prev = match op {
            Op::Cpx => self.regs.x(),
            Op::Cpy => self.regs.y(),
            _ => self.regs.a(),
        };
        let result = sub16(prev, read.val);

        self.update_status_zero(result, Flag::M);
        self.update_status_negative(result, Flag::M);
        self.update_status_carry_arithmetic(prev, result, Flag::M);
        self.finish(read);
    }

    /// Compares the accumulator with the operand (CMP).
    fn cmp<B: Bus, R: Reporter>(&mut self, bus: &mut B, mode: addr::Mode, rep: &mut R)
        requires
            op_ok::<B>(Op::Cmp, mode, old(self)@, old(bus).mem()),
        ensures
            (final(self)@, final(bus).mem()) == op_spec::<B>(Op::Cmp, mode, old(self)@, old(bus).mem()),
            final(rep).log() == R::logged(old(rep).log(), op_event(Op::Cmp, mode, old(self)@.regs)),
    {
        self.compare(bus, mode, rep, Op::Cmp)
    }

    /// Compares the index register X with the operand (CPX).
    fn cpx<B: Bus, R: Reporter>(&mut self, bus: &mut B, mode: addr::Mode, rep: &mut R)
        requires
            op_ok::<B>(Op::Cpx, mode, old(self)@, old(bus).mem()),
        ensures
            (final(self)@, final(bus).mem()) == op_spec::<B>(Op::Cpx, mode, old(self)@, old(bus).mem()),
            final(rep).log() == R::logged(old(rep).log(), op_event(Op::Cpx, mode, old(self)@.regs)),
    {
        self.compare(bus, mode, rep, Op::Cpx)
    }

    /// Compares the index register Y with the operand (CPY).
    fn cpy<B: Bus, R: Reporter>(&mut self, bus: &mut B, mode: addr::Mode, rep: &mut R)
        requires
            op_ok::<B>(Op::Cpy, mode, old(self)@, old(bus).mem()),
        ensures
            (final(self)@, final(bus).mem()) == op_spec::<B>(Op::Cpy, mode, old(self)@, old(bus).mem()),
            final(rep).log() == R::logged(old(rep).log(), op_event(Op::Cpy, mode, old(self)@.regs)),
    {
        self.compare(bus, mode, rep, Op::Cpy)
    }

    /// Increments or decrements the operand in place (INC, DEC).
    fn step_operand<B: Bus, R: Reporter>(&mut self, bus: &mut B, mode: addr::Mode, rep: &mut R, op: Op)
        requires
            op is Inc || op is Dec,
            op_ok::<B>(op, mode, old(self)@, old(bus).mem()),
        ensures
            (final(self)@, final(bus).mem()) == step_operand_spec::<B>(op, mode, old(self)@, old(bus).mem()),
            final(rep).log() == R::logged(old(rep).log(), op_event(op, mode, old(self)@.regs)),
    {
        rep.report(self.exec_event(op, mode.to_string()));

        let read = mode.read(self, bus);
        let result = match op {
            Op::Inc => add16(read.val, 1),
            _ => sub16(read.val, 1),
        };
        mode.write(self, bus, result);
        self.update_status_negative(result, Flag::M);
        self.update_status_zero(result, Flag::M);
        self.finish(read);
    }

    /// Decrements the operand in place (DEC).
    fn dec<B: Bus, R: Reporter>(&mut self, bus: &mut B, mode: addr::Mode, rep: &mut R)
        requires
            op_ok::<B>(Op::Dec, mode, old(self)@, old(bus).mem()),
        ensures
            (final(self)@, final(bus).mem()) == op_spec::<B>(Op::Dec, mode, old(self)@, old(bus).mem()),
            final(rep).log() == R::logged(old(rep).log(), op_event(Op::Dec, mode, old(self)@.regs)),
    {
        self.step_operand(bus, mode, rep, Op::Dec)
    }

    /// Increments the operand in place (INC).
    fn inc<B: Bus, R: Reporter>(&mut self, bus: &mut B, mode: addr::Mode, rep: &mut R)
        requires
            op_ok::<B>(Op::Inc, mode, old(self)@, old(bus).mem()),
        ensures
            (final(self)@, final(bus).mem()) == op_spec::<B>(Op::Inc, mode, old(self)@, old(bus).mem()),
            final(rep).log() == R::logged(old(rep).log(), op_event(Op::Inc, mode, old(self)@.regs)),
    {
        self.step_operand(bus, mode, rep, Op::Inc)
    }

    /// Increments or decrements an index register (DEX, DEY, INX, INY).
    #[verifier::spinoff_prover]
    #[verifier::rlimit(40)]
    fn step_index<R: Reporter>(&mut self, rep: &mut R, op: Op)
        requires
            op is Dex || op is Dey || op is Inx || op is Iny,
            old(self)@.regs.pc + 1 <= 0xFFFF,
            old(self)@.cycles + 2 <= u64::MAX,
        ensures
            final(self)@ == index_step(op, old(self)@),
            final(rep).log() == R::logged(old(rep).log(), op_event(op, addr::Mode::Accumulator, old(self)@.regs)),
    {
        rep.report(self.exec_event(op, empty_text()));

        let read = match op {
            Op::Dex | Op::Inx => self.regs.x(),
            _ => self.regs.y(),
        };
        let result = match op {
            Op::Inx | Op::Iny => read.wrapping_add(1),
            _ => read.wrapping_sub(1),
        };
        match op {
            Op::Dex | Op::Inx => self.regs.x_set(result),
            _ => self.regs.y_set(result),
        }
        self.update_status_negative(result, Flag::X);
        self.update_status_zero(result, Flag::X);
        self.regs.pc_inc(1);
        self.cycles = self.cycles + 2
    }

    /// Decrements the index register X (DEX).
    fn dex<R: Reporter>(&mut self, rep: &mut R)
        requires
            old(self)@.regs.pc + 1 <= 0xFFFF,
            old(self)@.cycles + 2 <= u64::MAX,
        ensures
            final(self)@ == index_step(Op::Dex, old(self)@),
            final(rep).log() == R::logged(old(rep).log(), op_event(Op::Dex, addr::Mode::Accumulator, old(self)@.regs)),
    {
        self.step_index(rep, Op::Dex)
    }

    /// Decrements the index register Y (DEY).
    fn dey<R: Reporter>(&mut self, rep: &mut R)
        requires
            old(self)@.regs.pc + 1 <= 0xFFFF,
            old(self)@.cycles + 2 <= u64::MAX,
        ensures
            final(self)@ == index_step(Op::Dey, old(self)@),
            final(rep).log() == R::logged(old(rep).log(), op_event(Op::Dey, addr::Mode::Accumulator, old(self)@.regs)),
    {
        self.step_index(rep, Op::Dey)
    }

    /// Increments the index register X (INX).
    fn inx<R: Reporter>(&mut self, rep: &mut R)
        requires
            old(self)@.regs.pc + 1 <= 0xFFFF,
            old(self)@.cycles + 2 <= u64::MAX,
        ensures
            final(self)@ == index_step(Op::Inx, old(self)@),
            final(rep).log() == R::logged(old(rep).log(), op_event(Op::Inx, addr::Mode::Accumulator, old(self)@.regs)),
    {
        self.step_index(rep, Op::Inx)
    }

    /// Increments the index register Y (INY).
    fn iny<R: Reporter>(&mut self, rep: &mut R)
        requires
            old(self)@.regs.pc + 1 <= 0xFFFF,
            old(self)@.cycles + 2 <= u64::MAX,
        ensures
            final(self)@ == index_step(Op::Iny, old(self)@),
            final(rep).log() == R::logged(old(rep).log(), op_event(Op::Iny, addr::Mode::Accumulator, old(self)@.regs)),
    {
        self.step_index(rep, Op::Iny)
    }

    /// Combines the accumulator with the operand by exclusive or (EOR) or inclusive or (ORA).
    fn logic<B: Bus, R: Reporter>(&mut self, bus: &mut B, mode: addr::Mode, rep: &mut R, op: Op)
        requires
            op is Eor || op is Ora,
            op_ok::<B>(op, mode, old(self)@, old(bus).mem()),
        ensures
            (final(self)@, final(bus).mem()) == logic_spec::<B>(op, mode, old(self)@, old(bus).mem()),
            final(rep).log() == R::logged(old(rep).log(), op_event(op, mode, old(self)@.regs)),
    {
        rep.report(self.exec_event(op, mode.to_string()));

        let read = mode.read(self, bus);
        let result = match op {
            Op::Eor => self.regs.a() ^ read.val,
            _ => self.regs.a() | read.val,
        };

        addr::Mode::Accumulator.write(self, bus, result);
        self.update_status_negative(result, Flag::M);
        self.update_status_zero(result, Flag::M);
        self.finish(read);
    }

    /// Exclusive or of the accumulator with the operand (EOR).
    fn eor<B: Bus, R: Reporter>(&mut self, bus: &mut B, mode: addr::Mode, rep: &mut R)
        requires
            op_ok::<B>(Op::Eor, mode, old(self)@, old(bus).mem()),
        ensures
            (final(self)@, final(bus).mem()) == op_spec::<B>(Op::Eor, mode, old(self)@, old(bus).mem()),
            final(rep).log() == R::logged(old(rep).log(), op_event(Op::Eor, mode, old(self)@.regs)),
    {
        self.logic(bus, mode, rep, Op::Eor)
    }

    /// Inclusive or of the accumulator with the operand (ORA).
    fn ora<B: Bus, R: Reporter>(&mut self, bus: &mut B, mode: addr::Mode, rep: &mut R)
        requires
            op_ok::<B>(Op::Ora, mode, old(self)@, old(bus).mem()),
        ensures
            (final(self)@, final(bus).mem()) == op_spec::<B>(Op::Ora, mode, old(self)@, old(bus).mem()),
            final(rep).log() == R::logged(old(rep).log(), op_event(Op::Ora, mode, old(self)@.regs)),
    {
        self.logic(bus, mode, rep, Op::Ora)
    }

    /// Subtract with borrow (SBC), the borrow being the negated carry; in decimal when the D
    /// flag is set.
    fn sbc<B: Bus, R: Reporter>(&mut self, bus: &mut B, mode: addr::Mode, rep: &mut R)
        requires
            op_ok::<B>(Op::Sbc, mode, old(self)@, old(bus).mem()),
        ensures
            (final(self)@, final(bus).mem()) == op_spec::<B>(Op::Sbc, mode, old(self)@, old(bus).mem()),
            final(rep).log() == R::logged(old(rep).log(), op_event(Op::Sbc, mode, old(self)@.regs)),
    {
        rep.report(self.exec_event(Op::Sbc, mode.to_string()));

        let read = mode.read(self, bus);
        let prev = self.regs.a();

        // Remind that borrow is the negation of the carry flag in W65C816.
        let borrow: u16 = if self.regs.status_flag_is_set(Flag::C) { 0 } else { 1 };
        let result = sub_with_borrow(prev, read.val, borrow, self.regs.status_flag_is_set(Flag::D));

        addr::Mode::Accumulator.write(self, bus, result);
        self.update_status_zero(result, Flag::M);
        self.update_status_negative(result, Flag::M);
        self.update_status_carry_arithmetic(prev, result, Flag::M);
        self.update_status_underflow(prev, result, Flag::M);
        self.finish(read);
    }

    /// Clears (TRB) or sets (TSB) in the operand the bits set in the accumulator; zero tells
    /// whether they shared none.
    fn test_bits<B: Bus, R: Reporter>(&mut self, bus: &mut B, mode: addr::Mode, rep: &mut R, op: Op)
        requires
            op is Trb || op is Tsb,
            op_ok::<B>(op, mode, old(self)@, old(bus).mem()),
        ensures
            (final(self)@, final(bus).mem()) == test_bits_spec::<B>(op, mode, old(self)@, old(bus).mem()),
            final(rep).log() == R::logged(old(rep).log(), op_event(op, mode, old(self)@.regs)),
    {
        rep.report(self.exec_event(op, mode.to_string()));

        let read = mode.read(self, bus);
        let mask = self.regs.a();
        let result = match op {
            Op::Trb => read.val & !mask,
            _ => read.val | mask,
        };

        mode.write(self, bus, result);
        self.update_status_zero(read.val & mask, Flag::M);
        self.finish(read);
    }

    /// Test and reset bits (TRB).
    fn trb<B: Bus, R: Reporter>(&mut self, bus: &mut B, mode: addr::Mode, rep: &mut R)
        requires
            op_ok::<B>(Op::Trb, mode, old(self)@, old(bus).mem()),
        ensures
            (final(self)@, final(bus).mem()) == op_spec::<B>(Op::Trb, mode, old(self)@, old(bus).mem()),
            final(rep).log() == R::logged(old(rep).log(), op_event(Op::Trb, mode, old(self)@.regs)),
    {
        self.test_bits(bus, mode, rep, Op::Trb)
    }

    /// Test and set bits (TSB).
    fn tsb<B: Bus, R: Reporter>(&mut self, bus: &mut B, mode: addr::Mode, rep: &mut R)
        requires
            op_ok::<B>(Op::Tsb, mode, old(self)@, old(bus).mem()),
        ensures
            (final(self)@, final(bus).mem()) == op_spec::<B>(Op::Tsb, mode, old(self)@, old(bus).mem()),
            final(rep).log() == R::logged(old(rep).log(), op_event(Op::Tsb, mode, old(self)@.regs)),
    {
        self.test_bits(bus, mode, rep, Op::Tsb)
    }
}


/// The instruction set as far as this CPU runs it: the operation of each opcode and its
/// addressing mode, made of the program bytes that follow the opcode (`b1` the first, `w1` the
/// word of the first two, `b3` the third).
pub open spec fn decode_op(opcode: u8, b1: u8, w1: u16, b3: u8) -> Option<(Op, Mode)> {
    match opcode {
        0x00 => Some((Op::Brk, Mode::Accumulator)),  // BRK
        0x01 => Some((Op::Ora, Mode::DirectIndexedIndirect(b1))),  // ORA (d,X)
        0x03 => Some((Op::Ora, Mode::StackRelative(b1))),  // ORA d,S
        0x04 => Some((Op::Tsb, Mode::Direct(b1))),  // TSB d
        0x05 => Some((Op::Ora, Mode::Direct(b1))),  // ORA d
        0x06 => Some((Op::Asl, Mode::Direct(b1))),  // ASL d
        0x07 => Some((Op::Ora, Mode::DirectIndirectLong(b1))),  // ORA [d]
        0x09 => Some((Op::Ora, Mode::Immediate(w1))),  // ORA #i
        0x0A => Some((Op::Asl, Mode::Accumulator)),  // ASL
        0x0C => Some((Op::Tsb, Mode::Absolute(w1))),  // TSB a
        0x0D => Some((Op::Ora, Mode::Absolute(w1))),  // ORA a
        0x0E => Some((Op::Asl, Mode::Absolute(w1))),  // ASL a
        0x0F => Some((Op::Ora, Mode::AbsoluteLong(b3, w1))),  // ORA al
        0x11 => Some((Op::Ora, Mode::DirectIndirectIndexed(b1))),  // ORA (d),Y
        0x12 => Some((Op::Ora, Mode::DirectIndirect(b1))),  // ORA (d)
        0x13 => Some((Op::Ora, Mode::StackRelativeIndirectIndexed(b1))),  // ORA (d,S),Y
        0x14 => Some((Op::Trb, Mode::Direct(b1))),  // TRB d
        0x15 => Some((Op::Ora, Mode::DirectIndexedX(b1))),  // ORA d,X
        0x16 => Some((Op::Asl, Mode::DirectIndexedX(b1))),  // ASL d,X
        0x17 => Some((Op::Ora, Mode::DirectIndirectLongIndexed(b1))),  // ORA [d],Y
        0x19 => Some((Op::Ora, Mode::AbsoluteIndexedY(w1))),  // ORA a,Y
        0x1A => Some((Op::Inc, Mode::Accumulator)),  // INC
        0x1C => Some((Op::Trb, Mode::Absolute(w1))),  // TRB a
        0x1D => Some((Op::Ora, Mode::AbsoluteIndexedX(w1))),  // ORA a,X
        0x1E => Some((Op::Asl, Mode::AbsoluteIndexedX(w1))),  // ASL a,X
        0x1F => Some((Op::Ora, Mode::AbsoluteLongIndexed(b3, w1))),  // ORA al,X
        0x21 => Some((Op::And, Mode::DirectIndexedIndirect(b1))),  // AND (d,X)
        0x23 => Some((Op::And, Mode::StackRelative(b1))),  // AND d,S
        0x24 => Some((Op::Bit, Mode::Direct(b1))),  // BIT d
        0x25 => Some((Op::And, Mode::Direct(b1))),  // AND d
        0x27 => Some((Op::And, Mode::DirectIndirectLong(b1))),  // AND [d]
        0x29 => Some((Op::And, Mode::Immediate(w1))),  // AND #i
        0x2C => Some((Op::Bit, Mode::Absolute(w1))),  // BIT a
        0x2D => Some((Op::And, Mode::Absolute(w1))),  // AND a
        0x2F => Some((Op::And, Mode::AbsoluteLong(b3, w1))),  // AND al
        0x31 => Some((Op::And, Mode::DirectIndirectIndexed(b1))),  // AND (d),Y
        0x32 => Some((Op::And, Mode::DirectIndirect(b1))),  // AND (d)
        0x33 => Some((Op::And, Mode::StackRelativeIndirectIndexed(b1))),  // AND (d,S),Y
        0x34 => Some((Op::Bit, Mode::DirectIndexedX(b1))),  // BIT d,X
        0x35 => Some((Op::And, Mode::DirectIndexedX(b1))),  // AND d,X
        0x37 => Some((Op::And, Mode::DirectIndirectLongIndexed(b1))),  // AND [d],Y
        0x39 => Some((Op::And, Mode::AbsoluteIndexedY(w1))),  // AND a,Y
        0x3A => Some((Op::Dec, Mode::Accumulator)),  // DEC
        0x3C => Some((Op::Bit, Mode::AbsoluteIndexedX(w1))),  // BIT a,X
        0x3D => Some((Op::And, Mode::AbsoluteIndexedX(w1))),  // AND a,X
        0x3F => Some((Op::And, Mode::AbsoluteLongIndexed(b3, w1))),  // AND al,X
        0x41 => Some((Op::Eor, Mode::DirectIndexedIndirect(b1))),  // EOR (d,X)
        0x43 => Some((Op::Eor, Mode::StackRelative(b1))),  // EOR d,S
        0x45 => Some((Op::Eor, Mode::Direct(b1))),  // EOR d
        0x47 => Some((Op::Eor, Mode::DirectIndirectLong(b1))),  // EOR [d]
        0x49 => Some((Op::Eor, Mode::Immediate(w1))),  // EOR #i
        0x4D => Some((Op::Eor, Mode::Absolute(w1))),  // EOR a
        0x4F => Some((Op::Eor, Mode::AbsoluteLong(b3, w1))),  // EOR al
        0x51 => Some((Op::Eor, Mode::DirectIndirectIndexed(b1))),  // EOR (d),Y
        0x52 => Some((Op::Eor, Mode::DirectIndirect(b1))),  // EOR (d)
        0x53 => Some((Op::Eor, Mode::StackRelativeIndirectIndexed(b1))),  // EOR (d,S),Y
        0x55 => Some((Op::Eor, Mode::DirectIndexedX(b1))),  // EOR d,X
        0x57 => Some((Op::Eor, Mode::DirectIndirectLongIndexed(b1))),  // EOR [d],Y
        0x59 => Some((Op::Eor, Mode::AbsoluteIndexedY(w1))),  // EOR a,Y
        0x5D => Some((Op::Eor, Mode::AbsoluteIndexedX(w1))),  // EOR a,X
        0x5F => Some((Op::Eor, Mode::AbsoluteLongIndexed(b3, w1))),  // EOR al,X
        0x61 => Some((Op::Adc, Mode::DirectIndexedIndirect(b1))),  // ADC (d,X)
        0x63 => Some((Op::Adc, Mode::StackRelative(b1))),  // ADC d,S
        0x65 => Some((Op::Adc, Mode::Direct(b1))),  // ADC d
        0x67 => Some((Op::Adc, Mode::DirectIndirectLong(b1))),  // ADC [d]
        0x69 => Some((Op::Adc, Mode::Immediate(w1))),  // ADC #i
        0x6D => Some((Op::Adc, Mode::Absolute(w1))),  // ADC a
        0x6F => Some((Op::Adc, Mode::AbsoluteLong(b3, w1))),  // ADC al
        0x71 => Some((Op::Adc, Mode::DirectIndirectIndexed(b1))),  // ADC (d),Y
        0x72 => Some((Op::Adc, Mode::DirectIndirect(b1))),  // ADC (d)
        0x73 => Some((Op::Adc, Mode::StackRelativeIndirectIndexed(b1))),  // ADC (d,S),Y
        0x75 => Some((Op::Adc, Mode::DirectIndexedX(b1))),  // ADC d,X
        0x77 => Some((Op::Adc, Mode::DirectIndirectLongIndexed(b1))),  // ADC [d],Y
        0x79 => Some((Op::Adc, Mode::AbsoluteIndexedY(w1))),  // ADC a,Y
        0x7D => Some((Op::Adc, Mode::AbsoluteIndexedX(w1))),  // ADC a,X
        0x7F => Some((Op::Adc, Mode::AbsoluteLongIndexed(b3, w1))),  // ADC al,X
        0x88 => Some((Op::Dey, Mode::Accumulator)),  // DEY
        0x89 => Some((Op::Bit, Mode::Immediate(w1))),  // BIT #i
        0xC0 => Some((Op::Cpy, Mode::Immediate(w1))),  // CPY #i
        0xC1 => Some((Op::Cmp, Mode::DirectIndexedIndirect(b1))),  // CMP (d,X)
        0xC3 => Some((Op::Cmp, Mode::StackRelative(b1))),  // CMP d,S
        0xC4 => Some((Op::Cpy, Mode::Direct(b1))),  // CPY d
        0xC5 => Some((Op::Cmp, Mode::Direct(b1))),  // CMP d
        0xC6 => Some((Op::Dec, Mode::Direct(b1))),  // DEC d
        0xC7 => Some((Op::Cmp, Mode::DirectIndirectLong(b1))),  // CMP [d]
        0xC8 => Some((Op::Iny, Mode::Accumulator)),  // INY
        0xC9 => Some((Op::Cmp, Mode::Immediate(w1))),  // CMP #i
        0xCA => Some((Op::Dex, Mode::Accumulator)),  // DEX
        0xCC => Some((Op::Cpy, Mode::Absolute(w1))),  // CPY a
        0xCD => Some((Op::Cmp, Mode::Absolute(w1))),  // CMP a
        0xCE => Some((Op::Dec, Mode::Absolute(w1))),  // DEC a
        0xCF => Some((Op::Cmp, Mode::AbsoluteLong(b3, w1))),  // CMP al
        0xD1 => Some((Op::Cmp, Mode::DirectIndirectIndexed(b1))),  // CMP (d),Y
        0xD2 => Some((Op::Cmp, Mode::DirectIndirect(b1))),  // CMP (d)
        0xD3 => Some((Op::Cmp, Mode::StackRelativeIndirectIndexed(b1))),  // CMP (d,S),Y
        0xD5 => Some((Op::Cmp, Mode::DirectIndexedX(b1))),  // CMP d,X
        0xD6 => Some((Op::Dec, Mode::DirectIndexedX(b1))),  // DEC d,X
        0xD7 => Some((Op::Cmp, Mode::DirectIndirectLongIndexed(b1))),  // CMP [d],Y
        0xD9 => Some((Op::Cmp, Mode::AbsoluteIndexedY(w1))),  // CMP a,Y
        0xDD => Some((Op::Cmp, Mode::AbsoluteIndexedX(w1))),  // CMP a,X
        0xDE => Some((Op::Dec, Mode::AbsoluteIndexedX(w1))),  // DEC a,X
        0xDF => Some((Op::Cmp, Mode::AbsoluteLongIndexed(b3, w1))),  // CMP al,X
        0xE0 => Some((Op::Cpx, Mode::Immediate(w1))),  // CPX #i
        0xE1 => Some((Op::Sbc, Mode::DirectIndexedIndirect(b1))),  // SBC (d,X)
        0xE3 => Some((Op::Sbc, Mode::StackRelative(b1))),  // SBC d,S
        0xE4 => Some((Op::Cpx, Mode::Direct(b1))),  // CPX d
        0xE5 => Some((Op::Sbc, Mode::Direct(b1))),  // SBC d
        0xE6 => Some((Op::Inc, Mode::Direct(b1))),  // INC d
        0xE7 => Some((Op::Sbc, Mode::DirectIndirectLong(b1))),  // SBC [d]
        0xE8 => Some((Op::Inx, Mode::Accumulator)),  // INX
        0xE9 => Some((Op::Sbc, Mode::Immediate(w1))),  // SBC #i
        0xEC => Some((Op::Cpx, Mode::Absolute(w1))),  // CPX a
        0xED => Some((Op::Sbc, Mode::Absolute(w1))),  // SBC a
        0xEE => Some((Op::Inc, Mode::Absolute(w1))),  // INC a
        0xEF => Some((Op::Sbc, Mode::AbsoluteLong(b3, w1))),  // SBC al
        0xF1 => Some((Op::Sbc, Mode::DirectIndirectIndexed(b1))),  // SBC (d),Y
        0xF2 => Some((Op::Sbc, Mode::DirectIndirect(b1))),  // SBC (d)
        0xF3 => Some((Op::Sbc, Mode::StackRelativeIndirectIndexed(b1))),  // SBC (d,S),Y
        0xF5 => Some((Op::Sbc, Mode::DirectIndexedX(b1))),  // SBC d,X
        0xF6 => Some((Op::Inc, Mode::DirectIndexedX(b1))),  // INC d,X
        0xF7 => Some((Op::Sbc, Mode::DirectIndirectLongIndexed(b1))),  // SBC [d],Y
        0xF9 => Some((Op::Sbc, Mode::AbsoluteIndexedY(w1))),  // SBC a,Y
        0xFD => Some((Op::Sbc, Mode::AbsoluteIndexedX(w1))),  // SBC a,X
        0xFE => Some((Op::Inc, Mode::AbsoluteIndexedX(w1))),  // INC a,X
        0xFF => Some((Op::Sbc, Mode::AbsoluteLongIndexed(b3, w1))),  // SBC al,X
        _ => None,
    }
}

/// The operation of an opcode of the ALU group (the opcodes whose low bits name the addressing
/// mode) by its top three bits; rows 4 and 5 (stores and loads) are not part of this CPU.
pub open spec fn alu_group_op(row: u8) -> Op {
    match row {
        0 => Op::Ora,
        1 => Op::And,
        2 => Op::Eor,
        3 => Op::Adc,
        6 => Op::Cmp,
        _ => Op::Sbc,
    }
}

/// Whether the low five bits of an opcode name an addressing mode of the ALU group.
pub open spec fn alu_group_column(col: u8) -> bool {
    col == 0x01 || col == 0x03 || col == 0x05 || col == 0x07 || col == 0x09 || col == 0x0D
        || col == 0x0F || col == 0x11 || col == 0x12 || col == 0x13 || col == 0x15 || col == 0x17
        || col == 0x19 || col == 0x1D || col == 0x1F
}

/// The addressing mode that the low five bits of an opcode of the ALU group name, with the
/// operand bytes that follow the opcode.
pub open spec fn alu_group_mode(col: u8, b1: u8, w1: u16, b3: u8) -> Mode {
    match col {
        0x01 => Mode::DirectIndexedIndirect(b1),
        0x03 => Mode::StackRelative(b1),
        0x05 => Mode::Direct(b1),
        0x07 => Mode::DirectIndirectLong(b1),
        0x09 => Mode::Immediate(w1),
        0x0D => Mode::Absolute(w1),
        0x0F => Mode::AbsoluteLong(b3, w1),
        0x11 => Mode::DirectIndirectIndexed(b1),
        0x12 => Mode::DirectIndirect(b1),
        0x13 => Mode::StackRelativeIndirectIndexed(b1),
        0x15 => Mode::DirectIndexedX(b1),
        0x17 => Mode::DirectIndirectLongIndexed(b1),
        0x19 => Mode::AbsoluteIndexedY(w1),
        0x1D => Mode::AbsoluteIndexedX(w1),
        _ => Mode::AbsoluteLongIndexed(b3, w1),
    }
}

/// The ALU opcodes decode by their bits: the top three name the operation (ORA, AND, EOR, ADC,
/// CMP, SBC) and the low five the addressing mode, the same for every operation.
pub proof fn lemma_alu_group_decoding(row: u8, col: u8, b1: u8, w1: u16, b3: u8)
    requires
        row < 8 && row != 4 && row != 5,
        alu_group_column(col),
    ensures
        decode_op((row * 32 + col) as u8, b1, w1, b3) == Some(
            (alu_group_op(row), alu_group_mode(col, b1, w1, b3)),
        ),
{
}

/// The operation of a read-modify-write opcode (low two bits 10) by its top three bits.
pub open spec fn rmw_group_op(row: u8) -> Op {
    match row {
        0 => Op::Asl,
        6 => Op::Dec,
        _ => Op::Inc,
    }
}

/// The addressing mode of a read-modify-write or a compare opcode by its middle three bits.
pub open spec fn rmw_group_mode(col: u8, b1: u8, w1: u16) -> Mode {
    match col {
        0 => Mode::Immediate(w1),
        1 => Mode::Direct(b1),
        3 => Mode::Absolute(w1),
        5 => Mode::DirectIndexedX(b1),
        _ => Mode::AbsoluteIndexedX(w1),
    }
}

/// ASL, DEC and INC in memory (`aaabbb10`) decode by their bits: the top three name the
/// operation and the middle three the mode (direct, absolute, direct indexed by X, absolute
/// indexed by X). CPY and CPX (`11xbbb00`) decode likewise, with an immediate, direct or
/// absolute operand. TSB and TRB (`0x04`, `0x0C`; `0x14`, `0x1C`) take a direct or an absolute
/// operand, and BIT (`0x24`, `0x2C`, `0x34`, `0x3C`) a direct or an absolute one, indexed by X
/// or not. ASL, INC and DEC of the accumulator are `0x0A`, `0x1A` and `0x3A`, and BIT of an
/// immediate operand is `0x89`.
pub proof fn lemma_memory_group_decoding(row: u8, col: u8, b1: u8, w1: u16, b3: u8)
    requires
        row < 8,
        col < 8,
    ensures
        (row == 0 || row == 6 || row == 7) && (col == 1 || col == 3 || col == 5 || col == 7)
            ==> decode_op((row * 32 + col * 4 + 2) as u8, b1, w1, b3) == Some(
            (rmw_group_op(row), rmw_group_mode(col, b1, w1)),
        ),
        (row == 6 || row == 7) && (col == 0 || col == 1 || col == 3) ==> decode_op(
            (row * 32 + col * 4) as u8,
            b1,
            w1,
            b3,
        ) == Some((if row == 6 { Op::Cpy } else { Op::Cpx }, rmw_group_mode(col, b1, w1))),
        (row == 0) && (col == 1 || col == 3 || col == 5 || col == 7) ==> decode_op(
            (row * 32 + col * 4) as u8,
            b1,
            w1,
            b3,
        ) == Some((if col < 4 { Op::Tsb } else { Op::Trb }, rmw_group_mode(col % 4, b1, w1))),
        (row == 1) && (col == 1 || col == 3 || col == 5 || col == 7) ==> decode_op(
            (row * 32 + col * 4) as u8,
            b1,
            w1,
            b3,
        ) == Some((Op::Bit, rmw_group_mode(col, b1, w1))),
        decode_op(0x0A, b1, w1, b3) == Some((Op::Asl, Mode::Accumulator)),
        decode_op(0x1A, b1, w1, b3) == Some((Op::Inc, Mode::Accumulator)),
        decode_op(0x3A, b1, w1, b3) == Some((Op::Dec, Mode::Accumulator)),
        decode_op(0x89, b1, w1, b3) == Some((Op::Bit, Mode::Immediate(w1))),
{
}

/// The operation and addressing mode of the instruction at the program counter.
pub open spec fn next_instruction<B: Bus>(s: State, m: B::Mem) -> Option<(Op, Mode)> {
    let r = s.regs;
    decode_op(pc_byte::<B>(r, m, 0), pc_byte::<B>(r, m, 1), pc_word::<B>(r, m, 1), pc_byte::<B>(r, m, 3))
}

/// Whether the instruction at the program counter can run: this CPU implements its opcode, and
/// it stays within what the operation handles.
pub open spec fn can_step<B: Bus>(s: State, m: B::Mem) -> bool {
    match next_instruction::<B>(s, m) {
        Some((op, mode)) => op_ok::<B>(op, mode, s, m),
        None => false,
    }
}

/// The state and bus after the instruction at the program counter runs.
pub open spec fn step_spec<B: Bus>(s: State, m: B::Mem) -> (State, B::Mem) {
    match next_instruction::<B>(s, m) {
        Some((op, mode)) => op_spec::<B>(op, mode, s, m),
        None => (s, m),
    }
}

/// INX, INY, DEX and DEY add one to X or Y, or take one from it, wrapping at the index width (8
/// bits while the X flag is set, else 16). The other index register and the accumulator stay as
/// they were, zero and negative follow the new value, and the program counter moves past the
/// opcode.
pub proof fn lemma_index_step(op: Op, s: State)
    requires
        op is Inx || op is Iny || op is Dex || op is Dey,
        s.regs.e ==> index_byte(s.regs),
    ensures
        ({
            let r = s.regs;
            let r2 = index_step(op, s).regs;
            let width: int = if index_byte(r) { 0x100 } else { 0x10000 };
            let on_x = op is Inx || op is Dex;
            let delta: int = if op is Inx || op is Iny { 1 } else { -1 };
            let before: int = if on_x { r.x as int } else { r.y as int };
            let after: int = if on_x { r2.x as int } else { r2.y as int };
            &&& after == (before + delta) % width
            &&& if on_x { r2.y == r.y } else { r2.x == r.x }
            &&& r2.a == r.a
            &&& flag_set(r2, 0x02) == (after == 0)
            &&& flag_set(r2, 0x80) == (after >= width / 2)
            &&& r.pc < 0xFFFF ==> r2.pc == r.pc + 1
        }),
{
    let r = s.regs;
    let on_x = op is Dex || op is Inx;
    let prev = if on_x { r.x } else { r.y };
    let result = if op is Inx || op is Iny {
        ((prev + 1) % 0x10000) as u16
    } else {
        ((prev - 1) % 0x10000) as u16
    };
    let r1 = if on_x { with_x(r, result) } else { with_y(r, result) };
    let n = if flag_set(r1, 0x10) { result % 0x100 >= 0x80 } else { result >= 0x8000 };
    let r2 = upd_negative(r1, result, 0x10);
    let z = if flag_set(r2, 0x10) { result % 0x100 == 0 } else { result == 0 };
    assert(flag_set(r1, 0x10) == index_byte(r));
    lemma_with_flag_result(r1, 0x80, n, 0x10);
    lemma_with_flag_result(r1, 0x80, n, 0x02);
    lemma_with_flag_result(r2, 0x02, z, 0x80);
    assert(flag_set(r2, 0x10) == index_byte(r));
}

/// Stepping the opcodes $E8, $C8, $CA and $88 runs INX, INY, DEX and DEY, and leaves the bus as
/// it was.
pub proof fn lemma_step_index_opcodes<B: Bus>(s: State, m: B::Mem)
    requires
        ({
            let b = pc_byte::<B>(s.regs, m, 0);
            b == 0xE8 || b == 0xC8 || b == 0xCA || b == 0x88
        }),
    ensures
        ({
            let b = pc_byte::<B>(s.regs, m, 0);
            let op = if b == 0xE8 {
                Op::Inx
            } else if b == 0xC8 {
                Op::Iny
            } else if b == 0xCA {
                Op::Dex
            } else {
                Op::Dey
            };
            step_spec::<B>(s, m) == (index_step(op, s), m)
        }),
{
}

/// The event the instruction at the program counter reports.
pub open spec fn step_event<B: Bus>(s: State, m: B::Mem) -> EventView {
    match next_instruction::<B>(s, m) {
        Some((op, mode)) => op_event(op, mode, s.regs),
        None => (0, 0, Seq::empty(), Seq::empty()),
    }
}

impl CPU {
    /// Runs the instruction at the program counter, reporting it first.
    pub fn step<B: Bus, R: Reporter>(&mut self, bus: &mut B, rep: &mut R)
        requires
            can_step::<B>(old(self)@, old(bus).mem()),
        ensures
            (final(self)@, final(bus).mem()) == step_spec::<B>(old(self)@, old(bus).mem()),
            final(rep).log() == R::logged(old(rep).log(), step_event::<B>(old(self)@, old(bus).mem())),
    {
        self.exec_next_instruction(bus, rep);
    }

    /// Decodes the instruction at the program counter and runs it.
    #[verifier::rlimit(50)]
    pub fn exec_next_instruction<B: Bus, R: Reporter>(&mut self, bus: &mut B, rep: &mut R)
        requires
            can_step::<B>(old(self)@, old(bus).mem()),
        ensures
            (final(self)@, final(bus).mem()) == step_spec::<B>(old(self)@, old(bus).mem()),
            final(rep).log() == R::logged(old(rep).log(), step_event::<B>(old(self)@, old(bus).mem())),
    {
        match self.fetch_pc_byte(bus, 0) {
            0x00 => {
                // BRK
                self.brk(bus, rep)
            },
            0x01 => {
                // ORA (d,X)
                let dir = self.fetch_pc_byte(bus, 1);
                self.ora(bus, addr::Mode::DirectIndexedIndirect(dir), rep)
            },
            0x03 => {
                // ORA d,S
                let rel = self.fetch_pc_byte(bus, 1);
                self.ora(bus, addr::Mode::StackRelative(rel), rep)
            },
            0x04 => {
                // TSB d
                let dir = self.fetch_pc_byte(bus, 1);
                self.tsb(bus, addr::Mode::Direct(dir), rep)
            },
            0x05 => {
                // ORA d
                let dir = self.fetch_pc_byte(bus, 1);
                self.ora(bus, addr::Mode::Direct(dir), rep)
            },
            0x06 => {
                // ASL d
                let dir = self.fetch_pc_byte(bus, 1);
                self.asl(bus, addr::Mode::Direct(dir), rep)
            },
            0x07 => {
                // ORA [d]
                let dir = self.fetch_pc_byte(bus, 1);
                self.ora(bus, addr::Mode::DirectIndirectLong(dir), rep)
            },
            0x09 => {
                // ORA #i
                let imm = self.fetch_pc_word(bus, 1);
                self.ora(bus, addr::Mode::Immediate(imm), rep)
            },
            0x0A => {
                // ASL
                self.asl(bus, addr::Mode::Accumulator, rep)
            },
            0x0C => {
                // TSB a
                let abs = self.fetch_pc_word(bus, 1);
                self.tsb(bus, addr::Mode::Absolute(abs), rep)
            },
            0x0D => {
                // ORA a
                let abs = self.fetch_pc_word(bus, 1);
                self.ora(bus, addr::Mode::Absolute(abs), rep)
            },
            0x0E => {
                // ASL a
                let abs = self.fetch_pc_word(bus, 1);
                self.asl(bus, addr::Mode::Absolute(abs), rep)
            },
            0x0F => {
                // ORA al
                let abs = self.fetch_pc_word(bus, 1);
                let bank = self.fetch_pc_byte(bus, 3);
                self.ora(bus, addr::Mode::AbsoluteLong(bank, abs), rep)
            },
            0x11 => {
                // ORA (d),Y
                let dir = self.fetch_pc_byte(bus, 1);
                self.ora(bus, addr::Mode::DirectIndirectIndexed(dir), rep)
            },
            0x12 => {
                // ORA (d)
                let dir = self.fetch_pc_byte(bus, 1);
                self.ora(bus, addr::Mode::DirectIndirect(dir), rep)
            },
            0x13 => {
                // ORA (d,S),Y
                let rel = self.fetch_pc_byte(bus, 1);
                self.ora(bus, addr::Mode::StackRelativeIndirectIndexed(rel), rep)
            },
            0x14 => {
                // TRB d
                let dir = self.fetch_pc_byte(bus, 1);
                self.trb(bus, addr::Mode::Direct(dir), rep)
            },
            0x15 => {
                // ORA d,X
                let dir = self.fetch_pc_byte(bus, 1);
                self.ora(bus, addr::Mode::DirectIndexedX(dir), rep)
            },
            0x16 => {
                // ASL d,X
                let dir = self.fetch_pc_byte(bus, 1);
                self.asl(bus, addr::Mode::DirectIndexedX(dir), rep)
            },
            0x17 => {
                // ORA [d],Y
                let dir = self.fetch_pc_byte(bus, 1);
                self.ora(bus, addr::Mode::DirectIndirectLongIndexed(dir), rep)
            },
            0x19 => {
                // ORA a,Y
                let abs = self.fetch_pc_word(bus, 1);
                self.ora(bus, addr::Mode::AbsoluteIndexedY(abs), rep)
            },
            0x1A => {
                // INC
                self.inc(bus, addr::Mode::Accumulator, rep)
            },
            0x1C => {
                // TRB a
                let abs = self.fetch_pc_word(bus, 1);
                self.trb(bus, addr::Mode::Absolute(abs), rep)
            },
            0x1D => {
                // ORA a,X
                let abs = self.fetch_pc_word(bus, 1);
                self.ora(bus, addr::Mode::AbsoluteIndexedX(abs), rep)
            },
            0x1E => {
                // ASL a,X
                let abs = self.fetch_pc_word(bus, 1);
                self.asl(bus, addr::Mode::AbsoluteIndexedX(abs), rep)
            },
            0x1F => {
                // ORA al,X
                let abs = self.fetch_pc_word(bus, 1);
                let bank = self.fetch_pc_byte(bus, 3);
                self.ora(bus, addr::Mode::AbsoluteLongIndexed(bank, abs), rep)
            },
            0x21 => {
                // AND (d,X)
                let dir = self.fetch_pc_byte(bus, 1);
                self.and(bus, addr::Mode::DirectIndexedIndirect(dir), rep)
            },
            0x23 => {
                // AND d,S
                let rel = self.fetch_pc_byte(bus, 1);
                self.and(bus, addr::Mode::StackRelative(rel), rep)
            },
            0x24 => {
                // BIT d
                let dir = self.fetch_pc_byte(bus, 1);
                self.bit(bus, addr::Mode::Direct(dir), rep)
            },
            0x25 => {
                // AND d
                let dir = self.fetch_pc_byte(bus, 1);
                self.and(bus, addr::Mode::Direct(dir), rep)
            },
            0x27 => {
                // AND [d]
                let dir = self.fetch_pc_byte(bus, 1);
                self.and(bus, addr::Mode::DirectIndirectLong(dir), rep)
            },
            0x29 => {
                // AND #i
                let imm = self.fetch_pc_word(bus, 1);
                self.and(bus, addr::Mode::Immediate(imm), rep)
            },
            0x2C => {
                // BIT a
                let abs = self.fetch_pc_word(bus, 1);
                self.bit(bus, addr::Mode::Absolute(abs), rep)
            },
            0x2D => {
                // AND a
                let abs = self.fetch_pc_word(bus, 1);
                self.and(bus, addr::Mode::Absolute(abs), rep)
            },
            0x2F => {
                // AND al
                let abs = self.fetch_pc_word(bus, 1);
                let bank = self.fetch_pc_byte(bus, 3);
                self.and(bus, addr::Mode::AbsoluteLong(bank, abs), rep)
            },
            0x31 => {
                // AND (d),Y
                let dir = self.fetch_pc_byte(bus, 1);
                self.and(bus, addr::Mode::DirectIndirectIndexed(dir), rep)
            },
            0x32 => {
                // AND (d)
                let dir = self.fetch_pc_byte(bus, 1);
                self.and(bus, addr::Mode::DirectIndirect(dir), rep)
            },
            0x33 => {
                // AND (d,S),Y
                let rel = self.fetch_pc_byte(bus, 1);
                self.and(bus, addr::Mode::StackRelativeIndirectIndexed(rel), rep)
            },
            0x34 => {
                // BIT d,X
                let dir = self.fetch_pc_byte(bus, 1);
                self.bit(bus, addr::Mode::DirectIndexedX(dir), rep)
            },
            0x35 => {
                // AND d,X
                let dir = self.fetch_pc_byte(bus, 1);
                self.and(bus, addr::Mode::DirectIndexedX(dir), rep)
            },
            0x37 => {
                // AND [d],Y
                let dir = self.fetch_pc_byte(bus, 1);
                self.and(bus, addr::Mode::DirectIndirectLongIndexed(dir), rep)
            },
            0x39 => {
                // AND a,Y
                let abs = self.fetch_pc_word(bus, 1);
                self.and(bus, addr::Mode::AbsoluteIndexedY(abs), rep)
            },
            0x3A => {
                // DEC
                self.dec(bus, addr::Mode::Accumulator, rep)
            },
            0x3C => {
                // BIT a,X
                let abs = self.fetch_pc_word(bus, 1);
                self.bit(bus, addr::Mode::AbsoluteIndexedX(abs), rep)
            },
            0x3D => {
                // AND a,X
                let abs = self.fetch_pc_word(bus, 1);
                self.and(bus, addr::Mode::AbsoluteIndexedX(abs), rep)
            },
            0x3F => {
                // AND al,X
                let abs = self.fetch_pc_word(bus, 1);
                let bank = self.fetch_pc_byte(bus, 3);
                self.and(bus, addr::Mode::AbsoluteLongIndexed(bank, abs), rep)
            },
            0x41 => {
                // EOR (d,X)
                let dir = self.fetch_pc_byte(bus, 1);
                self.eor(bus, addr::Mode::DirectIndexedIndirect(dir), rep)
            },
            0x43 => {
                // EOR d,S
                let rel = self.fetch_pc_byte(bus, 1);
                self.eor(bus, addr::Mode::StackRelative(rel), rep)
            },
            0x45 => {
                // EOR d
                let dir: u8 = self.fetch_pc_byte(bus, 1);
                self.eor(bus, addr::Mode::Direct(dir), rep)
            },
            0x47 => {
                // EOR [d]
                let dir = self.fetch_pc_byte(bus, 1);
                self.eor(bus, addr::Mode::DirectIndirectLong(dir), rep)
            },
            0x49 => {
                // EOR #i
                let imm = self.fetch_pc_word(bus, 1);
                self.eor(bus, addr::Mode::Immediate(imm), rep)
            },
            0x4D => {
                // EOR a
                let abs = self.fetch_pc_word(bus, 1);
                self.eor(bus, addr::Mode::Absolute(abs), rep)
            },
            0x4F => {
                // EOR al
                let abs = self.fetch_pc_word(bus, 1);
                let bank = self.fetch_pc_byte(bus, 3);
                self.eor(bus, addr::Mode::AbsoluteLong(bank, abs), rep)
            },
            0x51 => {
                // EOR (d),Y
                let dir = self.fetch_pc_byte(bus, 1);
                self.eor(bus, addr::Mode::DirectIndirectIndexed(dir), rep)
            },
            0x52 => {
                // EOR (d)
                let dir = self.fetch_pc_byte(bus, 1);
                self.eor(bus, addr::Mode::DirectIndirect(dir), rep)
            },
            0x53 => {
                // EOR (d,S),Y
                let rel = self.fetch_pc_byte(bus, 1);
                self.eor(bus, addr::Mode::StackRelativeIndirectIndexed(rel), rep)
            },
            0x55 => {
                // EOR d,X
                let dir = self.fetch_pc_byte(bus, 1);
                self.eor(bus, addr::Mode::DirectIndexedX(dir), rep)
            },
            0x57 => {
                // EOR [d],Y
                let dir = self.fetch_pc_byte(bus, 1);
                self.eor(bus, addr::Mode::DirectIndirectLongIndexed(dir), rep)
            },
            0x59 => {
                // EOR a,Y
                let abs = self.fetch_pc_word(bus, 1);
                self.eor(bus, addr::Mode::AbsoluteIndexedY(abs), rep)
            },
            0x5D => {
                // EOR a,X
                let abs = self.fetch_pc_word(bus, 1);
                self.eor(bus, addr::Mode::AbsoluteIndexedX(abs), rep)
            },
            0x5F => {
                // EOR al,X
                let abs = self.fetch_pc_word(bus, 1);
                let bank = self.fetch_pc_byte(bus, 3);
                self.eor(bus, addr::Mode::AbsoluteLongIndexed(bank, abs), rep)
            },
            0x61 => {
                // ADC (d,X)
                let dir = self.fetch_pc_byte(bus, 1);
                self.adc(bus, addr::Mode::DirectIndexedIndirect(dir), rep)
            },
            0x63 => {
                // ADC d,S
                let rel = self.fetch_pc_byte(bus, 1);
                self.adc(bus, addr::Mode::StackRelative(rel), rep)
            },
            0x65 => {
                // ADC d
                let dir: u8 = self.fetch_pc_byte(bus, 1);
                self.adc(bus, addr::Mode::Direct(dir), rep)
            },
            0x67 => {
                // ADC [d]
                let dir = self.fetch_pc_byte(bus, 1);
                self.adc(bus, addr::Mode::DirectIndirectLong(dir), rep)
            },
            0x69 => {
                // ADC #i
                let imm = self.fetch_pc_word(bus, 1);
                self.adc(bus, addr::Mode::Immediate(imm), rep)
            },
            0x6D => {
                // ADC a
                let abs = self.fetch_pc_word(bus, 1);
                self.adc(bus, addr::Mode::Absolute(abs), rep)
            },
            0x6F => {
                // ADC al
                let abs = self.fetch_pc_word(bus, 1);
                let bank = self.fetch_pc_byte(bus, 3);
                self.adc(bus, addr::Mode::AbsoluteLong(bank, abs), rep)
            },
            0x71 => {
                // ADC (d),Y
                let dir = self.fetch_pc_byte(bus, 1);
                self.adc(bus, addr::Mode::DirectIndirectIndexed(dir), rep)
            },
            0x72 => {
                // ADC (d)
                let dir = self.fetch_pc_byte(bus, 1);
                self.adc(bus, addr::Mode::DirectIndirect(dir), rep)
            },
            0x73 => {
                // ADC (d,S),Y
                let rel = self.fetch_pc_byte(bus, 1);
                self.adc(bus, addr::Mode::StackRelativeIndirectIndexed(rel), rep)
            },
            0x75 => {
                // ADC d,X
                let dir = self.fetch_pc_byte(bus, 1);
                self.adc(bus, addr::Mode::DirectIndexedX(dir), rep)
            },
            0x77 => {
                // ADC [d],Y
                let dir = self.fetch_pc_byte(bus, 1);
                self.adc(bus, addr::Mode::DirectIndirectLongIndexed(dir), rep)
            },
            0x79 => {
                // ADC a,Y
                let abs = self.fetch_pc_word(bus, 1);
                self.adc(bus, addr::Mode::AbsoluteIndexedY(abs), rep)
            },
            0x7D => {
                // ADC a,X
                let abs = self.fetch_pc_word(bus, 1);
                self.adc(bus, addr::Mode::AbsoluteIndexedX(abs), rep)
            },
            0x7F => {
                // ADC al,X
                let abs = self.fetch_pc_word(bus, 1);
                let bank = self.fetch_pc_byte(bus, 3);
                self.adc(bus, addr::Mode::AbsoluteLongIndexed(bank, abs), rep)
            },
            0x88 => {
                // DEY
                self.dey(rep)
            },
            0x89 => {
                // BIT #i
                let imm = self.fetch_pc_word(bus, 1);
                self.bit(bus, addr::Mode::Immediate(imm), rep)
            },
            0xC0 => {
                // CPY #i
                let imm = self.fetch_pc_word(bus, 1);
                self.cpy(bus, addr::Mode::Immediate(imm), rep)
            },
            0xC1 => {
                // CMP (d,X)
                let dir = self.fetch_pc_byte(bus, 1);
                self.cmp(bus, addr::Mode::DirectIndexedIndirect(dir), rep)
            },
            0xC3 => {
                // CMP d,S
                let rel = self.fetch_pc_byte(bus, 1);
                self.cmp(bus, addr::Mode::StackRelative(rel), rep)
            },
            0xC4 => {
                // CPY d
                let dir: u8 = self.fetch_pc_byte(bus, 1);
                self.cpy(bus, addr::Mode::Direct(dir), rep)
            },
            0xC5 => {
                // CMP d
                let dir: u8 = self.fetch_pc_byte(bus, 1);
                self.cmp(bus, addr::Mode::Direct(dir), rep)
            },
            0xC6 => {
                // DEC d
                let dir = self.fetch_pc_byte(bus, 1);
                self.dec(bus, addr::Mode::Direct(dir), rep)
            },
            0xC7 => {
                // CMP [d]
                let dir = self.fetch_pc_byte(bus, 1);
                self.cmp(bus, addr::Mode::DirectIndirectLong(dir), rep)
            },
            0xC8 => {
                // INY
                self.iny(rep)
            },
            0xC9 => {
                // CMP #i
                let imm = self.fetch_pc_word(bus, 1);
                self.cmp(bus, addr::Mode::Immediate(imm), rep)
            },
            0xCA => {
                // DEX
                self.dex(rep)
            },
            0xCC => {
                // CPY a
                let abs = self.fetch_pc_word(bus, 1);
                self.cpy(bus, addr::Mode::Absolute(abs), rep)
            },
            0xCD => {
                // CMP a
                let abs = self.fetch_pc_word(bus, 1);
                self.cmp(bus, addr::Mode::Absolute(abs), rep)
            },
            0xCE => {
                // DEC a
                let abs = self.fetch_pc_word(bus, 1);
                self.dec(bus, addr::Mode::Absolute(abs), rep)
            },
            0xCF => {
                // CMP al
                let abs = self.fetch_pc_word(bus, 1);
                let bank = self.fetch_pc_byte(bus, 3);
                self.cmp(bus, addr::Mode::AbsoluteLong(bank, abs), rep)
            },
            0xD1 => {
                // CMP (d),Y
                let dir = self.fetch_pc_byte(bus, 1);
                self.cmp(bus, addr::Mode::DirectIndirectIndexed(dir), rep)
            },
            0xD2 => {
                // CMP (d)
                let dir = self.fetch_pc_byte(bus, 1);
                self.cmp(bus, addr::Mode::DirectIndirect(dir), rep)
            },
            0xD3 => {
                // CMP (d,S),Y
                let rel = self.fetch_pc_byte(bus, 1);
                self.cmp(bus, addr::Mode::StackRelativeIndirectIndexed(rel), rep)
            },
            0xD5 => {
                // CMP d,X
                let dir = self.fetch_pc_byte(bus, 1);
                self.cmp(bus, addr::Mode::DirectIndexedX(dir), rep)
            },
            0xD6 => {
                // DEC d,X
                let dir = self.fetch_pc_byte(bus, 1);
                self.dec(bus, addr::Mode::DirectIndexedX(dir), rep)
            },
            0xD7 => {
                // CMP [d],Y
                let dir = self.fetch_pc_byte(bus, 1);
                self.cmp(bus, addr::Mode::DirectIndirectLongIndexed(dir), rep)
            },
            0xD9 => {
                // CMP a,Y
                let abs = self.fetch_pc_word(bus, 1);
                self.cmp(bus, addr::Mode::AbsoluteIndexedY(abs), rep)
            },
            0xDD => {
                // CMP a,X
                let abs = self.fetch_pc_word(bus, 1);
                self.cmp(bus, addr::Mode::AbsoluteIndexedX(abs), rep)
            },
            0xDE => {
                // DEC a,X
                let abs = self.fetch_pc_word(bus, 1);
                self.dec(bus, addr::Mode::AbsoluteIndexedX(abs), rep)
            },
            0xDF => {
                // CMP al,X
                let abs = self.fetch_pc_word(bus, 1);
                let bank = self.fetch_pc_byte(bus, 3);
                self.cmp(bus, addr::Mode::AbsoluteLongIndexed(bank, abs), rep)
            },
            0xE0 => {
                // CPX #i
                let imm = self.fetch_pc_word(bus, 1);
                self.cpx(bus, addr::Mode::Immediate(imm), rep)
            },
            0xE1 => {
                // SBC (d,X)
                let dir = self.fetch_pc_byte(bus, 1);
                self.sbc(bus, addr::Mode::DirectIndexedIndirect(dir), rep)
            },
            0xE3 => {
                // SBC d,S
                let rel = self.fetch_pc_byte(bus, 1);
                self.sbc(bus, addr::Mode::StackRelative(rel), rep)
            },
            0xE4 => {
                // CPX d
                let dir: u8 = self.fetch_pc_byte(bus, 1);
                self.cpx(bus, addr::Mode::Direct(dir), rep)
            },
            0xE5 => {
                // SBC d
                let dir: u8 = self.fetch_pc_byte(bus, 1);
                self.sbc(bus, addr::Mode::Direct(dir), rep)
            },
            0xE6 => {
                // INC d
                let dir = self.fetch_pc_byte(bus, 1);
                self.inc(bus, addr::Mode::Direct(dir), rep)
            },
            0xE7 => {
                // SBC [d]
                let dir = self.fetch_pc_byte(bus, 1);
                self.sbc(bus, addr::Mode::DirectIndirectLong(dir), rep)
            },
            0xE8 => {
                // INX
                self.inx(rep)
            },
            0xE9 => {
                // SBC #i
                let imm = self.fetch_pc_word(bus, 1);
                self.sbc(bus, addr::Mode::Immediate(imm), rep)
            },
            0xEC => {
                // CPX a
                let abs = self.fetch_pc_word(bus, 1);
                self.cpx(bus, addr::Mode::Absolute(abs), rep)
            },
            0xED => {
                // SBC a
                let abs = self.fetch_pc_word(bus, 1);
                self.sbc(bus, addr::Mode::Absolute(abs), rep)
            },
            0xEE => {
                // INC a
                let abs = self.fetch_pc_word(bus, 1);
                self.inc(bus, addr::Mode::Absolute(abs), rep)
            },
            0xEF => {
                // SBC al
                let abs = self.fetch_pc_word(bus, 1);
                let bank = self.fetch_pc_byte(bus, 3);
                self.sbc(bus, addr::Mode::AbsoluteLong(bank, abs), rep)
            },
            0xF1 => {
                // SBC (d),Y
                let dir = self.fetch_pc_byte(bus, 1);
                self.sbc(bus, addr::Mode::DirectIndirectIndexed(dir), rep)
            },
            0xF2 => {
                // SBC (d)
                let dir = self.fetch_pc_byte(bus, 1);
                self.sbc(bus, addr::Mode::DirectIndirect(dir), rep)
            },
            0xF3 => {
                // SBC (d,S),Y
                let rel = self.fetch_pc_byte(bus, 1);
                self.sbc(bus, addr::Mode::StackRelativeIndirectIndexed(rel), rep)
            },
            0xF5 => {
                // SBC d,X
                let dir = self.fetch_pc_byte(bus, 1);
                self.sbc(bus, addr::Mode::DirectIndexedX(dir), rep)
            },
            0xF6 => {
                // INC d,X
                let dir = self.fetch_pc_byte(bus, 1);
                self.inc(bus, addr::Mode::DirectIndexedX(dir), rep)
            },
            0xF7 => {
                // SBC [d],Y
                let dir = self.fetch_pc_byte(bus, 1);
                self.sbc(bus, addr::Mode::DirectIndirectLongIndexed(dir), rep)
            },
            0xF9 => {
                // SBC a,Y
                let abs = self.fetch_pc_word(bus, 1);
                self.sbc(bus, addr::Mode::AbsoluteIndexedY(abs), rep)
            },
            0xFD => {
                // SBC a,X
                let abs = self.fetch_pc_word(bus, 1);
                self.sbc(bus, addr::Mode::AbsoluteIndexedX(abs), rep)
            },
            0xFE => {
                // INC a,X
                let abs = self.fetch_pc_word(bus, 1);
                self.inc(bus, addr::Mode::AbsoluteIndexedX(abs), rep)
            },
            0xFF => {
                // SBC al,X
                let abs = self.fetch_pc_word(bus, 1);
                let bank = self.fetch_pc_byte(bus, 3);
                self.sbc(bus, addr::Mode::AbsoluteLongIndexed(bank, abs), rep)
            },
            _ => {},
        }
    }
}

} // verus!
