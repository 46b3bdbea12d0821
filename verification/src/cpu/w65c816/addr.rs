//! Addressing modes of the W65C816: how an instruction finds the value it reads, the place it
//! writes or the address it jumps to.
use vstd::prelude::*;

use crate::cpu::w65c816::bus::{
    Addr, AddrWrap, Bus, Fake, addr_of, lemma_fake_read_after_write, lemma_fake_word_round_trip,
    lemma_wrap_add_bounds, wrap_add,
};
use crate::cpu::w65c816::reg::{Regs, accum_byte, dl, eff_dbr, eff_pbr, flag_set, with_al};
use crate::cpu::w65c816::status::Flag;
use crate::cpu::w65c816::{
    CPU, State, direct_addr_of, direct_ptr, direct_ptr_long, direct_word, direct_wrap, stack_word,
    word_in, word_poked,
};
use crate::utils::hex::{append_hex2, append_hex4, hex2, hex4};
use vstd::arithmetic::div_mod::{
    lemma_add_mod_noop, lemma_fundamental_div_mod, lemma_fundamental_div_mod_converse, lemma_basic_div,
    lemma_small_mod,
};
use crate::utils::word::{high_byte, lemma_bytes_of_word, low, low_byte};
use vstd::string::*;

verus! {

#[derive(Clone, Copy, Debug, PartialEq, Eq, Structural)]
pub enum Mode {
    Absolute(u16),                      // a
    AbsoluteJump(u16),                  // a
    AbsoluteIndirectJump(u16),          // (a)
    AbsoluteIndirectLongJump(u16),      // [a]      --> 65C816 only
    AbsoluteIndexedIndirectJump(u16),   // (a,X)    --> 65C816 only
    AbsoluteLongJump(u8, u16),          // al       --> 65C816 only
    AbsoluteIndexedX(u16),              // a,X
    AbsoluteIndexedY(u16),              // a,Y
    AbsoluteLong(u8, u16),              // al       --> 65C816 only
    AbsoluteLongIndexed(u8, u16),       // al,X     --> 65C816 only
    Accumulator,                        //
    Direct(u8),                         // d
    DirectIndexedIndirect(u8),          // (d,X)
    DirectIndexedX(u8),                 // d,X
    DirectIndexedY(u8),                 // d,Y
    DirectIndirect(u8),                 // (d)      --> 65C816 only
    DirectIndirectIndexed(u8),          // (d),Y
    DirectIndirectLongIndexed(u8),      // [d],Y    --> 65C816 only
    DirectIndirectLong(u8),             // [d]      --> 65C816 only
    Immediate(u16),                     // #i
    StackRelative(u8),                  // d,S      --> 65C816 only
    StackRelativeIndirectIndexed(u8),   // (d,S),Y  --> 65C816 only
}

/// What a read through an addressing mode gives: the value, the cycles it took and how many
/// program bytes the instruction has.
#[derive(Clone, Copy, Debug, PartialEq, Eq, Structural)]
pub struct ModeRead {
    pub val: u16,
    pub cycles: u64,
    pub prog_bytes: u16,
}

/// What a write through an addressing mode took, in cycles.
#[derive(Clone, Copy, Debug, PartialEq, Eq, Structural)]
pub struct ModeWrite {
    pub cycles: u64,
}

/// Where a jump through an addressing mode goes, its cycles for JMP and JSR, and how many program
/// bytes the instruction has.
#[derive(Clone, Copy, Debug, PartialEq, Eq, Structural)]
pub struct ModeJump {
    pub bank: u8,
    pub addr: u16,
    pub jmp_cycles: u64,
    pub jsr_cycles: u64,
    pub prog_bytes: u16,
}

/// One more cycle when the accumulator is 16-bit wide.
pub open spec fn op16(r: Regs) -> u64 {
    if !flag_set(r, 0x20) { 1 } else { 0 }
}

/// One more cycle when the direct page is not page aligned.
pub open spec fn dl0(r: Regs) -> u64 {
    if dl(r) != 0 { 1 } else { 0 }
}

/// One more cycle when indexing crosses a page, or when the index registers are 16-bit wide.
pub open spec fn page_crossed(r: Regs, p1: int, p2: int) -> u64 {
    if (p1 / 0x100) % 0x10000 != (p2 / 0x100) % 0x10000 || !flag_set(r, 0x10) { 1 } else { 0 }
}

/// Whether a mode designates a value to read.
pub open spec fn readable(m: Mode) -> bool {
    !(m is AbsoluteJump || m is AbsoluteIndirectJump || m is AbsoluteIndirectLongJump
        || m is AbsoluteIndexedIndirectJump || m is AbsoluteLongJump)
}

/// Whether a mode designates a place to write.
pub open spec fn writable(m: Mode) -> bool {
    m is Absolute || m is AbsoluteIndexedX || m is Accumulator || m is Direct || m is DirectIndexedX
}

/// Whether a mode designates an address to jump to.
pub open spec fn jumpable(m: Mode) -> bool {
    m is AbsoluteJump || m is AbsoluteIndirectJump || m is AbsoluteIndirectLongJump
        || m is AbsoluteIndexedIndirectJump || m is AbsoluteLongJump
}

/// What a read through a mode gives, with registers `r` and bus state `m`.
pub open spec fn mode_read_spec<B: Bus>(mode: Mode, r: Regs, m: B::Mem) -> ModeRead {
    match mode {
        Mode::Absolute(addr) => ModeRead {
            val: word_in::<B>(m, addr_of(eff_dbr(r), addr), AddrWrap::Long),
            cycles: (4 + op16(r)) as u64,
            prog_bytes: 3,
        },
        Mode::AbsoluteIndexedX(addr) => {
            let p1 = addr_of(eff_dbr(r), addr);
            let p2 = wrap_add(p1, r.x as int, AddrWrap::Long);
            ModeRead {
                val: word_in::<B>(m, p2, AddrWrap::Long),
                cycles: (4 + op16(r) + page_crossed(r, p1, p2)) as u64,
                prog_bytes: 3,
            }
        },
        Mode::AbsoluteIndexedY(addr) => {
            let p1 = addr_of(eff_dbr(r), addr);
            let p2 = wrap_add(p1, r.y as int, AddrWrap::Long);
            ModeRead {
                val: word_in::<B>(m, p2, AddrWrap::Long),
                cycles: (4 + op16(r) + page_crossed(r, p1, p2)) as u64,
                prog_bytes: 3,
            }
        },
        Mode::AbsoluteLong(bank, offset) => ModeRead {
            val: word_in::<B>(m, addr_of(bank, offset), AddrWrap::Long),
            cycles: (5 + op16(r)) as u64,
            prog_bytes: 4,
        },
        Mode::AbsoluteLongIndexed(bank, offset) => ModeRead {
            val: word_in::<B>(m, wrap_add(addr_of(bank, offset), r.x as int, AddrWrap::Long), AddrWrap::Long),
            cycles: (5 + op16(r)) as u64,
            prog_bytes: 4,
        },
        Mode::Accumulator => ModeRead { val: r.a, cycles: 2, prog_bytes: 1 },
        Mode::Direct(dir) => ModeRead {
            val: direct_word::<B>(r, m, dir, 0),
            cycles: (3 + op16(r) + dl0(r)) as u64,
            prog_bytes: 2,
        },
        Mode::DirectIndexedX(dir) => ModeRead {
            val: direct_word::<B>(r, m, dir, r.x),
            cycles: (4 + op16(r) + dl0(r)) as u64,
            prog_bytes: 2,
        },
        Mode::DirectIndexedY(dir) => ModeRead {
            val: direct_word::<B>(r, m, dir, r.y),
            cycles: (4 + op16(r) + dl0(r)) as u64,
            prog_bytes: 2,
        },
        Mode::DirectIndexedIndirect(dir) => ModeRead {
            val: word_in::<B>(m, direct_ptr::<B>(r, m, dir, r.x), AddrWrap::Long),
            cycles: (6 + op16(r) + dl0(r)) as u64,
            prog_bytes: 2,
        },
        Mode::DirectIndirect(dir) => ModeRead {
            val: word_in::<B>(m, direct_ptr::<B>(r, m, dir, 0), AddrWrap::Long),
            cycles: (5 + op16(r) + dl0(r)) as u64,
            prog_bytes: 2,
        },
        Mode::DirectIndirectIndexed(dir) => {
            let p1 = direct_ptr::<B>(r, m, dir, 0);
            let p2 = wrap_add(p1, r.y as int, AddrWrap::Long);
            ModeRead {
                val: word_in::<B>(m, p2, AddrWrap::Long),
                cycles: (5 + op16(r) + dl0(r) + page_crossed(r, p1, p2)) as u64,
                prog_bytes: 2,
            }
        },
        Mode::DirectIndirectLong(offset) => ModeRead {
            val: word_in::<B>(m, direct_ptr_long::<B>(r, m, offset, 0), AddrWrap::Long),
            cycles: (6 + op16(r) + dl0(r)) as u64,
            prog_bytes: 2,
        },
        Mode::DirectIndirectLongIndexed(offset) => ModeRead {
            val: word_in::<B>(
                m,
                wrap_add(direct_ptr_long::<B>(r, m, offset, 0), r.y as int, AddrWrap::Word),
                AddrWrap::Long,
            ),
            cycles: (6 + op16(r) + dl0(r)) as u64,
            prog_bytes: 2,
        },
        Mode::Immediate(value) => ModeRead {
            val: value,
            cycles: (2 + op16(r)) as u64,
            prog_bytes: (2 + op16(r)) as u16,
        },
        Mode::StackRelative(offset) => ModeRead {
            val: stack_word::<B>(r, m, offset as u16),
            cycles: (4 + op16(r)) as u64,
            prog_bytes: 2,
        },
        Mode::StackRelativeIndirectIndexed(offset) => {
            let base = addr_of(eff_dbr(r), stack_word::<B>(r, m, offset as u16));
            ModeRead {
                val: word_in::<B>(m, wrap_add(base, r.y as int, AddrWrap::Word), AddrWrap::Long),
                cycles: (7 + op16(r)) as u64,
                prog_bytes: 2,
            }
        },
        _ => ModeRead { val: 0, cycles: 0, prog_bytes: 0 },
    }
}

/// Whether a mode indexes by the X register.
pub open spec fn indexes_by_x(mode: Mode) -> bool {
    mode is AbsoluteIndexedX || mode is AbsoluteLongIndexed || mode is DirectIndexedX
        || mode is DirectIndexedIndirect
}

/// Whether a mode indexes by the Y register.
pub open spec fn indexes_by_y(mode: Mode) -> bool {
    mode is AbsoluteIndexedY || mode is DirectIndexedY || mode is DirectIndirectIndexed
        || mode is DirectIndirectLongIndexed || mode is StackRelativeIndirectIndexed
}

/// A read through a mode does not look at an index register that the mode does not name: the
/// value of X does not matter to a mode that does not index by X, nor that of Y to one that does
/// not index by Y.
pub proof fn lemma_read_ignores_other_index<B: Bus>(mode: Mode, r: Regs, m: B::Mem, k: u16)
    ensures
        !indexes_by_x(mode) ==> mode_read_spec::<B>(mode, Regs { x: k, ..r }, m)
            == mode_read_spec::<B>(mode, r, m),
        !indexes_by_y(mode) ==> mode_read_spec::<B>(mode, Regs { y: k, ..r }, m)
            == mode_read_spec::<B>(mode, r, m),
{
}

/// The absolute modes read the word whose low byte is at the operand's 24-bit address and whose
/// high byte is at the next one, both wrapping at the end of memory: `a` in the data bank (bank
/// zero in emulation mode), `a,X` and `a,Y` that address plus X or Y, `al` the long address and
/// `al,X` the long address plus X.
pub proof fn lemma_absolute_reads<B: Bus>(addr: u16, bank: u8, r: Regs, m: B::Mem)
    ensures
        ({
            let base = (if r.e { 0 } else { r.dbr as int }) * 0x10000 + addr;
            let long = bank as int * 0x10000 + addr;
            let word_at = |a: int| B::peek(m, a) as int + 0x100 * B::peek(m, (a + 1) % 0x1000000) as int;
            &&& mode_read_spec::<B>(Mode::Absolute(addr), r, m).val == word_at(base)
            &&& mode_read_spec::<B>(Mode::AbsoluteIndexedX(addr), r, m).val
                == word_at((base + r.x) % 0x1000000)
            &&& mode_read_spec::<B>(Mode::AbsoluteIndexedY(addr), r, m).val
                == word_at((base + r.y) % 0x1000000)
            &&& mode_read_spec::<B>(Mode::AbsoluteLong(bank, addr), r, m).val == word_at(long)
            &&& mode_read_spec::<B>(Mode::AbsoluteLongIndexed(bank, addr), r, m).val
                == word_at((long + r.x) % 0x1000000)
        }),
{
}

/// Where a direct page location and the byte after it lie: at the direct page register plus the
/// offset and the low byte of the index, wrapping within bank zero, or within the page in
/// emulation mode with a page-aligned direct page.
proof fn lemma_direct_location(r: Regs, dir: u8, idx: u16)
    ensures
        ({
            let paged = r.e && r.dp % 0x100 == 0;
            let d = dir as int + idx % 0x100;
            &&& direct_addr_of(r, dir, idx) == if paged {
                r.dp + d % 0x100
            } else {
                (r.dp + d) % 0x10000
            }
            &&& crate::cpu::w65c816::bus::addr_inc(direct_addr_of(r, dir, idx), direct_wrap(r))
                == if paged {
                r.dp + (d + 1) % 0x100
            } else {
                (r.dp + d + 1) % 0x10000
            }
        }),
{
    let paged = r.e && r.dp % 0x100 == 0;
    let dp = r.dp as int;
    let d = dir as int;
    let i = idx % 0x100;
    let w = direct_wrap(r);
    let a0 = addr_of(0, r.dp);
    assert(a0 == dp);
    let first = wrap_add(a0, d, w);
    let second = wrap_add(first, i as int, w);
    assert(direct_addr_of(r, dir, idx) == second);
    if paged {
        assert(w == AddrWrap::Byte);
        let q = dp / 0x100;
        lemma_fundamental_div_mod(dp, 0x100);
        assert(dp == q * 0x100);
        lemma_fundamental_div_mod_converse(dp + d, 0x100, q, d);
        assert(first == q * 0x100 + d);
        let k = (d + i) / 0x100;
        let rem = (d + i) % 0x100;
        lemma_fundamental_div_mod(d + i, 0x100);
        lemma_fundamental_div_mod_converse(first, 0x100, q, d);
        lemma_fundamental_div_mod_converse(first + i, 0x100, q + k, rem);
        assert(second == q * 0x100 + rem);
        lemma_fundamental_div_mod_converse(second, 0x100, q, rem);
        let rem2 = (rem + 1) % 0x100;
        lemma_fundamental_div_mod(rem + 1, 0x100);
        lemma_fundamental_div_mod_converse(second + 1, 0x100, q + (rem + 1) / 0x100, rem2);
        lemma_add_mod_noop(d + i, 1, 0x100);
        lemma_small_mod(1, 0x100);
    } else {
        assert(w == AddrWrap::Word);
        lemma_basic_div(dp, 0x10000);
        assert(first == (dp + d) % 0x10000);
        lemma_fundamental_div_mod(dp + d, 0x10000);
        lemma_basic_div(first, 0x10000);
        lemma_add_mod_noop(dp + d, i as int, 0x10000);
        lemma_small_mod(i as nat, 0x10000);
        assert(second == (dp + d + i) % 0x10000);
        lemma_basic_div(second, 0x10000);
        lemma_add_mod_noop(dp + d + i, 1, 0x10000);
        lemma_small_mod(1, 0x10000);
    }
}

/// The address of the byte at offset `d` into the direct page: in bank zero, wrapping within the
/// bank, or within the page in emulation mode with a page-aligned direct page.
pub open spec fn direct_page_loc(r: Regs, d: int) -> int {
    if r.e && r.dp % 0x100 == 0 {
        r.dp + d % 0x100
    } else {
        (r.dp + d) % 0x10000
    }
}

/// The word at a direct page location, from its two bytes.
proof fn lemma_direct_word<B: Bus>(r: Regs, m: B::Mem, dir: u8, idx: u16)
    ensures
        direct_word::<B>(r, m, dir, idx) as int == B::peek(m, direct_page_loc(r, dir + idx % 0x100))
            as int + 0x100 * B::peek(m, direct_page_loc(r, dir + idx % 0x100 + 1)) as int,
{
    lemma_direct_location(r, dir, idx);
}

/// The direct page modes read the word at the direct page register plus the operand byte (plus
/// the low byte of X or Y where the mode is indexed), its high byte at the next offset into the
/// direct page.
pub proof fn lemma_direct_reads<B: Bus>(dir: u8, r: Regs, m: B::Mem)
    ensures
        mode_read_spec::<B>(Mode::Direct(dir), r, m).val == B::peek(m, direct_page_loc(r, dir as int))
            as int + 0x100 * B::peek(m, direct_page_loc(r, dir + 1)) as int,
        mode_read_spec::<B>(Mode::DirectIndexedX(dir), r, m).val == B::peek(
            m,
            direct_page_loc(r, dir + r.x % 0x100),
        ) as int + 0x100 * B::peek(m, direct_page_loc(r, dir + r.x % 0x100 + 1)) as int,
        mode_read_spec::<B>(Mode::DirectIndexedY(dir), r, m).val == B::peek(
            m,
            direct_page_loc(r, dir + r.y % 0x100),
        ) as int + 0x100 * B::peek(m, direct_page_loc(r, dir + r.y % 0x100 + 1)) as int,
{
    lemma_direct_word::<B>(r, m, dir, 0);
    lemma_direct_word::<B>(r, m, dir, r.x);
    lemma_direct_word::<B>(r, m, dir, r.y);
}

/// The direct indirect modes read through the pointer at a direct page location (see
/// `lemma_direct_reads`), in the data bank (bank zero in emulation mode): `(d)` through the
/// pointer at `d`, `(d,X)` through the one at `d` plus the low byte of X, and `(d),Y` at the
/// pointer at `d` plus Y, wrapping at the end of memory.
pub proof fn lemma_direct_indirect_reads<B: Bus>(dir: u8, r: Regs, m: B::Mem)
    ensures
        ({
            let bank: int = if r.e { 0 } else { r.dbr as int };
            let ptr = |idx: u16| direct_word::<B>(r, m, dir, idx) as int;
            let long_at = |a: int| B::peek(m, a) as int + 0x100 * B::peek(m, (a + 1) % 0x1000000) as int;
            &&& mode_read_spec::<B>(Mode::DirectIndirect(dir), r, m).val == long_at(bank * 0x10000 + ptr(0))
            &&& mode_read_spec::<B>(Mode::DirectIndexedIndirect(dir), r, m).val == long_at(
                bank * 0x10000 + ptr(r.x),
            )
            &&& mode_read_spec::<B>(Mode::DirectIndirectIndexed(dir), r, m).val == long_at(
                (bank * 0x10000 + ptr(0) + r.y) % 0x1000000,
            )
        }),
{
}

/// The length of an instruction that reads through a mode is the opcode and the operand bytes
/// the mode carries: two for an absolute address, three for a long one, one for a direct page
/// or stack offset, none for the accumulator, and for an immediate value one or two as the
/// accumulator is 8 or 16 bits wide.
pub proof fn lemma_read_length<B: Bus>(mode: Mode, r: Regs, m: B::Mem)
    requires
        readable(mode),
    ensures
        mode_read_spec::<B>(mode, r, m).prog_bytes == 1 + match mode {
            Mode::Absolute(_) | Mode::AbsoluteIndexedX(_) | Mode::AbsoluteIndexedY(_) => 2int,
            Mode::AbsoluteLong(_, _) | Mode::AbsoluteLongIndexed(_, _) => 3int,
            Mode::Accumulator => 0int,
            Mode::Immediate(_) => if accum_byte(r) { 1int } else { 2int },
            _ => 1int,
        },
{
}

/// The stack relative mode reads the word at the stack pointer plus the operand byte, in bank
/// zero, wrapping within the bank; in emulation mode, wrapping within the stack's page.
pub proof fn lemma_stack_relative_read<B: Bus>(offset: u8, r: Regs, m: B::Mem)
    ensures
        ({
            let loc = |d: int| if r.e {
                r.sp / 0x100 * 0x100 + (r.sp + d) % 0x100
            } else {
                (r.sp + d) % 0x10000
            };
            mode_read_spec::<B>(Mode::StackRelative(offset), r, m).val == B::peek(m, loc(offset as int))
                as int + 0x100 * B::peek(m, loc(offset + 1)) as int
        }),
{
    let sp = r.sp as int;
    let d = offset as int;
    let wrap = if r.e { AddrWrap::Byte } else { AddrWrap::Word };
    let a = wrap_add(addr_of(0, r.sp), d, wrap);
    if r.e {
        let q = sp / 0x100;
        assert(a == q * 0x100 + (sp + d) % 0x100);
        vstd::arithmetic::div_mod::lemma_fundamental_div_mod_converse(a, 0x100, q, (sp + d) % 0x100);
        vstd::arithmetic::div_mod::lemma_add_mod_noop(sp + d, 1, 0x100);
        vstd::arithmetic::div_mod::lemma_small_mod(1, 0x100);
        vstd::arithmetic::div_mod::lemma_mod_mod(sp + d, 0x100, 1);
        assert(crate::cpu::w65c816::bus::addr_inc(a, wrap) == q * 0x100 + (sp + d + 1) % 0x100);
    } else {
        assert(sp / 0x10000 == 0);
        assert(a == (sp + d) % 0x10000);
        vstd::arithmetic::div_mod::lemma_add_mod_noop(sp + d, 1, 0x10000);
        vstd::arithmetic::div_mod::lemma_small_mod(1, 0x10000);
        vstd::arithmetic::div_mod::lemma_mod_mod(sp + d, 0x10000, 1);
        assert(a / 0x10000 == 0);
        assert(crate::cpu::w65c816::bus::addr_inc(a, wrap) == (sp + d + 1) % 0x10000);
    }
}

/// Where the direct jump modes go: `a` to that address in the program bank (bank zero in
/// emulation mode), `al` to the long address. The instruction is four bytes long with a long
/// address, else three.
pub proof fn lemma_jump_targets<B: Bus>(addr: u16, bank: u8, r: Regs, m: B::Mem)
    ensures
        mode_jump_spec::<B>(Mode::AbsoluteJump(addr), r, m).bank == if r.e { 0 } else { r.pbr },
        mode_jump_spec::<B>(Mode::AbsoluteJump(addr), r, m).addr == addr,
        mode_jump_spec::<B>(Mode::AbsoluteJump(addr), r, m).prog_bytes == 3,
        mode_jump_spec::<B>(Mode::AbsoluteLongJump(bank, addr), r, m).bank == bank,
        mode_jump_spec::<B>(Mode::AbsoluteLongJump(bank, addr), r, m).addr == addr,
        mode_jump_spec::<B>(Mode::AbsoluteLongJump(bank, addr), r, m).prog_bytes == 4,
{
}

/// Where the indirect jump modes go: `(a)` through the pointer at `a` in bank zero, staying in
/// the program bank (bank zero in emulation mode); `[a]` through the three-byte pointer at `a` in
/// bank zero, which also names the bank; `(a,X)` through the pointer at `a + X` in bank zero,
/// wrapping within it, staying in the program bank.
pub proof fn lemma_indirect_jump_targets<B: Bus>(addr: u16, r: Regs, m: B::Mem)
    ensures
        ({
            let pb: u8 = if r.e { 0 } else { r.pbr };
            let a = addr as int;
            let p = (a + r.x) % 0x10000;
            let ind = mode_jump_spec::<B>(Mode::AbsoluteIndirectJump(addr), r, m);
            let long = mode_jump_spec::<B>(Mode::AbsoluteIndirectLongJump(addr), r, m);
            let idx = mode_jump_spec::<B>(Mode::AbsoluteIndexedIndirectJump(addr), r, m);
            &&& ind.bank == pb
            &&& ind.addr == B::peek(m, a) as int + 0x100 * B::peek(m, a + 1) as int
            &&& long.bank == B::peek(m, (a + 2) % 0x10000)
            &&& long.addr == B::peek(m, a) as int + 0x100 * B::peek(m, (a + 1) % 0x10000) as int
            &&& idx.bank == pb
            &&& idx.addr == B::peek(m, p) as int + 0x100 * B::peek(m, (p + 1) % 0x10000) as int
        }),
{
    let a = addr as int;
    let p = (a + r.x) % 0x10000;
    assert(a / 0x10000 == 0);
    assert(p / 0x10000 == 0);
    assert(wrap_add(addr_of(0, addr), r.x as int, AddrWrap::Word) == p);
    assert(crate::cpu::w65c816::bus::addr_inc(p, AddrWrap::Word) == (p + 1) % 0x10000);
    assert(crate::cpu::w65c816::bus::addr_inc(a, AddrWrap::Long) == a + 1);
}

/// The registers, bus state and cycles of a write of the low byte of `val` through a mode.
pub open spec fn mode_write_byte_spec<B: Bus>(mode: Mode, r: Regs, m: B::Mem, val: u8) -> (Regs, B::Mem, ModeWrite) {
    match mode {
        Mode::Absolute(addr) => (r, B::poke(m, addr_of(eff_dbr(r), addr), val), ModeWrite { cycles: 2 }),
        Mode::AbsoluteIndexedX(addr) => (
            r,
            B::poke(m, wrap_add(addr_of(eff_dbr(r), addr), r.x as int, AddrWrap::Long), val),
            ModeWrite { cycles: 2 },
        ),
        Mode::Accumulator => (with_al(r, val), m, ModeWrite { cycles: 0 }),
        Mode::Direct(dir) => (r, B::poke(m, direct_addr_of(r, dir, 0), val), ModeWrite { cycles: 2 }),
        Mode::DirectIndexedX(dir) => (r, B::poke(m, direct_addr_of(r, dir, r.x), val), ModeWrite { cycles: 2 }),
        _ => (r, m, ModeWrite { cycles: 0 }),
    }
}

/// The registers, bus state and cycles of a write of the word `val` through a mode.
pub open spec fn mode_write_word_spec<B: Bus>(mode: Mode, r: Regs, m: B::Mem, val: u16) -> (Regs, B::Mem, ModeWrite) {
    match mode {
        Mode::Absolute(addr) => (
            r,
            word_poked::<B>(m, addr_of(eff_dbr(r), addr), AddrWrap::Long, val),
            ModeWrite { cycles: 3 },
        ),
        Mode::AbsoluteIndexedX(addr) => (
            r,
            word_poked::<B>(m, wrap_add(addr_of(eff_dbr(r), addr), r.x as int, AddrWrap::Long), AddrWrap::Long, val),
            ModeWrite { cycles: 3 },
        ),
        Mode::Accumulator => (Regs { a: val, ..r }, m, ModeWrite { cycles: 0 }),
        Mode::Direct(dir) => (
            r,
            word_poked::<B>(m, direct_addr_of(r, dir, 0), direct_wrap(r), val),
            ModeWrite { cycles: 3 },
        ),
        Mode::DirectIndexedX(dir) => (
            r,
            word_poked::<B>(m, direct_addr_of(r, dir, r.x), direct_wrap(r), val),
            ModeWrite { cycles: 3 },
        ),
        _ => (r, m, ModeWrite { cycles: 0 }),
    }
}

/// A write of `val` through a mode: only its low byte when the accumulator is 8-bit wide.
pub open spec fn mode_write_spec<B: Bus>(mode: Mode, r: Regs, m: B::Mem, val: u16) -> (Regs, B::Mem, ModeWrite) {
    if accum_byte(r) {
        mode_write_byte_spec::<B>(mode, r, m, low_byte(val))
    } else {
        mode_write_word_spec::<B>(mode, r, m, val)
    }
}

/// A byte and a word written at a place of the plain memory bus read back there.
proof fn lemma_fake_place(m: Seq<u8>, a: int, wrap: AddrWrap, val: u16)
    requires
        m.len() == 0x1000000,
        0 <= a < 0x1000000,
    ensures
        low_byte(word_in::<Fake>(Fake::poke(m, a, low_byte(val)), a, wrap)) == low_byte(val),
        word_in::<Fake>(word_poked::<Fake>(m, a, wrap, val), a, wrap) == val,
{
    let m1 = Fake::poke(m, a, low_byte(val));
    lemma_fake_read_after_write(m, a, low_byte(val), a);
    lemma_bytes_of_word(low_byte(val), Fake::peek(m1, crate::cpu::w65c816::bus::addr_inc(a, wrap)));
    lemma_fake_word_round_trip(m, a, wrap, val);
}

/// What a write then a read through `mode` give back, as the law below states it.
spec fn reads_back(mode: Mode, r: Regs, m: Seq<u8>, val: u16) -> bool {
    let (r2, m2, _w) = mode_write_spec::<Fake>(mode, r, m, val);
    let rd = mode_read_spec::<Fake>(mode, r2, m2);
    if accum_byte(r) {
        low_byte(rd.val) == low_byte(val)
    } else {
        rd.val == val
    }
}

/// The write-then-read law for a mode that designates a place of memory, from where it writes.
proof fn lemma_place_reads_back(mode: Mode, r: Regs, m: Seq<u8>, val: u16, a: int, wrap: AddrWrap)
    requires
        m.len() == 0x1000000,
        0 <= a < 0x1000000,
        mode_write_spec::<Fake>(mode, r, m, val).0 == r,
        mode_write_spec::<Fake>(mode, r, m, val).1 == (if accum_byte(r) {
            Fake::poke(m, a, low_byte(val))
        } else {
            word_poked::<Fake>(m, a, wrap, val)
        }),
        forall|m2: Seq<u8>| #[trigger] mode_read_spec::<Fake>(mode, r, m2).val == word_in::<Fake>(m2, a, wrap),
    ensures
        reads_back(mode, r, m, val),
{
    let m2 = mode_write_spec::<Fake>(mode, r, m, val).1;
    assert(mode_read_spec::<Fake>(mode, r, m2).val == word_in::<Fake>(m2, a, wrap));
    lemma_fake_place(m, a, wrap, val);
}

/// A value written through a mode that designates a place reads back through that mode on the
/// plain memory bus: its low byte when the accumulator is 8-bit wide, all of it otherwise. The
/// registers that address the place do not change, so the read finds the same place.
pub proof fn lemma_fake_write_read(mode: Mode, r: Regs, m: Seq<u8>, val: u16)
    requires
        writable(mode),
        m.len() == 0x1000000,
    ensures
        ({
            let (r2, m2, _w) = mode_write_spec::<Fake>(mode, r, m, val);
            let rd = mode_read_spec::<Fake>(mode, r2, m2);
            if accum_byte(r) {
                low_byte(rd.val) == low_byte(val)
            } else {
                rd.val == val
            }
        }),
{
    let base = addr_of(0, r.dp);
    match mode {
        Mode::Absolute(addr) => {
            lemma_place_reads_back(mode, r, m, val, addr_of(eff_dbr(r), addr), AddrWrap::Long);
        },
        Mode::AbsoluteIndexedX(addr) => {
            let a = wrap_add(addr_of(eff_dbr(r), addr), r.x as int, AddrWrap::Long);
            lemma_wrap_add_bounds(addr_of(eff_dbr(r), addr), r.x as int);
            lemma_place_reads_back(mode, r, m, val, a, AddrWrap::Long);
        },
        Mode::Direct(dir) => {
            lemma_wrap_add_bounds(base, dir as int);
            lemma_wrap_add_bounds(wrap_add(base, dir as int, direct_wrap(r)), 0);
            lemma_place_reads_back(mode, r, m, val, direct_addr_of(r, dir, 0), direct_wrap(r));
        },
        Mode::DirectIndexedX(dir) => {
            lemma_wrap_add_bounds(base, dir as int);
            lemma_wrap_add_bounds(wrap_add(base, dir as int, direct_wrap(r)), r.x as int % 0x100);
            lemma_place_reads_back(mode, r, m, val, direct_addr_of(r, dir, r.x), direct_wrap(r));
        },
        _ => {
            lemma_bytes_of_word(low_byte(val), high_byte(r.a));
        },
    }
    assert(reads_back(mode, r, m, val));
}

/// Where a jump through a mode goes.
pub open spec fn mode_jump_spec<B: Bus>(mode: Mode, r: Regs, m: B::Mem) -> ModeJump {
    match mode {
        Mode::AbsoluteJump(addr) => ModeJump {
            bank: eff_pbr(r),
            addr,
            jmp_cycles: 3,
            jsr_cycles: 6,
            prog_bytes: 3,
        },
        Mode::AbsoluteLongJump(bank, addr) => ModeJump {
            bank,
            addr,
            jmp_cycles: 4,
            jsr_cycles: 8,
            prog_bytes: 4,
        },
        Mode::AbsoluteIndirectJump(addr) => ModeJump {
            bank: eff_pbr(r),
            addr: word_in::<B>(m, addr_of(0, addr), AddrWrap::Long),
            jmp_cycles: 5,
            jsr_cycles: 0,
            prog_bytes: 3,
        },
        Mode::AbsoluteIndirectLongJump(addr) => ModeJump {
            bank: B::peek(m, wrap_add(addr_of(0, addr), 2, AddrWrap::Word)),
            addr: word_in::<B>(m, addr_of(0, addr), AddrWrap::Word),
            jmp_cycles: 6,
            jsr_cycles: 0,
            prog_bytes: 3,
        },
        Mode::AbsoluteIndexedIndirectJump(addr) => ModeJump {
            bank: eff_pbr(r),
            addr: word_in::<B>(m, wrap_add(addr_of(0, addr), r.x as int, AddrWrap::Word), AddrWrap::Word),
            jmp_cycles: 6,
            jsr_cycles: 8,
            prog_bytes: 3,
        },
        _ => ModeJump { bank: 0, addr: 0, jmp_cycles: 0, jsr_cycles: 0, prog_bytes: 0 },
    }
}

impl Mode {
    /// Reads the value this mode designates.
    pub fn read<B: Bus>(self, cpu: &CPU, bus: &B) -> (r: ModeRead)
        requires
            readable(self),
        ensures
            r == mode_read_spec::<B>(self, cpu@.regs, bus.mem()),
    {
        match self {
            Mode::Absolute(addr) => ModeRead {
                val: bus.read_word(Addr::from(cpu.regs.dbr(), addr), AddrWrap::Long),
                cycles: 4 + Self::op16(cpu),
                prog_bytes: 3,
            },
            Mode::AbsoluteIndexedX(addr) => {
                let ptr1 = Addr::from(cpu.regs.dbr(), addr);
                let ptr2 = ptr1.wrapping_add(cpu.regs.x(), AddrWrap::Long);
                ModeRead {
                    val: bus.read_word(ptr2, AddrWrap::Long),
                    cycles: 4 + Self::op16(cpu) + Self::addr_page_crossed(cpu, ptr1, ptr2),
                    prog_bytes: 3,
                }
            },
            Mode::AbsoluteIndexedY(addr) => {
                let ptr1 = Addr::from(cpu.regs.dbr(), addr);
                let ptr2 = ptr1.wrapping_add(cpu.regs.y(), AddrWrap::Long);
                ModeRead {
                    val: bus.read_word(ptr2, AddrWrap::Long),
                    cycles: 4 + Self::op16(cpu) + Self::addr_page_crossed(cpu, ptr1, ptr2),
                    prog_bytes: 3,
                }
            },
            Mode::AbsoluteLong(bank, offset) => ModeRead {
                val: bus.read_word(Addr::from(bank, offset), AddrWrap::Long),
                cycles: 5 + Self::op16(cpu),
                prog_bytes: 4,
            },
            Mode::AbsoluteLongIndexed(bank, offset) => {
                let addr = Addr::from(bank, offset).wrapping_add(cpu.regs.x(), AddrWrap::Long);
                ModeRead {
                    val: bus.read_word(addr, AddrWrap::Long),
                    cycles: 5 + Self::op16(cpu),
                    prog_bytes: 4,
                }
            },
            Mode::Accumulator => ModeRead { val: cpu.regs.a(), cycles: 2, prog_bytes: 1 },
            Mode::Direct(dir) => ModeRead {
                val: cpu.read_direct_word(bus, dir, 0),
                cycles: 3 + Self::op16(cpu) + Self::dl0(cpu),
                prog_bytes: 2,
            },
            Mode::DirectIndexedX(dir) => ModeRead {
                val: cpu.read_direct_word(bus, dir, cpu.regs.x()),
                cycles: 4 + Self::op16(cpu) + Self::dl0(cpu),
                prog_bytes: 2,
            },
            Mode::DirectIndexedY(dir) => ModeRead {
                val: cpu.read_direct_word(bus, dir, cpu.regs.y()),
                cycles: 4 + Self::op16(cpu) + Self::dl0(cpu),
                prog_bytes: 2,
            },
            Mode::DirectIndexedIndirect(dir) => ModeRead {
                val: bus.read_word(cpu.read_direct_ptr(bus, dir, cpu.regs.x()), AddrWrap::Long),
                cycles: 6 + Self::op16(cpu) + Self::dl0(cpu),
                prog_bytes: 2,
            },
            Mode::DirectIndirect(dir) => ModeRead {
                val: bus.read_word(cpu.read_direct_ptr(bus, dir, 0), AddrWrap::Long),
                cycles: 5 + Self::op16(cpu) + Self::dl0(cpu),
                prog_bytes: 2,
            },
            Mode::DirectIndirectIndexed(dir) => {
                let ptr1 = cpu.read_direct_ptr(bus, dir, 0);
                let ptr2 = ptr1.wrapping_add(cpu.regs.y(), AddrWrap::Long);

                ModeRead {
                    val: bus.read_word(ptr2, AddrWrap::Long),
                    cycles: 5 + Self::op16(cpu) + Self::dl0(cpu) + Self::addr_page_crossed(cpu, ptr1, ptr2),
                    prog_bytes: 2,
                }
            },
            Mode::DirectIndirectLong(offset) => {
                let addr = cpu.read_direct_ptr_long(bus, offset, 0);
                ModeRead {
                    val: bus.read_word(addr, AddrWrap::Long),
                    cycles: 6 + Self::op16(cpu) + Self::dl0(cpu),
                    prog_bytes: 2,
                }
            },
            Mode::DirectIndirectLongIndexed(offset) => {
                let addr = cpu.read_direct_ptr_long(bus, offset, 0).wrapping_add(cpu.regs.y(), AddrWrap::Word);
                ModeRead {
                    val: bus.read_word(addr, AddrWrap::Long),
                    cycles: 6 + Self::op16(cpu) + Self::dl0(cpu),
                    prog_bytes: 2,
                }
            },
            Mode::Immediate(value) => ModeRead {
                val: value,
                cycles: 2 + Self::op16(cpu),
                prog_bytes: 2 + Self::op16(cpu) as u16,
            },
            Mode::StackRelative(offset) => ModeRead {
                val: cpu.read_stack_word(bus, offset as u16),
                cycles: 4 + Self::op16(cpu),
                prog_bytes: 2,
            },
            Mode::StackRelativeIndirectIndexed(offset) => {
                let addr = Addr::from(cpu.regs.dbr(), cpu.read_stack_word(bus, offset as u16));
                let ptr = addr.wrapping_add(cpu.regs.y(), AddrWrap::Word);
                ModeRead {
                    val: bus.read_word(ptr, AddrWrap::Long),
                    cycles: 7 + Self::op16(cpu),
                    prog_bytes: 2,
                }
            },
            _ => ModeRead { val: 0, cycles: 0, prog_bytes: 0 },
        }
    }

    /// Writes `val` where this mode designates: its low byte only when the accumulator is 8-bit
    /// wide.
    pub fn write<B: Bus>(self, cpu: &mut CPU, bus: &mut B, val: u16) -> (r: ModeWrite)
        requires
            writable(self),
        ensures
            (final(cpu)@.regs, final(bus).mem(), r) == mode_write_spec::<B>(self, old(cpu)@.regs, old(bus).mem(), val),
            final(cpu)@.cycles == old(cpu)@.cycles,
    {
        if cpu.regs.accum_is_byte() {
            self.write_byte(cpu, bus, low(val))
        } else {
            self.write_word(cpu, bus, val)
        }
    }

    /// Where a jump through this mode goes.
    pub fn jump<B: Bus>(self, cpu: &CPU, bus: &B) -> (r: ModeJump)
        requires
            jumpable(self),
        ensures
            r == mode_jump_spec::<B>(self, cpu@.regs, bus.mem()),
    {
        match self {
            Mode::AbsoluteJump(addr) => {
                ModeJump { bank: cpu.regs.pbr(), addr, jmp_cycles: 3, jsr_cycles: 6, prog_bytes: 3 }
            },
            Mode::AbsoluteLongJump(bank, addr) => {
                ModeJump { bank, addr, jmp_cycles: 4, jsr_cycles: 8, prog_bytes: 4 }
            },
            Mode::AbsoluteIndirectJump(addr) => {
                ModeJump {
                    bank: cpu.regs.pbr(),
                    addr: bus.read_word(Addr::from(0, addr), AddrWrap::Long),
                    jmp_cycles: 5,
                    jsr_cycles: 0,  // not used
                    prog_bytes: 3,
                }
            },
            Mode::AbsoluteIndirectLongJump(addr) => {
                let indir = Addr::from(0, addr);
                ModeJump {
                    bank: bus.read_byte(indir.wrapping_add(2usize, AddrWrap::Word)),
                    addr: bus.read_word(indir, AddrWrap::Word),
                    jmp_cycles: 6,
                    jsr_cycles: 0,  // not used
                    prog_bytes: 3,
                }
            },
            Mode::AbsoluteIndexedIndirectJump(addr) => {
                let indir = Addr::from(0, addr).wrapping_add(cpu.regs.x(), AddrWrap::Word);
                ModeJump {
                    bank: cpu.regs.pbr(),
                    addr: bus.read_word(indir, AddrWrap::Word),
                    jmp_cycles: 6,
                    jsr_cycles: 8,
                    prog_bytes: 3,
                }
            },
            _ => ModeJump { bank: 0, addr: 0, jmp_cycles: 0, jsr_cycles: 0, prog_bytes: 0 },
        }
    }

    /// Writes a byte where this mode designates.
    fn write_byte<B: Bus>(self, cpu: &mut CPU, bus: &mut B, val: u8) -> (r: ModeWrite)
        requires
            writable(self),
        ensures
            (final(cpu)@.regs, final(bus).mem(), r) == mode_write_byte_spec::<B>(self, old(cpu)@.regs, old(bus).mem(), val),
            final(cpu)@.cycles == old(cpu)@.cycles,
    {
        match self {
            Mode::Absolute(addr) => {
                bus.write_byte(Addr::from(cpu.regs.dbr(), addr), val);
                ModeWrite { cycles: 2 }
            },
            Mode::AbsoluteIndexedX(addr) => {
                bus.write_byte(Addr::from(cpu.regs.dbr(), addr).wrapping_add(cpu.regs.x(), AddrWrap::Long), val);
                ModeWrite { cycles: 2 }
            },
            Mode::Accumulator => {
                cpu.regs.al_set(val);
                ModeWrite { cycles: 0 }
            },
            Mode::Direct(dir) => {
                cpu.write_direct_byte(bus, dir, 0, val);
                ModeWrite { cycles: 2 }
            },
            Mode::DirectIndexedX(dir) => {
                let x = cpu.regs.x();
                cpu.write_direct_byte(bus, dir, x, val);
                ModeWrite { cycles: 2 }
            },
            _ => ModeWrite { cycles: 0 },
        }
    }

    /// Writes a word where this mode designates.
    fn write_word<B: Bus>(self, cpu: &mut CPU, bus: &mut B, val: u16) -> (r: ModeWrite)
        requires
            writable(self),
        ensures
            (final(cpu)@.regs, final(bus).mem(), r) == mode_write_word_spec::<B>(self, old(cpu)@.regs, old(bus).mem(), val),
            final(cpu)@.cycles == old(cpu)@.cycles,
    {
        match self {
            Mode::Absolute(addr) => {
                bus.write_word(Addr::from(cpu.regs.dbr(), addr), AddrWrap::Long, val);
                ModeWrite { cycles: 3 }
            },
            Mode::AbsoluteIndexedX(addr) => {
                bus.write_word(
                    Addr::from(cpu.regs.dbr(), addr).wrapping_add(cpu.regs.x(), AddrWrap::Long),
                    AddrWrap::Long,
                    val,
                );
                ModeWrite { cycles: 3 }
            },
            Mode::Accumulator => {
                cpu.regs.a_set(val);
                ModeWrite { cycles: 0 }
            },
            Mode::Direct(dir) => {
                cpu.write_direct_word(bus, dir, 0, val);
                ModeWrite { cycles: 3 }
            },
            Mode::DirectIndexedX(dir) => {
                let x = cpu.regs.x();
                cpu.write_direct_word(bus, dir, x, val);
                ModeWrite { cycles: 3 }
            },
            _ => ModeWrite { cycles: 0 },
        }
    }

    /// One more cycle when the accumulator is 16-bit wide.
    fn op16(cpu: &CPU) -> (r: u64)
        ensures
            r == op16(cpu@.regs),
    {
        if cpu.regs.status_flag_is_clear(Flag::M) { 1 } else { 0 }
    }

    /// One more cycle when the direct page is not page aligned.
    fn dl0(cpu: &CPU) -> (r: u64)
        ensures
            r == dl0(cpu@.regs),
    {
        if cpu.regs.dl() != 0 { 1 } else { 0 }
    }

    /// One more cycle when indexing crosses a page, or when the index registers are 16-bit wide.
    fn addr_page_crossed(cpu: &CPU, ptr1: Addr, ptr2: Addr) -> (r: u64)
        ensures
            r == page_crossed(cpu@.regs, ptr1@, ptr2@),
    {
        if !ptr1.same_page(ptr2) || cpu.regs.status_flag_is_clear(Flag::X) {
            1
        } else {
            0
        }
    }
}

/// The text of a mode's operand, as the assembler writes it.
pub open spec fn mode_text(mode: Mode) -> Seq<char> {
    match mode {
        Mode::Accumulator => Seq::empty(),
        Mode::Absolute(addr) => seq!['$'] + hex4(addr),
        Mode::AbsoluteJump(addr) => seq!['$'] + hex4(addr),
        Mode::AbsoluteIndirectJump(addr) => seq!['(', '$'] + hex4(addr) + seq![')'],
        Mode::AbsoluteIndirectLongJump(addr) => seq!['[', '$'] + hex4(addr) + seq![']'],
        Mode::AbsoluteIndexedIndirectJump(addr) => seq!['(', '$'] + hex4(addr) + seq![',', 'X', ')'],
        Mode::AbsoluteLongJump(bank, addr) => seq!['$'] + hex2(bank) + hex4(addr),
        Mode::AbsoluteIndexedX(addr) => seq!['$'] + hex4(addr) + seq![',', 'X'],
        Mode::AbsoluteIndexedY(addr) => seq!['$'] + hex4(addr) + seq![',', 'Y'],
        Mode::AbsoluteLong(bank, addr) => seq!['$'] + hex2(bank) + hex4(addr),
        Mode::AbsoluteLongIndexed(bank, addr) => seq!['$'] + hex2(bank) + hex4(addr) + seq![',', 'X'],
        Mode::Direct(dir) => seq!['$'] + hex2(dir),
        Mode::DirectIndirect(dir) => seq!['(', '$'] + hex2(dir) + seq![')'],
        Mode::DirectIndexedIndirect(dir) => seq!['(', '$'] + hex2(dir) + seq![',', 'X', ')'],
        Mode::DirectIndexedX(dir) => seq!['$'] + hex2(dir) + seq![',', 'X'],
        Mode::DirectIndexedY(dir) => seq!['$'] + hex2(dir) + seq![',', 'Y'],
        Mode::DirectIndirectIndexed(dir) => seq!['(', '$'] + hex2(dir) + seq![')', ',', 'Y'],
        Mode::DirectIndirectLong(dir) => seq!['[', '$'] + hex2(dir) + seq![']'],
        Mode::DirectIndirectLongIndexed(dir) => seq!['[', '$'] + hex2(dir) + seq![']', ',', 'Y'],
        Mode::Immediate(value) => seq!['#', '$'] + hex4(value),
        Mode::StackRelative(dir) => seq!['$'] + hex2(dir) + seq![',', 'S'],
        Mode::StackRelativeIndirectIndexed(dir) => seq!['(', '$'] + hex2(dir) + seq![',', 'S', ')', ',', 'Y'],
    }
}

impl Mode {
    /// The text of this mode's operand, as the assembler writes it.
    pub fn to_string(&self) -> (r: String)
        ensures
            r@ == mode_text(*self),
    {
        proof {
        reveal_strlit("#$");
        reveal_strlit("$");
        reveal_strlit("($");
        reveal_strlit(")");
        reveal_strlit("),Y");
        reveal_strlit(",S");
        reveal_strlit(",S),Y");
        reveal_strlit(",X");
        reveal_strlit(",X)");
        reveal_strlit(",Y");
        reveal_strlit("[$");
        reveal_strlit("]");
        reveal_strlit("],Y");
        }
        let mut s = String::new();
        match *self {
        Mode::Accumulator => {

        },
        Mode::Absolute(addr) => {
            s.append("$");
            append_hex4(&mut s, addr);
        },
        Mode::AbsoluteJump(addr) => {
            s.append("$");
            append_hex4(&mut s, addr);
        },
        Mode::AbsoluteIndirectJump(addr) => {
            s.append("($");
            append_hex4(&mut s, addr);
            s.append(")");
        },
        Mode::AbsoluteIndirectLongJump(addr) => {
            s.append("[$");
            append_hex4(&mut s, addr);
            s.append("]");
        },
        Mode::AbsoluteIndexedIndirectJump(addr) => {
            s.append("($");
            append_hex4(&mut s, addr);
            s.append(",X)");
        },
        Mode::AbsoluteLongJump(bank, addr) => {
            s.append("$");
            append_hex2(&mut s, bank);
            append_hex4(&mut s, addr);
        },
        Mode::AbsoluteIndexedX(addr) => {
            s.append("$");
            append_hex4(&mut s, addr);
            s.append(",X");
        },
        Mode::AbsoluteIndexedY(addr) => {
            s.append("$");
            append_hex4(&mut s, addr);
            s.append(",Y");
        },
        Mode::AbsoluteLong(bank, addr) => {
            s.append("$");
            append_hex2(&mut s, bank);
            append_hex4(&mut s, addr);
        },
        Mode::AbsoluteLongIndexed(bank, addr) => {
            s.append("$");
            append_hex2(&mut s, bank);
            append_hex4(&mut s, addr);
            s.append(",X");
        },
        Mode::Direct(dir) => {
            s.append("$");
            append_hex2(&mut s, dir);
        },
        Mode::DirectIndirect(dir) => {
            s.append("($");
            append_hex2(&mut s, dir);
            s.append(")");
        },
        Mode::DirectIndexedIndirect(dir) => {
            s.append("($");
            append_hex2(&mut s, dir);
            s.append(",X)");
        },
        Mode::DirectIndexedX(dir) => {
            s.append("$");
            append_hex2(&mut s, dir);
            s.append(",X");
        },
        Mode::DirectIndexedY(dir) => {
            s.append("$");
            append_hex2(&mut s, dir);
            s.append(",Y");
        },
        Mode::DirectIndirectIndexed(dir) => {
            s.append("($");
            append_hex2(&mut s, dir);
            s.append("),Y");
        },
        Mode::DirectIndirectLong(dir) => {
            s.append("[$");
            append_hex2(&mut s, dir);
            s.append("]");
        },
        Mode::DirectIndirectLongIndexed(dir) => {
            s.append("[$");
            append_hex2(&mut s, dir);
            s.append("],Y");
        },
        Mode::Immediate(value) => {
            s.append("#$");
            append_hex4(&mut s, value);
        },
        Mode::StackRelative(dir) => {
            s.append("$");
            append_hex2(&mut s, dir);
            s.append(",S");
        },
        Mode::StackRelativeIndirectIndexed(dir) => {
            s.append("($");
            append_hex2(&mut s, dir);
            s.append(",S),Y");
        },
        }
        s
    }
}

} // verus!
