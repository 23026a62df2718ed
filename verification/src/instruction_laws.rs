//! What the individual instructions do, stated over the registers, the flags
//! and memory before and after, and how the fetch/execute loop routes each
//! opcode.

use vstd::prelude::*;

use crate::display::{layer_pixel, TileMapAddressingMode};
use crate::dmg::{read_implemented, word, wrap16, wrap8, DmgError, DmgState};
use crate::flags::{has_flag, with_flag, Flag};
use crate::laws::{lemma_flag_set_get, lemma_read_after_write};

verus! {

/// Setting one flag changes only that flag.
pub proof fn lemma_with_flag(bits: u8, f: Flag, v: bool)
    ensures
        forall|g: Flag|
            #[trigger] has_flag(with_flag(bits, f, v), g) == if g == f {
                v
            } else {
                has_flag(bits, g)
            },
{
    assert forall|g: Flag| #[trigger]
        has_flag(with_flag(bits, f, v), g) == if g == f {
            v
        } else {
            has_flag(bits, g)
        } by {
        lemma_flag_set_get(bits, f, g, v);
    }
}

/// Storing into an 8-bit operand that could be read, then changing the
/// flags, leaves the operand reading as the value stored.
proof fn lemma_store_then_read(s: DmgState, r: u8, v: u8, bits: u8)
    requires
        s.wf(),
        s.r8(r) is Some,
        s.set_r8(r, v) matches Some((_, Ok(()))),
    ensures
        s.set_r8(r, v).unwrap().0.with_flags(bits).r8(r) == Some(Ok::<u8, DmgError>(v)),
{
    if r == 6 {
        lemma_read_after_write(s, s.hl(), v);
    }
}

/// The state after fetching the opcode at the program counter.
pub open spec fn after_fetch(s: DmgState) -> DmgState {
    s.with_pc(wrap16(s.rf.pc + 1))
}

/// A round of the loop without a pending prefix that fetches an opcode other
/// than STOP and the prefix runs that opcode's entry of the unprefixed table
/// with the program counter past the opcode.
pub proof fn lemma_step_runs_unprefixed(s: DmgState, op: u8)
    requires
        !s.cb_prefix,
        s.read(s.rf.pc) == Some(Ok::<u8, DmgError>(op)),
        op != 0x10,
        op != 0xcb,
    ensures
        s.step() == match after_fetch(s).dispatch(op) {
            None => None,
            Some((t, Err(e))) => Some((t, Err(e))),
            Some((t, Ok(()))) => Some((t, Ok::<bool, DmgError>(false))),
        },
{
    reveal(DmgState::step);
}

/// The unprefixed table sends every DEC r8 opcode to the decrement.
proof fn lemma_dispatch_dec(s: DmgState, op: u8)
    requires
        op < 0x40,
        op % 8 == 5,
    ensures
        s.dispatch(op) == s.dec_r8(op),
{
    reveal(DmgState::dispatch);
    assert(op == 0x05 || op == 0x0d || op == 0x15 || op == 0x1d || op == 0x25 || op == 0x2d
        || op == 0x35 || op == 0x3d);
}

/// The unprefixed table sends the INC r8 opcodes it has a handler for to the
/// increment, and has none for the others of the column.
proof fn lemma_dispatch_inc(s: DmgState, op: u8)
    requires
        op < 0x40,
        op % 8 == 4,
    ensures
        s.dispatch(op) == s.inc_r8(op) || s.dispatch(op) is None,
{
    reveal(DmgState::dispatch);
    assert(op == 0x04 || op == 0x0c || op == 0x14 || op == 0x1c || op == 0x24 || op == 0x2c
        || op == 0x34 || op == 0x3c);
}

/// DEC r8, when it succeeds, leaves its operand one less than before,
/// wrapping from 0 to 0xFF.
pub proof fn lemma_dec_r8_value(s: DmgState, op: u8, n: u8)
    requires
        s.wf(),
        s.r8(op / 8) == Some(Ok::<u8, DmgError>(n)),
        s.dec_r8(op) matches Some((_, Ok(()))),
    ensures
        s.dec_r8(op).unwrap().0.r8(op / 8) == Some(Ok::<u8, DmgError>(((n + 255) % 256) as u8)),
{
    let m = wrap8(n - 1);
    assert(m == ((n + 255) % 256) as u8) by {
        if n == 0 {
            assert((n - 1) % 256 == 255);
        } else {
            assert((n - 1) % 256 == n - 1);
            assert((n + 255) % 256 == n - 1);
        }
    }
    lemma_store_then_read(s, op / 8, m, s.dec_r8(op).unwrap().0.flags());
}

/// INC r8, when it succeeds, leaves its operand one more than before,
/// wrapping from 0xFF to 0.
pub proof fn lemma_inc_r8_value(s: DmgState, op: u8, n: u8)
    requires
        s.wf(),
        s.r8(op / 8) == Some(Ok::<u8, DmgError>(n)),
        s.inc_r8(op) matches Some((_, Ok(()))),
    ensures
        s.inc_r8(op).unwrap().0.r8(op / 8) == Some(Ok::<u8, DmgError>(((n + 1) % 256) as u8)),
{
    lemma_store_then_read(s, op / 8, wrap8(n + 1), s.inc_r8(op).unwrap().0.flags());
}

/// A round of the loop that fetches one of the DEC r8 opcodes (0x05, 0x0D,
/// 0x15, 0x1D, 0x25, 0x2D, 0x35, 0x3D) and succeeds leaves the operand it
/// names (bits 3..5: B, C, D, E, H, L, (HL), A) one less than before,
/// wrapping from 0 to 0xFF.
pub proof fn lemma_step_decrements(s: DmgState, op: u8, n: u8)
    requires
        s.wf(),
        !s.cb_prefix,
        s.read(s.rf.pc) == Some(Ok::<u8, DmgError>(op)),
        op < 0x40,
        op % 8 == 5,
        s.r8(op / 8) == Some(Ok::<u8, DmgError>(n)),
        s.step() matches Some((_, Ok(_))),
    ensures
        s.step().unwrap().0.r8(op / 8) == Some(Ok::<u8, DmgError>(((n + 255) % 256) as u8)),
{
    let s1 = after_fetch(s);
    lemma_step_runs_unprefixed(s, op);
    lemma_dispatch_dec(s1, op);
    assert(s1.r8(op / 8) == s.r8(op / 8));
    lemma_dec_r8_value(s1, op, n);
}

/// A round of the loop that fetches one of the INC r8 opcodes (0x04, 0x0C,
/// 0x14, 0x24, 0x34; the others of the column have no handler) and succeeds
/// leaves the operand it names one more than before, wrapping from 0xFF to 0.
pub proof fn lemma_step_increments(s: DmgState, op: u8, n: u8)
    requires
        s.wf(),
        !s.cb_prefix,
        s.read(s.rf.pc) == Some(Ok::<u8, DmgError>(op)),
        op < 0x40,
        op % 8 == 4,
        s.r8(op / 8) == Some(Ok::<u8, DmgError>(n)),
        s.step() matches Some((_, Ok(_))),
    ensures
        s.step().unwrap().0.r8(op / 8) == Some(Ok::<u8, DmgError>(((n + 1) % 256) as u8)),
{
    let s1 = after_fetch(s);
    lemma_step_runs_unprefixed(s, op);
    lemma_dispatch_inc(s1, op);
    assert(s1.r8(op / 8) == s.r8(op / 8));
    lemma_inc_r8_value(s1, op, n);
}

/// The gray level of the pixel at column `8 * t + x` (`x = 0` leftmost) of
/// line `row` of a layer: the tile map entry `t` of the line's tile row
/// names a tile (16 bytes each, from offset 0 of video RAM, or 0x1000 in
/// signed mode); line `row % 8` of that tile is two bytes, and the pixel's
/// color number has bit `7 - x` of the first byte as its low bit and bit
/// `7 - x` of the second as its high bit; colors 0, 1, 2, 3 are drawn as
/// 0xFF, 0x6E, 0xB0, 0x00.
pub proof fn lemma_layer_pixel_bits(
    vram: Seq<u8>,
    map_start: int,
    mode: TileMapAddressingMode,
    row: int,
    t: int,
    x: int,
)
    requires
        row >= 0,
        0 <= t < 32,
        0 <= x < 8,
    ensures
        ({
            let index = vram[map_start + (row / 8) * 32 + t];
            let start = (if mode == TileMapAddressingMode::Signed {
                0x1000int
            } else {
                0int
            }) + index * 16;
            let lsb = vram[start + (row % 8) * 2];
            let msb = vram[start + (row % 8) * 2 + 1];
            let lo = (lsb >> ((7 - x) as u8)) & 1;
            let hi = (msb >> ((7 - x) as u8)) & 1;
            layer_pixel(vram, map_start, mode, row, 8 * t + x) == if hi == 0 {
                if lo == 0 {
                    0xffu8
                } else {
                    0x6eu8
                }
            } else {
                if lo == 0 {
                    0xb0u8
                } else {
                    0x00u8
                }
            }
        }),
{
    assert((8 * t + x) / 8 == t && (8 * t + x) % 8 == x);
    let index = vram[map_start + (row / 8) * 32 + t];
    let start = (if mode == TileMapAddressingMode::Signed { 0x1000int } else { 0int }) + index * 16;
    let lsb = vram[start + (row % 8) * 2];
    let msb = vram[start + (row % 8) * 2 + 1];
    crate::bitops::lemma_low_bit(lsb >> ((7 - x) as u8));
    crate::bitops::lemma_low_bit(msb >> ((7 - x) as u8));
}

/// Four flag updates in a row: each flag ends with the last value given to
/// it, the others and the four low bits keep theirs.
pub proof fn lemma_flag_updates(
    b: u8,
    f1: Flag,
    v1: bool,
    f2: Flag,
    v2: bool,
    f3: Flag,
    v3: bool,
    f4: Flag,
    v4: bool,
)
    ensures
        forall|g: Flag|
            #[trigger] has_flag(
                with_flag(with_flag(with_flag(with_flag(b, f1, v1), f2, v2), f3, v3), f4, v4),
                g,
            ) == if g == f4 {
                v4
            } else if g == f3 {
                v3
            } else if g == f2 {
                v2
            } else if g == f1 {
                v1
            } else {
                has_flag(b, g)
            },
        with_flag(with_flag(with_flag(with_flag(b, f1, v1), f2, v2), f3, v3), f4, v4) & 0x0f == b
            & 0x0f,
{
    let b1 = with_flag(b, f1, v1);
    let b2 = with_flag(b1, f2, v2);
    let b3 = with_flag(b2, f3, v3);
    lemma_with_flag(b, f1, v1);
    lemma_with_flag(b1, f2, v2);
    lemma_with_flag(b2, f3, v3);
    lemma_with_flag(b3, f4, v4);
    lemma_flag_set_get(b, f1, f1, v1);
    lemma_flag_set_get(b1, f2, f2, v2);
    lemma_flag_set_get(b2, f3, f3, v3);
    lemma_flag_set_get(b3, f4, f4, v4);
}

/// Three flag updates in a row: each flag ends with the last value given to
/// it, the others and the four low bits keep theirs.
pub proof fn lemma_flag_updates3(b: u8, f1: Flag, v1: bool, f2: Flag, v2: bool, f3: Flag, v3: bool)
    ensures
        forall|g: Flag|
            #[trigger] has_flag(with_flag(with_flag(with_flag(b, f1, v1), f2, v2), f3, v3), g)
                == if g == f3 {
                v3
            } else if g == f2 {
                v2
            } else if g == f1 {
                v1
            } else {
                has_flag(b, g)
            },
        with_flag(with_flag(with_flag(b, f1, v1), f2, v2), f3, v3) & 0x0f == b & 0x0f,
{
    let b1 = with_flag(b, f1, v1);
    let b2 = with_flag(b1, f2, v2);
    lemma_with_flag(b, f1, v1);
    lemma_with_flag(b1, f2, v2);
    lemma_with_flag(b2, f3, v3);
    lemma_flag_set_get(b, f1, f1, v1);
    lemma_flag_set_get(b1, f2, f2, v2);
    lemma_flag_set_get(b2, f3, f3, v3);
}

/// `t` differs from `s` at most in A and F: the other registers and memory
/// are kept.
pub open spec fn only_a_and_f_changed(s: DmgState, t: DmgState) -> bool {
    &&& t.rf.b == s.rf.b && t.rf.c == s.rf.c && t.rf.d == s.rf.d && t.rf.e == s.rf.e
    &&& t.rf.h == s.rf.h && t.rf.l == s.rf.l && t.rf.sp == s.rf.sp && t.rf.pc == s.rf.pc
    &&& t.rf.ir == s.rf.ir && t.rf.ie == s.rf.ie
    &&& t.vram == s.vram && t.ram == s.ram && t.io == s.io && t.cb_prefix == s.cb_prefix
}

/// ADD A, r8 with operand value `v`: A becomes A + v modulo 256; Z tells
/// whether that is 0, N is clear, H tells whether the low nibbles carry out
/// of bit 3, C whether the sum carries out of bit 7. Nothing else changes.
pub proof fn lemma_add_a_r8_effect(s: DmgState, op: u8, v: u8)
    requires
        s.r8(op % 8) == Some(Ok::<u8, DmgError>(v)),
    ensures
        s.add_a_r8(op) matches Some((t, r)) && r is Ok && {
            let a = s.rf.a;
            &&& t.rf.a == (a + v) % 256
            &&& has_flag(t.flags(), Flag::Z) == ((a + v) % 256 == 0)
            &&& !has_flag(t.flags(), Flag::N)
            &&& has_flag(t.flags(), Flag::H) == (a % 16 + v % 16 > 15)
            &&& has_flag(t.flags(), Flag::C) == (a + v > 255)
            &&& t.flags() & 0x0f == s.flags() & 0x0f
            &&& only_a_and_f_changed(s, t)
        },
{
    let a = s.rf.a;
    let result = wrap8(a + v);
    lemma_flag_updates(
        s.flags(),
        Flag::Z,
        result == 0,
        Flag::N,
        false,
        Flag::H,
        a % 16 + v % 16 >= 16,
        Flag::C,
        a + v > 0xff,
    );
}

/// SUB A, r8 with operand value `v`: A becomes A - v modulo 256; Z tells
/// whether that is 0, N is set, H tells whether the low nibble of A is below
/// that of v (a borrow from bit 4), C whether A is below v. Nothing else
/// changes.
pub proof fn lemma_sub_a_r8_effect(s: DmgState, op: u8, v: u8)
    requires
        s.r8(op % 8) == Some(Ok::<u8, DmgError>(v)),
    ensures
        s.sub_a_r8(op) matches Some((t, r)) && r is Ok && {
            let a = s.rf.a;
            &&& t.rf.a == (a + 256 - v) % 256
            &&& has_flag(t.flags(), Flag::Z) == (a == v)
            &&& has_flag(t.flags(), Flag::N)
            &&& has_flag(t.flags(), Flag::H) == (a % 16 < v % 16)
            &&& has_flag(t.flags(), Flag::C) == (a < v)
            &&& t.flags() & 0x0f == s.flags() & 0x0f
            &&& only_a_and_f_changed(s, t)
        },
{
    let a = s.rf.a;
    let result = wrap8(a - v);
    assert(result == (a + 256 - v) % 256);
    lemma_flag_updates(
        s.flags(),
        Flag::Z,
        result == 0,
        Flag::N,
        true,
        Flag::H,
        a % 16 < v % 16,
        Flag::C,
        a < v,
    );
}

/// CP r8 with operand value `v`: A is kept; Z tells whether A equals v, N is
/// set, H tells whether the low nibble of A is below that of v, C whether A
/// is below v. Nothing else changes.
pub proof fn lemma_cp_a_r8_effect(s: DmgState, op: u8, v: u8)
    requires
        s.r8(op % 8) == Some(Ok::<u8, DmgError>(v)),
    ensures
        s.cp_a_r8(op) matches Some((t, r)) && r is Ok && {
            let a = s.rf.a;
            &&& t.rf.a == a
            &&& has_flag(t.flags(), Flag::Z) == (a == v)
            &&& has_flag(t.flags(), Flag::N)
            &&& has_flag(t.flags(), Flag::H) == (a % 16 < v % 16)
            &&& has_flag(t.flags(), Flag::C) == (a < v)
            &&& t.flags() & 0x0f == s.flags() & 0x0f
            &&& only_a_and_f_changed(s, t)
        },
{
    let a = s.rf.a;
    lemma_flag_updates(
        s.flags(),
        Flag::Z,
        a == v,
        Flag::N,
        true,
        Flag::H,
        a % 16 < v % 16,
        Flag::C,
        a < v,
    );
}

/// CP imm8 with the byte `n` after the opcode: the program counter moves
/// past it, A is kept; Z tells whether A equals n, N is set, H tells whether
/// the low nibble of A is below that of n, C whether A is below n. Nothing
/// else changes.
pub proof fn lemma_cp_a_imm8_effect(s: DmgState, n: u8)
    requires
        s.read(s.rf.pc) == Some(Ok::<u8, DmgError>(n)),
    ensures
        s.cp_a_imm8() matches Some((t, r)) && r is Ok && {
            let a = s.rf.a;
            &&& t.rf.a == a
            &&& t.rf.pc == (s.rf.pc + 1) % 0x10000
            &&& has_flag(t.flags(), Flag::Z) == (a == n)
            &&& has_flag(t.flags(), Flag::N)
            &&& has_flag(t.flags(), Flag::H) == (a % 16 < n % 16)
            &&& has_flag(t.flags(), Flag::C) == (a < n)
            &&& t.flags() & 0x0f == s.flags() & 0x0f
            &&& only_a_and_f_changed(after_fetch(s), t)
        },
{
    let a = s.rf.a;
    lemma_flag_updates(
        s.flags(),
        Flag::Z,
        a == n,
        Flag::N,
        true,
        Flag::H,
        a % 16 < n % 16,
        Flag::C,
        a < n,
    );
}

/// XOR r8 with operand value `v`: A becomes A ^ v; Z tells whether that is
/// 0; C, H and N are clear. Nothing else changes.
pub proof fn lemma_xor_a_r8_effect(s: DmgState, op: u8, v: u8)
    requires
        s.r8(op % 8) == Some(Ok::<u8, DmgError>(v)),
    ensures
        s.xor_a_r8(op) matches Some((t, r)) && r is Ok && {
            &&& t.rf.a == s.rf.a ^ v
            &&& has_flag(t.flags(), Flag::Z) == (s.rf.a ^ v == 0)
            &&& !has_flag(t.flags(), Flag::N)
            &&& !has_flag(t.flags(), Flag::H)
            &&& !has_flag(t.flags(), Flag::C)
            &&& t.flags() & 0x0f == s.flags() & 0x0f
            &&& only_a_and_f_changed(s, t)
        },
{
    lemma_flag_updates(
        s.flags(),
        Flag::C,
        false,
        Flag::H,
        false,
        Flag::N,
        false,
        Flag::Z,
        s.rf.a ^ v == 0,
    );
}

/// DEC r8 from the value `n`: Z tells whether the result is 0 (`n` was 1),
/// N is set, H tells whether the low nibble was 0 (a borrow from bit 4), C
/// keeps its value.
pub proof fn lemma_dec_r8_flags(s: DmgState, op: u8, n: u8)
    requires
        s.r8(op / 8) == Some(Ok::<u8, DmgError>(n)),
        s.dec_r8(op) matches Some((_, Ok(()))),
    ensures
        ({
            let f = s.dec_r8(op).unwrap().0.flags();
            &&& has_flag(f, Flag::Z) == (n == 1)
            &&& has_flag(f, Flag::N)
            &&& has_flag(f, Flag::H) == (n % 16 == 0)
            &&& has_flag(f, Flag::C) == has_flag(s.flags(), Flag::C)
        }),
{
    let m = wrap8(n - 1);
    let u = s.set_r8(op / 8, m).unwrap().0;
    assert(u.flags() == s.flags());
    lemma_flag_updates3(u.flags(), Flag::H, n % 16 == 0, Flag::N, true, Flag::Z, m == 0);
}

/// INC r8 from the value `n`: Z tells whether the result is 0 (`n` was
/// 0xFF), N is clear, H tells whether the low nibble was 0xF (a carry out of
/// bit 3), C keeps its value.
pub proof fn lemma_inc_r8_flags(s: DmgState, op: u8, n: u8)
    requires
        s.r8(op / 8) == Some(Ok::<u8, DmgError>(n)),
        s.inc_r8(op) matches Some((_, Ok(()))),
    ensures
        ({
            let f = s.inc_r8(op).unwrap().0.flags();
            &&& has_flag(f, Flag::Z) == (n == 255)
            &&& !has_flag(f, Flag::N)
            &&& has_flag(f, Flag::H) == (n % 16 == 15)
            &&& has_flag(f, Flag::C) == has_flag(s.flags(), Flag::C)
        }),
{
    let m = wrap8(n + 1);
    let u = s.set_r8(op / 8, m).unwrap().0;
    assert(u.flags() == s.flags());
    lemma_flag_updates3(u.flags(), Flag::H, n % 16 == 15, Flag::N, false, Flag::Z, m == 0);
}

/// The signed value of a relative jump's operand byte.
pub open spec fn jump_offset(e: u8) -> int {
    if e < 128 {
        e as int
    } else {
        e - 256
    }
}

/// JR cc, e (0x20 NZ, 0x28 Z, 0x30 NC, 0x38 C) with the operand byte `e`:
/// when the condition holds (Z clear, Z set, C clear, C set), the program
/// counter becomes the address after the operand plus `e` read as signed;
/// otherwise it only moves past the operand. Nothing else changes.
pub proof fn lemma_jr_cond_effect(s: DmgState, op: u8, e: u8)
    requires
        op == 0x20 || op == 0x28 || op == 0x30 || op == 0x38,
        s.read(s.rf.pc) == Some(Ok::<u8, DmgError>(e)),
    ensures
        s.jr_cond_imm8(op) matches Some((t, r)) && r is Ok && {
            let next = (s.rf.pc + 1) % 0x10000;
            let taken = if op == 0x20 {
                !has_flag(s.flags(), Flag::Z)
            } else if op == 0x28 {
                has_flag(s.flags(), Flag::Z)
            } else if op == 0x30 {
                !has_flag(s.flags(), Flag::C)
            } else {
                has_flag(s.flags(), Flag::C)
            };
            &&& t.rf.pc == if taken {
                (next + jump_offset(e)) % 0x10000
            } else {
                next
            }
            &&& t == s.with_pc(t.rf.pc)
        },
{
}

/// JR e with the operand byte `e`: the program counter becomes the address
/// after the operand plus `e` read as signed. Nothing else changes.
pub proof fn lemma_jr_effect(s: DmgState, e: u8)
    requires
        s.read(s.rf.pc) == Some(Ok::<u8, DmgError>(e)),
    ensures
        s.jr_imm8() matches Some((t, r)) && r is Ok && t.rf.pc == ((s.rf.pc + 1) % 0x10000
            + jump_offset(e)) % 0x10000 && t == s.with_pc(t.rf.pc),
{
}

/// JP nn with the operand bytes `lo`, `hi` (low byte first): the program
/// counter becomes `hi * 256 + lo`. Nothing else changes.
pub proof fn lemma_jp_effect(s: DmgState, lo: u8, hi: u8)
    requires
        s.read(s.rf.pc) == Some(Ok::<u8, DmgError>(lo)),
        s.read(wrap16(s.rf.pc + 1)) == Some(Ok::<u8, DmgError>(hi)),
    ensures
        s.jp_imm16() matches Some((t, r)) && r is Ok && t.rf.pc == hi * 256 + lo && t == s.with_pc(
            t.rf.pc,
        ),
{
}

/// RET with the bytes `lo` at SP and `hi` at SP + 1: the program counter
/// becomes `hi * 256 + lo` and SP moves up by two. Nothing else changes.
pub proof fn lemma_ret_effect(s: DmgState, lo: u8, hi: u8)
    requires
        s.read(s.rf.sp) == Some(Ok::<u8, DmgError>(lo)),
        s.read(wrap16(s.rf.sp + 1)) == Some(Ok::<u8, DmgError>(hi)),
    ensures
        s.ret() matches Some((t, r)) && r is Ok && t.rf.pc == hi * 256 + lo && t.rf.sp == (
        s.rf.sp + 2) % 0x10000 && t == s.with_pc(t.rf.pc).with_sp(t.rf.sp),
{
}

/// LD (r16mem), A (0x02: (BC), 0x12: (DE), 0x22: (HL+), 0x32: (HL-)) that
/// succeeds stores A at the address in the register pair, so that a read
/// there gives A back, and moves HL up by one for (HL+) and down by one for
/// (HL-), wrapping; A is kept.
pub proof fn lemma_ld_r16mem_a_effect(s: DmgState, op: u8)
    requires
        s.wf(),
        op == 0x02 || op == 0x12 || op == 0x22 || op == 0x32,
        s.ld_r16mem_a(op) matches Some((_, Ok(()))),
    ensures
        ({
            let t = s.ld_r16mem_a(op).unwrap().0;
            let hl = s.rf.h * 256 + s.rf.l;
            let address = if op == 0x02 {
                s.rf.b * 256 + s.rf.c
            } else if op == 0x12 {
                s.rf.d * 256 + s.rf.e
            } else {
                hl
            };
            &&& t.rf.a == s.rf.a
            &&& read_implemented(address as u16) ==> t.read(address as u16) == Some(
                Ok::<u8, DmgError>(s.rf.a),
            )
            &&& t.rf.h * 256 + t.rf.l == if op == 0x22 {
                (hl + 1) % 0x10000
            } else if op == 0x32 {
                (hl + 0xffff) % 0x10000
            } else {
                hl
            }
        }),
{
    let r = op / 16;
    let hl = s.hl();
    let address = if r < 2 { s.r16(r) } else { hl };
    let w = s.write(address, s.rf.a).unwrap().0;
    if read_implemented(address) {
        lemma_read_after_write(s, address, s.rf.a);
    }
    if r >= 2 {
        let stepped = if r == 2 { wrap16(hl + 1) } else { wrap16(hl - 1) };
        crate::laws::lemma_word_bytes(stepped, 0, 0);
        let t = w.with_hl(stepped);
        assert(t.read(address) == w.read(address));
        assert(stepped == if op == 0x22 { (hl + 1) % 0x10000 } else { (hl + 0xffff) % 0x10000 });
    }
}

/// LD A, (DE) (0x1A) that succeeds loads A with the byte a read at DE gives.
pub proof fn lemma_ld_a_de_effect(s: DmgState, v: u8)
    requires
        s.read((s.rf.d * 256 + s.rf.e) as u16) == Some(Ok::<u8, DmgError>(v)),
    ensures
        s.ld_a_r16mem(0x1a) matches Some((t, r)) && r is Ok && t.rf.a == v && t == s.with_a(v),
{
}

/// LD r8, r8' copies the value `v` of the operand in bits 0..2 of the opcode
/// into the operand in bits 3..5: when it succeeds, the destination reads as
/// `v`.
pub proof fn lemma_ld_r8_r8_effect(s: DmgState, op: u8, v: u8)
    requires
        s.wf(),
        s.r8(op % 8) == Some(Ok::<u8, DmgError>(v)),
        s.r8((op / 8) % 8) is Some,
        s.ld_r8_r8(op) matches Some((_, Ok(()))),
    ensures
        s.ld_r8_r8(op).unwrap().0.r8((op / 8) % 8) == Some(Ok::<u8, DmgError>(v)),
{
    let u = s.set_r8((op / 8) % 8, v).unwrap().0;
    lemma_store_then_read(s, (op / 8) % 8, v, u.flags());
    assert(u.with_flags(u.flags()) == u);
}

/// LD r8, n loads the operand in bits 3..5 of the opcode with the byte `n`
/// after the opcode: when it succeeds, the operand reads as `n` and the
/// program counter has moved past `n`.
pub proof fn lemma_ld_r8_imm8_effect(s: DmgState, op: u8, n: u8)
    requires
        s.wf(),
        s.read(s.rf.pc) == Some(Ok::<u8, DmgError>(n)),
        s.r8(op / 8) is Some,
        s.ld_r8_imm8(op) matches Some((_, Ok(()))),
    ensures
        s.ld_r8_imm8(op).unwrap().0.r8(op / 8) == Some(Ok::<u8, DmgError>(n)),
        op / 8 != 6 ==> s.ld_r8_imm8(op).unwrap().0.rf.pc == (s.rf.pc + 1) % 0x10000,
{
    let s1 = after_fetch(s);
    assert(s1.r8(op / 8) == s.r8(op / 8));
    let u = s1.set_r8(op / 8, n).unwrap().0;
    lemma_store_then_read(s1, op / 8, n, u.flags());
    assert(u.with_flags(u.flags()) == u);
}

/// LD r16, nn (0x01 BC, 0x11 DE, 0x21 HL, 0x31 SP) with the operand bytes
/// `lo`, `hi` loads the register with `hi * 256 + lo`.
pub proof fn lemma_ld_r16_imm16_effect(s: DmgState, op: u8, lo: u8, hi: u8)
    requires
        op == 0x01 || op == 0x11 || op == 0x21 || op == 0x31,
        s.read(s.rf.pc) == Some(Ok::<u8, DmgError>(lo)),
        s.read(wrap16(s.rf.pc + 1)) == Some(Ok::<u8, DmgError>(hi)),
    ensures
        s.ld_r16_imm16(op) matches Some((t, r)) && r is Ok && t.r16(op / 16) == hi * 256 + lo,
{
    let s2 = s.fetch16().unwrap().0;
    crate::laws::lemma_r16_roundtrip(s2, op / 16, word(hi, lo));
}

/// LDH (n), A with the byte `n` after the opcode stores A at 0xFF00 + n;
/// LDH A, (n) loads A with what a read at 0xFF00 + n gives.
pub proof fn lemma_ldh_effect(s: DmgState, n: u8)
    requires
        s.wf(),
        s.read(s.rf.pc) == Some(Ok::<u8, DmgError>(n)),
    ensures
        s.ldh_imm8mem_a() matches Some((t, Ok(()))) ==> (read_implemented((0xff00 + n) as u16)
            ==> t.read((0xff00 + n) as u16) == Some(Ok::<u8, DmgError>(s.rf.a))),
        s.ldh_a_cmem() matches Some((t, Ok(()))) ==> s.read((0xff00 + n) as u16) == Some(
            Ok::<u8, DmgError>(t.rf.a),
        ),
{
    let s1 = after_fetch(s);
    let address = word(0xff, n);
    assert(address == (0xff00 + n) as u16);
    if s1.write(address, s1.rf.a) matches Some((_, Ok(()))) && read_implemented(address) {
        lemma_read_after_write(s1, address, s1.rf.a);
    }
    assert(s1.read(address) == s.read(address));
}

/// The opcodes of the unprefixed table that have a handler, and which
/// handler each one runs; every other opcode has none.
#[verifier::rlimit(50)]
pub proof fn lemma_unprefixed_table(s: DmgState, op: u8)
    ensures
        op == 0x00 ==> s.dispatch(op) == s.nop(),
        op == 0x01 || op == 0x11 || op == 0x21 || op == 0x31 ==> s.dispatch(op) == s.ld_r16_imm16(
            op,
        ),
        op == 0x02 || op == 0x12 || op == 0x22 || op == 0x32 ==> s.dispatch(op) == s.ld_r16mem_a(
            op,
        ),
        op == 0x03 || op == 0x13 || op == 0x23 || op == 0x33 ==> s.dispatch(op) == s.inc_r16(op),
        op == 0x04 || op == 0x0c || op == 0x14 || op == 0x24 || op == 0x34 ==> s.dispatch(op)
            == s.inc_r8(op),
        op < 0x40 && op % 8 == 5 ==> s.dispatch(op) == s.dec_r8(op),
        op == 0x06 || op == 0x0e || op == 0x16 || op == 0x1e || op == 0x2e || op == 0x3e
            ==> s.dispatch(op) == s.ld_r8_imm8(op),
        op == 0x10 ==> s.dispatch(op) == s.stop(),
        op == 0x17 ==> s.dispatch(op) == s.rla(),
        op == 0x18 ==> s.dispatch(op) == s.jr_imm8(),
        op == 0x1a ==> s.dispatch(op) == s.ld_a_r16mem(op),
        op == 0x20 || op == 0x28 || op == 0x30 || op == 0x38 ==> s.dispatch(op) == s.jr_cond_imm8(
            op,
        ),
        0x40 <= op < 0x80 && op != 0x76 ==> s.dispatch(op) == s.ld_r8_r8(op),
        0x80 <= op < 0x90 ==> s.dispatch(op) == s.add_a_r8(op),
        0x90 <= op < 0x98 ==> s.dispatch(op) == s.sub_a_r8(op),
        0xa8 <= op < 0xb0 ==> s.dispatch(op) == s.xor_a_r8(op),
        0xb8 <= op < 0xc0 ==> s.dispatch(op) == s.cp_a_r8(op),
        op == 0xc1 ==> s.dispatch(op) == s.pop_r16stk(op),
        op == 0xc3 ==> s.dispatch(op) == s.jp_imm16(),
        op == 0xc5 ==> s.dispatch(op) == s.push_r16stk(op),
        op == 0xc9 ==> s.dispatch(op) == s.ret(),
        op == 0xcd ==> s.dispatch(op) == s.call_imm16(),
        op == 0xe0 ==> s.dispatch(op) == s.ldh_imm8mem_a(),
        op == 0xe2 ==> s.dispatch(op) == s.ldh_cmem_a(),
        op == 0xea ==> s.dispatch(op) == s.ld_imm16mem_a(),
        op == 0xf0 ==> s.dispatch(op) == s.ldh_a_cmem(),
        op == 0xfa ==> s.dispatch(op) == s.ld_a_imm16mem(),
        op == 0xfe ==> s.dispatch(op) == s.cp_a_imm8(),
        op == 0x07 || op == 0x08 || op == 0x09 || op == 0x0a || op == 0x0b || op == 0x0f || op
            == 0x19 || op == 0x1b || op == 0x1c || op == 0x1f || op == 0x26 || op == 0x27 || op
            == 0x29 || op == 0x2a || op == 0x2b || op == 0x2c || op == 0x2f || op == 0x36 || op
            == 0x37 || op == 0x39 || op == 0x3a || op == 0x3b || op == 0x3c || op == 0x3f || op
            == 0x76 || (0x98 <= op < 0xa8) || (0xb0 <= op < 0xb8) || (0xc0 <= op && op != 0xc1
            && op != 0xc3 && op != 0xc5 && op != 0xc9 && op != 0xcd && op != 0xe0 && op != 0xe2
            && op != 0xea && op != 0xf0 && op != 0xfa && op != 0xfe) ==> s.dispatch(op) is None,
{
    reveal(DmgState::dispatch);
    if op < 0x40 && op % 8 == 5 {
        assert(op == 0x05 || op == 0x0d || op == 0x15 || op == 0x1d || op == 0x25 || op == 0x2d
            || op == 0x35 || op == 0x3d);
    }
}

/// The 0xCB-prefixed table: 0x11 runs RL C, 0x7C runs BIT 7, H, every other
/// opcode has no handler.
pub proof fn lemma_prefixed_table(s: DmgState, op: u8)
    ensures
        op == 0x11 ==> s.dispatch_cb(op) == s.rl_r8(op),
        op == 0x7c ==> s.dispatch_cb(op) == s.bit_b3_r8(op),
        op != 0x11 && op != 0x7c ==> s.dispatch_cb(op) is None,
{
    reveal(DmgState::dispatch_cb);
}

/// A round of the loop with a pending prefix that fetches an opcode other
/// than STOP and the prefix drops the prefix and runs that opcode's entry of
/// the prefixed table with the program counter past the opcode. A round that
/// fetches the prefix only sets it and moves past it; one that fetches STOP
/// (0x10) ends the loop, with or without a pending prefix.
pub proof fn lemma_step_prefix(s: DmgState, op: u8)
    requires
        s.read(s.rf.pc) == Some(Ok::<u8, DmgError>(op)),
    ensures
        op == 0x10 ==> s.step() == Some(
            (after_fetch(s).with_cb_prefix(false), Ok::<bool, DmgError>(true)),
        ),
        op == 0xcb ==> s.step() == Some(
            (after_fetch(s).with_cb_prefix(true), Ok::<bool, DmgError>(false)),
        ),
        op != 0x10 && op != 0xcb && s.cb_prefix ==> s.step() == match after_fetch(
            s,
        ).with_cb_prefix(false).dispatch_cb(op) {
            None => None,
            Some((t, Err(e))) => Some((t, Err(e))),
            Some((t, Ok(()))) => Some((t, Ok::<bool, DmgError>(false))),
        },
{
    reveal(DmgState::step);
}

/// RLA: A is shifted left by one with the old carry entering bit 0; C takes
/// the old bit 7; Z, N and H are clear. Nothing else changes.
pub proof fn lemma_rla_effect(s: DmgState)
    ensures
        s.rla() matches Some((t, r)) && r is Ok && {
            let c: int = if has_flag(s.flags(), Flag::C) { 1 } else { 0 };
            &&& t.rf.a == (s.rf.a * 2 + c) % 256
            &&& has_flag(t.flags(), Flag::C) == (s.rf.a >= 128)
            &&& !has_flag(t.flags(), Flag::Z)
            &&& !has_flag(t.flags(), Flag::N)
            &&& !has_flag(t.flags(), Flag::H)
            &&& only_a_and_f_changed(s, t)
        },
{
    lemma_flag_updates(
        s.flags(),
        Flag::Z,
        false,
        Flag::N,
        false,
        Flag::H,
        false,
        Flag::C,
        s.rf.a >= 128,
    );
}

/// RL r8 (prefixed 0x10..0x17, the operand in bits 0..2) from the value `v`:
/// when it succeeds the operand reads as `v` shifted left by one with the old
/// carry entering bit 0; C takes the old bit 7; Z tells whether the result
/// is 0; N and H are clear.
pub proof fn lemma_rl_r8_effect(s: DmgState, op: u8, v: u8)
    requires
        s.wf(),
        0x10 <= op < 0x18,
        s.r8((op - 0x10) as u8) == Some(Ok::<u8, DmgError>(v)),
        s.rl_r8(op) matches Some((_, Ok(()))),
    ensures
        ({
            let t = s.rl_r8(op).unwrap().0;
            let c: int = if has_flag(s.flags(), Flag::C) { 1 } else { 0 };
            let result = (v * 2 + c) % 256;
            &&& t.r8((op - 0x10) as u8) == Some(Ok::<u8, DmgError>(result as u8))
            &&& has_flag(t.flags(), Flag::C) == (v >= 128)
            &&& has_flag(t.flags(), Flag::Z) == (result == 0)
            &&& !has_flag(t.flags(), Flag::N)
            &&& !has_flag(t.flags(), Flag::H)
        }),
{
    let r = crate::instructions::without_bit4(op);
    assert(r == op - 0x10);
    let c: int = if has_flag(s.flags(), Flag::C) { 1 } else { 0 };
    let m = wrap8(v * 2 + c);
    let bits = with_flag(
        with_flag(with_flag(with_flag(s.flags(), Flag::Z, m == 0), Flag::N, false), Flag::H, false),
        Flag::C,
        v >= 128,
    );
    lemma_flag_updates(s.flags(), Flag::Z, m == 0, Flag::N, false, Flag::H, false, Flag::C, v >= 128);
    let s1 = s.with_flags(bits);
    assert(s1.r8(r) == s.r8(r));
    let u = s1.set_r8(r, m).unwrap().0;
    lemma_store_then_read(s1, r, m, u.flags());
    assert(u.with_flags(u.flags()) == u);
    assert(u.flags() == bits);
}

/// BIT b, r8 (prefixed; b in bits 3..5, the operand in bits 0..2) with the
/// operand value `v`: Z is set exactly when bit b of `v` is 0; N is clear, H
/// set, C kept. Nothing else changes.
pub proof fn lemma_bit_effect(s: DmgState, op: u8, v: u8)
    requires
        s.r8(op % 8) == Some(Ok::<u8, DmgError>(v)),
    ensures
        s.bit_b3_r8(op) matches Some((t, r)) && r is Ok && {
            &&& has_flag(t.flags(), Flag::Z) == ((v >> ((op / 8) % 8)) & 1 == 0)
            &&& !has_flag(t.flags(), Flag::N)
            &&& has_flag(t.flags(), Flag::H)
            &&& has_flag(t.flags(), Flag::C) == has_flag(s.flags(), Flag::C)
            &&& t.flags() & 0x0f == s.flags() & 0x0f
            &&& only_a_and_f_changed(s, t)
            &&& t.rf.a == s.rf.a
        },
{
    lemma_flag_updates3(
        s.flags(),
        Flag::Z,
        (v >> ((op / 8) % 8)) & 1 == 0,
        Flag::N,
        false,
        Flag::H,
        true,
    );
}

/// INC r16 (0x03 BC, 0x13 DE, 0x23 HL, 0x33 SP): the register becomes one
/// more than before, wrapping from 0xFFFF to 0; the flags are kept.
pub proof fn lemma_inc_r16_effect(s: DmgState, op: u8)
    requires
        op == 0x03 || op == 0x13 || op == 0x23 || op == 0x33,
    ensures
        s.inc_r16(op) matches Some((t, r)) && r is Ok && t.r16(op / 16) == (s.r16(op / 16) + 1)
            % 0x10000 && t.flags() == s.flags(),
{
    crate::laws::lemma_r16_roundtrip(s, op / 16, wrap16(s.r16(op / 16) + 1));
}

/// PUSH BC (0xC5) that succeeds moves SP down by two, with B at the new SP
/// + 1 and C at the new SP (where reads there are implemented).
pub proof fn lemma_push_effect(s: DmgState)
    requires
        s.wf(),
        s.push_r16stk(0xc5) matches Some((_, Ok(()))),
    ensures
        ({
            let t = s.push_r16stk(0xc5).unwrap().0;
            let sp1 = wrap16(s.rf.sp - 1);
            let sp2 = wrap16(s.rf.sp - 2);
            &&& t.rf.sp == sp2
            &&& read_implemented(sp1) ==> t.read(sp1) == Some(Ok::<u8, DmgError>(s.rf.b))
            &&& read_implemented(sp2) ==> t.read(sp2) == Some(Ok::<u8, DmgError>(s.rf.c))
        }),
{
    let v = s.r16stk(0);
    crate::laws::lemma_word_bytes(v, s.rf.b, s.rf.c);
    let sp1 = wrap16(s.rf.sp - 1);
    let sp2 = wrap16(s.rf.sp - 2);
    let s1 = s.with_sp(sp1);
    let s2 = s1.write(sp1, s.rf.b).unwrap().0;
    let s3 = s2.with_sp(sp2);
    assert(wrap16(sp1 - 1) == sp2);
    if read_implemented(sp1) {
        lemma_read_after_write(s1, sp1, s.rf.b);
        crate::laws::lemma_write_preserves_other_reads(s3, sp2, s.rf.c, sp1);
    }
    if read_implemented(sp2) {
        lemma_read_after_write(s3, sp2, s.rf.c);
    }
}

/// CALL nn with the operand bytes `lo`, `hi` that succeeds jumps to
/// `hi * 256 + lo`, moves SP down by two and leaves the address after the
/// operand on the stack: its high byte at the new SP + 1, its low byte at the
/// new SP (where reads there are implemented).
pub proof fn lemma_call_effect(s: DmgState, lo: u8, hi: u8)
    requires
        s.wf(),
        s.read(s.rf.pc) == Some(Ok::<u8, DmgError>(lo)),
        s.read(wrap16(s.rf.pc + 1)) == Some(Ok::<u8, DmgError>(hi)),
        s.call_imm16() matches Some((_, Ok(()))),
    ensures
        ({
            let t = s.call_imm16().unwrap().0;
            let ret = (s.rf.pc + 2) % 0x10000;
            let sp1 = wrap16(s.rf.sp - 1);
            let sp2 = wrap16(s.rf.sp - 2);
            &&& t.rf.pc == hi * 256 + lo
            &&& t.rf.sp == sp2
            &&& read_implemented(sp1) ==> t.read(sp1) == Some(Ok::<u8, DmgError>((ret / 256) as u8))
            &&& read_implemented(sp2) ==> t.read(sp2) == Some(Ok::<u8, DmgError>((ret % 256) as u8))
        }),
{
    let f = s.fetch16().unwrap().0;
    let ret = f.rf.pc;
    assert(ret == (s.rf.pc + 2) % 0x10000);
    let sp1 = wrap16(s.rf.sp - 1);
    let sp2 = wrap16(s.rf.sp - 2);
    let s1 = f.with_sp(sp1);
    let s2 = s1.write(sp1, crate::dmg::hi_byte(ret)).unwrap().0;
    let s3 = s2.with_sp(sp2);
    assert(wrap16(sp1 - 1) == sp2);
    if read_implemented(sp1) {
        lemma_read_after_write(s1, sp1, crate::dmg::hi_byte(ret));
        crate::laws::lemma_write_preserves_other_reads(s3, sp2, crate::dmg::lo_byte(ret), sp1);
    }
    if read_implemented(sp2) {
        lemma_read_after_write(s3, sp2, crate::dmg::lo_byte(ret));
    }
}

} // verus!
