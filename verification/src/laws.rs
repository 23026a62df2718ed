//! Properties of the machine model that span several operations.

use vstd::prelude::*;

use crate::display::{lines_drawn, tile_pixel, TileMapAddressingMode};
use crate::dmg::{hi_byte, lo_byte, read_implemented, word, wrap16, DmgState};
use crate::flags::{has_flag, with_flag, Flag};
use crate::io::IoRegisterOffset;

verus! {

/// A read gives back what a successful write at the same address wrote.
pub proof fn lemma_read_after_write(s: DmgState, address: u16, data: u8)
    requires
        s.wf(),
        s.write(address, data) matches Some((_, Ok(()))),
        read_implemented(address),
    ensures
        s.write(address, data).unwrap().0.read(address) == Some(Ok::<u8, crate::dmg::DmgError>(data)),
{
    let s2 = s.write(address, data).unwrap().0;
    if 0xC000 <= address < 0xE000 {
        assert(s2.ram == s.ram.update(address - 0xC000, data));
    } else if 0xFF00 <= address < 0xFF80 {
        assert(s2.io == s.io.update(address - 0xff00, data));
    } else if 0xFF80 <= address < 0xFFFF {
        assert(s2.ram == s.ram.update(address - 0xFF80 + 0x2000, data));
    }
}

/// A write at one address leaves what a read at any other address gives.
pub proof fn lemma_write_preserves_other_reads(s: DmgState, address: u16, data: u8, other: u16)
    requires
        s.wf(),
        s.write(address, data) is Some,
        other != address,
    ensures
        s.write(address, data).unwrap().0.read(other) == s.read(other),
{
    let s2 = s.write(address, data).unwrap().0;
    assert(s2.rom == s.rom && s2.boot_rom == s.boot_rom && s2.boot_rom_mapped == s.boot_rom_mapped);
    if 0xFF00 <= other < 0xFF80 {
        assert(s2.io[other - 0xff00] == s.io[other - 0xff00]);
    }
}

/// A failed write changes nothing.
pub proof fn lemma_failed_write_changes_nothing(s: DmgState, address: u16, data: u8)
    requires
        s.write(address, data) matches Some((_, Err(_))),
    ensures
        s.write(address, data).unwrap().0 == s,
{
}

/// Splitting a 16-bit value into its bytes and joining them gives it back,
/// and joining two bytes and splitting the result gives them back.
pub proof fn lemma_word_bytes(n: u16, hi: u8, lo: u8)
    ensures
        word(hi_byte(n), lo_byte(n)) == n,
        hi_byte(word(hi, lo)) == hi,
        lo_byte(word(hi, lo)) == lo,
{
}

/// Setting a 16-bit register and reading it back gives the value set.
pub proof fn lemma_r16_roundtrip(s: DmgState, r: u8, n: u16)
    requires
        r < 4,
    ensures
        s.with_r16(r, n).r16(r) == n,
        s.with_r16stk(r, n).r16stk(r) == n,
{
    lemma_word_bytes(n, 0, 0);
}

/// Storing into an 8-bit operand and reading it back gives the value
/// stored.
pub proof fn lemma_r8_roundtrip(s: DmgState, r: u8, n: u8)
    requires
        s.wf(),
        s.set_r8(r, n) matches Some((_, Ok(()))),
        s.set_r8(r, n).unwrap().0.r8(r) is Some,
    ensures
        s.set_r8(r, n).unwrap().0.r8(r) == Some(Ok::<u8, crate::dmg::DmgError>(n)),
{
    if r == 6 {
        lemma_read_after_write(s, s.hl(), n);
    }
}

/// Setting a flag and testing it gives the value set; the other flags and
/// the four low bits keep their values.
pub proof fn lemma_flag_set_get(bits: u8, f: Flag, g: Flag, value: bool)
    ensures
        has_flag(with_flag(bits, f, value), f) == value,
        f != g ==> has_flag(with_flag(bits, f, value), g) == has_flag(bits, g),
        with_flag(bits, f, value) & 0x0f == bits & 0x0f,
{
    let m = f.bit();
    let n = g.bit();
    assert(m == 0x10 || m == 0x20 || m == 0x40 || m == 0x80);
    assert(n == 0x10 || n == 0x20 || n == 0x40 || n == 0x80);
    assert(f != g ==> m != n);
    crate::bitops::lemma_single_bits(bits, m, n);
}

/// Each implemented I/O register has an address of its own.
pub proof fn lemma_io_addresses_distinct(r1: IoRegisterOffset, r2: IoRegisterOffset)
    requires
        r1.address() == r2.address(),
    ensures
        r1 == r2,
{
}

/// PUSH followed by POP of the same register, both succeeding, leaves the
/// register file as it was.
pub proof fn lemma_push_pop(s: DmgState, op: u8)
    requires
        s.wf(),
        s.push_r16stk(op) matches Some((_, Ok(()))),
        s.push_r16stk(op).unwrap().0.pop_r16stk(op) matches Some((_, Ok(()))),
    ensures
        s.push_r16stk(op).unwrap().0.pop_r16stk(op).unwrap().0.rf == s.rf,
{
    let r = (op / 8) % 8;
    let v = s.r16stk(r);
    let sp = s.rf.sp;
    let a1 = wrap16(sp - 1);
    let a2 = wrap16(sp - 2);
    let s1 = s.with_sp(a1);
    let s2 = s1.write(a1, hi_byte(v)).unwrap().0;
    let s3 = s2.with_sp(a2);
    let s4 = s3.write(a2, lo_byte(v)).unwrap().0;
    assert(s.push_r16stk(op).unwrap().0 == s4);
    lemma_read_after_write(s3, a2, lo_byte(v));
    lemma_write_preserves_other_reads(s3, a2, lo_byte(v), a1);
    lemma_read_after_write(s1, a1, hi_byte(v));
    lemma_word_bytes(v, 0, 0);
    assert(s4.rf.sp == a2);
    assert(wrap16(a2 + 1) == a1);
    assert(wrap16(a1 + 1) == sp);
}

/// CALL followed by RET, both succeeding, returns to the instruction after
/// the CALL (past its two operand bytes; the handler starts after the
/// opcode) with the stack pointer restored.
pub proof fn lemma_call_ret(s: DmgState)
    requires
        s.wf(),
        s.call_imm16() matches Some((_, Ok(()))),
        s.call_imm16().unwrap().0.ret() matches Some((_, Ok(()))),
    ensures
        s.call_imm16().unwrap().0.ret().unwrap().0.rf.pc == wrap16(s.rf.pc + 2),
        s.call_imm16().unwrap().0.ret().unwrap().0.rf.sp == s.rf.sp,
{
    let f = s.fetch16().unwrap().0;
    let ret_addr = f.rf.pc;
    assert(ret_addr == wrap16(s.rf.pc + 2));
    let sp = s.rf.sp;
    let a1 = wrap16(sp - 1);
    let a2 = wrap16(sp - 2);
    let s1 = f.with_sp(a1);
    let s2 = s1.write(a1, hi_byte(ret_addr)).unwrap().0;
    let s3 = s2.with_sp(a2);
    lemma_read_after_write(s3, a2, lo_byte(ret_addr));
    lemma_write_preserves_other_reads(s3, a2, lo_byte(ret_addr), a1);
    lemma_read_after_write(s1, a1, hi_byte(ret_addr));
    lemma_word_bytes(ret_addr, 0, 0);
    assert(wrap16(a2 + 1) == a1);
    assert(wrap16(a1 + 1) == sp);
}

/// Once a run has ended (STOP or a failure) within `n` rounds, a larger
/// budget gives the same end.
pub proof fn lemma_run_budget(s: DmgState, n: nat, k: nat)
    requires
        s.run(n) matches Some((_, r)) && r != Ok::<bool, crate::dmg::DmgError>(false),
    ensures
        s.run(n + k) == s.run(n),
    decreases n,
{
    if n > 0 {
        match s.step() {
            Some((s1, Ok(false))) => {
                lemma_run_budget(s1, (n - 1) as nat, k);
                assert((n + k - 1) as nat == (n - 1) as nat + k);
            },
            _ => {},
        }
    }
}

/// Every pixel of a tile line has one of the four color numbers.
pub proof fn lemma_tile_pixel_range(lsb: u8, msb: u8, x: int)
    ensures
        tile_pixel(lsb, msb, x) < 4,
{
    crate::bitops::lemma_low_bit(lsb >> ((7 - x) as u8));
    crate::bitops::lemma_low_bit(msb >> ((7 - x) as u8));
}

/// Drawing the same lines twice from the same video RAM gives what drawing
/// them once gave.
pub proof fn lemma_redraw_is_idempotent(
    a: Seq<u8>,
    b: Seq<u8>,
    c: Seq<u8>,
    vram: Seq<u8>,
    map_start: int,
    mode: TileMapAddressingMode,
    first: int,
    last: int,
    offset_y: u8,
)
    requires
        lines_drawn(a, b, vram, map_start, mode, first, last, offset_y),
        lines_drawn(b, c, vram, map_start, mode, first, last, offset_y),
    ensures
        c == b,
{
    assert(c =~= b);
}

/// INC of an operand followed by DEC of the same operand, both succeeding,
/// gives the operand its old value back.
pub proof fn lemma_inc_dec(s: DmgState, inc_op: u8, dec_op: u8)
    requires
        s.wf(),
        inc_op / 8 == dec_op / 8,
        s.inc_r8(inc_op) matches Some((_, Ok(()))),
        s.inc_r8(inc_op).unwrap().0.dec_r8(dec_op) matches Some((_, Ok(()))),
    ensures
        s.inc_r8(inc_op).unwrap().0.dec_r8(dec_op).unwrap().0.r8(inc_op / 8) == s.r8(inc_op / 8),
{
    let r = inc_op / 8;
    let n = s.r8(r).unwrap().unwrap();
    let m = crate::dmg::wrap8(n + 1);
    let t = s.inc_r8(inc_op).unwrap().0;
    if r == 6 {
        lemma_read_after_write(s, s.hl(), m);
    }
    assert(t.r8(r) == Some(Ok::<u8, crate::dmg::DmgError>(m)));
    assert(crate::dmg::wrap8(m - 1) == n);
    let u = t.set_r8(r, n).unwrap().0;
    if r == 6 {
        lemma_read_after_write(t, t.hl(), n);
    }
    assert(u.r8(r) == Some(Ok::<u8, crate::dmg::DmgError>(n)));
}

/// XOR A with itself clears A, sets Z and clears C, H and N.
pub proof fn lemma_xor_a_clears(s: DmgState)
    ensures
        s.xor_a_r8(0xaf) matches Some((t, Ok(()))) && t.rf.a == 0 && has_flag(t.flags(), Flag::Z)
            && !has_flag(t.flags(), Flag::C) && !has_flag(t.flags(), Flag::H) && !has_flag(
            t.flags(),
            Flag::N,
        ),
{
    crate::bitops::lemma_low_bit(s.rf.a);
    let b0 = s.flags();
    lemma_flag_set_get(b0, Flag::C, Flag::Z, false);
    let b1 = with_flag(b0, Flag::C, false);
    lemma_flag_set_get(b1, Flag::H, Flag::C, false);
    let b2 = with_flag(b1, Flag::H, false);
    lemma_flag_set_get(b2, Flag::N, Flag::C, false);
    lemma_flag_set_get(b2, Flag::N, Flag::H, false);
    let b3 = with_flag(b2, Flag::N, false);
    lemma_flag_set_get(b3, Flag::Z, Flag::C, true);
    lemma_flag_set_get(b3, Flag::Z, Flag::H, true);
    lemma_flag_set_get(b3, Flag::Z, Flag::N, true);
}

/// `t` has the ROMs, the boot ROM mapping and the memory sizes of `s`.
pub open spec fn same_layout(s: DmgState, t: DmgState) -> bool {
    &&& t.rom == s.rom
    &&& t.boot_rom == s.boot_rom
    &&& t.boot_rom_mapped == s.boot_rom_mapped
    &&& t.vram.len() == s.vram.len()
    &&& t.ram.len() == s.ram.len()
    &&& t.io.len() == s.io.len()
}

/// The state after an outcome, when there is one, has the layout of `s`.
pub open spec fn keeps_layout<T>(s: DmgState, o: Option<(DmgState, T)>) -> bool {
    o matches Some((t, _)) ==> same_layout(s, t)
}

proof fn lemma_access_keeps_layout(s: DmgState, address: u16, data: u8, r: u8)
    requires
        s.wf(),
    ensures
        keeps_layout(s, s.write(address, data)),
        keeps_layout(s, s.set_r8(r, data)),
        keeps_layout(s, s.r16mem(r)),
        keeps_layout(s, s.set_r16mem(r, data)),
        keeps_layout(s, s.fetch()),
        keeps_layout(s, s.fetch16()),
{
}

proof fn lemma_push_keeps_layout(s: DmgState, n: u16)
    requires
        s.wf(),
    ensures
        keeps_layout(s, s.push_word(n)),
{
    let s1 = s.with_sp(wrap16(s.rf.sp - 1));
    lemma_access_keeps_layout(s1, s1.rf.sp, hi_byte(n), 0);
    match s1.write(s1.rf.sp, hi_byte(n)) {
        Some((t, _)) => {
            let t1 = t.with_sp(wrap16(t.rf.sp - 1));
            lemma_access_keeps_layout(t1, t1.rf.sp, lo_byte(n), 0);
        },
        None => {},
    }
}

proof fn lemma_loads_keep_layout(s: DmgState, op: u8)
    requires
        s.wf(),
    ensures
        keeps_layout(s, s.nop()),
        keeps_layout(s, s.ld_r16_imm16(op)),
        keeps_layout(s, s.ld_r16mem_a(op)),
        keeps_layout(s, s.ld_a_r16mem(op)),
        keeps_layout(s, s.inc_r16(op)),
        keeps_layout(s, s.ld_r8_imm8(op)),
        keeps_layout(s, s.ld_r8_r8(op)),
        keeps_layout(s, s.stop()),
{
    lemma_access_keeps_layout(s, 0, s.rf.a, op / 16);
    lemma_access_keeps_layout(s, 0, 0, (op / 8) % 8);
    match s.r8(op % 8) {
        Some(Ok(v)) => lemma_access_keeps_layout(s, 0, v, (op / 8) % 8),
        _ => {},
    }
    match s.fetch() {
        Some((t, Ok(n))) => lemma_access_keeps_layout(t, 0, n, op / 8),
        _ => {},
    }
}

proof fn lemma_arithmetic_keeps_layout(s: DmgState, op: u8)
    requires
        s.wf(),
    ensures
        keeps_layout(s, s.inc_r8(op)),
        keeps_layout(s, s.dec_r8(op)),
        keeps_layout(s, s.rla()),
        keeps_layout(s, s.add_a_r8(op)),
        keeps_layout(s, s.sub_a_r8(op)),
        keeps_layout(s, s.cp_a_r8(op)),
        keeps_layout(s, s.xor_a_r8(op)),
        keeps_layout(s, s.cp_a_imm8()),
        keeps_layout(s, s.rl_r8(op)),
        keeps_layout(s, s.bit_b3_r8(op)),
{
    lemma_access_keeps_layout(s, 0, 0, 0);
    match s.r8(op / 8) {
        Some(Ok(n)) => {
            lemma_access_keeps_layout(s, 0, crate::dmg::wrap8(n + 1), op / 8);
            lemma_access_keeps_layout(s, 0, crate::dmg::wrap8(n - 1), op / 8);
        },
        _ => {},
    }
    let r = crate::instructions::without_bit4(op);
    match s.r8(r) {
        Some(Ok(v)) => {
            let carry: int = if has_flag(s.flags(), Flag::C) { 1 } else { 0 };
            let m = crate::dmg::wrap8(v * 2 + carry);
            let bits = with_flag(
                with_flag(with_flag(with_flag(s.flags(), Flag::Z, m == 0), Flag::N, false), Flag::H, false),
                Flag::C,
                v >= 128,
            );
            lemma_access_keeps_layout(s.with_flags(bits), 0, m, r);
        },
        _ => {},
    }
}

proof fn lemma_control_keeps_layout(s: DmgState, op: u8)
    requires
        s.wf(),
    ensures
        keeps_layout(s, s.jr_imm8()),
        keeps_layout(s, s.jr_cond_imm8(op)),
        keeps_layout(s, s.ret()),
        keeps_layout(s, s.jp_imm16()),
        keeps_layout(s, s.call_imm16()),
        keeps_layout(s, s.pop_r16stk(op)),
        keeps_layout(s, s.push_r16stk(op)),
{
    lemma_access_keeps_layout(s, 0, 0, 0);
    lemma_push_keeps_layout(s, s.r16stk((op / 8) % 8));
    match s.fetch16() {
        Some((t, Ok(_))) => lemma_push_keeps_layout(t, t.rf.pc),
        _ => {},
    }
}

proof fn lemma_high_memory_keeps_layout(s: DmgState)
    requires
        s.wf(),
    ensures
        keeps_layout(s, s.ldh_cmem_a()),
        keeps_layout(s, s.ldh_imm8mem_a()),
        keeps_layout(s, s.ld_imm16mem_a()),
        keeps_layout(s, s.ldh_a_cmem()),
        keeps_layout(s, s.ld_a_imm16mem()),
{
    lemma_access_keeps_layout(s, word(0xff, s.rf.c), s.rf.a, 0);
    match s.fetch() {
        Some((t, Ok(n))) => lemma_access_keeps_layout(t, word(0xff, n), t.rf.a, 0),
        _ => {},
    }
    match s.fetch16() {
        Some((t, Ok(nn))) => lemma_access_keeps_layout(t, nn, t.rf.a, 0),
        _ => {},
    }
}

#[verifier::rlimit(50)]
proof fn lemma_dispatch_keeps_layout(s: DmgState, op: u8)
    requires
        s.wf(),
    ensures
        keeps_layout(s, s.dispatch(op)),
        keeps_layout(s, s.dispatch_cb(op)),
{
    lemma_loads_keep_layout(s, op);
    lemma_arithmetic_keeps_layout(s, op);
    lemma_control_keeps_layout(s, op);
    lemma_high_memory_keeps_layout(s);
    assert(keeps_layout(s, s.dispatch(op))) by {
        reveal(DmgState::dispatch);
    }
    assert(keeps_layout(s, s.dispatch_cb(op))) by {
        reveal(DmgState::dispatch_cb);
    }
}

/// No round of the loop changes the ROMs, whether the boot ROM is mapped,
/// or the sizes of the memories.
pub proof fn lemma_step_keeps_layout(s: DmgState)
    requires
        s.wf(),
    ensures
        keeps_layout(s, s.step()),
{
    reveal(DmgState::step);
    lemma_access_keeps_layout(s, 0, 0, 0);
    match s.fetch() {
        Some((t, Ok(op))) => {
            lemma_dispatch_keeps_layout(t, op);
            lemma_dispatch_keeps_layout(t.with_cb_prefix(false), op);
        },
        _ => {},
    }
}

/// No run of the loop, however long, changes the ROMs, whether the boot ROM
/// is mapped, or the sizes of the memories.
pub proof fn lemma_run_keeps_layout(s: DmgState, n: nat)
    requires
        s.wf(),
    ensures
        keeps_layout(s, s.run(n)),
    decreases n,
{
    if n > 0 {
        lemma_step_keeps_layout(s);
        match s.step() {
            Some((t, Ok(false))) => lemma_run_keeps_layout(t, (n - 1) as nat),
            _ => {},
        }
    }
}

} // verus!
