//! Instruction decoding and the fetch/execute loop.

use vstd::prelude::*;

use crate::dmg::{
    read_implemented, word, wrap16, write_implemented, DmgError, DmgState, Outcome, SimpleDmg,
};
use crate::instructions::without_bit4;
use crate::operands::from_be_bytes;

verus! {

impl DmgState {
    /// The effect of `op` from the unprefixed table; `None` for the opcodes
    /// with no handler yet.
    pub open spec fn dispatch(self, op: u8) -> Outcome<()> {
        if op == 0x00 {
            self.nop()
        } else if op == 0x01 || op == 0x11 || op == 0x21 || op == 0x31 {
            self.ld_r16_imm16(op)
        } else if op == 0x02 || op == 0x12 || op == 0x22 || op == 0x32 {
            self.ld_r16mem_a(op)
        } else if op == 0x03 || op == 0x13 || op == 0x23 || op == 0x33 {
            self.inc_r16(op)
        } else if op == 0x04 || op == 0x0c || op == 0x14 || op == 0x24 || op == 0x34 {
            self.inc_r8(op)
        } else if op == 0x05 || op == 0x0d || op == 0x15 || op == 0x1d || op == 0x25 || op == 0x2d
            || op == 0x35 || op == 0x3d {
            self.dec_r8(op)
        } else if op == 0x06 || op == 0x0e || op == 0x16 || op == 0x1e || op == 0x2e || op == 0x3e {
            self.ld_r8_imm8(op)
        } else if op == 0x10 {
            self.stop()
        } else if op == 0x17 {
            self.rla()
        } else if op == 0x18 {
            self.jr_imm8()
        } else if op == 0x1a {
            self.ld_a_r16mem(op)
        } else if op == 0x20 || op == 0x28 || op == 0x30 || op == 0x38 {
            self.jr_cond_imm8(op)
        } else if 0x40 <= op < 0x80 && op != 0x76 {
            self.ld_r8_r8(op)
        } else if 0x80 <= op < 0x90 {
            self.add_a_r8(op)
        } else if 0x90 <= op < 0x98 {
            self.sub_a_r8(op)
        } else if 0xa8 <= op < 0xb0 {
            self.xor_a_r8(op)
        } else if 0xb8 <= op < 0xc0 {
            self.cp_a_r8(op)
        } else if op == 0xc1 {
            self.pop_r16stk(op)
        } else if op == 0xc3 {
            self.jp_imm16()
        } else if op == 0xc5 {
            self.push_r16stk(op)
        } else if op == 0xc9 {
            self.ret()
        } else if op == 0xcd {
            self.call_imm16()
        } else if op == 0xe0 {
            self.ldh_imm8mem_a()
        } else if op == 0xe2 {
            self.ldh_cmem_a()
        } else if op == 0xea {
            self.ld_imm16mem_a()
        } else if op == 0xf0 {
            self.ldh_a_cmem()
        } else if op == 0xfa {
            self.ld_a_imm16mem()
        } else if op == 0xfe {
            self.cp_a_imm8()
        } else {
            None
        }
    }

    /// The effect of `op` from the 0xCB-prefixed table; `None` for the
    /// opcodes with no handler yet.
    #[verifier::opaque]
    pub open spec fn dispatch_cb(self, op: u8) -> Outcome<()> {
        if op == 0x11 {
            self.rl_r8(op)
        } else if op == 0x7c {
            self.bit_b3_r8(op)
        } else {
            None
        }
    }

    /// The state with the pending 0xCB prefix set to `pending`.
    pub open spec fn with_cb_prefix(self, pending: bool) -> DmgState {
        DmgState { cb_prefix: pending, ..self }
    }

    /// One round of the fetch/execute loop. `Ok(true)` when the fetched
    /// opcode is STOP (0x10), `Ok(false)` when the loop goes on: after the
    /// 0xCB prefix, or after an instruction from the table the pending prefix
    /// selects. A failure, like STOP, ends the loop and drops a pending
    /// prefix.
    #[verifier::opaque]
    pub open spec fn step(self) -> Outcome<bool> {
        match self.fetch() {
            None => None,
            Some((s, Err(e))) => Some((s.with_cb_prefix(false), Err(e))),
            Some((s, Ok(op))) => if op == 0x10 {
                Some((s.with_cb_prefix(false), Ok(true)))
            } else if op == 0xcb {
                Some((s.with_cb_prefix(true), Ok(false)))
            } else {
                let r = if s.cb_prefix {
                    s.with_cb_prefix(false).dispatch_cb(op)
                } else {
                    s.dispatch(op)
                };
                match r {
                    None => None,
                    Some((s2, Err(e))) => Some((s2, Err(e))),
                    Some((s2, Ok(()))) => Some((s2, Ok(false))),
                }
            },
        }
    }

    /// Up to `n` rounds of the loop: `Ok(true)` once STOP is fetched, the
    /// first failure, or `Ok(false)` when `n` rounds ran without either.
    pub open spec fn run(self, n: nat) -> Outcome<bool>
        decreases n,
    {
        if n == 0 {
            Some((self, Ok(false)))
        } else {
            match self.step() {
                None => None,
                Some((s, Ok(false))) => s.run((n - 1) as nat),
                Some((s, r)) => Some((s, r)),
            }
        }
    }
}

impl<'rom> SimpleDmg<'rom> {
    /// Runs the handler of `opcode` from the unprefixed table.
    fn dispatch(&mut self, opcode: u8) -> (res: Result<(), DmgError>)
        requires
            old(self)@.dispatch(opcode) is Some,
        ensures
            old(self)@.dispatch(opcode) == Some((final(self)@, res)),
    {
        proof {
            reveal(DmgState::dispatch);
        }
        match opcode {
            0x00 => self.nop(opcode),
            0x01 | 0x11 | 0x21 | 0x31 => self.ld_r16_imm16(opcode),
            0x02 | 0x12 | 0x22 | 0x32 => self.ld_r16mem_a(opcode),
            0x03 | 0x13 | 0x23 | 0x33 => self.inc_r16(opcode),
            0x04 | 0x0c | 0x14 | 0x24 | 0x34 => self.inc_r8(opcode),
            0x05 | 0x0d | 0x15 | 0x1d | 0x25 | 0x2d | 0x35 | 0x3d => self.dec_r8(opcode),
            0x06 | 0x0e | 0x16 | 0x1e | 0x2e | 0x3e => self.ld_r8_imm8(opcode),
            0x10 => self.stop(opcode),
            0x17 => self.rla(opcode),
            0x18 => self.jr_imm8(opcode),
            0x1a => self.ld_a_r16mem(opcode),
            0x20 | 0x28 | 0x30 | 0x38 => self.jr_cond_imm8(opcode),
            0x76 => Ok(()),  // no handler: excluded by the precondition
            0x40..=0x7f => self.ld_r8_r8(opcode),
            0x80..=0x8f => self.add_a_r8(opcode),
            0x90..=0x97 => self.sub_a_r8(opcode),
            0xa8..=0xaf => self.xor_a_r8(opcode),
            0xb8..=0xbf => self.cp_a_r8(opcode),
            0xc1 => self.pop_r16stk(opcode),
            0xc3 => self.jp_imm16(opcode),
            0xc5 => self.push_r16stk(opcode),
            0xc9 => self.ret(opcode),
            0xcd => self.call_imm16(opcode),
            0xe0 => self.ldh_imm8mem_a(opcode),
            0xe2 => self.ldh_cmem_a(opcode),
            0xea => self.ld_imm16mem_a(opcode),
            0xf0 => self.ldh_a_cmem(opcode),
            0xfa => self.ld_a_imm16mem(opcode),
            0xfe => self.cp_a_imm8(opcode),
            _ => Ok(()),  // no handler: excluded by the precondition
        }
    }

    /// Runs the handler of `opcode` from the 0xCB-prefixed table.
    fn dispatch_cb(&mut self, opcode: u8) -> (res: Result<(), DmgError>)
        requires
            old(self)@.dispatch_cb(opcode) is Some,
        ensures
            old(self)@.dispatch_cb(opcode) == Some((final(self)@, res)),
    {
        proof {
            reveal(DmgState::dispatch_cb);
        }
        match opcode {
            0x11 => self.rl_r8(opcode),
            0x7c => self.bit_b3_r8(opcode),
            _ => Ok(()),  // no handler: excluded by the precondition
        }
    }

    /// One round of the fetch/execute loop: fetches an opcode and runs its
    /// handler. `Ok(true)` when the opcode is STOP.
    pub fn step(&mut self) -> (res: Result<bool, DmgError>)
        requires
            old(self)@.step() is Some,
        ensures
            old(self)@.step() == Some((final(self)@, res)),
    {
        proof {
            reveal(DmgState::step);
        }
        let opcode = match self.read_pc_inc() {
            Ok(opcode) => opcode,
            Err(e) => {
                self.cb_prefix = false;
                return Err(e);
            },
        };
        // STOP
        if opcode == 0x10 {
            self.cb_prefix = false;
            return Ok(true);
        }
        // The prefix that selects the alternate set of opcodes
        if opcode == 0xcb {
            self.cb_prefix = true;
            return Ok(false);
        }
        if self.cb_prefix {
            self.cb_prefix = false;
            self.dispatch_cb(opcode)?;
            return Ok(false);
        }
        self.dispatch(opcode)?;
        Ok(false)
    }

    /// Runs the fetch/execute loop for at most `max_steps` rounds. `Ok(true)`
    /// once STOP is fetched, `Ok(false)` when the rounds ran out first.
    pub fn execute(&mut self, max_steps: u64) -> (res: Result<bool, DmgError>)
        requires
            old(self)@.run(max_steps as nat) is Some,
        ensures
            old(self)@.run(max_steps as nat) == Some((final(self)@, res)),
    {
        let ghost start = self@;
        let mut i: u64 = 0;
        while i < max_steps
            invariant
                i <= max_steps,
                start == old(self)@,
                start.run(max_steps as nat) == self@.run((max_steps - i) as nat),
                start.run(max_steps as nat) is Some,
            decreases max_steps - i,
        {
            let ghost before = self@;
            let stepped = self.step();
            assert(before.run((max_steps - i) as nat) == match before.step() {
                None => None,
                Some((s, Ok(false))) => s.run((max_steps - i - 1) as nat),
                Some((s, r)) => Some((s, r)),
            });
            match stepped {
                Err(e) => return Err(e),
                Ok(true) => return Ok(true),
                Ok(false) => {},
            }
            i += 1;
        }
        Ok(false)
    }
}

/// Whether pushing a word in `s` with the stack pointer at `sp` reaches only
/// implemented regions: the first byte's address does, and the second's does
/// too unless the first write fails.
pub open spec fn push_in_implemented(s: DmgState, sp: u16) -> bool {
    write_implemented(wrap16(sp - 1)) && (!s.write_fits(wrap16(sp - 1)) || write_implemented(
        wrap16(sp - 2),
    ))
}

/// Whether a push stays in implemented regions depends on the stack pointer
/// and the sizes of the RAM vectors alone.
proof fn lemma_push_defined(s: DmgState, n: u16)
    ensures
        s.push_word(n) is Some <==> push_in_implemented(s, s.rf.sp),
{
}

/// Only the two prefixed opcodes with a handler run.
proof fn lemma_dispatch_cb_defined(s: DmgState, op: u8)
    ensures
        s.dispatch_cb(op) is Some <==> (op == 0x11 || op == 0x7c),
{
    reveal(DmgState::dispatch_cb);
    if op == 0x11 {
        assert(without_bit4(op) == 1);
    }
}

/// When a round of the loop stays in implemented regions: the opcode fetch
/// does, and the opcode is STOP, the prefix, or one with a handler in the
/// selected table whose run does.
proof fn lemma_step_defined(s: DmgState)
    ensures
        s.step() is Some <==> match s.read(s.rf.pc) {
            None => false,
            Some(Err(_)) => true,
            Some(Ok(op)) => op == 0x10 || op == 0xcb || if s.cb_prefix {
                op == 0x11 || op == 0x7c
            } else {
                s.with_pc(wrap16(s.rf.pc + 1)).dispatch(op) is Some
            },
        },
{
    reveal(DmgState::step);
    match s.read(s.rf.pc) {
        Some(Ok(op)) => lemma_dispatch_cb_defined(
            s.with_pc(wrap16(s.rf.pc + 1)).with_cb_prefix(false),
            op,
        ),
        _ => {},
    }
}

/// Whether a read at `address` is in a region the emulator implements.
pub fn is_read_implemented(address: u16) -> (b: bool)
    ensures
        b == read_implemented(address),
{
    !((0x4000 <= address && address < 0xC000) || (0xFE00 <= address && address < 0xFEA0)
        || address == 0xFFFF)
}

/// Whether a write at `address` is in a region the emulator implements.
pub fn is_write_implemented(address: u16) -> (b: bool)
    ensures
        b == write_implemented(address),
{
    !(address < 0x8000 || (0xA000 <= address && address < 0xC000) || (0xFE00 <= address
        && address < 0xFEA0) || address == 0xFFFF)
}

impl<'rom> SimpleDmg<'rom> {
    /// What a read at `address` would give, `None` where it would reach an
    /// unimplemented region; nothing is changed.
    fn peek(&self, address: u16) -> (r: Option<Result<u8, DmgError>>)
        ensures
            r == self@.read(address),
    {
        if is_read_implemented(address) {
            Some(self.read(address))
        } else {
            None
        }
    }

    /// What fetching a 16-bit operand at `at` would give, `None` where it
    /// would reach an unimplemented region; nothing is changed.
    fn peek16(&self, at: u16) -> (r: Option<Result<u16, DmgError>>)
        ensures
            match self@.with_pc(at).fetch16() {
                None => r is None,
                Some((_, res)) => r == Some(res),
            },
    {
        match self.peek(at) {
            None => None,
            Some(Err(e)) => Some(Err(e)),
            Some(Ok(lo)) => match self.peek(at.wrapping_add(1)) {
                None => None,
                Some(Err(e)) => Some(Err(e)),
                Some(Ok(hi)) => Some(Ok(from_be_bytes(hi, lo))),
            },
        }
    }

    /// Whether a write at `address`, which must be implemented, fails.
    fn write_fails(&self, address: u16) -> (b: bool)
        requires
            write_implemented(address),
        ensures
            b == !self@.write_fits(address),
    {
        if address < 0xA000 {
            (address - 0x8000) as usize >= self.vram.len()
        } else if 0xC000 <= address && address < 0xE000 {
            (address - 0xC000) as usize >= self.ram.len()
        } else if 0xFF00 <= address && address < 0xFF80 {
            crate::io::IoRegisterOffset::from_repr(address).is_none()
        } else if 0xFF80 <= address && address < 0xFFFF {
            (address - 0xFF80) as usize + 0x2000 >= self.ram.len()
        } else {
            true
        }
    }

    /// Whether pushing a word with the stack pointer at `sp` stays in
    /// implemented regions.
    fn push_defined(&self, sp: u16) -> (b: bool)
        ensures
            b == push_in_implemented(self@, sp),
    {
        let a1 = sp.wrapping_sub(1);
        if !is_write_implemented(a1) {
            false
        } else if self.write_fails(a1) {
            true
        } else {
            is_write_implemented(a1.wrapping_sub(1))
        }
    }

    /// Whether fetching a byte with the program counter at `pc1` stays in an
    /// implemented region.
    fn fetch_defined(&self, pc1: u16) -> (b: bool)
        ensures
            b == (self@.with_pc(pc1).fetch() is Some),
    {
        self.peek(pc1).is_some()
    }

    /// Whether INC or DEC of the operand in bits 3..5 of `opcode` stays in
    /// implemented regions.
    fn inc_dec_defined(&self, opcode: u8, pc1: u16) -> (b: bool)
        requires
            opcode < 0x40,
        ensures
            b == (self@.with_pc(pc1).inc_r8(opcode) is Some),
            b == (self@.with_pc(pc1).dec_r8(opcode) is Some),
    {
        if opcode / 8 == 6 {
            let hl = from_be_bytes(self.rf.h, self.rf.l);
            match self.peek(hl) {
                None => false,
                Some(Err(_)) => true,
                Some(Ok(_)) => is_write_implemented(hl),
            }
        } else {
            true
        }
    }

    /// Whether LD r8, r8 for `opcode` stays in implemented regions.
    fn ld_r8_r8_defined(&self, opcode: u8, pc1: u16) -> (b: bool)
        ensures
            b == (self@.with_pc(pc1).ld_r8_r8(opcode) is Some),
    {
        let hl = from_be_bytes(self.rf.h, self.rf.l);
        let dst_defined = (opcode / 8) % 8 != 6 || is_write_implemented(hl);
        if opcode % 8 == 6 {
            match self.peek(hl) {
                None => false,
                Some(Err(_)) => true,
                Some(Ok(_)) => dst_defined,
            }
        } else {
            dst_defined
        }
    }

    /// Whether ADD, SUB, XOR or CP with the operand in bits 0..2 of `opcode`
    /// stays in implemented regions.
    fn alu_defined(&self, opcode: u8, pc1: u16) -> (b: bool)
        ensures
            b == (self@.with_pc(pc1).add_a_r8(opcode) is Some),
            b == (self@.with_pc(pc1).sub_a_r8(opcode) is Some),
            b == (self@.with_pc(pc1).xor_a_r8(opcode) is Some),
            b == (self@.with_pc(pc1).cp_a_r8(opcode) is Some),
    {
        opcode % 8 != 6 || is_read_implemented(from_be_bytes(self.rf.h, self.rf.l))
    }

    /// Whether popping a word stays in implemented regions.
    fn pop_defined(&self, pc1: u16) -> (b: bool)
        ensures
            b == (self@.with_pc(pc1).ret() is Some),
            b == (self@.with_pc(pc1).pop_r16stk(0xc1) is Some),
    {
        let sp = self.rf.sp;
        match self.peek(sp) {
            None => false,
            Some(Err(_)) => true,
            Some(Ok(_)) => is_read_implemented(sp.wrapping_add(1)),
        }
    }

    /// Whether an instruction that fetches a 16-bit operand stays in
    /// implemented regions.
    fn imm16_defined(&self, opcode: u8, pc1: u16) -> (b: bool)
        requires
            opcode == 0x01 || opcode == 0x11 || opcode == 0x21 || opcode == 0x31 || opcode == 0xc3
                || opcode == 0xcd || opcode == 0xea || opcode == 0xfa,
        ensures
            opcode == 0xc3 ==> b == (self@.with_pc(pc1).jp_imm16() is Some),
            opcode == 0xcd ==> b == (self@.with_pc(pc1).call_imm16() is Some),
            opcode == 0xea ==> b == (self@.with_pc(pc1).ld_imm16mem_a() is Some),
            opcode == 0xfa ==> b == (self@.with_pc(pc1).ld_a_imm16mem() is Some),
            opcode < 0x40 ==> b == (self@.with_pc(pc1).ld_r16_imm16(opcode) is Some),
    {
        match self.peek16(pc1) {
            None => false,
            Some(Err(_)) => true,
            Some(Ok(nn)) => {
                if opcode == 0xcd {
                    proof {
                        let s1 = self@.with_pc(pc1).fetch16().unwrap().0;
                        lemma_push_defined(s1, s1.rf.pc);
                    }
                    self.push_defined(self.rf.sp)
                } else if opcode == 0xea {
                    is_write_implemented(nn)
                } else if opcode == 0xfa {
                    is_read_implemented(nn)
                } else {
                    true
                }
            },
        }
    }

    /// Whether LDH (imm8), A stays in implemented regions.
    fn ldh_imm8_defined(&self, pc1: u16) -> (b: bool)
        ensures
            b == (self@.with_pc(pc1).ldh_imm8mem_a() is Some),
    {
        match self.peek(pc1) {
            None => false,
            Some(Err(_)) => true,
            Some(Ok(n)) => is_write_implemented(from_be_bytes(0xff, n)),
        }
    }

    /// Whether LDH A, (imm8) stays in implemented regions.
    fn ldh_load_defined(&self, pc1: u16) -> (b: bool)
        ensures
            b == (self@.with_pc(pc1).ldh_a_cmem() is Some),
    {
        match self.peek(pc1) {
            None => false,
            Some(Err(_)) => true,
            Some(Ok(n)) => is_read_implemented(from_be_bytes(0xff, n)),
        }
    }

    /// Whether running `opcode` from the unprefixed table, with the program
    /// counter at `pc1`, stays in implemented regions.
    fn dispatch_defined(&self, opcode: u8, pc1: u16) -> (b: bool)
        ensures
            b == (self@.with_pc(pc1).dispatch(opcode) is Some),
    {
        proof {
            reveal(DmgState::dispatch);
        }
        match opcode {
            0x00 => true,
            0x03 | 0x13 | 0x23 | 0x33 => true,
            0x10 => true,
            0x17 => true,
            0x01 | 0x11 | 0x21 | 0x31 | 0xc3 | 0xcd | 0xea | 0xfa => self.imm16_defined(opcode, pc1),
            0x02 => is_write_implemented(self.get_r16(0)),
            0x12 => is_write_implemented(self.get_r16(1)),
            0x22 | 0x32 => is_write_implemented(from_be_bytes(self.rf.h, self.rf.l)),
            0x1a => is_read_implemented(self.get_r16(1)),
            0x04 | 0x0c | 0x14 | 0x24 | 0x34 | 0x05 | 0x0d | 0x15 | 0x1d | 0x25 | 0x2d | 0x35
            | 0x3d => self.inc_dec_defined(opcode, pc1),
            0x06 | 0x0e | 0x16 | 0x1e | 0x2e | 0x3e | 0x18 | 0x20 | 0x28 | 0x30 | 0x38 | 0xfe => {
                self.fetch_defined(pc1)
            },
            0x76 => false,
            0x40..=0x7f => self.ld_r8_r8_defined(opcode, pc1),
            0x80..=0x97 | 0xa8..=0xaf | 0xb8..=0xbf => self.alu_defined(opcode, pc1),
            0xc1 | 0xc9 => self.pop_defined(pc1),
            0xc5 => {
                proof {
                    let s1 = self@.with_pc(pc1);
                    lemma_push_defined(s1, s1.r16stk(0));
                }
                self.push_defined(self.rf.sp)
            },
            0xe0 => self.ldh_imm8_defined(pc1),
            0xe2 => is_write_implemented(from_be_bytes(0xff, self.rf.c)),
            0xf0 => self.ldh_load_defined(pc1),
            _ => false,
        }
    }

    /// Whether the next round of the fetch/execute loop stays in the parts
    /// of the machine the emulator implements, so that `step` may run.
    #[verifier::spinoff_prover]
    #[verifier::rlimit(50)]
    pub fn can_step(&self) -> (b: bool)
        ensures
            b == (self@.step() is Some),
    {
        proof {
            lemma_step_defined(self@);
        }
        let pc = self.rf.pc;
        match self.peek(pc) {
            None => false,
            Some(Err(_)) => true,
            Some(Ok(opcode)) => {
                let pc1 = pc.wrapping_add(1);
                assert(pc1 == wrap16(pc + 1));
                if opcode == 0x10 || opcode == 0xcb {
                    true
                } else if self.cb_prefix {
                    opcode == 0x11 || opcode == 0x7c
                } else {
                    self.dispatch_defined(opcode, pc1)
                }
            },
        }
    }
}

impl<'rom> SimpleDmg<'rom> {
    /// A machine in the same state, with memories of its own.
    fn duplicate(&self) -> (d: SimpleDmg<'rom>)
        ensures
            d@ == self@,
    {
        let vram = self.vram.clone();
        let ram = self.ram.clone();
        assert(vram@ =~= self.vram@);
        assert(ram@ =~= self.ram@);
        SimpleDmg {
            rf: self.rf,
            vram,
            ram,
            rom: self.rom,
            boot_rom: self.boot_rom,
            boot_rom_mapped: self.boot_rom_mapped,
            ioreg: crate::io::IoRegisters { dat: self.ioreg.dat },
            cb_prefix: self.cb_prefix,
        }
    }

    /// Whether `n` rounds of the fetch/execute loop (fewer, when STOP or a
    /// failure ends the run first) stay in the parts of the machine the
    /// emulator implements, so that `execute(n)` may run. The machine is not
    /// changed: the rounds run on a copy.
    pub fn can_run(&self, n: u64) -> (b: bool)
        ensures
            b == (self@.run(n as nat) is Some),
    {
        let mut scratch = self.duplicate();
        let mut i: u64 = 0;
        while i < n
            invariant
                i <= n,
                (self@.run(n as nat) is Some) == (scratch@.run((n - i) as nat) is Some),
            decreases n - i,
        {
            let ghost before = scratch@;
            assert(before.run((n - i) as nat) == match before.step() {
                None => None,
                Some((s, Ok(false))) => s.run((n - i - 1) as nat),
                Some((s, r)) => Some((s, r)),
            });
            if !scratch.can_step() {
                return false;
            }
            match scratch.step() {
                Err(_) => return true,
                Ok(true) => return true,
                Ok(false) => {},
            }
            i += 1;
        }
        true
    }
}

} // verus!
