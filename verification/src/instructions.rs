//! The instructions the emulator implements. Each handler gets the opcode
//! that selected it; its effect is stated as a function of the machine state
//! (`DmgState`), `None` where the emulator would stop on a part it does not
//! implement.

use vstd::prelude::*;

use crate::bitops::{
    lemma_add_half_carry, lemma_bit_test, lemma_dec_half_borrow, lemma_inc_half_carry,
    lemma_opcode_fields, lemma_rotate_left, lemma_sub_half_borrow,
};
use crate::dmg::{hi_byte, lo_byte, word, wrap16, wrap8, DmgError, DmgState, Outcome, SimpleDmg};
use crate::flags::{has_flag, with_flag, Flag, Flags};
use crate::operands::{from_be_bytes, to_be_bytes};
use crate::registers::RegisterFile;

verus! {

/// The signed value of the byte `e` read as two's complement.
pub open spec fn signed8(e: u8) -> int {
    if e < 128 {
        e as int
    } else {
        e - 256
    }
}

/// `op` with bit 4 cleared.
pub open spec fn without_bit4(op: u8) -> u8 {
    if (op / 16) % 2 == 1 {
        (op - 16) as u8
    } else {
        op
    }
}

/// `op` with bit 5 cleared.
pub open spec fn without_bit5(op: u8) -> u8 {
    if (op / 32) % 2 == 1 {
        (op - 32) as u8
    } else {
        op
    }
}

/// Whether bit `b` of `v` is set.
pub open spec fn bit_is_set(v: u8, b: u8) -> bool {
    (v >> b) & 1 != 0
}

/// The condition `cc` of a conditional jump over the flag bits: NZ, Z, NC,
/// C. `None` for `cc` above 3.
pub open spec fn condition(bits: u8, cc: u8) -> Option<bool> {
    if cc == 0 {
        Some(!has_flag(bits, Flag::Z))
    } else if cc == 1 {
        Some(has_flag(bits, Flag::Z))
    } else if cc == 2 {
        Some(!has_flag(bits, Flag::C))
    } else if cc == 3 {
        Some(has_flag(bits, Flag::C))
    } else {
        None
    }
}

impl DmgState {
    /// The F register.
    pub open spec fn flags(self) -> u8 {
        self.rf.f.bits
    }

    /// The state with the F register set to `bits`.
    pub open spec fn with_flags(self, bits: u8) -> DmgState {
        self.with_rf(RegisterFile { f: Flags { bits }, ..self.rf })
    }

    /// The state with A set to `a`.
    pub open spec fn with_a(self, a: u8) -> DmgState {
        self.with_rf(RegisterFile { a, ..self.rf })
    }

    /// The state with the stack pointer set to `sp`.
    pub open spec fn with_sp(self, sp: u16) -> DmgState {
        self.with_rf(RegisterFile { sp, ..self.rf })
    }

    /// NOP: nothing changes.
    pub open spec fn nop(self) -> Outcome<()> {
        Some((self, Ok(())))
    }

    /// LD r16, imm16: loads BC, DE, HL or SP (bits 4..5 of the opcode) with
    /// the operand.
    pub open spec fn ld_r16_imm16(self, op: u8) -> Outcome<()> {
        match self.fetch16() {
            None => None,
            Some((s, Err(e))) => Some((s, Err(e))),
            Some((s, Ok(nn))) => if op / 16 < 4 {
                Some((s.with_r16(op / 16, nn), Ok(())))
            } else {
                None
            },
        }
    }

    /// LD (r16mem), A: stores A through (BC), (DE), (HL+) or (HL-).
    pub open spec fn ld_r16mem_a(self, op: u8) -> Outcome<()> {
        self.set_r16mem(op / 16, self.rf.a)
    }

    /// LD A, (r16mem): loads A through (BC), (DE), (HL+) or (HL-).
    pub open spec fn ld_a_r16mem(self, op: u8) -> Outcome<()> {
        match self.r16mem(op / 16) {
            None => None,
            Some((s, Err(e))) => Some((s, Err(e))),
            Some((s, Ok(v))) => Some((s.with_a(v), Ok(()))),
        }
    }

    /// INC r16: increments BC, DE, HL or SP, wrapping, with no flag changed.
    pub open spec fn inc_r16(self, op: u8) -> Outcome<()> {
        if op / 16 < 4 {
            Some((self.with_r16(op / 16, wrap16(self.r16(op / 16) + 1)), Ok(())))
        } else {
            None
        }
    }

    /// INC r8: increments the operand in bits 3..5 of the opcode, wrapping.
    /// H is set when the low nibble was 0xF, N is cleared, Z tells whether
    /// the result is 0, C is kept.
    pub open spec fn inc_r8(self, op: u8) -> Outcome<()> {
        match self.r8(op / 8) {
            None => None,
            Some(Err(e)) => Some((self, Err(e))),
            Some(Ok(n)) => {
                let m = wrap8(n + 1);
                match self.set_r8(op / 8, m) {
                    None => None,
                    Some((s, Err(e))) => Some((s, Err(e))),
                    Some((s, Ok(()))) => Some(
                        (
                            s.with_flags(
                                with_flag(
                                    with_flag(with_flag(s.flags(), Flag::H, n % 16 == 15), Flag::N, false),
                                    Flag::Z,
                                    m == 0,
                                ),
                            ),
                            Ok(()),
                        ),
                    ),
                }
            },
        }
    }

    /// DEC r8: decrements the operand in bits 3..5 of the opcode, wrapping.
    /// H is set when the low nibble was 0 (a borrow from bit 4), N is set
    /// (a subtraction), Z tells whether the result is 0, C is kept.
    pub open spec fn dec_r8(self, op: u8) -> Outcome<()> {
        match self.r8(op / 8) {
            None => None,
            Some(Err(e)) => Some((self, Err(e))),
            Some(Ok(n)) => {
                let m = wrap8(n - 1);
                match self.set_r8(op / 8, m) {
                    None => None,
                    Some((s, Err(e))) => Some((s, Err(e))),
                    Some((s, Ok(()))) => Some(
                        (
                            s.with_flags(
                                with_flag(
                                    with_flag(with_flag(s.flags(), Flag::H, n % 16 == 0), Flag::N, true),
                                    Flag::Z,
                                    m == 0,
                                ),
                            ),
                            Ok(()),
                        ),
                    ),
                }
            },
        }
    }

    /// LD r8, imm8: loads the operand in bits 3..5 of the opcode with the
    /// byte after the opcode.
    pub open spec fn ld_r8_imm8(self, op: u8) -> Outcome<()> {
        match self.fetch() {
            None => None,
            Some((s, Err(e))) => Some((s, Err(e))),
            Some((s, Ok(n))) => s.set_r8(op / 8, n),
        }
    }

    /// RLA: rotates A left through the carry. C takes the old bit 7; Z, N and
    /// H are cleared.
    pub open spec fn rla(self) -> Outcome<()> {
        let a = self.rf.a;
        let carry: int = if has_flag(self.flags(), Flag::C) { 1 } else { 0 };
        let bits = with_flag(
            with_flag(with_flag(with_flag(self.flags(), Flag::Z, false), Flag::N, false), Flag::H, false),
            Flag::C,
            a >= 128,
        );
        Some((self.with_flags(bits).with_a(wrap8(a * 2 + carry)), Ok(())))
    }

    /// JR imm8: jumps by the signed byte after the opcode, counted from the
    /// address after it.
    pub open spec fn jr_imm8(self) -> Outcome<()> {
        match self.fetch() {
            None => None,
            Some((s, Err(e))) => Some((s, Err(e))),
            Some((s, Ok(e))) => Some((s.with_pc(wrap16(s.rf.pc + signed8(e))), Ok(()))),
        }
    }

    /// JR cc, imm8: like JR imm8 when the condition in bits 3..4 of the
    /// opcode holds; otherwise only skips the operand.
    pub open spec fn jr_cond_imm8(self, op: u8) -> Outcome<()> {
        match self.fetch() {
            None => None,
            Some((s, Err(e))) => Some((s, Err(e))),
            Some((s, Ok(e))) => match condition(s.flags(), without_bit5(op) / 8) {
                None => None,
                Some(true) => Some((s.with_pc(wrap16(s.rf.pc + signed8(e))), Ok(()))),
                Some(false) => Some((s, Ok(()))),
            },
        }
    }

    /// STOP, when run through its handler: fails with `DmgError::Stop`.
    pub open spec fn stop(self) -> Outcome<()> {
        Some((self, Err(DmgError::Stop)))
    }

    /// LD r8, r8: copies the operand in bits 0..2 of the opcode to the
    /// operand in bits 3..5.
    pub open spec fn ld_r8_r8(self, op: u8) -> Outcome<()> {
        match self.r8(op % 8) {
            None => None,
            Some(Err(e)) => Some((self, Err(e))),
            Some(Ok(v)) => self.set_r8((op / 8) % 8, v),
        }
    }

    /// ADD A, r8: A becomes A + r8, wrapping. Z tells whether the result is
    /// 0, N is cleared, C tells whether the sum exceeded 0xFF (a carry out
    /// of bit 7), and H tells whether the low nibbles of A and r8 add up to
    /// 0x10 or more (a carry out of bit 3).
    pub open spec fn add_a_r8(self, op: u8) -> Outcome<()> {
        match self.r8(op % 8) {
            None => None,
            Some(Err(e)) => Some((self, Err(e))),
            Some(Ok(rhs)) => {
                let result = wrap8(self.rf.a + rhs);
                let bits = with_flag(
                    with_flag(
                        with_flag(with_flag(self.flags(), Flag::Z, result == 0), Flag::N, false),
                        Flag::H,
                        self.rf.a % 16 + rhs % 16 >= 16,
                    ),
                    Flag::C,
                    self.rf.a + rhs > 0xff,
                );
                Some((self.with_a(result).with_flags(bits), Ok(())))
            },
        }
    }

    /// SUB A, r8: A becomes A - r8, wrapping. Z tells whether the result is
    /// 0, N is set, C tells whether r8 exceeded A (a borrow), and H tells
    /// whether A's low nibble is below r8's (a borrow from bit 4).
    pub open spec fn sub_a_r8(self, op: u8) -> Outcome<()> {
        match self.r8(op % 8) {
            None => None,
            Some(Err(e)) => Some((self, Err(e))),
            Some(Ok(rhs)) => {
                let result = wrap8(self.rf.a - rhs);
                let bits = with_flag(
                    with_flag(
                        with_flag(with_flag(self.flags(), Flag::Z, result == 0), Flag::N, true),
                        Flag::H,
                        self.rf.a % 16 < rhs % 16,
                    ),
                    Flag::C,
                    self.rf.a < rhs,
                );
                Some((self.with_a(result).with_flags(bits), Ok(())))
            },
        }
    }

    /// The flags after comparing A with `n`: Z when they are equal, N set, H
    /// when A's low nibble is below `n`'s, C when A is below `n`.
    pub open spec fn compare_flags(self, n: u8) -> u8 {
        with_flag(
            with_flag(
                with_flag(with_flag(self.flags(), Flag::Z, self.rf.a == n), Flag::N, true),
                Flag::H,
                self.rf.a % 16 < n % 16,
            ),
            Flag::C,
            self.rf.a < n,
        )
    }

    /// CP r8: compares A with r8 and sets the flags as a subtraction would;
    /// A is kept.
    pub open spec fn cp_a_r8(self, op: u8) -> Outcome<()> {
        match self.r8(op % 8) {
            None => None,
            Some(Err(e)) => Some((self, Err(e))),
            Some(Ok(rhs)) => Some((self.with_flags(self.compare_flags(rhs)), Ok(()))),
        }
    }

    /// XOR r8: A becomes A ^ r8. Z tells whether the result is 0; C, H and N
    /// are cleared.
    pub open spec fn xor_a_r8(self, op: u8) -> Outcome<()> {
        match self.r8(op % 8) {
            None => None,
            Some(Err(e)) => Some((self, Err(e))),
            Some(Ok(v)) => {
                let a = self.rf.a ^ v;
                let bits = with_flag(
                    with_flag(with_flag(with_flag(self.flags(), Flag::C, false), Flag::H, false), Flag::N, false),
                    Flag::Z,
                    a == 0,
                );
                Some((self.with_a(a).with_flags(bits), Ok(())))
            },
        }
    }

    /// CP imm8: compares A with the byte after the opcode.
    pub open spec fn cp_a_imm8(self) -> Outcome<()> {
        match self.fetch() {
            None => None,
            Some((s, Err(e))) => Some((s, Err(e))),
            Some((s, Ok(n))) => Some((s.with_flags(s.compare_flags(n)), Ok(()))),
        }
    }

    /// RET: pops the return address (low byte first) into the program
    /// counter.
    pub open spec fn ret(self) -> Outcome<()> {
        match self.read(self.rf.sp) {
            None => None,
            Some(Err(e)) => Some((self, Err(e))),
            Some(Ok(lo)) => {
                let s1 = self.with_sp(wrap16(self.rf.sp + 1));
                match s1.read(s1.rf.sp) {
                    None => None,
                    Some(Err(e)) => Some((s1, Err(e))),
                    Some(Ok(hi)) => Some(
                        (s1.with_sp(wrap16(s1.rf.sp + 1)).with_pc(word(hi, lo)), Ok(())),
                    ),
                }
            },
        }
    }

    /// JP imm16: jumps to the operand.
    pub open spec fn jp_imm16(self) -> Outcome<()> {
        match self.fetch16() {
            None => None,
            Some((s, Err(e))) => Some((s, Err(e))),
            Some((s, Ok(nn))) => Some((s.with_pc(nn), Ok(()))),
        }
    }

    /// Decrements the stack pointer and writes `n` where it then points.
    pub open spec fn push_byte(self, n: u8) -> Outcome<()> {
        let s = self.with_sp(wrap16(self.rf.sp - 1));
        s.write(s.rf.sp, n)
    }

    /// Pushes the 16-bit value `n`, high byte first.
    pub open spec fn push_word(self, n: u16) -> Outcome<()> {
        match self.push_byte(hi_byte(n)) {
            None => None,
            Some((s, Err(e))) => Some((s, Err(e))),
            Some((s, Ok(()))) => s.push_byte(lo_byte(n)),
        }
    }

    /// CALL imm16: pushes the address after the instruction and jumps to the
    /// operand.
    pub open spec fn call_imm16(self) -> Outcome<()> {
        match self.fetch16() {
            None => None,
            Some((s, Err(e))) => Some((s, Err(e))),
            Some((s, Ok(nn))) => match s.push_word(s.rf.pc) {
                None => None,
                Some((s2, Err(e))) => Some((s2, Err(e))),
                Some((s2, Ok(()))) => Some((s2.with_pc(nn), Ok(()))),
            },
        }
    }

    /// POP r16stk: pops the low byte, then the high byte, into the register
    /// in bits 3..5 of the opcode (BC, DE, HL, AF; `None` above that).
    pub open spec fn pop_r16stk(self, op: u8) -> Outcome<()> {
        match self.read(self.rf.sp) {
            None => None,
            Some(Err(e)) => Some((self, Err(e))),
            Some(Ok(lo)) => {
                let s1 = self.with_sp(wrap16(self.rf.sp + 1));
                match s1.read(s1.rf.sp) {
                    None => None,
                    Some(Err(e)) => Some((s1, Err(e))),
                    Some(Ok(hi)) => if (op / 8) % 8 < 4 {
                        Some(
                            (
                                s1.with_sp(wrap16(s1.rf.sp + 1)).with_r16stk(
                                    (op / 8) % 8,
                                    word(hi, lo),
                                ),
                                Ok(()),
                            ),
                        )
                    } else {
                        None
                    },
                }
            },
        }
    }

    /// PUSH r16stk: pushes the register in bits 3..5 of the opcode (BC, DE,
    /// HL, AF; `None` above that), high byte first.
    pub open spec fn push_r16stk(self, op: u8) -> Outcome<()> {
        if (op / 8) % 8 < 4 {
            self.push_word(self.r16stk((op / 8) % 8))
        } else {
            None
        }
    }

    /// LDH (C), A: stores A at 0xFF00 + C.
    pub open spec fn ldh_cmem_a(self) -> Outcome<()> {
        self.write(word(0xff, self.rf.c), self.rf.a)
    }

    /// LDH (imm8), A: stores A at 0xFF00 + the byte after the opcode.
    pub open spec fn ldh_imm8mem_a(self) -> Outcome<()> {
        match self.fetch() {
            None => None,
            Some((s, Err(e))) => Some((s, Err(e))),
            Some((s, Ok(n))) => s.write(word(0xff, n), s.rf.a),
        }
    }

    /// LD (imm16), A: stores A at the operand.
    pub open spec fn ld_imm16mem_a(self) -> Outcome<()> {
        match self.fetch16() {
            None => None,
            Some((s, Err(e))) => Some((s, Err(e))),
            Some((s, Ok(nn))) => s.write(nn, s.rf.a),
        }
    }

    /// LDH A, (imm8): loads A from 0xFF00 + the byte after the opcode.
    pub open spec fn ldh_a_cmem(self) -> Outcome<()> {
        match self.fetch() {
            None => None,
            Some((s, Err(e))) => Some((s, Err(e))),
            Some((s, Ok(n))) => match s.read(word(0xff, n)) {
                None => None,
                Some(Err(e)) => Some((s, Err(e))),
                Some(Ok(v)) => Some((s.with_a(v), Ok(()))),
            },
        }
    }

    /// LD A, (imm16): loads A from the operand.
    pub open spec fn ld_a_imm16mem(self) -> Outcome<()> {
        match self.fetch16() {
            None => None,
            Some((s, Err(e))) => Some((s, Err(e))),
            Some((s, Ok(nn))) => match s.read(nn) {
                None => None,
                Some(Err(e)) => Some((s, Err(e))),
                Some(Ok(v)) => Some((s.with_a(v), Ok(()))),
            },
        }
    }

    /// RL r8 (after the 0xCB prefix): rotates the operand (the opcode with
    /// bit 4 cleared) left through the carry. The flags are set first (Z
    /// from the result, N and H cleared, C from the old bit 7), then the
    /// result is stored.
    pub open spec fn rl_r8(self, op: u8) -> Outcome<()> {
        let r = without_bit4(op);
        match self.r8(r) {
            None => None,
            Some(Err(e)) => Some((self, Err(e))),
            Some(Ok(v)) => {
                let carry: int = if has_flag(self.flags(), Flag::C) { 1 } else { 0 };
                let m = wrap8(v * 2 + carry);
                let bits = with_flag(
                    with_flag(with_flag(with_flag(self.flags(), Flag::Z, m == 0), Flag::N, false), Flag::H, false),
                    Flag::C,
                    v >= 128,
                );
                self.with_flags(bits).set_r8(r, m)
            },
        }
    }

    /// BIT b3, r8 (after the 0xCB prefix): Z is set when bit b3 (bits 3..5
    /// of the opcode) of the operand in bits 0..2 is clear; N is cleared and
    /// H set.
    pub open spec fn bit_b3_r8(self, op: u8) -> Outcome<()> {
        match self.r8(op % 8) {
            None => None,
            Some(Err(e)) => Some((self, Err(e))),
            Some(Ok(v)) => {
                let bits = with_flag(
                    with_flag(with_flag(self.flags(), Flag::Z, !bit_is_set(v, (op / 8) % 8)), Flag::N, false),
                    Flag::H,
                    true,
                );
                Some((self.with_flags(bits), Ok(())))
            },
        }
    }
}

impl<'rom> SimpleDmg<'rom> {
    /// NOP.
    pub fn nop(&mut self, _opcode: u8) -> (res: Result<(), DmgError>)
        ensures
            old(self)@.nop() == Some((final(self)@, res)),
    {
        Ok(())
    }

    /// LD r16, imm16.
    pub fn ld_r16_imm16(&mut self, opcode: u8) -> (res: Result<(), DmgError>)
        requires
            old(self)@.ld_r16_imm16(opcode) is Some,
        ensures
            old(self)@.ld_r16_imm16(opcode) == Some((final(self)@, res)),
    {
        proof {
            lemma_opcode_fields(opcode);
        }
        let nn = self.consume_16bit_direct()?;
        self.set_r16(opcode >> 4, nn);
        Ok(())
    }

    /// LD (r16mem), A.
    pub fn ld_r16mem_a(&mut self, opcode: u8) -> (res: Result<(), DmgError>)
        requires
            old(self)@.ld_r16mem_a(opcode) is Some,
        ensures
            old(self)@.ld_r16mem_a(opcode) == Some((final(self)@, res)),
    {
        proof {
            lemma_opcode_fields(opcode);
        }
        let a = self.rf.a;
        self.set_r16mem(opcode >> 4, a)
    }

    /// LD A, (r16mem).
    pub fn ld_a_r16mem(&mut self, opcode: u8) -> (res: Result<(), DmgError>)
        requires
            old(self)@.ld_a_r16mem(opcode) is Some,
        ensures
            old(self)@.ld_a_r16mem(opcode) == Some((final(self)@, res)),
    {
        proof {
            lemma_opcode_fields(opcode);
        }
        self.rf.a = self.get_r16mem(opcode >> 4)?;
        Ok(())
    }

    /// INC r16.
    pub fn inc_r16(&mut self, opcode: u8) -> (res: Result<(), DmgError>)
        requires
            old(self)@.inc_r16(opcode) is Some,
        ensures
            old(self)@.inc_r16(opcode) == Some((final(self)@, res)),
    {
        proof {
            lemma_opcode_fields(opcode);
        }
        let reg = opcode >> 4;
        let n = self.get_r16(reg).wrapping_add(1);
        self.set_r16(reg, n);
        Ok(())
    }

    /// INC r8.
    pub fn inc_r8(&mut self, opcode: u8) -> (res: Result<(), DmgError>)
        requires
            old(self)@.inc_r8(opcode) is Some,
        ensures
            old(self)@.inc_r8(opcode) == Some((final(self)@, res)),
    {
        proof {
            lemma_opcode_fields(opcode);
        }
        let reg = opcode >> 3;
        let n = self.get_r8(reg)?;
        let new_n = n.wrapping_add(1);
        self.set_r8(reg, new_n)?;
        proof {
            lemma_inc_half_carry(n, new_n);
        }
        self.rf.f.set(Flag::H, ((n ^ 1 ^ new_n) & 0x10) == 0x10);
        self.rf.f.remove(Flag::N);
        self.rf.f.set(Flag::Z, new_n == 0);
        Ok(())
    }

    /// DEC r8.
    pub fn dec_r8(&mut self, opcode: u8) -> (res: Result<(), DmgError>)
        requires
            old(self)@.dec_r8(opcode) is Some,
        ensures
            old(self)@.dec_r8(opcode) == Some((final(self)@, res)),
    {
        proof {
            lemma_opcode_fields(opcode);
        }
        let reg = opcode >> 3;
        let n = self.get_r8(reg)?;
        let new_n = n.wrapping_sub(1);
        self.set_r8(reg, new_n)?;
        let w = (n & 0xf).wrapping_sub(1);
        proof {
            lemma_dec_half_borrow(n, w);
        }
        self.rf.f.set(Flag::H, (w & 0x10) == 0x10);
        self.rf.f.insert(Flag::N);
        self.rf.f.set(Flag::Z, new_n == 0);
        Ok(())
    }

    /// LD r8, imm8.
    pub fn ld_r8_imm8(&mut self, opcode: u8) -> (res: Result<(), DmgError>)
        requires
            old(self)@.ld_r8_imm8(opcode) is Some,
        ensures
            old(self)@.ld_r8_imm8(opcode) == Some((final(self)@, res)),
    {
        proof {
            lemma_opcode_fields(opcode);
        }
        let n = self.read_pc_inc()?;
        let reg = opcode >> 3;
        self.set_r8(reg, n)
    }

    /// RLA.
    pub fn rla(&mut self, _opcode: u8) -> (res: Result<(), DmgError>)
        ensures
            old(self)@.rla() == Some((final(self)@, res)),
    {
        let mut a = self.rf.a;
        proof {
            lemma_opcode_fields(a);
        }
        let a7 = (a & 0b10000000) >> 7;
        let carry_bit: u8 = if self.rf.f.contains(Flag::C) {
            1
        } else {
            0
        };
        proof {
            lemma_rotate_left(a, carry_bit);
        }
        a = (a << 1) | carry_bit;
        self.rf.f.remove(Flag::Z);
        self.rf.f.remove(Flag::N);
        self.rf.f.remove(Flag::H);
        self.rf.f.set(Flag::C, a7 == 1);
        self.rf.a = a;
        Ok(())
    }

    /// JR imm8.
    pub fn jr_imm8(&mut self, _opcode: u8) -> (res: Result<(), DmgError>)
        requires
            old(self)@.jr_imm8() is Some,
        ensures
            old(self)@.jr_imm8() == Some((final(self)@, res)),
    {
        let e = self.read_pc_inc()?;
        let offset: i16 = if e < 128 {
            e as i16
        } else {
            e as i16 - 256
        };
        self.rf.pc = self.rf.pc.wrapping_add_signed(offset);
        Ok(())
    }

    /// JR cc, imm8.
    pub fn jr_cond_imm8(&mut self, opcode: u8) -> (res: Result<(), DmgError>)
        requires
            old(self)@.jr_cond_imm8(opcode) is Some,
        ensures
            old(self)@.jr_cond_imm8(opcode) == Some((final(self)@, res)),
    {
        let e = self.read_pc_inc()?;
        // The condition number: the opcode with bit 5 cleared, shifted down.
        let cc = (opcode & 0xdf) >> 3;
        proof {
            lemma_opcode_fields(opcode);
            lemma_opcode_fields(opcode & 0xdf);
        }
        let cond = match cc {
            0 => !self.rf.f.contains(Flag::Z),
            1 => self.rf.f.contains(Flag::Z),
            2 => !self.rf.f.contains(Flag::C),
            _ => self.rf.f.contains(Flag::C),
        };
        if cond {
            let offset: i16 = if e < 128 {
                e as i16
            } else {
                e as i16 - 256
            };
            self.rf.pc = self.rf.pc.wrapping_add_signed(offset);
        }
        Ok(())
    }

    /// STOP.
    pub fn stop(&mut self, _opcode: u8) -> (res: Result<(), DmgError>)
        ensures
            old(self)@.stop() == Some((final(self)@, res)),
    {
        Err(DmgError::Stop)
    }

    /// LD r8, r8.
    pub fn ld_r8_r8(&mut self, opcode: u8) -> (res: Result<(), DmgError>)
        requires
            old(self)@.ld_r8_r8(opcode) is Some,
        ensures
            old(self)@.ld_r8_r8(opcode) == Some((final(self)@, res)),
    {
        proof {
            lemma_opcode_fields(opcode);
        }
        let r_dst = (opcode << 2) >> 5;
        let r_src = opcode & 0x7;
        let v = self.get_r8(r_src)?;
        self.set_r8(r_dst, v)
    }

    /// ADD A, r8.
    pub fn add_a_r8(&mut self, opcode: u8) -> (res: Result<(), DmgError>)
        requires
            old(self)@.add_a_r8(opcode) is Some,
        ensures
            old(self)@.add_a_r8(opcode) == Some((final(self)@, res)),
    {
        proof {
            lemma_opcode_fields(opcode);
        }
        let reg = opcode & 0x7;
        let rhs = self.get_r8(reg)?;
        let result = self.rf.a.wrapping_add(rhs);
        let carry = (self.rf.a as u16) + (rhs as u16) > 0xff;
        // The carry out of bit 3, from A before the addition.
        let w = (self.rf.a & 0xf).wrapping_add(rhs & 0xf);
        proof {
            lemma_add_half_carry(self.rf.a, rhs, w);
        }
        let half_carry = (w & 0x10) == 0x10;
        self.rf.a = result;
        self.rf.f.set(Flag::Z, result == 0);
        self.rf.f.remove(Flag::N);
        self.rf.f.set(Flag::H, half_carry);
        self.rf.f.set(Flag::C, carry);
        Ok(())
    }

    /// SUB A, r8.
    pub fn sub_a_r8(&mut self, opcode: u8) -> (res: Result<(), DmgError>)
        requires
            old(self)@.sub_a_r8(opcode) is Some,
        ensures
            old(self)@.sub_a_r8(opcode) == Some((final(self)@, res)),
    {
        proof {
            lemma_opcode_fields(opcode);
        }
        let reg = opcode & 0x7;
        let rhs = self.get_r8(reg)?;
        let result = self.rf.a.wrapping_sub(rhs);
        let carry = self.rf.a < rhs;
        // The borrow from bit 4, from A before the subtraction.
        let w = (self.rf.a & 0xf).wrapping_sub(rhs & 0xf);
        proof {
            lemma_sub_half_borrow(self.rf.a, rhs, w);
        }
        let half_borrow = (w & 0x10) == 0x10;
        self.rf.a = result;
        self.rf.f.set(Flag::Z, result == 0);
        self.rf.f.insert(Flag::N);
        self.rf.f.set(Flag::H, half_borrow);
        self.rf.f.set(Flag::C, carry);
        Ok(())
    }

    /// Sets the flags as comparing A with `n` does.
    fn compare(&mut self, n: u8)
        ensures
            final(self)@ == old(self)@.with_flags(old(self)@.compare_flags(n)),
    {
        let result = self.rf.a.wrapping_sub(n);
        let carry = self.rf.a < n;
        self.rf.f.set(Flag::Z, result == 0);
        self.rf.f.insert(Flag::N);
        let w = (self.rf.a & 0xf).wrapping_sub(n & 0xf);
        proof {
            lemma_sub_half_borrow(self.rf.a, n, w);
        }
        self.rf.f.set(Flag::H, (w & 0x10) == 0x10);
        self.rf.f.set(Flag::C, carry);
    }

    /// CP r8.
    pub fn cp_a_r8(&mut self, opcode: u8) -> (res: Result<(), DmgError>)
        requires
            old(self)@.cp_a_r8(opcode) is Some,
        ensures
            old(self)@.cp_a_r8(opcode) == Some((final(self)@, res)),
    {
        proof {
            lemma_opcode_fields(opcode);
        }
        let reg = opcode & 0x7;
        let rhs = self.get_r8(reg)?;
        self.compare(rhs);
        Ok(())
    }

    /// XOR r8.
    pub fn xor_a_r8(&mut self, opcode: u8) -> (res: Result<(), DmgError>)
        requires
            old(self)@.xor_a_r8(opcode) is Some,
        ensures
            old(self)@.xor_a_r8(opcode) == Some((final(self)@, res)),
    {
        proof {
            lemma_opcode_fields(opcode);
        }
        let v = self.get_r8((opcode << 5) >> 5)?;
        self.rf.a = self.rf.a ^ v;
        self.rf.f.remove(Flag::C);
        self.rf.f.remove(Flag::H);
        self.rf.f.remove(Flag::N);
        self.rf.f.set(Flag::Z, self.rf.a == 0);
        Ok(())
    }

    /// CP imm8.
    pub fn cp_a_imm8(&mut self, _opcode: u8) -> (res: Result<(), DmgError>)
        requires
            old(self)@.cp_a_imm8() is Some,
        ensures
            old(self)@.cp_a_imm8() == Some((final(self)@, res)),
    {
        let n = self.read_pc_inc()?;
        self.compare(n);
        Ok(())
    }

    /// RET.
    pub fn ret(&mut self, _opcode: u8) -> (res: Result<(), DmgError>)
        requires
            old(self)@.ret() is Some,
        ensures
            old(self)@.ret() == Some((final(self)@, res)),
    {
        let nn_lsb = self.read(self.rf.sp)?;
        self.rf.sp = self.rf.sp.wrapping_add(1);
        let nn_msb = self.read(self.rf.sp)?;
        self.rf.sp = self.rf.sp.wrapping_add(1);
        self.rf.pc = from_be_bytes(nn_msb, nn_lsb);
        Ok(())
    }

    /// JP imm16.
    pub fn jp_imm16(&mut self, _opcode: u8) -> (res: Result<(), DmgError>)
        requires
            old(self)@.jp_imm16() is Some,
        ensures
            old(self)@.jp_imm16() == Some((final(self)@, res)),
    {
        let nn = self.consume_16bit_direct()?;
        self.rf.pc = nn;
        Ok(())
    }

    /// Pushes `n`, high byte first.
    fn push_word(&mut self, n: u16) -> (res: Result<(), DmgError>)
        requires
            old(self)@.push_word(n) is Some,
        ensures
            old(self)@.push_word(n) == Some((final(self)@, res)),
    {
        let (msb, lsb) = to_be_bytes(n);
        self.rf.sp = self.rf.sp.wrapping_sub(1);
        self.write(self.rf.sp, msb)?;
        self.rf.sp = self.rf.sp.wrapping_sub(1);
        self.write(self.rf.sp, lsb)
    }

    /// CALL imm16.
    pub fn call_imm16(&mut self, _opcode: u8) -> (res: Result<(), DmgError>)
        requires
            old(self)@.call_imm16() is Some,
        ensures
            old(self)@.call_imm16() == Some((final(self)@, res)),
    {
        let nn = self.consume_16bit_direct()?;
        let pc = self.rf.pc;
        self.push_word(pc)?;
        self.rf.pc = nn;
        Ok(())
    }

    /// POP r16stk.
    pub fn pop_r16stk(&mut self, opcode: u8) -> (res: Result<(), DmgError>)
        requires
            old(self)@.pop_r16stk(opcode) is Some,
        ensures
            old(self)@.pop_r16stk(opcode) == Some((final(self)@, res)),
    {
        proof {
            lemma_opcode_fields(opcode);
        }
        let reg = (opcode << 2) >> 5;
        let lsb = self.read(self.rf.sp)?;
        self.rf.sp = self.rf.sp.wrapping_add(1);
        let msb = self.read(self.rf.sp)?;
        self.rf.sp = self.rf.sp.wrapping_add(1);
        self.set_r16stk(reg, from_be_bytes(msb, lsb));
        Ok(())
    }

    /// PUSH r16stk.
    pub fn push_r16stk(&mut self, opcode: u8) -> (res: Result<(), DmgError>)
        requires
            old(self)@.push_r16stk(opcode) is Some,
        ensures
            old(self)@.push_r16stk(opcode) == Some((final(self)@, res)),
    {
        proof {
            lemma_opcode_fields(opcode);
        }
        let reg = (opcode << 2) >> 5;
        let n = self.get_r16stk(reg);
        self.push_word(n)
    }

    /// LDH (C), A.
    pub fn ldh_cmem_a(&mut self, _opcode: u8) -> (res: Result<(), DmgError>)
        requires
            old(self)@.ldh_cmem_a() is Some,
        ensures
            old(self)@.ldh_cmem_a() == Some((final(self)@, res)),
    {
        let address = from_be_bytes(0xff, self.rf.c);
        self.write(address, self.rf.a)
    }

    /// LDH (imm8), A.
    pub fn ldh_imm8mem_a(&mut self, _opcode: u8) -> (res: Result<(), DmgError>)
        requires
            old(self)@.ldh_imm8mem_a() is Some,
        ensures
            old(self)@.ldh_imm8mem_a() == Some((final(self)@, res)),
    {
        let n = self.read_pc_inc()?;
        let address = from_be_bytes(0xff, n);
        self.write(address, self.rf.a)
    }

    /// LD (imm16), A.
    pub fn ld_imm16mem_a(&mut self, _opcode: u8) -> (res: Result<(), DmgError>)
        requires
            old(self)@.ld_imm16mem_a() is Some,
        ensures
            old(self)@.ld_imm16mem_a() == Some((final(self)@, res)),
    {
        let nn = self.consume_16bit_direct()?;
        self.write(nn, self.rf.a)
    }

    /// LDH A, (imm8).
    pub fn ldh_a_cmem(&mut self, _opcode: u8) -> (res: Result<(), DmgError>)
        requires
            old(self)@.ldh_a_cmem() is Some,
        ensures
            old(self)@.ldh_a_cmem() == Some((final(self)@, res)),
    {
        let n = self.read_pc_inc()?;
        self.rf.a = self.read(from_be_bytes(0xff, n))?;
        Ok(())
    }

    /// LD A, (imm16).
    pub fn ld_a_imm16mem(&mut self, _opcode: u8) -> (res: Result<(), DmgError>)
        requires
            old(self)@.ld_a_imm16mem() is Some,
        ensures
            old(self)@.ld_a_imm16mem() == Some((final(self)@, res)),
    {
        let nn = self.consume_16bit_direct()?;
        self.rf.a = self.read(nn)?;
        Ok(())
    }

    /// RL r8 (0xCB-prefixed).
    pub fn rl_r8(&mut self, opcode: u8) -> (res: Result<(), DmgError>)
        requires
            old(self)@.rl_r8(opcode) is Some,
        ensures
            old(self)@.rl_r8(opcode) == Some((final(self)@, res)),
    {
        // The operand: the opcode with bit 4 cleared.
        proof {
            lemma_opcode_fields(opcode);
        }
        let reg = opcode & 0xef;
        let mut curr = self.get_r8(reg)?;
        proof {
            lemma_opcode_fields(curr);
        }
        let curr7 = (curr & 0b10000000) >> 7;
        let carry_bit: u8 = if self.rf.f.contains(Flag::C) {
            1
        } else {
            0
        };
        proof {
            lemma_rotate_left(curr, carry_bit);
        }
        curr = (curr << 1) | carry_bit;
        self.rf.f.set(Flag::Z, curr == 0);
        self.rf.f.remove(Flag::N);
        self.rf.f.remove(Flag::H);
        self.rf.f.set(Flag::C, curr7 == 1);
        self.set_r8(reg, curr)
    }

    /// BIT b3, r8 (0xCB-prefixed).
    pub fn bit_b3_r8(&mut self, opcode: u8) -> (res: Result<(), DmgError>)
        requires
            old(self)@.bit_b3_r8(opcode) is Some,
        ensures
            old(self)@.bit_b3_r8(opcode) == Some((final(self)@, res)),
    {
        proof {
            lemma_opcode_fields(opcode);
        }
        let bit = (opcode << 2) >> 5;
        let reg = opcode & 0x7;
        let v = self.get_r8(reg)?;
        proof {
            lemma_bit_test(v, bit);
        }
        if v & (1u8 << bit) == 0 {
            self.rf.f.insert(Flag::Z);
        } else {
            self.rf.f.remove(Flag::Z);
        }
        self.rf.f.remove(Flag::N);
        self.rf.f.insert(Flag::H);
        Ok(())
    }
}

} // verus!
