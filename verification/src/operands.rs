//! The register operands that instructions name by a small number: the
//! 8-bit registers (with `(HL)` as operand 6), the 16-bit pairs, the pairs
//! used by PUSH/POP, and the indirect pairs with post-increment and
//! post-decrement of HL.

use vstd::prelude::*;

use crate::dmg::{hi_byte, lo_byte, word, wrap16, DmgError, DmgState, Outcome, SimpleDmg};
use crate::flags::Flags;
use crate::registers::RegisterFile;

verus! {

impl DmgState {
    /// The HL register pair.
    pub open spec fn hl(self) -> u16 {
        word(self.rf.h, self.rf.l)
    }

    /// The state with the HL register pair set to `n`.
    pub open spec fn with_hl(self, n: u16) -> DmgState {
        self.with_rf(RegisterFile { h: hi_byte(n), l: lo_byte(n), ..self.rf })
    }

    /// The 8-bit operand `r`: B, C, D, E, H, L, the byte at HL, A. `None` for
    /// an operand number above 7.
    pub open spec fn r8(self, r: u8) -> Option<Result<u8, DmgError>> {
        if r == 0 {
            Some(Ok(self.rf.b))
        } else if r == 1 {
            Some(Ok(self.rf.c))
        } else if r == 2 {
            Some(Ok(self.rf.d))
        } else if r == 3 {
            Some(Ok(self.rf.e))
        } else if r == 4 {
            Some(Ok(self.rf.h))
        } else if r == 5 {
            Some(Ok(self.rf.l))
        } else if r == 6 {
            self.read(self.hl())
        } else if r == 7 {
            Some(Ok(self.rf.a))
        } else {
            None
        }
    }

    /// Stores `n` in the 8-bit operand `r`.
    pub open spec fn set_r8(self, r: u8, n: u8) -> Outcome<()> {
        if r == 0 {
            Some((self.with_rf(RegisterFile { b: n, ..self.rf }), Ok(())))
        } else if r == 1 {
            Some((self.with_rf(RegisterFile { c: n, ..self.rf }), Ok(())))
        } else if r == 2 {
            Some((self.with_rf(RegisterFile { d: n, ..self.rf }), Ok(())))
        } else if r == 3 {
            Some((self.with_rf(RegisterFile { e: n, ..self.rf }), Ok(())))
        } else if r == 4 {
            Some((self.with_rf(RegisterFile { h: n, ..self.rf }), Ok(())))
        } else if r == 5 {
            Some((self.with_rf(RegisterFile { l: n, ..self.rf }), Ok(())))
        } else if r == 6 {
            self.write(self.hl(), n)
        } else if r == 7 {
            Some((self.with_rf(RegisterFile { a: n, ..self.rf }), Ok(())))
        } else {
            None
        }
    }

    /// The 16-bit register `r` (`r < 4`): BC, DE, HL, SP.
    pub open spec fn r16(self, r: u8) -> u16
        recommends
            r < 4,
    {
        if r == 0 {
            word(self.rf.b, self.rf.c)
        } else if r == 1 {
            word(self.rf.d, self.rf.e)
        } else if r == 2 {
            self.hl()
        } else {
            self.rf.sp
        }
    }

    /// The state with the 16-bit register `r` (`r < 4`) set to `n`.
    pub open spec fn with_r16(self, r: u8, n: u16) -> DmgState
        recommends
            r < 4,
    {
        if r == 0 {
            self.with_rf(RegisterFile { b: hi_byte(n), c: lo_byte(n), ..self.rf })
        } else if r == 1 {
            self.with_rf(RegisterFile { d: hi_byte(n), e: lo_byte(n), ..self.rf })
        } else if r == 2 {
            self.with_hl(n)
        } else {
            self.with_rf(RegisterFile { sp: n, ..self.rf })
        }
    }

    /// The 16-bit register `r` (`r < 4`) as PUSH and POP name it: BC, DE, HL,
    /// AF.
    pub open spec fn r16stk(self, r: u8) -> u16
        recommends
            r < 4,
    {
        if r < 3 {
            self.r16(r)
        } else {
            word(self.rf.a, self.rf.f.bits)
        }
    }

    /// The state with the PUSH/POP register `r` (`r < 4`) set to `n`.
    pub open spec fn with_r16stk(self, r: u8, n: u16) -> DmgState
        recommends
            r < 4,
    {
        if r < 3 {
            self.with_r16(r, n)
        } else {
            self.with_rf(RegisterFile { a: hi_byte(n), f: Flags { bits: lo_byte(n) }, ..self.rf })
        }
    }

    /// A read through the indirect register `r`: (BC), (DE), (HL+), (HL-).
    /// HL steps only when the read succeeds. `None` for `r` above 3.
    pub open spec fn r16mem(self, r: u8) -> Outcome<u8> {
        if r < 2 {
            match self.read(self.r16(r)) {
                None => None,
                Some(res) => Some((self, res)),
            }
        } else if r < 4 {
            match self.read(self.hl()) {
                None => None,
                Some(Err(e)) => Some((self, Err(e))),
                Some(Ok(v)) => Some(
                    (
                        self.with_hl(
                            if r == 2 {
                                wrap16(self.hl() + 1)
                            } else {
                                wrap16(self.hl() - 1)
                            },
                        ),
                        Ok(v),
                    ),
                ),
            }
        } else {
            None
        }
    }

    /// A write of `n` through the indirect register `r`: (BC), (DE), (HL+),
    /// (HL-). HL steps only when the write succeeds. `None` for `r` above 3.
    pub open spec fn set_r16mem(self, r: u8, n: u8) -> Outcome<()> {
        if r < 2 {
            self.write(self.r16(r), n)
        } else if r < 4 {
            match self.write(self.hl(), n) {
                None => None,
                Some((s, Err(e))) => Some((s, Err(e))),
                Some((s, Ok(()))) => Some(
                    (
                        s.with_hl(
                            if r == 2 {
                                wrap16(self.hl() + 1)
                            } else {
                                wrap16(self.hl() - 1)
                            },
                        ),
                        Ok(()),
                    ),
                ),
            }
        } else {
            None
        }
    }
}

/// The assembler name of the 8-bit operand `r`.
pub open spec fn r8_name(r: u8) -> Seq<char> {
    if r == 0 {
        "B"@
    } else if r == 1 {
        "C"@
    } else if r == 2 {
        "D"@
    } else if r == 3 {
        "E"@
    } else if r == 4 {
        "H"@
    } else if r == 5 {
        "L"@
    } else if r == 6 {
        "(HL)"@
    } else {
        "A"@
    }
}

/// The assembler name of the 16-bit register `r`.
pub open spec fn r16_name(r: u8) -> Seq<char> {
    if r == 0 {
        "BC"@
    } else if r == 1 {
        "DE"@
    } else if r == 2 {
        "HL"@
    } else {
        "SP"@
    }
}

/// The assembler name of the PUSH/POP register `r`.
pub open spec fn r16stk_name(r: u8) -> Seq<char> {
    if r == 0 {
        "BC"@
    } else if r == 1 {
        "DE"@
    } else if r == 2 {
        "HL"@
    } else {
        "AF"@
    }
}

/// The assembler name of the indirect register `r`.
pub open spec fn r16mem_name(r: u8) -> Seq<char> {
    if r == 0 {
        "BC"@
    } else if r == 1 {
        "DE"@
    } else if r == 2 {
        "HL+"@
    } else {
        "HL-"@
    }
}

/// The 16-bit word with high byte `hi` and low byte `lo`.
pub(crate) fn from_be_bytes(hi: u8, lo: u8) -> (w: u16)
    ensures
        w == word(hi, lo),
{
    (hi as u16) * 256 + (lo as u16)
}

/// The high and low bytes of `n`.
pub(crate) fn to_be_bytes(n: u16) -> (bytes: (u8, u8))
    ensures
        bytes == (hi_byte(n), lo_byte(n)),
{
    ((n / 256) as u8, (n % 256) as u8)
}

impl<'rom> SimpleDmg<'rom> {
    /// The value of the 8-bit operand `r`.
    pub fn get_r8(&self, r: u8) -> (res: Result<u8, DmgError>)
        requires
            self@.r8(r) is Some,
        ensures
            self@.r8(r) == Some(res),
    {
        match r {
            0 => Ok(self.rf.b),
            1 => Ok(self.rf.c),
            2 => Ok(self.rf.d),
            3 => Ok(self.rf.e),
            4 => Ok(self.rf.h),
            5 => Ok(self.rf.l),
            6 => {
                let addr = from_be_bytes(self.rf.h, self.rf.l);
                self.read(addr)
            },
            _ => Ok(self.rf.a),
        }
    }

    /// Stores `n` in the 8-bit operand `r`.
    pub fn set_r8(&mut self, r: u8, n: u8) -> (res: Result<(), DmgError>)
        requires
            old(self)@.set_r8(r, n) is Some,
        ensures
            old(self)@.set_r8(r, n) == Some((final(self)@, res)),
    {
        match r {
            0 => self.rf.b = n,
            1 => self.rf.c = n,
            2 => self.rf.d = n,
            3 => self.rf.e = n,
            4 => self.rf.h = n,
            5 => self.rf.l = n,
            6 => {
                let addr = from_be_bytes(self.rf.h, self.rf.l);
                self.write(addr, n)?;
            },
            _ => self.rf.a = n,
        }
        Ok(())
    }

    /// The assembler name of the 8-bit operand `r`.
    pub fn get_r8_name(r: u8) -> (name: &'static str)
        requires
            r < 8,
        ensures
            name@ == r8_name(r),
    {
        match r {
            0 => "B",
            1 => "C",
            2 => "D",
            3 => "E",
            4 => "H",
            5 => "L",
            6 => "(HL)",
            _ => "A",
        }
    }

    /// The 16-bit register `r`: BC, DE, HL, SP.
    pub fn get_r16(&self, r: u8) -> (n: u16)
        requires
            r < 4,
        ensures
            n == self@.r16(r),
    {
        match r {
            0 => from_be_bytes(self.rf.b, self.rf.c),
            1 => from_be_bytes(self.rf.d, self.rf.e),
            2 => from_be_bytes(self.rf.h, self.rf.l),
            _ => self.rf.sp,
        }
    }

    /// Sets the 16-bit register `r` (BC, DE, HL, SP) to `n`.
    pub fn set_r16(&mut self, r: u8, n: u16)
        requires
            r < 4,
        ensures
            final(self)@ == old(self)@.with_r16(r, n),
    {
        let (msb, lsb) = to_be_bytes(n);
        match r {
            0 => {
                self.rf.b = msb;
                self.rf.c = lsb;
            },
            1 => {
                self.rf.d = msb;
                self.rf.e = lsb;
            },
            2 => {
                self.rf.h = msb;
                self.rf.l = lsb;
            },
            _ => {
                self.rf.sp = n;
            },
        };
    }

    /// The assembler name of the 16-bit register `r`.
    pub fn get_r16_name(r: u8) -> (name: &'static str)
        requires
            r < 4,
        ensures
            name@ == r16_name(r),
    {
        match r {
            0 => "BC",
            1 => "DE",
            2 => "HL",
            _ => "SP",
        }
    }

    /// The PUSH/POP register `r`: BC, DE, HL, AF.
    pub fn get_r16stk(&self, r: u8) -> (n: u16)
        requires
            r < 4,
        ensures
            n == self@.r16stk(r),
    {
        match r {
            0 => from_be_bytes(self.rf.b, self.rf.c),
            1 => from_be_bytes(self.rf.d, self.rf.e),
            2 => from_be_bytes(self.rf.h, self.rf.l),
            _ => from_be_bytes(self.rf.a, self.rf.f.bits()),
        }
    }

    /// Sets the PUSH/POP register `r` (BC, DE, HL, AF) to `n`; all eight bits
    /// of the low byte go to F.
    pub fn set_r16stk(&mut self, r: u8, n: u16)
        requires
            r < 4,
        ensures
            final(self)@ == old(self)@.with_r16stk(r, n),
    {
        let (msb, lsb) = to_be_bytes(n);
        if r < 3 {
            self.set_r16(r, n);
        } else {
            self.rf.a = msb;
            self.rf.f = Flags::from_bits_retain(lsb);
        }
    }

    /// The assembler name of the PUSH/POP register `r`.
    pub fn get_r16stk_name(r: u8) -> (name: &'static str)
        requires
            r < 4,
        ensures
            name@ == r16stk_name(r),
    {
        match r {
            0 => "BC",
            1 => "DE",
            2 => "HL",
            _ => "AF",
        }
    }

    /// Reads through the indirect register `r`: (BC), (DE), (HL+), (HL-).
    pub fn get_r16mem(&mut self, r: u8) -> (res: Result<u8, DmgError>)
        requires
            old(self)@.r16mem(r) is Some,
        ensures
            old(self)@.r16mem(r) == Some((final(self)@, res)),
    {
        if r < 2 {
            let addr = self.get_r16(r);
            self.read(addr)
        } else {
            let mut hl = from_be_bytes(self.rf.h, self.rf.l);
            // Fail before stepping HL.
            let res = self.read(hl)?;
            if r == 2 {
                hl = hl.wrapping_add(1);
            } else {
                hl = hl.wrapping_sub(1);
            }
            let (h, l) = to_be_bytes(hl);
            self.rf.h = h;
            self.rf.l = l;
            Ok(res)
        }
    }

    /// Writes `n` through the indirect register `r`: (BC), (DE), (HL+),
    /// (HL-).
    pub fn set_r16mem(&mut self, r: u8, n: u8) -> (res: Result<(), DmgError>)
        requires
            old(self)@.set_r16mem(r, n) is Some,
        ensures
            old(self)@.set_r16mem(r, n) == Some((final(self)@, res)),
    {
        if r < 2 {
            let addr = self.get_r16(r);
            self.write(addr, n)
        } else {
            let mut hl = from_be_bytes(self.rf.h, self.rf.l);
            self.write(hl, n)?;
            if r == 2 {
                hl = hl.wrapping_add(1);
            } else {
                hl = hl.wrapping_sub(1);
            }
            let (h, l) = to_be_bytes(hl);
            self.rf.h = h;
            self.rf.l = l;
            Ok(())
        }
    }

    /// The assembler name of the indirect register `r`.
    pub fn get_r16mem_name(r: u8) -> (name: &'static str)
        requires
            r < 4,
        ensures
            name@ == r16mem_name(r),
    {
        match r {
            0 => "BC",
            1 => "DE",
            2 => "HL+",
            _ => "HL-",
        }
    }
}

} // verus!
