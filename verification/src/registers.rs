//! The CPU's register file.

use vstd::prelude::*;

use crate::flags::Flags;

verus! {

/// The registers of the SM83 CPU.
#[derive(Clone, Copy, Debug, PartialEq, Eq)]
pub struct RegisterFile {
    /// Instruction register
    pub ir: u8,
    /// Interrupt enable
    pub ie: u8,
    /// Accumulator
    pub a: u8,
    /// Flags
    pub f: Flags,
    /// General purpose registers
    pub b: u8,
    pub c: u8,
    pub d: u8,
    pub e: u8,
    pub h: u8,
    pub l: u8,
    /// Program counter
    pub pc: u16,
    /// Stack pointer
    pub sp: u16,
}

/// A register file with every register cleared.
pub open spec fn cleared_registers() -> RegisterFile {
    RegisterFile {
        ir: 0,
        ie: 0,
        a: 0,
        f: Flags { bits: 0 },
        b: 0,
        c: 0,
        d: 0,
        e: 0,
        h: 0,
        l: 0,
        pc: 0,
        sp: 0,
    }
}

impl Default for RegisterFile {
    fn default() -> (rf: RegisterFile)
        ensures
            rf == cleared_registers(),
    {
        RegisterFile {
            ir: 0,
            ie: 0,
            a: 0,
            f: Flags { bits: 0 },
            b: 0,
            c: 0,
            d: 0,
            e: 0,
            h: 0,
            l: 0,
            pc: 0,
            sp: 0,
        }
    }
}

} // verus!
