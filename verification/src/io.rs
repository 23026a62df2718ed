//! The memory-mapped I/O registers at 0xFF00..0xFF80.

use vstd::prelude::*;

verus! {

/// The I/O registers that are implemented, each named after its address.
#[allow(clippy::upper_case_acronyms)]
#[derive(Clone, Copy, Debug, PartialEq, Eq)]
pub enum IoRegisterOffset {
    // Audio
    NR11,
    NR12,
    NR13,
    NR14,
    NR50,
    NR51,
    NR52,
    // Display
    LCDC,
    STAT,
    SCY,
    SCX,
    LY,
    LYC,
    BGP,
    OPB0,
    OPB1,
    WY,
    WX,
    BANK,
}

impl IoRegisterOffset {
    /// The address at which the register is mapped.
    pub open spec fn address(self) -> u16 {
        match self {
            IoRegisterOffset::NR11 => 0xff11,
            IoRegisterOffset::NR12 => 0xff12,
            IoRegisterOffset::NR13 => 0xff13,
            IoRegisterOffset::NR14 => 0xff14,
            IoRegisterOffset::NR50 => 0xff24,
            IoRegisterOffset::NR51 => 0xff25,
            IoRegisterOffset::NR52 => 0xff26,
            IoRegisterOffset::LCDC => 0xff40,
            IoRegisterOffset::STAT => 0xff41,
            IoRegisterOffset::SCY => 0xff42,
            IoRegisterOffset::SCX => 0xff43,
            IoRegisterOffset::LY => 0xff44,
            IoRegisterOffset::LYC => 0xff45,
            IoRegisterOffset::BGP => 0xff47,
            IoRegisterOffset::OPB0 => 0xff48,
            IoRegisterOffset::OPB1 => 0xff49,
            IoRegisterOffset::WY => 0xff4a,
            IoRegisterOffset::WX => 0xff4b,
            IoRegisterOffset::BANK => 0xff50,
        }
    }

    /// The address at which the register is mapped.
    pub fn addr(self) -> (a: u16)
        ensures
            a == self.address(),
    {
        match self {
            IoRegisterOffset::NR11 => 0xff11,
            IoRegisterOffset::NR12 => 0xff12,
            IoRegisterOffset::NR13 => 0xff13,
            IoRegisterOffset::NR14 => 0xff14,
            IoRegisterOffset::NR50 => 0xff24,
            IoRegisterOffset::NR51 => 0xff25,
            IoRegisterOffset::NR52 => 0xff26,
            IoRegisterOffset::LCDC => 0xff40,
            IoRegisterOffset::STAT => 0xff41,
            IoRegisterOffset::SCY => 0xff42,
            IoRegisterOffset::SCX => 0xff43,
            IoRegisterOffset::LY => 0xff44,
            IoRegisterOffset::LYC => 0xff45,
            IoRegisterOffset::BGP => 0xff47,
            IoRegisterOffset::OPB0 => 0xff48,
            IoRegisterOffset::OPB1 => 0xff49,
            IoRegisterOffset::WY => 0xff4a,
            IoRegisterOffset::WX => 0xff4b,
            IoRegisterOffset::BANK => 0xff50,
        }
    }

    /// The register mapped at `address`, if one of the implemented registers
    /// is.
    pub fn from_repr(address: u16) -> (r: Option<IoRegisterOffset>)
        ensures
            match r {
                Some(reg) => reg.address() == address,
                None => forall|reg: IoRegisterOffset| #[trigger] reg.address() != address,
            },
    {
        match address {
            0xff11 => Some(IoRegisterOffset::NR11),
            0xff12 => Some(IoRegisterOffset::NR12),
            0xff13 => Some(IoRegisterOffset::NR13),
            0xff14 => Some(IoRegisterOffset::NR14),
            0xff24 => Some(IoRegisterOffset::NR50),
            0xff25 => Some(IoRegisterOffset::NR51),
            0xff26 => Some(IoRegisterOffset::NR52),
            0xff40 => Some(IoRegisterOffset::LCDC),
            0xff41 => Some(IoRegisterOffset::STAT),
            0xff42 => Some(IoRegisterOffset::SCY),
            0xff43 => Some(IoRegisterOffset::SCX),
            0xff44 => Some(IoRegisterOffset::LY),
            0xff45 => Some(IoRegisterOffset::LYC),
            0xff47 => Some(IoRegisterOffset::BGP),
            0xff48 => Some(IoRegisterOffset::OPB0),
            0xff49 => Some(IoRegisterOffset::OPB1),
            0xff4a => Some(IoRegisterOffset::WY),
            0xff4b => Some(IoRegisterOffset::WX),
            0xff50 => Some(IoRegisterOffset::BANK),
            _ => {
                assert forall|reg: IoRegisterOffset| #[trigger] reg.address() != address by {
                    match reg {
                        _ => {},
                    }
                }
                None
            },
        }
    }
}

/// Whether some implemented I/O register is mapped at `address`.
pub open spec fn is_io_register(address: u16) -> bool {
    exists|reg: IoRegisterOffset| #[trigger] reg.address() == address
}

/// The index into the I/O register block of the register mapped at `address`.
pub open spec fn io_index(address: u16) -> int {
    address - 0xff00
}

/// The block of I/O registers, one byte for each address in 0xFF00..0xFF80.
#[derive(Clone, Debug)]
pub struct IoRegisters {
    pub dat: [u8; 0x80],
}

/// The value of `reg` in the block `io`.
pub open spec fn reg_value(io: IoRegisters, reg: IoRegisterOffset) -> u8 {
    io.dat@[io_index(reg.address())]
}

impl IoRegisters {
    /// A block with every register cleared.
    pub fn new() -> (io: IoRegisters)
        ensures
            io.dat@ == Seq::new(0x80, |i: int| 0u8),
    {
        IoRegisters { dat: [0u8; 0x80] }
    }

    /// The value of `reg`.
    pub fn get_reg(&self, reg: IoRegisterOffset) -> (v: u8)
        ensures
            v == self.dat@[io_index(reg.address())],
    {
        let a = reg.addr();
        self.dat[(a - 0xff00) as usize]
    }

    /// Sets `reg` to `val`, leaving every other register as it was.
    pub fn set_reg(&mut self, reg: IoRegisterOffset, val: u8)
        ensures
            final(self).dat@ == old(self).dat@.update(io_index(reg.address()), val),
    {
        let a = reg.addr();
        self.dat[(a - 0xff00) as usize] = val;
    }
}

} // verus!
