//! The F register of the CPU and the four flags it holds.

use vstd::prelude::*;

verus! {

/// One of the four flags of the F register.
#[derive(Clone, Copy, Debug, PartialEq, Eq)]
pub enum Flag {
    /// Carry.
    C,
    /// Half carry.
    H,
    /// Subtraction.
    N,
    /// Zero.
    Z,
}

impl Flag {
    /// The bit of the F register that holds this flag.
    pub open spec fn bit(self) -> u8 {
        match self {
            Flag::C => 0b0001_0000,
            Flag::H => 0b0010_0000,
            Flag::N => 0b0100_0000,
            Flag::Z => 0b1000_0000,
        }
    }

    /// The bit of the F register that holds this flag.
    pub fn mask(self) -> (m: u8)
        ensures
            m == self.bit(),
    {
        match self {
            Flag::C => 0b0001_0000,
            Flag::H => 0b0010_0000,
            Flag::N => 0b0100_0000,
            Flag::Z => 0b1000_0000,
        }
    }
}

/// Whether `flag` is set in the register value `bits`.
pub open spec fn has_flag(bits: u8, flag: Flag) -> bool {
    bits & flag.bit() == flag.bit()
}

/// The register value `bits` with `flag` set to `value` and every other bit
/// kept.
pub open spec fn with_flag(bits: u8, flag: Flag, value: bool) -> u8 {
    if value {
        bits | flag.bit()
    } else {
        bits & !flag.bit()
    }
}

/// The F register. All eight bits are kept, including the four low bits that
/// no flag uses.
#[derive(Clone, Copy, Debug, PartialEq, Eq)]
pub struct Flags {
    pub bits: u8,
}

impl Default for Flags {
    fn default() -> (f: Flags)
        ensures
            f.bits == 0,
    {
        Flags { bits: 0 }
    }
}

impl Flags {
    /// A register holding exactly `bits`.
    pub fn from_bits_retain(bits: u8) -> (f: Flags)
        ensures
            f.bits == bits,
    {
        Flags { bits }
    }

    /// The raw register value.
    pub fn bits(&self) -> (b: u8)
        ensures
            b == self.bits,
    {
        self.bits
    }

    /// Whether `flag` is set.
    pub fn contains(&self, flag: Flag) -> (b: bool)
        ensures
            b == has_flag(self.bits, flag),
    {
        let m = flag.mask();
        self.bits & m == m
    }

    /// Sets `flag`.
    pub fn insert(&mut self, flag: Flag)
        ensures
            final(self).bits == with_flag(old(self).bits, flag, true),
    {
        self.bits = self.bits | flag.mask();
    }

    /// Clears `flag`.
    pub fn remove(&mut self, flag: Flag)
        ensures
            final(self).bits == with_flag(old(self).bits, flag, false),
    {
        self.bits = self.bits & !flag.mask();
    }

    /// Sets `flag` when `value` holds and clears it otherwise.
    pub fn set(&mut self, flag: Flag, value: bool)
        ensures
            final(self).bits == with_flag(old(self).bits, flag, value),
    {
        if value {
            self.insert(flag);
        } else {
            self.remove(flag);
        }
    }
}

} // verus!
