//! The emulated machine: its state, its abstract model, and the memory map
//! through which the CPU reads and writes.

use vstd::prelude::*;

use crate::io::{io_index, is_io_register, IoRegisterOffset, IoRegisters};
use crate::memory_map::{HRAM_SIZE, VRAM_SIZE, WRAM_SIZE};
use crate::registers::{cleared_registers, RegisterFile};

verus! {

/// Why an access or an instruction failed.
#[derive(Clone, Copy, Debug, PartialEq, Eq)]
pub enum DmgError {
    /// A read in 0x0000..0x4000 past the end of the ROM (or boot ROM).
    RomRead(u16),
    /// A read in work RAM or high RAM past the end of the RAM.
    RamRead(u16),
    /// A read in echo RAM or in the unusable region.
    InvalidRead(u16),
    /// An access in 0xFF00..0xFF80 at an address with no I/O register.
    UnimplementedIoRegister(u16),
    /// A write in echo RAM, in the unusable region, or past the end of video,
    /// work or high RAM.
    InvalidWrite(u16),
    /// The STOP instruction was executed through its handler.
    Stop,
}

/// The emulated machine.
pub struct SimpleDmg<'rom> {
    pub rf: RegisterFile,
    /// Video RAM, mapped at 0x8000.
    pub vram: Vec<u8>,
    /// Work RAM (mapped at 0xC000) followed by high RAM (mapped at 0xFF80).
    pub ram: Vec<u8>,
    pub rom: &'rom [u8],
    pub boot_rom: &'rom [u8],
    /// Whether the boot ROM still shadows the first 0x100 bytes of the ROM.
    pub boot_rom_mapped: bool,
    pub ioreg: IoRegisters,
    /// Set once the 0xCB prefix byte has been fetched: the next opcode is
    /// taken from the prefixed table.
    pub cb_prefix: bool,
}

/// The abstract state of the machine.
pub struct DmgState {
    pub rf: RegisterFile,
    pub vram: Seq<u8>,
    pub ram: Seq<u8>,
    pub rom: Seq<u8>,
    pub boot_rom: Seq<u8>,
    pub boot_rom_mapped: bool,
    pub io: Seq<u8>,
    pub cb_prefix: bool,
}

impl<'rom> View for SimpleDmg<'rom> {
    type V = DmgState;

    open spec fn view(&self) -> DmgState {
        DmgState {
            rf: self.rf,
            vram: self.vram@,
            ram: self.ram@,
            rom: self.rom@,
            boot_rom: self.boot_rom@,
            boot_rom_mapped: self.boot_rom_mapped,
            io: self.ioreg.dat@,
            cb_prefix: self.cb_prefix,
        }
    }
}

/// What a step of the machine yields: `None` where the emulator stops on a
/// part of the hardware that it does not implement, otherwise the state
/// afterwards (also after a failure, which may come after some of the
/// instruction's effects) and the result.
pub type Outcome<T> = Option<(DmgState, Result<T, DmgError>)>;

/// `x` reduced to 16 bits.
pub open spec fn wrap16(x: int) -> u16 {
    (x % 0x10000) as u16
}

/// `x` reduced to 8 bits.
pub open spec fn wrap8(x: int) -> u8 {
    (x % 0x100) as u8
}

/// The 16-bit word with high byte `hi` and low byte `lo`.
pub open spec fn word(hi: u8, lo: u8) -> u16 {
    (hi * 0x100 + lo) as u16
}

/// The high byte of `n`.
pub open spec fn hi_byte(n: u16) -> u8 {
    (n / 0x100) as u8
}

/// The low byte of `n`.
pub open spec fn lo_byte(n: u16) -> u8 {
    (n % 0x100) as u8
}

/// Whether a read at `address` is in a region the emulator implements.
pub open spec fn read_implemented(address: u16) -> bool {
    !(0x4000 <= address < 0xC000 || 0xFE00 <= address < 0xFEA0 || address == 0xFFFF)
}

/// Whether a write at `address` is in a region the emulator implements.
pub open spec fn write_implemented(address: u16) -> bool {
    !(address < 0x8000 || 0xA000 <= address < 0xC000 || 0xFE00 <= address < 0xFEA0 || address
        == 0xFFFF)
}

/// The index into the RAM vector of a high RAM address.
pub open spec fn hram_index(address: u16) -> int {
    address - 0xFF80 + 0x2000
}

/// The byte at `i` of `s`, or `err` when `s` is too short.
pub open spec fn byte_at(s: Seq<u8>, i: int, err: DmgError) -> Result<u8, DmgError> {
    if i < s.len() {
        Ok(s[i])
    } else {
        Err(err)
    }
}

/// `s` with the byte at `i` replaced, or `err` when `s` is too short.
pub open spec fn store_at(s: Seq<u8>, i: int, data: u8, err: DmgError) -> Result<Seq<u8>, DmgError> {
    if i < s.len() {
        Ok(s.update(i, data))
    } else {
        Err(err)
    }
}

impl DmgState {
    /// The I/O block holds one byte for each address in 0xFF00..0xFF80, as it
    /// does in every machine.
    pub open spec fn wf(self) -> bool {
        self.io.len() == 0x80
    }

    /// What a read at `address` gives.
    pub open spec fn read(self, address: u16) -> Option<Result<u8, DmgError>> {
        if !read_implemented(address) {
            None
        } else if address < 0x4000 {
            if self.boot_rom_mapped && address < 0x100 {
                Some(byte_at(self.boot_rom, address as int, DmgError::RomRead(address)))
            } else {
                Some(byte_at(self.rom, address as int, DmgError::RomRead(address)))
            }
        } else if 0xC000 <= address < 0xE000 {
            Some(byte_at(self.ram, address - 0xC000, DmgError::RamRead(address)))
        } else if 0xFF00 <= address < 0xFF80 {
            if is_io_register(address) {
                Some(Ok(self.io[io_index(address)]))
            } else {
                Some(Err(DmgError::UnimplementedIoRegister(address)))
            }
        } else if 0xFF80 <= address < 0xFFFF {
            Some(byte_at(self.ram, hram_index(address), DmgError::RamRead(address)))
        } else {
            Some(Err(DmgError::InvalidRead(address)))
        }
    }

    /// What a write of `data` at `address` does. A failed write changes
    /// nothing.
    pub open spec fn write(self, address: u16, data: u8) -> Outcome<()> {
        if !write_implemented(address) {
            None
        } else if address < 0xA000 {
            match store_at(self.vram, address - 0x8000, data, DmgError::InvalidWrite(address)) {
                Ok(vram) => Some((DmgState { vram, ..self }, Ok(()))),
                Err(e) => Some((self, Err(e))),
            }
        } else if 0xC000 <= address < 0xE000 {
            match store_at(self.ram, address - 0xC000, data, DmgError::InvalidWrite(address)) {
                Ok(ram) => Some((DmgState { ram, ..self }, Ok(()))),
                Err(e) => Some((self, Err(e))),
            }
        } else if 0xFF00 <= address < 0xFF80 {
            if is_io_register(address) {
                Some((DmgState { io: self.io.update(io_index(address), data), ..self }, Ok(())))
            } else {
                Some((self, Err(DmgError::UnimplementedIoRegister(address))))
            }
        } else if 0xFF80 <= address < 0xFFFF {
            match store_at(self.ram, hram_index(address), data, DmgError::InvalidWrite(address)) {
                Ok(ram) => Some((DmgState { ram, ..self }, Ok(()))),
                Err(e) => Some((self, Err(e))),
            }
        } else {
            Some((self, Err(DmgError::InvalidWrite(address))))
        }
    }

    /// Whether a write at the implemented address `address` succeeds: the
    /// address lies inside video, work or high RAM as allocated, or names an
    /// I/O register.
    pub open spec fn write_fits(self, address: u16) -> bool {
        if address < 0xA000 {
            address - 0x8000 < self.vram.len()
        } else if 0xC000 <= address < 0xE000 {
            address - 0xC000 < self.ram.len()
        } else if 0xFF00 <= address < 0xFF80 {
            is_io_register(address)
        } else if 0xFF80 <= address < 0xFFFF {
            hram_index(address) < self.ram.len()
        } else {
            false
        }
    }

    /// The state with the register file replaced.
    pub open spec fn with_rf(self, rf: RegisterFile) -> DmgState {
        DmgState { rf, ..self }
    }

    /// The state with the program counter set to `pc`.
    pub open spec fn with_pc(self, pc: u16) -> DmgState {
        self.with_rf(RegisterFile { pc, ..self.rf })
    }

    /// A read at `address` followed by an increment of the program counter,
    /// which happens whether or not the read succeeds.
    pub open spec fn read_inc(self, address: u16) -> Outcome<u8> {
        match self.read(address) {
            None => None,
            Some(r) => Some((self.with_pc(wrap16(self.rf.pc + 1)), r)),
        }
    }

    /// Fetches the byte at the program counter and advances it.
    pub open spec fn fetch(self) -> Outcome<u8> {
        self.read_inc(self.rf.pc)
    }

    /// Fetches a little-endian 16-bit operand at the program counter.
    pub open spec fn fetch16(self) -> Outcome<u16> {
        match self.fetch() {
            None => None,
            Some((s1, Err(e))) => Some((s1, Err(e))),
            Some((s1, Ok(lo))) => match s1.fetch() {
                None => None,
                Some((s2, Err(e))) => Some((s2, Err(e))),
                Some((s2, Ok(hi))) => Some((s2, Ok(word(hi, lo)))),
            },
        }
    }
}

/// The state of a machine built by `new_with_bootrom`.
pub open spec fn power_on_state(boot_rom: Seq<u8>, rom: Seq<u8>) -> DmgState {
    DmgState {
        rf: cleared_registers(),
        vram: Seq::new(0x2000, |i: int| 0u8),
        ram: Seq::new(0x2080, |i: int| 0u8),
        rom,
        boot_rom,
        boot_rom_mapped: true,
        io: Seq::new(0x80, |i: int| 0u8),
        cb_prefix: false,
    }
}

impl<'rom> SimpleDmg<'rom> {
    /// A machine at power-on: registers and memory cleared, the boot ROM
    /// mapped over the start of the cartridge ROM.
    pub fn new_with_bootrom(boot_rom: &'rom [u8], rom: &'rom [u8]) -> (dmg: SimpleDmg<'rom>)
        ensures
            dmg@ == power_on_state(boot_rom@, rom@),
    {
        let ram = vec![0u8; WRAM_SIZE + HRAM_SIZE];
        let vram = vec![0u8; VRAM_SIZE];
        let dmg = SimpleDmg {
            rf: RegisterFile::default(),
            ram,
            vram,
            rom,
            boot_rom,
            boot_rom_mapped: true,
            ioreg: IoRegisters::new(),
            cb_prefix: false,
        };
        assert(dmg@.ram =~= Seq::new(0x2080, |i: int| 0u8));
        assert(dmg@.vram =~= Seq::new(0x2000, |i: int| 0u8));
        dmg
    }

    /// Reads the byte at `address`.
    pub fn read(&self, address: u16) -> (res: Result<u8, DmgError>)
        requires
            self@.read(address) is Some,
        ensures
            self@.read(address) == Some(res),
    {
        if address < 0x4000 {
            // 16 KiB ROM bank 00
            let actual_addr = address as usize;
            if self.boot_rom_mapped && actual_addr < 0x100 {
                if actual_addr < self.boot_rom.len() {
                    Ok(self.boot_rom[actual_addr])
                } else {
                    Err(DmgError::RomRead(address))
                }
            } else if actual_addr < self.rom.len() {
                Ok(self.rom[actual_addr])
            } else {
                Err(DmgError::RomRead(address))
            }
        } else if 0xC000 <= address && address < 0xE000 {
            // 8 KiB work RAM
            let actual_addr = (address - 0xC000) as usize;
            if actual_addr < self.ram.len() {
                Ok(self.ram[actual_addr])
            } else {
                Err(DmgError::RamRead(address))
            }
        } else if 0xFF00 <= address && address < 0xFF80 {
            // I/O registers
            match IoRegisterOffset::from_repr(address) {
                Some(reg) => Ok(self.ioreg.get_reg(reg)),
                None => Err(DmgError::UnimplementedIoRegister(address)),
            }
        } else if 0xFF80 <= address && address < 0xFFFF {
            // High RAM, stored after work RAM
            let actual_addr = (address - 0xFF80) as usize + VRAM_SIZE;
            if actual_addr < self.ram.len() {
                Ok(self.ram[actual_addr])
            } else {
                Err(DmgError::RamRead(address))
            }
        } else {
            // Echo RAM and the unusable region
            Err(DmgError::InvalidRead(address))
        }
    }

    /// Writes `data` at `address`.
    pub fn write(&mut self, address: u16, data: u8) -> (res: Result<(), DmgError>)
        requires
            old(self)@.write(address, data) is Some,
        ensures
            old(self)@.write(address, data) == Some((final(self)@, res)),
    {
        if address < 0xA000 {
            // 8 KiB video RAM
            let actual_addr = (address - 0x8000) as usize;
            if actual_addr < self.vram.len() {
                self.vram.set(actual_addr, data);
                Ok(())
            } else {
                Err(DmgError::InvalidWrite(address))
            }
        } else if 0xC000 <= address && address < 0xE000 {
            // 8 KiB work RAM
            let actual_addr = (address - 0xC000) as usize;
            if actual_addr < self.ram.len() {
                self.ram.set(actual_addr, data);
                Ok(())
            } else {
                Err(DmgError::InvalidWrite(address))
            }
        } else if 0xFF00 <= address && address < 0xFF80 {
            // I/O registers
            match IoRegisterOffset::from_repr(address) {
                Some(reg) => {
                    self.ioreg.set_reg(reg, data);
                    Ok(())
                },
                None => Err(DmgError::UnimplementedIoRegister(address)),
            }
        } else if 0xFF80 <= address && address < 0xFFFF {
            // High RAM, stored after work RAM
            let actual_addr = (address - 0xFF80) as usize + VRAM_SIZE;
            if actual_addr < self.ram.len() {
                self.ram.set(actual_addr, data);
                Ok(())
            } else {
                Err(DmgError::InvalidWrite(address))
            }
        } else {
            // Echo RAM and the unusable region
            Err(DmgError::InvalidWrite(address))
        }
    }

    /// Reads at `address`, then advances the program counter by one, also
    /// when the read fails (so that it points past the failed byte).
    pub fn read_inc(&mut self, address: u16) -> (res: Result<u8, DmgError>)
        requires
            old(self)@.read_inc(address) is Some,
        ensures
            old(self)@.read_inc(address) == Some((final(self)@, res)),
    {
        let res = self.read(address);
        self.rf.pc = self.rf.pc.wrapping_add(1);
        res
    }

    /// Fetches the byte at the program counter and advances it.
    pub fn read_pc_inc(&mut self) -> (res: Result<u8, DmgError>)
        requires
            old(self)@.fetch() is Some,
        ensures
            old(self)@.fetch() == Some((final(self)@, res)),
    {
        self.read_inc(self.rf.pc)
    }

    /// Fetches a little-endian 16-bit operand at the program counter.
    pub fn consume_16bit_direct(&mut self) -> (res: Result<u16, DmgError>)
        requires
            old(self)@.fetch16() is Some,
        ensures
            old(self)@.fetch16() == Some((final(self)@, res)),
    {
        let nn_lsb = self.read_pc_inc()?;
        let nn_msb = self.read_pc_inc()?;
        Ok((nn_msb as u16) * 256 + (nn_lsb as u16))
    }
}

} // verus!
