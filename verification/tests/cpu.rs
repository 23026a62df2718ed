use simple_dmg::dmg::{DmgError, SimpleDmg};
use simple_dmg::flags::{Flag, Flags};
use simple_dmg::io::IoRegisterOffset;

/// A machine whose ROM is `program` (at 0x0000) with the boot ROM unmapped.
fn machine(program: &[u8]) -> SimpleDmg<'_> {
    let mut dmg = SimpleDmg::new_with_bootrom(&[], program);
    dmg.boot_rom_mapped = false;
    dmg
}

#[test]
fn power_on_state() {
    let boot = [0u8; 256];
    let rom = [0u8; 0x8000];
    let dmg = SimpleDmg::new_with_bootrom(&boot, &rom);
    assert_eq!(dmg.rf.pc, 0);
    assert_eq!(dmg.rf.sp, 0);
    assert_eq!(dmg.rf.a, 0);
    assert_eq!(dmg.rf.f.bits(), 0);
    assert!(dmg.boot_rom_mapped);
    assert!(!dmg.cb_prefix);
    assert_eq!(dmg.vram.len(), 0x2000);
    assert_eq!(dmg.ram.len(), 0x2080);
    assert!(dmg.vram.iter().all(|&b| b == 0));
    assert!(dmg.ram.iter().all(|&b| b == 0));
}

#[test]
fn boot_rom_shadows_the_start_of_the_rom() {
    let boot = [0xAAu8; 0x100];
    let mut rom = vec![0x55u8; 0x200];
    rom[0x150] = 0x77;
    let mut dmg = SimpleDmg::new_with_bootrom(&boot, &rom);
    assert_eq!(dmg.read(0x0000), Ok(0xAA));
    assert_eq!(dmg.read(0x00FF), Ok(0xAA));
    assert_eq!(dmg.read(0x0100), Ok(0x55));
    assert_eq!(dmg.read(0x0150), Ok(0x77));
    dmg.boot_rom_mapped = false;
    assert_eq!(dmg.read(0x0000), Ok(0x55));
}

#[test]
fn rom_read_past_the_end_fails() {
    let rom = [1u8, 2, 3];
    let dmg = machine(&rom);
    assert_eq!(dmg.read(2), Ok(3));
    assert_eq!(dmg.read(3), Err(DmgError::RomRead(3)));
    assert_eq!(dmg.read(0x3FFF), Err(DmgError::RomRead(0x3FFF)));
    let short_boot = [9u8; 4];
    let dmg = SimpleDmg::new_with_bootrom(&short_boot, &rom);
    assert_eq!(dmg.read(4), Err(DmgError::RomRead(4)));
}

#[test]
fn work_and_high_ram_give_back_what_was_written() {
    let mut dmg = machine(&[]);
    assert_eq!(dmg.write(0xC000, 0x12), Ok(()));
    assert_eq!(dmg.write(0xDFFF, 0x34), Ok(()));
    assert_eq!(dmg.write(0xFF80, 0x56), Ok(()));
    assert_eq!(dmg.write(0xFFFE, 0x78), Ok(()));
    assert_eq!(dmg.read(0xC000), Ok(0x12));
    assert_eq!(dmg.read(0xDFFF), Ok(0x34));
    assert_eq!(dmg.read(0xFF80), Ok(0x56));
    assert_eq!(dmg.read(0xFFFE), Ok(0x78));
    // High RAM lies after work RAM in the RAM vector.
    assert_eq!(dmg.ram[0x2000], 0x56);
    assert_eq!(dmg.ram[0x207E], 0x78);
    // Nothing else moved.
    assert_eq!(dmg.read(0xC001), Ok(0));
}

#[test]
fn video_ram_writes_land_in_vram() {
    let mut dmg = machine(&[]);
    assert_eq!(dmg.write(0x8000, 1), Ok(()));
    assert_eq!(dmg.write(0x9FFF, 2), Ok(()));
    assert_eq!(dmg.vram[0], 1);
    assert_eq!(dmg.vram[0x1FFF], 2);
}

#[test]
fn io_registers_give_back_what_was_written() {
    let mut dmg = machine(&[]);
    assert_eq!(dmg.write(0xFF40, 0x91), Ok(()));
    assert_eq!(dmg.read(0xFF40), Ok(0x91));
    assert_eq!(dmg.ioreg.get_reg(IoRegisterOffset::LCDC), 0x91);
    assert_eq!(dmg.write(0xFF50, 1), Ok(()));
    assert_eq!(dmg.read(0xFF50), Ok(1));
}

#[test]
fn unimplemented_io_register_fails() {
    let mut dmg = machine(&[]);
    assert_eq!(dmg.read(0xFF00), Err(DmgError::UnimplementedIoRegister(0xFF00)));
    assert_eq!(dmg.write(0xFF46, 1), Err(DmgError::UnimplementedIoRegister(0xFF46)));
}

#[test]
fn echo_ram_and_unusable_region_fail() {
    let mut dmg = machine(&[]);
    assert_eq!(dmg.read(0xE000), Err(DmgError::InvalidRead(0xE000)));
    assert_eq!(dmg.read(0xFEA0), Err(DmgError::InvalidRead(0xFEA0)));
    assert_eq!(dmg.write(0xFDFF, 1), Err(DmgError::InvalidWrite(0xFDFF)));
    assert_eq!(dmg.write(0xFEFF, 1), Err(DmgError::InvalidWrite(0xFEFF)));
}

#[test]
fn ram_access_past_a_short_ram_fails() {
    let mut dmg = machine(&[]);
    dmg.ram.truncate(0x10);
    dmg.vram.truncate(0x10);
    assert_eq!(dmg.read(0xC010), Err(DmgError::RamRead(0xC010)));
    assert_eq!(dmg.read(0xFF80), Err(DmgError::RamRead(0xFF80)));
    assert_eq!(dmg.write(0xC010, 1), Err(DmgError::InvalidWrite(0xC010)));
    assert_eq!(dmg.write(0x8010, 1), Err(DmgError::InvalidWrite(0x8010)));
    assert_eq!(dmg.write(0xFF80, 1), Err(DmgError::InvalidWrite(0xFF80)));
}

#[test]
fn failed_write_changes_nothing() {
    let mut dmg = machine(&[]);
    let ram = dmg.ram.clone();
    let vram = dmg.vram.clone();
    assert_eq!(dmg.write(0xE123, 7), Err(DmgError::InvalidWrite(0xE123)));
    assert_eq!(dmg.ram, ram);
    assert_eq!(dmg.vram, vram);
}

#[test]
fn read_inc_advances_pc_even_on_failure() {
    let mut dmg = machine(&[0x42]);
    assert_eq!(dmg.read_pc_inc(), Ok(0x42));
    assert_eq!(dmg.rf.pc, 1);
    assert_eq!(dmg.read_pc_inc(), Err(DmgError::RomRead(1)));
    assert_eq!(dmg.rf.pc, 2);
    dmg.rf.pc = 0xFFFF;
    assert_eq!(dmg.read_inc(0xC000), Ok(0));
    assert_eq!(dmg.rf.pc, 0);
}

#[test]
fn sixteen_bit_operands_are_little_endian() {
    let mut dmg = machine(&[0x34, 0x12]);
    assert_eq!(dmg.consume_16bit_direct(), Ok(0x1234));
    assert_eq!(dmg.rf.pc, 2);
    let mut dmg = machine(&[0x34]);
    assert_eq!(dmg.consume_16bit_direct(), Err(DmgError::RomRead(1)));
    assert_eq!(dmg.rf.pc, 2);
}

#[test]
fn eight_bit_operands() {
    let mut dmg = machine(&[]);
    for r in 0..8u8 {
        if r == 6 {
            continue;
        }
        assert_eq!(dmg.set_r8(r, 0x10 + r), Ok(()));
        assert_eq!(dmg.get_r8(r), Ok(0x10 + r));
    }
    assert_eq!(dmg.rf.b, 0x10);
    assert_eq!(dmg.rf.l, 0x15);
    assert_eq!(dmg.rf.a, 0x17);
    dmg.rf.h = 0xC1;
    dmg.rf.l = 0x23;
    assert_eq!(dmg.set_r8(6, 0x99), Ok(()));
    assert_eq!(dmg.ram[0x123], 0x99);
    assert_eq!(dmg.get_r8(6), Ok(0x99));
    dmg.rf.h = 0xE0;
    assert_eq!(dmg.get_r8(6), Err(DmgError::InvalidRead(0xE023)));
}

#[test]
fn sixteen_bit_registers() {
    let mut dmg = machine(&[]);
    dmg.set_r16(0, 0x1234);
    assert_eq!((dmg.rf.b, dmg.rf.c), (0x12, 0x34));
    dmg.set_r16(1, 0x5678);
    assert_eq!((dmg.rf.d, dmg.rf.e), (0x56, 0x78));
    dmg.set_r16(2, 0x9ABC);
    assert_eq!((dmg.rf.h, dmg.rf.l), (0x9A, 0xBC));
    dmg.set_r16(3, 0xDEF0);
    assert_eq!(dmg.rf.sp, 0xDEF0);
    assert_eq!(dmg.get_r16(0), 0x1234);
    assert_eq!(dmg.get_r16(1), 0x5678);
    assert_eq!(dmg.get_r16(2), 0x9ABC);
    assert_eq!(dmg.get_r16(3), 0xDEF0);
}

#[test]
fn stack_registers_use_af() {
    let mut dmg = machine(&[]);
    dmg.set_r16stk(3, 0x12F3);
    assert_eq!(dmg.rf.a, 0x12);
    // All eight bits of F are kept, the low four too.
    assert_eq!(dmg.rf.f.bits(), 0xF3);
    assert_eq!(dmg.get_r16stk(3), 0x12F3);
    dmg.set_r16stk(1, 0xBEEF);
    assert_eq!(dmg.get_r16stk(1), 0xBEEF);
    assert_eq!(dmg.get_r16(1), 0xBEEF);
}

#[test]
fn indirect_registers_step_hl() {
    let mut dmg = machine(&[]);
    dmg.set_r16(2, 0xC010);
    assert_eq!(dmg.set_r16mem(2, 0xAB), Ok(()));
    assert_eq!(dmg.get_r16(2), 0xC011);
    assert_eq!(dmg.set_r16mem(3, 0xCD), Ok(()));
    assert_eq!(dmg.get_r16(2), 0xC010);
    assert_eq!(dmg.ram[0x10], 0xAB);
    assert_eq!(dmg.ram[0x11], 0xCD);
    assert_eq!(dmg.get_r16mem(2), Ok(0xAB));
    assert_eq!(dmg.get_r16(2), 0xC011);
    assert_eq!(dmg.get_r16mem(3), Ok(0xCD));
    assert_eq!(dmg.get_r16(2), 0xC010);
    dmg.set_r16(0, 0xC010);
    assert_eq!(dmg.get_r16mem(0), Ok(0xAB));
    dmg.set_r16(1, 0xC011);
    assert_eq!(dmg.set_r16mem(1, 0x01), Ok(()));
    assert_eq!(dmg.ram[0x11], 0x01);
    // A failed access leaves HL where it was.
    dmg.set_r16(2, 0xE000);
    assert_eq!(dmg.get_r16mem(2), Err(DmgError::InvalidRead(0xE000)));
    assert_eq!(dmg.get_r16(2), 0xE000);
    assert_eq!(dmg.set_r16mem(3, 0), Err(DmgError::InvalidWrite(0xE000)));
    assert_eq!(dmg.get_r16(2), 0xE000);
}

#[test]
fn operand_names() {
    let names: Vec<&str> = (0..8).map(SimpleDmg::get_r8_name).collect();
    assert_eq!(names, ["B", "C", "D", "E", "H", "L", "(HL)", "A"]);
    let names: Vec<&str> = (0..4).map(SimpleDmg::get_r16_name).collect();
    assert_eq!(names, ["BC", "DE", "HL", "SP"]);
    let names: Vec<&str> = (0..4).map(SimpleDmg::get_r16stk_name).collect();
    assert_eq!(names, ["BC", "DE", "HL", "AF"]);
    let names: Vec<&str> = (0..4).map(SimpleDmg::get_r16mem_name).collect();
    assert_eq!(names, ["BC", "DE", "HL+", "HL-"]);
}

#[test]
fn flags_set_and_clear_single_bits() {
    let mut f = Flags::default();
    f.insert(Flag::Z);
    assert_eq!(f.bits(), 0x80);
    f.set(Flag::C, true);
    assert_eq!(f.bits(), 0x90);
    assert!(f.contains(Flag::Z) && f.contains(Flag::C));
    assert!(!f.contains(Flag::H) && !f.contains(Flag::N));
    f.remove(Flag::Z);
    assert_eq!(f.bits(), 0x10);
    f.set(Flag::C, false);
    assert_eq!(f.bits(), 0);
    let mut g = Flags::from_bits_retain(0x0F);
    g.set(Flag::N, true);
    assert_eq!(g.bits(), 0x4F);
    assert_eq!(Flag::C.mask(), 0x10);
    assert_eq!(Flag::H.mask(), 0x20);
    assert_eq!(Flag::N.mask(), 0x40);
    assert_eq!(Flag::Z.mask(), 0x80);
}

#[test]
fn io_register_addresses_round_trip() {
    let all = [
        IoRegisterOffset::NR11,
        IoRegisterOffset::NR12,
        IoRegisterOffset::NR13,
        IoRegisterOffset::NR14,
        IoRegisterOffset::NR50,
        IoRegisterOffset::NR51,
        IoRegisterOffset::NR52,
        IoRegisterOffset::LCDC,
        IoRegisterOffset::STAT,
        IoRegisterOffset::SCY,
        IoRegisterOffset::SCX,
        IoRegisterOffset::LY,
        IoRegisterOffset::LYC,
        IoRegisterOffset::BGP,
        IoRegisterOffset::OPB0,
        IoRegisterOffset::OPB1,
        IoRegisterOffset::WY,
        IoRegisterOffset::WX,
        IoRegisterOffset::BANK,
    ];
    for reg in all {
        assert_eq!(IoRegisterOffset::from_repr(reg.addr()), Some(reg));
    }
    assert_eq!(IoRegisterOffset::LCDC.addr(), 0xFF40);
    assert_eq!(IoRegisterOffset::BANK.addr(), 0xFF50);
    let known: Vec<u16> = all.iter().map(|r| r.addr()).collect();
    for a in 0xFF00u16..0xFF80 {
        assert_eq!(IoRegisterOffset::from_repr(a).is_some(), known.contains(&a));
    }
    assert_eq!(IoRegisterOffset::from_repr(0x1234), None);
}
