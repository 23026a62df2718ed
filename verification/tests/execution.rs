use simple_dmg::dmg::{DmgError, SimpleDmg};
use simple_dmg::flags::Flag;

fn machine(program: &[u8]) -> SimpleDmg<'_> {
    let mut dmg = SimpleDmg::new_with_bootrom(&[], program);
    dmg.boot_rom_mapped = false;
    dmg
}

/// LD SP,$FFFE; LD A,$42; LD ($C000),A; XOR A; LD A,($C000); LD B,A; INC B
const PROGRAM: [u8; 14] = [
    0x31, 0xFE, 0xFF, 0x3E, 0x42, 0xEA, 0x00, 0xC0, 0xAF, 0xFA, 0x00, 0xC0, 0x47, 0x04,
];

#[test]
fn a_program_runs_to_stop() {
    let mut rom = PROGRAM.to_vec();
    rom.push(0x10);
    let mut dmg = machine(&rom);
    assert_eq!(dmg.execute(100), Ok(true));
    assert_eq!(dmg.rf.sp, 0xFFFE);
    assert_eq!(dmg.rf.a, 0x42);
    assert_eq!(dmg.rf.b, 0x43);
    assert_eq!(dmg.ram[0], 0x42);
    assert_eq!(dmg.rf.pc, 15);
}

#[test]
fn running_keeps_the_roms_and_memory_sizes() {
    let mut rom = PROGRAM.to_vec();
    rom.push(0x10);
    let boot = [0u8; 4];
    let mut dmg = SimpleDmg::new_with_bootrom(&boot, &rom);
    dmg.boot_rom_mapped = false;
    assert_eq!(dmg.execute(100), Ok(true));
    assert_eq!(dmg.rom, &rom[..]);
    assert_eq!(dmg.boot_rom, &boot[..]);
    assert!(!dmg.boot_rom_mapped);
    assert_eq!(dmg.vram.len(), 0x2000);
    assert_eq!(dmg.ram.len(), 0x2080);
}

#[test]
fn execute_stops_when_the_budget_runs_out() {
    let mut rom = PROGRAM.to_vec();
    rom.push(0x10);
    let mut dmg = machine(&rom);
    assert_eq!(dmg.execute(2), Ok(false));
    assert_eq!(dmg.rf.pc, 5);
    assert_eq!(dmg.rf.a, 0x42);
    // Going on from there ends as one long run does.
    assert_eq!(dmg.execute(100), Ok(true));
    assert_eq!(dmg.rf.b, 0x43);
}

#[test]
fn a_larger_budget_after_stop_gives_the_same_end() {
    let rom = [0x00, 0x10];
    let mut a = machine(&rom);
    let mut b = machine(&rom);
    assert_eq!(a.execute(2), Ok(true));
    assert_eq!(b.execute(1000), Ok(true));
    assert_eq!(a.rf, b.rf);
}

#[test]
fn a_failed_fetch_ends_the_run() {
    let rom = [0x00];
    let mut dmg = machine(&rom);
    assert_eq!(dmg.execute(10), Err(DmgError::RomRead(1)));
    assert_eq!(dmg.rf.pc, 2);
}

#[test]
fn prefixed_opcodes() {
    // LD C,$80; RL C (CB 11); LD HL,$8000; BIT 7,H (CB 7C); STOP
    let rom = [0x0E, 0x80, 0xCB, 0x11, 0x21, 0x00, 0x80, 0xCB, 0x7C, 0x10];
    let mut dmg = machine(&rom);
    assert_eq!(dmg.step(), Ok(false));
    assert_eq!(dmg.step(), Ok(false));
    assert!(dmg.cb_prefix);
    assert_eq!(dmg.step(), Ok(false));
    assert!(!dmg.cb_prefix);
    assert_eq!(dmg.rf.c, 0);
    assert!(dmg.rf.f.contains(Flag::C));
    assert_eq!(dmg.execute(10), Ok(true));
    assert!(!dmg.rf.f.contains(Flag::Z));
    assert!(dmg.rf.f.contains(Flag::H));
}

#[test]
fn stop_after_the_prefix_still_stops() {
    let rom = [0xCB, 0x10];
    let mut dmg = machine(&rom);
    assert_eq!(dmg.execute(10), Ok(true));
    assert!(!dmg.cb_prefix);
}

#[test]
fn a_failing_instruction_ends_the_run() {
    // LD A,(HL) is not implemented, but LD B,(HL) is; HL points to echo RAM.
    let rom = [0x21, 0x00, 0xE0, 0x46];
    let mut dmg = machine(&rom);
    assert_eq!(dmg.execute(10), Err(DmgError::InvalidRead(0xE000)));
}

#[test]
fn can_step_reports_unimplemented_parts() {
    // An opcode with no handler.
    let rom = [0xD3];
    let dmg = machine(&rom);
    assert!(!dmg.can_step());
    // A fetch from ROM bank 1.
    let mut dmg = machine(&[]);
    dmg.rf.pc = 0x4000;
    assert!(!dmg.can_step());
    // A prefixed opcode with no handler.
    let rom = [0x00];
    let mut dmg = machine(&rom);
    dmg.cb_prefix = true;
    assert!(!dmg.can_step());
    // A store into ROM.
    let rom = [0xEA, 0x00, 0x20];
    let dmg = machine(&rom);
    assert!(!dmg.can_step());
    // A push into ROM.
    let rom = [0xC5];
    let mut dmg = machine(&rom);
    dmg.rf.sp = 0x1000;
    assert!(!dmg.can_step());
    // A push whose first byte fails ends the step before the second.
    let mut dmg = machine(&rom);
    dmg.rf.sp = 0xFEA1;
    assert!(dmg.can_step());
    assert_eq!(dmg.step(), Err(DmgError::InvalidWrite(0xFEA0)));
    // A failed fetch is a result, not an unimplemented part.
    let dmg = machine(&[]);
    assert!(dmg.can_step());
}

#[test]
fn can_step_accepts_every_instruction_of_the_program() {
    let mut rom = PROGRAM.to_vec();
    rom.push(0x10);
    let mut dmg = machine(&rom);
    loop {
        assert!(dmg.can_step());
        if dmg.step().unwrap() {
            break;
        }
    }
}

#[test]
fn can_run_looks_ahead_without_changing_the_machine() {
    // NOP; NOP; then an opcode with no handler.
    let rom = [0x00, 0x00, 0xD3];
    let dmg = machine(&rom);
    assert!(dmg.can_run(0));
    assert!(dmg.can_run(2));
    assert!(!dmg.can_run(3));
    assert!(!dmg.can_run(100));
    assert_eq!(dmg.rf.pc, 0);
    // A run that stops or fails before the bad part is fine.
    let rom = [0x00, 0x10, 0xD3];
    let dmg = machine(&rom);
    assert!(dmg.can_run(100));
    let rom = [0x00];
    let dmg = machine(&rom);
    assert!(dmg.can_run(100));
}

#[test]
fn can_run_agrees_with_execute() {
    let mut rom = PROGRAM.to_vec();
    rom.push(0x10);
    let mut dmg = machine(&rom);
    assert!(dmg.can_run(100));
    assert_eq!(dmg.execute(100), Ok(true));
}
