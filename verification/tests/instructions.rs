use simple_dmg::dmg::{DmgError, SimpleDmg};
use simple_dmg::flags::Flag;

/// A machine whose ROM is `program` (at 0x0000) with the boot ROM unmapped.
fn machine(program: &[u8]) -> SimpleDmg<'_> {
    let mut dmg = SimpleDmg::new_with_bootrom(&[], program);
    dmg.boot_rom_mapped = false;
    dmg
}

fn flags(dmg: &SimpleDmg) -> (bool, bool, bool, bool) {
    (
        dmg.rf.f.contains(Flag::Z),
        dmg.rf.f.contains(Flag::N),
        dmg.rf.f.contains(Flag::H),
        dmg.rf.f.contains(Flag::C),
    )
}

#[test]
fn inc_r8_sets_half_carry_from_the_low_nibble() {
    let mut dmg = machine(&[]);
    dmg.rf.b = 0x0F;
    dmg.rf.f.insert(Flag::N);
    dmg.rf.f.insert(Flag::C);
    assert_eq!(dmg.inc_r8(0x04), Ok(()));
    assert_eq!(dmg.rf.b, 0x10);
    assert_eq!(flags(&dmg), (false, false, true, true));
    dmg.rf.a = 0xFF;
    assert_eq!(dmg.inc_r8(0x3C), Ok(()));
    assert_eq!(dmg.rf.a, 0x00);
    assert_eq!(flags(&dmg), (true, false, true, true));
    dmg.rf.c = 0x41;
    assert_eq!(dmg.inc_r8(0x0C), Ok(()));
    assert_eq!(dmg.rf.c, 0x42);
    assert_eq!(flags(&dmg), (false, false, false, true));
}

#[test]
fn dec_r8_sets_half_borrow_from_the_low_nibble() {
    let mut dmg = machine(&[]);
    dmg.rf.d = 0x10;
    assert_eq!(dmg.dec_r8(0x15), Ok(()));
    assert_eq!(dmg.rf.d, 0x0F);
    assert_eq!(flags(&dmg), (false, true, true, false));
    dmg.rf.e = 0x01;
    assert_eq!(dmg.dec_r8(0x1D), Ok(()));
    assert_eq!(dmg.rf.e, 0x00);
    assert_eq!(flags(&dmg), (true, true, false, false));
    dmg.rf.l = 0x00;
    dmg.rf.f.insert(Flag::C);
    assert_eq!(dmg.dec_r8(0x2D), Ok(()));
    assert_eq!(dmg.rf.l, 0xFF);
    assert_eq!(flags(&dmg), (false, true, true, true));
}

#[test]
fn inc_and_dec_through_hl() {
    let mut dmg = machine(&[]);
    dmg.set_r16(2, 0xC100);
    dmg.ram[0x100] = 0x7F;
    assert_eq!(dmg.inc_r8(0x34), Ok(()));
    assert_eq!(dmg.ram[0x100], 0x80);
    assert_eq!(dmg.dec_r8(0x35), Ok(()));
    assert_eq!(dmg.ram[0x100], 0x7F);
    // A failed read leaves everything as it was.
    dmg.set_r16(2, 0xE000);
    let f = dmg.rf.f.bits();
    assert_eq!(dmg.inc_r8(0x34), Err(DmgError::InvalidRead(0xE000)));
    assert_eq!(dmg.rf.f.bits(), f);
}

#[test]
fn inc_then_dec_restores_the_register() {
    let mut dmg = machine(&[]);
    for v in [0x00u8, 0x0F, 0x7F, 0xFF] {
        dmg.rf.h = v;
        assert_eq!(dmg.inc_r8(0x24), Ok(()));
        assert_eq!(dmg.dec_r8(0x25), Ok(()));
        assert_eq!(dmg.rf.h, v);
    }
}

#[test]
fn ld_instructions() {
    let mut dmg = machine(&[0x34, 0x12, 0x77]);
    assert_eq!(dmg.ld_r16_imm16(0x21), Ok(()));
    assert_eq!(dmg.get_r16(2), 0x1234);
    assert_eq!(dmg.rf.pc, 2);
    assert_eq!(dmg.ld_r8_imm8(0x06), Ok(()));
    assert_eq!(dmg.rf.b, 0x77);
    assert_eq!(dmg.rf.pc, 3);
    // LD A, B
    assert_eq!(dmg.ld_r8_r8(0x78), Ok(()));
    assert_eq!(dmg.rf.a, 0x77);
    // LD (HL), A then LD C, (HL)
    dmg.set_r16(2, 0xC020);
    assert_eq!(dmg.ld_r8_r8(0x77), Ok(()));
    assert_eq!(dmg.ram[0x20], 0x77);
    assert_eq!(dmg.ld_r8_r8(0x4E), Ok(()));
    assert_eq!(dmg.rf.c, 0x77);
}

#[test]
fn ld_through_indirect_registers() {
    let mut dmg = machine(&[]);
    dmg.rf.a = 0x5A;
    dmg.set_r16(2, 0xC000);
    assert_eq!(dmg.ld_r16mem_a(0x22), Ok(()));
    assert_eq!(dmg.ld_r16mem_a(0x22), Ok(()));
    assert_eq!(dmg.get_r16(2), 0xC002);
    assert_eq!(&dmg.ram[0..2], &[0x5A, 0x5A]);
    dmg.set_r16(1, 0xC001);
    dmg.rf.a = 0;
    assert_eq!(dmg.ld_a_r16mem(0x1A), Ok(()));
    assert_eq!(dmg.rf.a, 0x5A);
}

#[test]
fn inc_r16_wraps() {
    let mut dmg = machine(&[]);
    dmg.set_r16(0, 0xFFFF);
    assert_eq!(dmg.inc_r16(0x03), Ok(()));
    assert_eq!(dmg.get_r16(0), 0);
    dmg.rf.sp = 0x1234;
    assert_eq!(dmg.inc_r16(0x33), Ok(()));
    assert_eq!(dmg.rf.sp, 0x1235);
}

#[test]
fn add_and_sub_flags() {
    let mut dmg = machine(&[]);
    dmg.rf.a = 0xF0;
    dmg.rf.b = 0x20;
    assert_eq!(dmg.add_a_r8(0x80), Ok(()));
    assert_eq!(dmg.rf.a, 0x10);
    assert_eq!(flags(&dmg), (false, false, false, true));
    dmg.rf.a = 0x80;
    dmg.rf.c = 0x80;
    assert_eq!(dmg.add_a_r8(0x81), Ok(()));
    assert_eq!(dmg.rf.a, 0x00);
    assert_eq!(flags(&dmg), (true, false, false, true));
    // H is the carry out of bit 3: 0xF + 0xF carries.
    dmg.rf.a = 0x0F;
    dmg.rf.d = 0x0F;
    assert_eq!(dmg.add_a_r8(0x82), Ok(()));
    assert_eq!(dmg.rf.a, 0x1E);
    assert_eq!(flags(&dmg), (false, false, true, false));
    // 0x3A + 0xC6: 0xA + 0x6 carries out of bit 3, and the sum out of bit 7.
    dmg.rf.a = 0x3A;
    dmg.rf.b = 0xC6;
    assert_eq!(dmg.add_a_r8(0x80), Ok(()));
    assert_eq!(dmg.rf.a, 0x00);
    assert_eq!(flags(&dmg), (true, false, true, true));
    // 0x12 + 0x34: no carry at all.
    dmg.rf.a = 0x12;
    dmg.rf.b = 0x34;
    assert_eq!(dmg.add_a_r8(0x80), Ok(()));
    assert_eq!(dmg.rf.a, 0x46);
    assert_eq!(flags(&dmg), (false, false, false, false));
    // 0x10 - 0x01 borrows from bit 4.
    dmg.rf.a = 0x10;
    dmg.rf.e = 0x01;
    assert_eq!(dmg.sub_a_r8(0x93), Ok(()));
    assert_eq!(dmg.rf.a, 0x0F);
    assert_eq!(flags(&dmg), (false, true, true, false));
    dmg.rf.a = 0x01;
    dmg.rf.h = 0x02;
    assert_eq!(dmg.sub_a_r8(0x94), Ok(()));
    assert_eq!(dmg.rf.a, 0xFF);
    assert_eq!(flags(&dmg), (false, true, true, true));
    // 1 - 1: no borrow anywhere.
    dmg.rf.a = 0x01;
    dmg.rf.c = 0x01;
    assert_eq!(dmg.sub_a_r8(0x91), Ok(()));
    assert_eq!(dmg.rf.a, 0);
    assert_eq!(flags(&dmg), (true, true, false, false));
    dmg.rf.a = 0x42;
    assert_eq!(dmg.sub_a_r8(0x97), Ok(()));
    assert_eq!(dmg.rf.a, 0);
    assert_eq!(flags(&dmg), (true, true, false, false));
}

#[test]
fn compare_keeps_a() {
    let mut dmg = machine(&[0x43]);
    dmg.rf.a = 0x42;
    dmg.rf.b = 0x42;
    assert_eq!(dmg.cp_a_r8(0xB8), Ok(()));
    assert_eq!(dmg.rf.a, 0x42);
    assert_eq!(flags(&dmg), (true, true, false, false));
    assert_eq!(dmg.cp_a_imm8(0xFE), Ok(()));
    assert_eq!(dmg.rf.a, 0x42);
    assert_eq!(dmg.rf.pc, 1);
    assert_eq!(flags(&dmg), (false, true, true, true));
}

#[test]
fn xor_a_clears_a() {
    let mut dmg = machine(&[]);
    dmg.rf.a = 0x5C;
    dmg.rf.f = simple_dmg::flags::Flags::from_bits_retain(0x70);
    assert_eq!(dmg.xor_a_r8(0xAF), Ok(()));
    assert_eq!(dmg.rf.a, 0);
    assert_eq!(dmg.rf.f.bits(), 0x80);
    dmg.rf.a = 0xF0;
    dmg.rf.b = 0x0F;
    assert_eq!(dmg.xor_a_r8(0xA8), Ok(()));
    assert_eq!(dmg.rf.a, 0xFF);
    assert_eq!(flags(&dmg), (false, false, false, false));
}

#[test]
fn rotate_left_through_carry() {
    let mut dmg = machine(&[]);
    dmg.rf.a = 0x95;
    dmg.rf.f.insert(Flag::Z);
    assert_eq!(dmg.rla(0x17), Ok(()));
    assert_eq!(dmg.rf.a, 0x2A);
    assert_eq!(flags(&dmg), (false, false, false, true));
    assert_eq!(dmg.rla(0x17), Ok(()));
    assert_eq!(dmg.rf.a, 0x55);
    assert_eq!(flags(&dmg), (false, false, false, false));
    dmg.rf.c = 0x80;
    assert_eq!(dmg.rl_r8(0x11), Ok(()));
    assert_eq!(dmg.rf.c, 0x00);
    assert_eq!(flags(&dmg), (true, false, false, true));
    assert_eq!(dmg.rl_r8(0x11), Ok(()));
    assert_eq!(dmg.rf.c, 0x01);
    assert_eq!(flags(&dmg), (false, false, false, false));
}

#[test]
fn bit_test() {
    let mut dmg = machine(&[]);
    dmg.rf.h = 0x80;
    assert_eq!(dmg.bit_b3_r8(0x7C), Ok(()));
    assert_eq!(flags(&dmg), (false, false, true, false));
    dmg.rf.h = 0x7F;
    assert_eq!(dmg.bit_b3_r8(0x7C), Ok(()));
    assert_eq!(flags(&dmg), (true, false, true, false));
}

#[test]
fn relative_jumps() {
    let mut rom = vec![0u8; 0x20];
    rom[0x10] = 0xFE; // -2
    rom[0x11] = 0x05;
    let mut dmg = machine(&rom);
    dmg.rf.pc = 0x10;
    assert_eq!(dmg.jr_imm8(0x18), Ok(()));
    assert_eq!(dmg.rf.pc, 0x0F);
    dmg.rf.pc = 0x11;
    // JR NZ with Z set: not taken.
    dmg.rf.f.insert(Flag::Z);
    assert_eq!(dmg.jr_cond_imm8(0x20), Ok(()));
    assert_eq!(dmg.rf.pc, 0x12);
    // JR Z with Z set: taken.
    dmg.rf.pc = 0x11;
    assert_eq!(dmg.jr_cond_imm8(0x28), Ok(()));
    assert_eq!(dmg.rf.pc, 0x17);
    // JR C without carry: not taken; JR NC: taken.
    dmg.rf.pc = 0x10;
    assert_eq!(dmg.jr_cond_imm8(0x38), Ok(()));
    assert_eq!(dmg.rf.pc, 0x11);
    dmg.rf.pc = 0x10;
    assert_eq!(dmg.jr_cond_imm8(0x30), Ok(()));
    assert_eq!(dmg.rf.pc, 0x0F);
}

#[test]
fn call_then_ret_returns_after_the_call() {
    let mut rom = vec![0u8; 0x40];
    rom[0x21] = 0x00;
    rom[0x22] = 0x30;
    let mut dmg = machine(&rom);
    dmg.rf.sp = 0xFFFE;
    dmg.rf.pc = 0x21;
    assert_eq!(dmg.call_imm16(0xCD), Ok(()));
    assert_eq!(dmg.rf.pc, 0x3000);
    assert_eq!(dmg.rf.sp, 0xFFFC);
    assert_eq!(dmg.read(0xFFFD), Ok(0x00));
    assert_eq!(dmg.read(0xFFFC), Ok(0x23));
    assert_eq!(dmg.ret(0xC9), Ok(()));
    assert_eq!(dmg.rf.pc, 0x23);
    assert_eq!(dmg.rf.sp, 0xFFFE);
}

#[test]
fn jp_jumps_to_the_operand() {
    let mut dmg = machine(&[0x50, 0x01]);
    assert_eq!(dmg.jp_imm16(0xC3), Ok(()));
    assert_eq!(dmg.rf.pc, 0x0150);
}

#[test]
fn push_then_pop_restores_the_registers() {
    let mut dmg = machine(&[]);
    dmg.rf.sp = 0xD000;
    dmg.set_r16(0, 0xBEEF);
    let before = dmg.rf;
    assert_eq!(dmg.push_r16stk(0xC5), Ok(()));
    assert_eq!(dmg.rf.sp, 0xCFFE);
    assert_eq!(dmg.read(0xCFFF), Ok(0xBE));
    assert_eq!(dmg.read(0xCFFE), Ok(0xEF));
    dmg.set_r16(0, 0);
    assert_eq!(dmg.pop_r16stk(0xC1), Ok(()));
    assert_eq!(dmg.rf, before);
}

#[test]
fn failed_stack_write_keeps_the_decremented_sp() {
    let mut dmg = machine(&[]);
    // SP - 1 falls in echo RAM.
    dmg.rf.sp = 0xE001;
    assert_eq!(dmg.push_r16stk(0xC5), Err(DmgError::InvalidWrite(0xE000)));
    assert_eq!(dmg.rf.sp, 0xE000);
}

#[test]
fn high_memory_loads_and_stores() {
    let mut dmg = machine(&[0x42, 0x42, 0x00, 0xC0, 0x00, 0xC0]);
    dmg.rf.a = 0x91;
    assert_eq!(dmg.ldh_imm8mem_a(0xE0), Ok(()));
    assert_eq!(dmg.ioreg.get_reg(simple_dmg::io::IoRegisterOffset::SCY), 0x91);
    dmg.rf.a = 0;
    assert_eq!(dmg.ldh_a_cmem(0xF0), Ok(()));
    assert_eq!(dmg.rf.a, 0x91);
    dmg.rf.c = 0x43;
    assert_eq!(dmg.ldh_cmem_a(0xE2), Ok(()));
    assert_eq!(dmg.ioreg.get_reg(simple_dmg::io::IoRegisterOffset::SCX), 0x91);
    assert_eq!(dmg.ld_imm16mem_a(0xEA), Ok(()));
    assert_eq!(dmg.ram[0], 0x91);
    dmg.rf.a = 0;
    assert_eq!(dmg.ld_a_imm16mem(0xFA), Ok(()));
    assert_eq!(dmg.rf.a, 0x91);
    assert_eq!(dmg.rf.pc, 6);
}

#[test]
fn stop_handler_fails_with_stop() {
    let mut dmg = machine(&[]);
    assert_eq!(dmg.stop(0x10), Err(DmgError::Stop));
    assert_eq!(dmg.nop(0x00), Ok(()));
}
