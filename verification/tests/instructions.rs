use gba_emu::bus::Bus;
use gba_emu::cpu::{Cpu, C_FLAG, MODE_SVC, N_FLAG, T_FLAG, V_FLAG, Z_FLAG};
use gba_emu::{arm, thumb};

fn setup() -> (Cpu, Bus) {
    let bus = Bus::new();
    let mut cpu = Cpu::new();
    cpu.reset(&bus);
    (cpu, bus)
}

#[test]
fn arm_mov_immediate() {
    let (mut cpu, mut bus) = setup();
    assert_eq!(arm::execute(&mut cpu, &mut bus, 0xE3A0_0001), 1);
    assert_eq!(cpu.regs[0], 1);
    // MOVS r1, #0 sets Z.
    arm::execute(&mut cpu, &mut bus, 0xE3B0_1000);
    assert_eq!(cpu.regs[1], 0);
    assert!(cpu.cpsr & Z_FLAG != 0);
}

#[test]
fn arm_rotated_immediate() {
    let (mut cpu, mut bus) = setup();
    // MOV r0, #0xFF000000 (0xFF rotated right by 8).
    arm::execute(&mut cpu, &mut bus, 0xE3A0_04FF);
    assert_eq!(cpu.regs[0], 0xFF00_0000);
}

#[test]
fn arm_adds_overflow_flags() {
    let (mut cpu, mut bus) = setup();
    cpu.regs[0] = 0x7FFF_FFFF;
    cpu.regs[1] = 1;
    // ADDS r2, r0, r1
    arm::execute(&mut cpu, &mut bus, 0xE090_2001);
    assert_eq!(cpu.regs[2], 0x8000_0000);
    assert!(cpu.cpsr & N_FLAG != 0);
    assert!(cpu.cpsr & V_FLAG != 0);
    assert!(cpu.cpsr & C_FLAG == 0);
}

#[test]
fn arm_subs_and_cmp() {
    let (mut cpu, mut bus) = setup();
    cpu.regs[0] = 1;
    cpu.regs[1] = 2;
    // SUBS r2, r0, r1
    arm::execute(&mut cpu, &mut bus, 0xE050_2001);
    assert_eq!(cpu.regs[2], 0xFFFF_FFFF);
    assert!(cpu.cpsr & N_FLAG != 0);
    assert!(cpu.cpsr & C_FLAG == 0);
    // CMP r1, r1 leaves registers and sets Z and C.
    arm::execute(&mut cpu, &mut bus, 0xE151_0001);
    assert!(cpu.cpsr & Z_FLAG != 0);
    assert!(cpu.cpsr & C_FLAG != 0);
    assert_eq!(cpu.regs[1], 2);
}

#[test]
fn arm_register_shift_costs_two_cycles() {
    let (mut cpu, mut bus) = setup();
    cpu.regs[1] = 1;
    cpu.regs[2] = 4;
    // MOV r0, r1, LSL r2
    assert_eq!(arm::execute(&mut cpu, &mut bus, 0xE1A0_0211), 2);
    assert_eq!(cpu.regs[0], 16);
}

#[test]
fn arm_mov_to_pc_jumps() {
    let (mut cpu, mut bus) = setup();
    cpu.regs[1] = 0x0800_0103;
    // MOV pc, r1
    assert_eq!(arm::execute(&mut cpu, &mut bus, 0xE1A0_F001), 3);
    assert_eq!(cpu.regs[15], 0x0800_0100);
    assert!(!cpu.pipeline_valid);
}

#[test]
fn arm_branch_and_link() {
    let (mut cpu, mut bus) = setup();
    cpu.regs[15] = 0x200;
    // BL +0
    assert_eq!(arm::execute(&mut cpu, &mut bus, 0xEB00_0000), 3);
    assert_eq!(cpu.regs[14], 0x1FC);
    assert_eq!(cpu.regs[15], 0x200);
    // B -8 bytes
    arm::execute(&mut cpu, &mut bus, 0xEAFF_FFFE);
    assert_eq!(cpu.regs[15], 0x1F8);
    // B +8 bytes
    arm::execute(&mut cpu, &mut bus, 0xEA00_0002);
    assert_eq!(cpu.regs[15], 0x200);
}

#[test]
fn arm_bx_enters_thumb() {
    let (mut cpu, mut bus) = setup();
    cpu.regs[0] = 0x0300_0301;
    assert_eq!(arm::execute(&mut cpu, &mut bus, 0xE12F_FF10), 3);
    assert!(cpu.cpsr & T_FLAG != 0);
    assert_eq!(cpu.regs[15], 0x0300_0300);
}

#[test]
fn arm_store_then_load_word() {
    let (mut cpu, mut bus) = setup();
    cpu.regs[0] = 0x0300_0000;
    cpu.regs[1] = 0xDEAD_BEEF;
    // STR r1, [r0]
    assert_eq!(arm::execute(&mut cpu, &mut bus, 0xE580_1000), 2);
    // LDR r2, [r0]
    assert_eq!(arm::execute(&mut cpu, &mut bus, 0xE590_2000), 3);
    assert_eq!(cpu.regs[2], 0xDEAD_BEEF);
    // LDR r3, [r0, #1] rotates the aligned word.
    arm::execute(&mut cpu, &mut bus, 0xE590_3001);
    assert_eq!(cpu.regs[3], 0xEFDE_ADBE);
    // LDRB r4, [r0, #3]
    arm::execute(&mut cpu, &mut bus, 0xE5D0_4003);
    assert_eq!(cpu.regs[4], 0xDE);
}

#[test]
fn arm_post_indexed_writeback() {
    let (mut cpu, mut bus) = setup();
    cpu.regs[0] = 0x0300_0010;
    cpu.regs[1] = 0x1234_5678;
    // STR r1, [r0], #4
    arm::execute(&mut cpu, &mut bus, 0xE480_1004);
    assert_eq!(cpu.regs[0], 0x0300_0014);
    assert_eq!(bus.read32(0x0300_0010), 0x1234_5678);
}

#[test]
fn arm_halfword_loads() {
    let (mut cpu, mut bus) = setup();
    bus.write32(0x0300_0020, 0x8001_FF80);
    cpu.regs[0] = 0x0300_0020;
    // LDRH r1, [r0]
    arm::execute(&mut cpu, &mut bus, 0xE1D0_10B0);
    assert_eq!(cpu.regs[1], 0xFF80);
    // LDRSB r2, [r0]
    arm::execute(&mut cpu, &mut bus, 0xE1D0_20D0);
    assert_eq!(cpu.regs[2], 0xFFFF_FF80);
    // LDRSH r3, [r0, #2]
    arm::execute(&mut cpu, &mut bus, 0xE1D0_30F2);
    assert_eq!(cpu.regs[3], 0xFFFF_8001);
    // STRH r1, [r0, #4]
    arm::execute(&mut cpu, &mut bus, 0xE1C0_10B4);
    assert_eq!(bus.read16(0x0300_0024), 0xFF80);
}

#[test]
fn arm_block_store_and_load() {
    let (mut cpu, mut bus) = setup();
    cpu.regs[0] = 0x0300_0100;
    cpu.regs[1] = 11;
    cpu.regs[2] = 22;
    // STMIA r0!, {r1, r2}
    arm::execute(&mut cpu, &mut bus, 0xE8A0_0006);
    assert_eq!(cpu.regs[0], 0x0300_0108);
    assert_eq!(bus.read32(0x0300_0100), 11);
    assert_eq!(bus.read32(0x0300_0104), 22);
    // LDMDB r0!, {r3, r4}
    let cycles = arm::execute(&mut cpu, &mut bus, 0xE930_0018);
    assert_eq!(cycles, 4);
    assert_eq!(cpu.regs[3], 11);
    assert_eq!(cpu.regs[4], 22);
    assert_eq!(cpu.regs[0], 0x0300_0100);
}

#[test]
fn arm_multiply_variants() {
    let (mut cpu, mut bus) = setup();
    cpu.regs[0] = 6;
    cpu.regs[1] = 7;
    // MUL r2, r0, r1
    assert_eq!(arm::execute(&mut cpu, &mut bus, 0xE002_0190), 1);
    assert_eq!(cpu.regs[2], 42);
    cpu.regs[0] = 0xFFFF_FFFF;
    cpu.regs[1] = 2;
    // UMULL r2, r3, r0, r1
    arm::execute(&mut cpu, &mut bus, 0xE083_2190);
    assert_eq!(cpu.regs[2], 0xFFFF_FFFE);
    assert_eq!(cpu.regs[3], 1);
    // SMULL r2, r3, r0, r1
    arm::execute(&mut cpu, &mut bus, 0xE0C3_2190);
    assert_eq!(cpu.regs[2], 0xFFFF_FFFE);
    assert_eq!(cpu.regs[3], 0xFFFF_FFFF);
}

#[test]
fn arm_status_register_transfers() {
    let (mut cpu, mut bus) = setup();
    // MSR CPSR_f, #0xF0000000
    arm::execute(&mut cpu, &mut bus, 0xE328_F4F0);
    assert_eq!(cpu.cpsr & 0xF000_0000, 0xF000_0000);
    assert_eq!(cpu.cpsr & 0x1F, MODE_SVC);
    // MRS r0, CPSR
    arm::execute(&mut cpu, &mut bus, 0xE10F_0000);
    assert_eq!(cpu.regs[0], cpu.cpsr);
}

#[test]
fn arm_swap_word() {
    let (mut cpu, mut bus) = setup();
    bus.write32(0x0300_0040, 0xAAAA_AAAA);
    cpu.regs[0] = 0x0300_0040;
    cpu.regs[1] = 0x5555_5555;
    // SWP r2, r1, [r0]
    assert_eq!(arm::execute(&mut cpu, &mut bus, 0xE100_2091), 4);
    assert_eq!(cpu.regs[2], 0xAAAA_AAAA);
    assert_eq!(bus.read32(0x0300_0040), 0x5555_5555);
}

#[test]
fn arm_swi_vector() {
    let (mut cpu, mut bus) = setup();
    cpu.regs[15] = 0x0800_0108;
    assert_eq!(arm::execute(&mut cpu, &mut bus, 0xEF00_0005), 3);
    assert_eq!(cpu.regs[15], 0x08);
    assert_eq!(cpu.regs[14], 0x0800_0104);
    assert_eq!(cpu.cpsr & 0x1F, MODE_SVC);
}

#[test]
fn thumb_immediate_and_register_ops() {
    let (mut cpu, mut bus) = setup();
    // MOV r0, #5
    assert_eq!(thumb::execute(&mut cpu, &mut bus, 0x2005), 1);
    assert_eq!(cpu.regs[0], 5);
    // ADD r1, r0, #3
    thumb::execute(&mut cpu, &mut bus, 0x1CC1);
    assert_eq!(cpu.regs[1], 8);
    // LSL r2, r1, #2
    thumb::execute(&mut cpu, &mut bus, 0x008A);
    assert_eq!(cpu.regs[2], 32);
    // CMP r0, #5
    thumb::execute(&mut cpu, &mut bus, 0x2805);
    assert!(cpu.cpsr & Z_FLAG != 0);
}

#[test]
fn thumb_alu_multiply_and_negate() {
    let (mut cpu, mut bus) = setup();
    cpu.regs[0] = 3;
    cpu.regs[1] = 5;
    // MUL r0, r1
    let cycles = thumb::execute(&mut cpu, &mut bus, 0x4348);
    assert_eq!(cpu.regs[0], 15);
    assert_eq!(cycles, 2);
    // NEG r2, r1
    thumb::execute(&mut cpu, &mut bus, 0x424A);
    assert_eq!(cpu.regs[2], 0xFFFF_FFFB);
}

#[test]
fn thumb_push_pop_round_trip() {
    let (mut cpu, mut bus) = setup();
    cpu.regs[13] = 0x0300_7F00;
    cpu.regs[0] = 0x1111;
    cpu.regs[1] = 0x2222;
    cpu.regs[14] = 0x0800_0201;
    // PUSH {r0, r1, lr}
    thumb::execute(&mut cpu, &mut bus, 0xB503);
    assert_eq!(cpu.regs[13], 0x0300_7EF4);
    assert_eq!(bus.read32(0x0300_7EF4), 0x1111);
    assert_eq!(bus.read32(0x0300_7EFC), 0x0800_0201);
    // POP {r2, r3, pc}
    thumb::execute(&mut cpu, &mut bus, 0xBD0C);
    assert_eq!(cpu.regs[2], 0x1111);
    assert_eq!(cpu.regs[3], 0x2222);
    assert_eq!(cpu.regs[15], 0x0800_0200);
    assert_eq!(cpu.regs[13], 0x0300_7F00);
    assert!(!cpu.pipeline_valid);
}

#[test]
fn thumb_push_pop_low_registers_restores_all() {
    let (mut cpu, mut bus) = setup();
    cpu.regs[13] = 0x0300_7F00;
    for i in 0..8 {
        cpu.regs[i] = 0x1000_0000 + i as u32;
    }
    let saved = cpu.regs;
    // PUSH {r0, r2, r5, r7}
    assert_eq!(thumb::execute(&mut cpu, &mut bus, 0xB4A5), 5);
    assert_eq!(cpu.regs[13], 0x0300_7EF0);
    cpu.regs[0] = 0;
    cpu.regs[2] = 0;
    cpu.regs[5] = 0;
    cpu.regs[7] = 0;
    // POP {r0, r2, r5, r7}
    assert_eq!(thumb::execute(&mut cpu, &mut bus, 0xBCA5), 6);
    assert_eq!(cpu.regs, saved);
}

#[test]
fn thumb_long_branch_pair() {
    let (mut cpu, mut bus) = setup();
    cpu.regs[15] = 0x0800_0104;
    thumb::execute(&mut cpu, &mut bus, 0xF000);
    assert_eq!(cpu.regs[14], 0x0800_0104);
    cpu.regs[15] = 0x0800_0106;
    assert_eq!(thumb::execute(&mut cpu, &mut bus, 0xF804), 3);
    assert_eq!(cpu.regs[15], 0x0800_010C);
    assert_eq!(cpu.regs[14], 0x0800_0105);
}

#[test]
fn thumb_unconditional_branch_backwards() {
    let (mut cpu, mut bus) = setup();
    cpu.regs[15] = 0x0800_0100;
    thumb::execute(&mut cpu, &mut bus, 0xE7FE);
    assert_eq!(cpu.regs[15], 0x0800_00FC);
}

#[test]
fn thumb_conditional_branch_not_taken() {
    let (mut cpu, mut bus) = setup();
    cpu.regs[15] = 0x0800_0100;
    // BEQ with Z clear
    assert_eq!(thumb::execute(&mut cpu, &mut bus, 0xD004), 1);
    assert_eq!(cpu.regs[15], 0x0800_0100);
    cpu.cpsr |= Z_FLAG;
    assert_eq!(thumb::execute(&mut cpu, &mut bus, 0xD004), 3);
    assert_eq!(cpu.regs[15], 0x0800_0108);
}

#[test]
fn thumb_hi_register_bx_to_arm() {
    let (mut cpu, mut bus) = setup();
    cpu.cpsr |= T_FLAG;
    cpu.regs[9] = 0x0300_0100;
    // BX r9
    thumb::execute(&mut cpu, &mut bus, 0x4748);
    assert!(cpu.cpsr & T_FLAG == 0);
    assert_eq!(cpu.regs[15], 0x0300_0100);
}

#[test]
fn thumb_load_store_immediate_offset() {
    let (mut cpu, mut bus) = setup();
    cpu.regs[0] = 0x0300_0200;
    cpu.regs[1] = 0xCAFE_F00D;
    // STR r1, [r0, #4]
    thumb::execute(&mut cpu, &mut bus, 0x6041);
    assert_eq!(bus.read32(0x0300_0204), 0xCAFE_F00D);
    // LDRB r2, [r0, #5]
    thumb::execute(&mut cpu, &mut bus, 0x7942);
    assert_eq!(cpu.regs[2], 0xF0);
    // LDRH r3, [r0, #6]
    thumb::execute(&mut cpu, &mut bus, 0x88C3);
    assert_eq!(cpu.regs[3], 0xCAFE);
}
