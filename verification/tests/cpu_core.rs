use gba_emu::bus::Bus;
use gba_emu::cpu::{Cpu, C_FLAG, I_FLAG, MODE_IRQ, MODE_SVC, MODE_USR, N_FLAG, T_FLAG, V_FLAG, Z_FLAG};

#[test]
fn new_cpu_starts_in_supervisor_mode() {
    let cpu = Cpu::new();
    assert_eq!(cpu.cpsr, 0xD3);
    assert_eq!(cpu.cpsr & 0x1F, MODE_SVC);
    assert!(cpu.regs.iter().all(|&r| r == 0));
    assert!(!cpu.in_thumb());
    assert!(!cpu.pipeline_valid);
}

#[test]
fn reset_sets_stack_pointers() {
    let bus = Bus::new();
    let mut cpu = Cpu::new();
    cpu.regs[3] = 77;
    cpu.reset(&bus);
    assert_eq!(cpu.regs[13], 0x0300_7FE0);
    assert_eq!(cpu.regs[3], 0);
    assert_eq!(cpu.r13_14_irq[0], 0x0300_7FA0);
    assert_eq!(cpu.r13_14_svc[0], 0x0300_7FE0);
    assert_eq!(cpu.r13_14_usr[0], 0x0300_7F00);
    assert_eq!(cpu.cpsr, 0xD3);
}

#[test]
fn switch_mode_round_trip_restores_banked_registers() {
    let mut cpu = Cpu::new();
    cpu.regs[13] = 0x1234;
    cpu.regs[14] = 0x4321;
    cpu.switch_mode(MODE_IRQ);
    assert_eq!(cpu.cpsr & 0x1F, MODE_IRQ);
    cpu.regs[13] = 0x5678;
    cpu.switch_mode(MODE_SVC);
    assert_eq!(cpu.regs[13], 0x1234);
    assert_eq!(cpu.regs[14], 0x4321);
    cpu.switch_mode(MODE_IRQ);
    assert_eq!(cpu.regs[13], 0x5678);
}

#[test]
fn fiq_mode_banks_r8_to_r12() {
    let mut cpu = Cpu::new();
    cpu.regs[8] = 8;
    cpu.regs[12] = 12;
    cpu.switch_mode(0x11);
    cpu.regs[8] = 80;
    cpu.switch_mode(MODE_USR);
    assert_eq!(cpu.regs[8], 8);
    assert_eq!(cpu.regs[12], 12);
}

#[test]
fn add_with_flags_sets_carry_and_zero() {
    let mut cpu = Cpu::new();
    let r = cpu.add_with_flags(0xFFFF_FFFF, 1, true);
    assert_eq!(r, 0);
    assert!(cpu.cpsr & Z_FLAG != 0);
    assert!(cpu.cpsr & C_FLAG != 0);
    assert!(cpu.cpsr & V_FLAG == 0);
    assert!(cpu.cpsr & N_FLAG == 0);
}

#[test]
fn add_with_flags_signed_overflow() {
    let mut cpu = Cpu::new();
    let r = cpu.add_with_flags(0x7FFF_FFFF, 1, true);
    assert_eq!(r, 0x8000_0000);
    assert!(cpu.cpsr & V_FLAG != 0);
    assert!(cpu.cpsr & N_FLAG != 0);
    assert!(cpu.cpsr & C_FLAG == 0);
}

#[test]
fn add_without_flags_keeps_cpsr() {
    let mut cpu = Cpu::new();
    let before = cpu.cpsr;
    assert_eq!(cpu.add_with_flags(0xFFFF_FFFF, 2, false), 1);
    assert_eq!(cpu.cpsr, before);
}

#[test]
fn sub_with_flags_borrow_clears_carry() {
    let mut cpu = Cpu::new();
    let r = cpu.sub_with_flags(5, 7, true);
    assert_eq!(r, 0xFFFF_FFFE);
    assert!(cpu.cpsr & C_FLAG == 0);
    assert!(cpu.cpsr & N_FLAG != 0);
    let r = cpu.sub_with_flags(7, 5, true);
    assert_eq!(r, 2);
    assert!(cpu.cpsr & C_FLAG != 0);
}

#[test]
fn adc_and_sbc_use_the_carry() {
    let mut cpu = Cpu::new();
    cpu.cpsr |= C_FLAG;
    assert_eq!(cpu.adc_with_flags(1, 2, false), 4);
    assert_eq!(cpu.sbc_with_flags(10, 3, false), 7);
    cpu.cpsr &= !C_FLAG;
    assert_eq!(cpu.adc_with_flags(1, 2, false), 3);
    assert_eq!(cpu.sbc_with_flags(10, 3, false), 6);
}

#[test]
fn set_nz_describes_value() {
    let mut cpu = Cpu::new();
    cpu.set_nz(0);
    assert!(cpu.cpsr & Z_FLAG != 0 && cpu.cpsr & N_FLAG == 0);
    cpu.set_nz(0x8000_0000);
    assert!(cpu.cpsr & Z_FLAG == 0 && cpu.cpsr & N_FLAG != 0);
}

#[test]
fn set_nzcv_add_sets_carry() {
    let mut cpu = Cpu::new();
    cpu.set_nzcv_add(0xFFFF_FFFF, 1, 0);
    assert!(cpu.cpsr & C_FLAG != 0);
    assert!(cpu.cpsr & Z_FLAG != 0);
}

#[test]
fn barrel_shift_special_amounts() {
    let mut cpu = Cpu::new();
    // LSR #0 encodes LSR #32.
    assert_eq!(cpu.barrel_shift(0x8000_0001, 1, 0, true, false), 0);
    assert!(cpu.cpsr & C_FLAG != 0);
    // ASR #0 encodes ASR #32.
    assert_eq!(cpu.barrel_shift(0x8000_0000, 2, 0, true, false), 0xFFFF_FFFF);
    // ROR #0 encodes RRX.
    cpu.cpsr |= C_FLAG;
    assert_eq!(cpu.barrel_shift(2, 3, 0, true, false), 0x8000_0001);
    assert!(cpu.cpsr & C_FLAG == 0);
    // A register amount of 0 passes value and carry through.
    cpu.cpsr |= C_FLAG;
    assert_eq!(cpu.barrel_shift(5, 0, 0, true, true), 5);
    assert!(cpu.cpsr & C_FLAG != 0);
    // LSL by 32 from a register keeps bit 0 as the carry.
    assert_eq!(cpu.barrel_shift(1, 0, 32, true, true), 0);
    assert!(cpu.cpsr & C_FLAG != 0);
    assert_eq!(cpu.barrel_shift(0x0000_00F0, 3, 4, false, false), 0x0000_000F);
}

#[test]
fn check_condition_codes() {
    let mut cpu = Cpu::new();
    cpu.cpsr |= Z_FLAG;
    assert!(cpu.check_condition(0x0));
    assert!(!cpu.check_condition(0x1));
    assert!(cpu.check_condition(0xE));
    assert!(!cpu.check_condition(0xF));
    cpu.cpsr = (cpu.cpsr & !Z_FLAG) | N_FLAG;
    assert!(cpu.check_condition(0xB));
    assert!(!cpu.check_condition(0xA));
}

#[test]
fn spsr_of_current_mode() {
    let mut cpu = Cpu::new();
    cpu.set_spsr(0x1F);
    assert_eq!(cpu.get_spsr(), 0x1F);
    assert_eq!(cpu.spsr_svc, 0x1F);
    cpu.switch_mode(MODE_USR);
    assert_eq!(cpu.get_spsr(), cpu.cpsr);
    cpu.set_spsr(0x99);
    assert_eq!(cpu.get_spsr(), cpu.cpsr);
}

#[test]
fn software_interrupt_enters_supervisor() {
    let bus = Bus::new();
    let mut cpu = Cpu::new();
    cpu.switch_mode(MODE_USR);
    cpu.cpsr = (cpu.cpsr & !I_FLAG) | T_FLAG;
    let old = cpu.cpsr;
    cpu.regs[15] = 0x0800_0104;
    cpu.software_interrupt(5, &bus);
    assert_eq!(cpu.cpsr & 0x1F, MODE_SVC);
    assert_eq!(cpu.spsr_svc, old);
    assert_eq!(cpu.regs[14], 0x0800_0102);
    assert_eq!(cpu.regs[15], 0x08);
    assert!(cpu.cpsr & T_FLAG == 0);
    assert!(cpu.cpsr & I_FLAG != 0);
}

#[test]
fn flush_pipeline_skips_prefetched_instructions() {
    let mut bus = Bus::new();
    let mut cpu = Cpu::new();
    cpu.regs[15] = 0x100;
    cpu.flush_pipeline(&mut bus);
    assert_eq!(cpu.regs[15], 0x108);
    assert!(cpu.pipeline_valid);
    cpu.cpsr |= T_FLAG;
    cpu.pipeline_valid = false;
    cpu.flush_pipeline(&mut bus);
    assert_eq!(cpu.regs[15], 0x10C);
}

#[test]
fn step_takes_pending_interrupt() {
    let mut bus = Bus::new();
    let mut cpu = Cpu::new();
    cpu.cpsr &= !I_FLAG;
    cpu.regs[15] = 0x0300_0008;
    cpu.pipeline_valid = true;
    bus.ime = true;
    bus.ie = 1;
    bus.if_ = 1;
    bus.halted = true;
    let cycles = cpu.step(&mut bus);
    assert_eq!(cycles, 3);
    assert_eq!(cpu.cpsr & 0x1F, MODE_IRQ);
    assert_eq!(cpu.regs[15], 0x18);
    assert_eq!(cpu.regs[14], 0x0300_0004);
    assert!(!bus.halted);
}

#[test]
fn step_runs_an_instruction_from_iwram() {
    let mut bus = Bus::new();
    let mut cpu = Cpu::new();
    // MOV r0, #42 at 0x03000000.
    bus.write32(0x0300_0000, 0xE3A0_002A);
    cpu.regs[15] = 0x0300_0000;
    let cycles = cpu.step(&mut bus);
    assert_eq!(cpu.regs[0], 42);
    assert_eq!(cpu.regs[15], 0x0300_000C);
    assert!(cycles >= 1);
}

#[test]
fn execute_arm_skips_failed_condition() {
    let mut bus = Bus::new();
    let mut cpu = Cpu::new();
    // MOVEQ r0, #1 with Z clear.
    bus.write32(0x0300_0000, 0x03A0_0001);
    cpu.regs[15] = 0x0300_0008;
    cpu.pipeline_valid = true;
    let cycles = cpu.execute_arm(&mut bus);
    assert_eq!(cycles, 1);
    assert_eq!(cpu.regs[0], 0);
    assert_eq!(cpu.regs[15], 0x0300_000C);
}

#[test]
fn execute_thumb_runs_and_advances() {
    let mut bus = Bus::new();
    let mut cpu = Cpu::new();
    cpu.cpsr |= T_FLAG;
    // MOV r1, #7 at 0x03000000.
    bus.write16(0x0300_0000, 0x2107);
    cpu.regs[15] = 0x0300_0004;
    cpu.pipeline_valid = true;
    let cycles = cpu.execute_thumb(&mut bus);
    assert_eq!(cpu.regs[1], 7);
    assert_eq!(cpu.regs[15], 0x0300_0006);
    assert_eq!(cycles, 1);
}
