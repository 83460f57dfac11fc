use vstd::prelude::*;

use crate::bits::{
    bit_set, group_bounds, lemma_le32_bytes, lemma_popcount_mono, lemma_popcount_step, popcount, count_low_ones,
    put_bit, put_bit_exec, rotr, rotate_right,
};
use crate::bus::{
    Bus, BusView, mem32, region, waits_within, read16_effect, read16_value, read32_effect, read32_value, read8_effect, read8_value,
    write16_spec, write32_spec, write8_spec,
};
use crate::cpu::{
    C_FLAG, Cpu, CpuState, MODE_USR, N_FLAG, T_FLAG, V_FLAG, Z_FLAG, add_flags, carry_in, mode_of, nz_flags,
    shifter, signed32, spsr_of, set_spsr_spec, sub_flags, swi_spec, switch_mode_spec, wrap32,
};

verus! {

broadcast use group_bounds;

// ---------------------------------------------------------------------------
// Shared pieces of the instruction semantics
// ---------------------------------------------------------------------------

/// `s` with its N and Z flags describing `r` and its C flag set to `carry`, as a
/// logical operation leaves them.
pub open spec fn logic_flags(s: CpuState, r: u32, carry: bool) -> CpuState {
    s.with_cpsr(put_bit(nz_flags(s.cpsr, r), C_FLAG, carry))
}

/// The address mask of the program counter in the current instruction set.
pub open spec fn pc_mask(s: CpuState) -> u32 {
    if bit_set(s.cpsr, T_FLAG) { !1u32 } else { !3u32 }
}

/// `s` with the program counter set to `pc` and the pipeline to be refilled.
pub open spec fn jump(s: CpuState, pc: u32) -> CpuState {
    CpuState { regs: s.regs.update(15, pc), pipeline_valid: false, ..s }
}

/// The status register restored from the saved one of the current mode, the
/// register bank following its mode field.
pub open spec fn restore_spsr(s: CpuState) -> CpuState {
    let spsr = spsr_of(s);
    switch_mode_spec(s, spsr & 0x1F).with_cpsr(spsr)
}

/// `base` moved by `offset`, up or down.
pub open spec fn offset_addr(base: u32, offset: u32, up: bool) -> u32 {
    if up { wrap32(base + offset) } else { wrap32(base - offset) }
}

/// The word a load from `addr` gives: the aligned word, rotated so that the
/// addressed byte comes first.
pub open spec fn ldr_value(b: BusView, addr: u32) -> u32 {
    rotr(read32_value(b, addr & !3u32), ((addr & 3) * 8) as u32)
}

/// The bus after a word load from `addr`.
pub open spec fn ldr_effect(b: BusView, addr: u32) -> BusView {
    read32_effect(b, addr & !3u32)
}

/// A byte read as a signed number, widened to a word.
pub open spec fn sext8(v: u8) -> u32 {
    ((v as i8) as i32) as u32
}

/// A halfword read as a signed number, widened to a word.
pub open spec fn sext16(v: u16) -> u32 {
    ((v as i16) as i32) as u32
}

/// The extra cycles of a multiplication by `rs`: one per significant byte of
/// the multiplier beyond the first, sign bytes counting as insignificant.
pub open spec fn mul_cycles(rs: u32) -> u32 {
    if rs & 0xFFFF_FF00 == 0 || rs & 0xFFFF_FF00 == 0xFFFF_FF00 {
        1
    } else if rs & 0xFFFF_0000 == 0 || rs & 0xFFFF_0000 == 0xFFFF_0000 {
        2
    } else if rs & 0xFF00_0000 == 0 || rs & 0xFF00_0000 == 0xFF00_0000 {
        3
    } else {
        4
    }
}

pub(crate) fn ldr_rotated(bus: &mut Bus, addr: u32) -> (r: u32)
    requires
        old(bus)@.wf(),
    ensures
        r == ldr_value(old(bus)@, addr),
        final(bus)@ == ldr_effect(old(bus)@, addr),
        final(bus)@.wf(),
        old(bus).data_wait_cycles <= 0xF000_0000 ==> waits_within(old(bus)@, final(bus)@, 1),
{
    let val = bus.read32(addr & !3);
    let rot = (addr & 3) * 8;
    rotate_right(val, rot)
}

fn offset_exec(base: u32, offset: u32, up: bool) -> (r: u32)
    ensures
        r == offset_addr(base, offset, up),
{
    if up {
        base.wrapping_add(offset)
    } else {
        base.wrapping_sub(offset)
    }
}

pub(crate) fn multiply_cycles(rs: u32) -> (r: u32)
    ensures
        r == mul_cycles(rs),
        1 <= r <= 4,
{
    if rs & 0xFFFF_FF00 == 0 || rs & 0xFFFF_FF00 == 0xFFFF_FF00 {
        1
    } else if rs & 0xFFFF_0000 == 0 || rs & 0xFFFF_0000 == 0xFFFF_0000 {
        2
    } else if rs & 0xFF00_0000 == 0 || rs & 0xFF00_0000 == 0xFF00_0000 {
        3
    } else {
        4
    }
}

fn restore_spsr_exec(cpu: &mut Cpu)
    ensures
        final(cpu)@ == restore_spsr(old(cpu)@),
{
    let spsr = cpu.get_spsr();
    cpu.switch_mode(spsr & 0x1F);
    cpu.cpsr = spsr;
}

// ---------------------------------------------------------------------------
// Data processing
// ---------------------------------------------------------------------------

/// The second operand of a data-processing instruction and the shifter's carry
/// out: a rotated immediate (the carry unchanged when it is not rotated) or a
/// register through the barrel shifter, by an immediate or by the low byte of a
/// register.
pub open spec fn dp_operand(s: CpuState, instr: u32) -> (u32, bool) {
    if (instr >> 25) & 1 != 0 {
        let rot = (((instr >> 8) & 0xF) * 2) as u32;
        let v = rotr(instr & 0xFF, rot);
        (v, if rot == 0 { bit_set(s.cpsr, C_FLAG) } else { v >> 31 != 0 })
    } else {
        let reg_shift = (instr >> 4) & 1 != 0;
        let amount = if reg_shift { s.regs[((instr >> 8) & 0xF) as int] & 0xFF } else { (instr >> 7) & 0x1F };
        shifter(s.regs[(instr & 0xF) as int], (instr >> 5) & 3, amount, reg_shift, bit_set(s.cpsr, C_FLAG))
    }
}

/// The state once the second operand is formed: a register operand of a
/// flag-setting instruction leaves the shifter's carry in C.
pub open spec fn dp_operand_state(s: CpuState, instr: u32) -> CpuState {
    if (instr >> 25) & 1 == 0 && (instr >> 20) & 1 != 0 {
        s.with_cpsr(put_bit(s.cpsr, C_FLAG, dp_operand(s, instr).1))
    } else {
        s
    }
}

/// The sixteen ALU operations on `a` and `b`: the state with its flags (set only
/// when `sf` holds, or always for the four comparisons) and the result. The
/// comparisons CMP and CMN give 0.
pub open spec fn alu_spec(s: CpuState, op: u32, a: u32, b: u32, carry: bool, sf: bool) -> (CpuState, u32) {
    let c = carry_in(s.cpsr);
    if op == 0x0 {
        (if sf { logic_flags(s, a & b, carry) } else { s }, a & b)
    } else if op == 0x1 {
        (if sf { logic_flags(s, a ^ b, carry) } else { s }, a ^ b)
    } else if op == 0x2 {
        let r = wrap32(a - b);
        (if sf { s.with_cpsr(sub_flags(s.cpsr, a, b, 1, r)) } else { s }, r)
    } else if op == 0x3 {
        let r = wrap32(b - a);
        (if sf { s.with_cpsr(sub_flags(s.cpsr, b, a, 1, r)) } else { s }, r)
    } else if op == 0x4 {
        let r = wrap32(a + b);
        (if sf { s.with_cpsr(add_flags(s.cpsr, a, b, 0, r)) } else { s }, r)
    } else if op == 0x5 {
        let r = wrap32(a + b + c);
        (if sf { s.with_cpsr(add_flags(s.cpsr, a, b, c, r)) } else { s }, r)
    } else if op == 0x6 {
        let r = wrap32(a - b - (1 - c));
        (if sf { s.with_cpsr(sub_flags(s.cpsr, a, b, c, r)) } else { s }, r)
    } else if op == 0x7 {
        let r = wrap32(b - a - (1 - c));
        (if sf { s.with_cpsr(sub_flags(s.cpsr, b, a, c, r)) } else { s }, r)
    } else if op == 0x8 {
        (logic_flags(s, a & b, carry), a & b)
    } else if op == 0x9 {
        (logic_flags(s, a ^ b, carry), a ^ b)
    } else if op == 0xA {
        (s.with_cpsr(sub_flags(s.cpsr, a, b, 1, wrap32(a - b))), 0)
    } else if op == 0xB {
        (s.with_cpsr(add_flags(s.cpsr, a, b, 0, wrap32(a + b))), 0)
    } else if op == 0xC {
        (if sf { logic_flags(s, a | b, carry) } else { s }, a | b)
    } else if op == 0xD {
        (if sf { logic_flags(s, b, carry) } else { s }, b)
    } else if op == 0xE {
        (if sf { logic_flags(s, a & !b, carry) } else { s }, a & !b)
    } else {
        (if sf { logic_flags(s, !b, carry) } else { s }, !b)
    }
}

/// A data-processing instruction that is not a status-register transfer: the
/// ALU result goes to Rd unless the operation only compares; a result for r15
/// is a jump (restoring the saved status register first when flags are set)
/// and costs 3 cycles, otherwise 1, or 2 with a register-specified shift.
pub open spec fn alu_instr_spec(s: CpuState, instr: u32) -> (CpuState, u32) {
    let op = (instr >> 21) & 0xF;
    let sf = (instr >> 20) & 1 != 0;
    let rd = ((instr >> 12) & 0xF) as int;
    let a = s.regs[((instr >> 16) & 0xF) as int];
    let (b, carry) = dp_operand(s, instr);
    let (s2, r) = alu_spec(dp_operand_state(s, instr), op, a, b, carry, sf);
    if rd == 15 {
        let s3 = if sf { restore_spsr(s2) } else { s2 };
        (jump(s3, r & pc_mask(s3)), 3)
    } else {
        (
            if 8 <= op <= 11 { s2 } else { s2.with_reg(rd, r) },
            if (instr >> 25) & 1 == 0 && (instr >> 4) & 1 != 0 { 2 } else { 1 },
        )
    }
}

/// The field mask an MSR writes: one byte per bit 16 to 19 of the instruction.
pub open spec fn psr_field_mask(instr: u32) -> u32 {
    (if instr & 0x8_0000 != 0 { 0xFF00_0000u32 } else { 0u32 }) | (if instr & 0x4_0000 != 0 {
        0x00FF_0000u32
    } else {
        0u32
    }) | (if instr & 0x2_0000 != 0 { 0x0000_FF00u32 } else { 0u32 }) | (if instr & 0x1_0000 != 0 {
        0x0000_00FFu32
    } else {
        0u32
    })
}

/// MRS copies the status register (or the saved one) to Rd; MSR writes the
/// masked fields of an operand into it, User mode writing only the flags, a
/// write of the mode field switching the register bank.
pub open spec fn psr_transfer_spec(s: CpuState, instr: u32) -> CpuState {
    let is_spsr = (instr >> 22) & 1 != 0;
    if (instr >> 21) & 1 == 0 {
        s.with_reg(((instr >> 12) & 0xF) as int, if is_spsr { spsr_of(s) } else { s.cpsr })
    } else {
        let val = if (instr >> 25) & 1 != 0 {
            rotr(instr & 0xFF, (((instr >> 8) & 0xF) * 2) as u32)
        } else {
            s.regs[(instr & 0xF) as int]
        };
        let mask = if mode_of(s.cpsr) == MODE_USR {
            psr_field_mask(instr) & 0xFF00_0000
        } else {
            psr_field_mask(instr)
        };
        if is_spsr {
            set_spsr_spec(s, (spsr_of(s) & !mask) | (val & mask))
        } else {
            let s1 = if mask & 0x1F != 0 {
                switch_mode_spec(s, ((s.cpsr & !mask) | (val & mask)) & 0x1F)
            } else {
                s
            };
            s1.with_cpsr((s1.cpsr & !mask) | (val & mask))
        }
    }
}

/// A data-processing instruction: the comparison opcodes without S encode the
/// status-register transfers.
pub open spec fn data_processing_spec(s: CpuState, instr: u32) -> (CpuState, u32) {
    let op = (instr >> 21) & 0xF;
    if (instr >> 20) & 1 == 0 && 8 <= op <= 11 {
        (psr_transfer_spec(s, instr), 1)
    } else {
        alu_instr_spec(s, instr)
    }
}

fn dp_operand_exec(cpu: &mut Cpu, instr: u32) -> (r: (u32, bool))
    ensures
        r == dp_operand(old(cpu)@, instr),
        final(cpu)@ == dp_operand_state(old(cpu)@, instr),
{
    let set_flags = (instr >> 20) & 1 != 0;
    if (instr >> 25) & 1 != 0 {
        let imm_val = instr & 0xFF;
        let rotate = ((instr >> 8) & 0xF) * 2;
        let result = rotate_right(imm_val, rotate);
        let carry = if rotate == 0 {
            cpu.cpsr & C_FLAG != 0
        } else {
            result >> 31 != 0
        };
        (result, carry)
    } else {
        let rm = (instr & 0xF) as usize;
        let shift_type = (instr >> 5) & 3;
        let reg_shift = (instr >> 4) & 1 != 0;
        let shift_amount = if reg_shift {
            let rs = ((instr >> 8) & 0xF) as usize;
            cpu.regs[rs] & 0xFF
        } else {
            (instr >> 7) & 0x1F
        };
        let rm_val = cpu.regs[rm];
        let old_carry = cpu.cpsr & C_FLAG != 0;
        let ghost c0 = cpu.cpsr;
        let result = cpu.barrel_shift(rm_val, shift_type, shift_amount, true, reg_shift);
        let new_carry = cpu.cpsr & C_FLAG != 0;
        proof {
            crate::bits::lemma_put_bit(c0, C_FLAG, C_FLAG, shifter(rm_val, shift_type, shift_amount, reg_shift, old_carry).1);
        }
        if !set_flags {
            let ghost c1 = cpu.cpsr;
            cpu.cpsr = put_bit_exec(cpu.cpsr, C_FLAG, old_carry);
            proof {
                crate::bits::lemma_put_bit(c0, C_FLAG, C_FLAG, old_carry);
                crate::bits::lemma_put_bit(c1, C_FLAG, C_FLAG, old_carry);
                assert(put_bit(c1, C_FLAG, old_carry) == put_bit(c0, C_FLAG, old_carry));
            }
            assert(cpu@ =~= old(cpu)@);
        }
        (result, new_carry)
    }
}

fn logic_result(cpu: &mut Cpu, r: u32, sf: bool, carry: bool)
    ensures
        final(cpu)@ == if sf { logic_flags(old(cpu)@, r, carry) } else { old(cpu)@ },
{
    if sf {
        cpu.set_nz(r);
        cpu.cpsr = put_bit_exec(cpu.cpsr, C_FLAG, carry);
    }
}

fn alu_exec(cpu: &mut Cpu, op: u32, a: u32, b: u32, carry: bool, sf: bool) -> (r: u32)
    ensures
        (final(cpu)@, r) == alu_spec(old(cpu)@, op, a, b, carry, sf),
{
    if op == 0x0 {
        logic_result(cpu, a & b, sf, carry);
        a & b
    } else if op == 0x1 {
        logic_result(cpu, a ^ b, sf, carry);
        a ^ b
    } else if op == 0x2 {
        cpu.sub_with_flags(a, b, sf)
    } else if op == 0x3 {
        cpu.sub_with_flags(b, a, sf)
    } else if op == 0x4 {
        cpu.add_with_flags(a, b, sf)
    } else if op == 0x5 {
        cpu.adc_with_flags(a, b, sf)
    } else if op == 0x6 {
        cpu.sbc_with_flags(a, b, sf)
    } else if op == 0x7 {
        cpu.sbc_with_flags(b, a, sf)
    } else if op == 0x8 {
        logic_result(cpu, a & b, true, carry);
        a & b
    } else if op == 0x9 {
        logic_result(cpu, a ^ b, true, carry);
        a ^ b
    } else if op == 0xA {
        cpu.sub_with_flags(a, b, true);
        0
    } else if op == 0xB {
        cpu.add_with_flags(a, b, true);
        0
    } else if op == 0xC {
        logic_result(cpu, a | b, sf, carry);
        a | b
    } else if op == 0xD {
        logic_result(cpu, b, sf, carry);
        b
    } else if op == 0xE {
        logic_result(cpu, a & !b, sf, carry);
        a & !b
    } else {
        logic_result(cpu, !b, sf, carry);
        !b
    }
}

fn arm_data_processing(cpu: &mut Cpu, instr: u32) -> (r: u32)
    ensures
        (final(cpu)@, r) == data_processing_spec(old(cpu)@, instr),
{
    let imm = (instr >> 25) & 1 != 0;
    let opcode = (instr >> 21) & 0xF;
    let set_flags = (instr >> 20) & 1 != 0;
    let rn = ((instr >> 16) & 0xF) as usize;
    let rd = ((instr >> 12) & 0xF) as usize;
    if !set_flags && (opcode >= 0x8 && opcode <= 0xB) {
        return arm_psr_transfer(cpu, instr);
    }
    let rn_val = cpu.regs[rn];
    let (op2, shift_carry) = dp_operand_exec(cpu, instr);
    let result = alu_exec(cpu, opcode, rn_val, op2, shift_carry, set_flags);
    if rd == 15 {
        if set_flags {
            restore_spsr_exec(cpu);
        }
        let mask: u32 = if cpu.in_thumb() { !1 } else { !3 };
        cpu.regs[15] = result & mask;
        cpu.pipeline_valid = false;
        return 3;
    }
    if opcode < 8 || opcode > 11 {
        cpu.regs[rd] = result;
    }
    if !imm && (instr >> 4) & 1 != 0 {
        2
    } else {
        1
    }
}

fn psr_mask_exec(instr: u32) -> (r: u32)
    ensures
        r == psr_field_mask(instr),
{
    let m19: u32 = if instr & 0x8_0000 != 0 { 0xFF00_0000 } else { 0 };
    let m18: u32 = if instr & 0x4_0000 != 0 { 0x00FF_0000 } else { 0 };
    let m17: u32 = if instr & 0x2_0000 != 0 { 0x0000_FF00 } else { 0 };
    let m16: u32 = if instr & 0x1_0000 != 0 { 0x0000_00FF } else { 0 };
    m19 | m18 | m17 | m16
}

fn arm_psr_transfer(cpu: &mut Cpu, instr: u32) -> (r: u32)
    ensures
        final(cpu)@ == psr_transfer_spec(old(cpu)@, instr),
        r == 1,
{
    let is_spsr = (instr >> 22) & 1 != 0;
    let is_msr = (instr >> 21) & 1 != 0;
    if !is_msr {
        let rd = ((instr >> 12) & 0xF) as usize;
        let val = if is_spsr {
            cpu.get_spsr()
        } else {
            cpu.cpsr
        };
        cpu.regs[rd] = val;
        1
    } else {
        let val = if (instr >> 25) & 1 != 0 {
            let imm = instr & 0xFF;
            let rotate = ((instr >> 8) & 0xF) * 2;
            rotate_right(imm, rotate)
        } else {
            let rm = (instr & 0xF) as usize;
            cpu.regs[rm]
        };
        let mut mask = psr_mask_exec(instr);
        let mode = cpu.cpsr & 0x1F;
        if mode == MODE_USR {
            mask = mask & 0xFF00_0000;
        }
        if is_spsr {
            let spsr = cpu.get_spsr();
            cpu.set_spsr((spsr & !mask) | (val & mask));
        } else {
            let new_cpsr = (cpu.cpsr & !mask) | (val & mask);
            if mask & 0x1F != 0 {
                let new_mode = new_cpsr & 0x1F;
                cpu.switch_mode(new_mode);
            }
            cpu.cpsr = (cpu.cpsr & !mask) | (val & mask);
        }
        1
    }
}

fn arm_msr(cpu: &mut Cpu, instr: u32) -> (r: u32)
    ensures
        final(cpu)@ == psr_transfer_spec(old(cpu)@, instr),
        r == 1,
{
    arm_psr_transfer(cpu, instr)
}

// ---------------------------------------------------------------------------
// Branches
// ---------------------------------------------------------------------------

/// The 24-bit word offset of a branch, as a byte offset in two's complement.
pub open spec fn branch_offset(instr: u32) -> u32 {
    let v = (instr & 0x00FF_FFFF) << 2u32;
    if v & 0x0200_0000 != 0 { v | 0xFC00_0000 } else { v }
}

/// B and BL: the program counter moves by the offset; BL keeps the address of
/// the next instruction in r14.
pub open spec fn branch_spec(s: CpuState, instr: u32) -> CpuState {
    let s1 = if (instr >> 24) & 1 != 0 { s.with_reg(14, wrap32(s.regs[15] - 4)) } else { s };
    jump(s1, wrap32(s1.regs[15] + branch_offset(instr)))
}

/// BX: a jump to Rm, whose bit 0 selects the Thumb state.
pub open spec fn bx_spec(s: CpuState, rm_val: u32) -> CpuState {
    if rm_val & 1 != 0 {
        jump(s.with_cpsr(s.cpsr | T_FLAG), rm_val & !1u32)
    } else {
        jump(s.with_cpsr(s.cpsr & !T_FLAG), rm_val & !3u32)
    }
}

fn arm_branch(cpu: &mut Cpu, instr: u32) -> (r: u32)
    ensures
        final(cpu)@ == branch_spec(old(cpu)@, instr),
        r == 3,
{
    let link = (instr >> 24) & 1 != 0;
    let v = (instr & 0x00FF_FFFF) << 2;
    let offset = if v & 0x0200_0000 != 0 {
        v | 0xFC00_0000
    } else {
        v
    };
    if link {
        cpu.regs[14] = cpu.regs[15].wrapping_sub(4);
    }
    cpu.regs[15] = cpu.regs[15].wrapping_add(offset);
    cpu.pipeline_valid = false;
    3
}

pub(crate) fn branch_exchange(cpu: &mut Cpu, addr: u32)
    ensures
        final(cpu)@ == bx_spec(old(cpu)@, addr),
{
    if addr & 1 != 0 {
        cpu.cpsr = cpu.cpsr | T_FLAG;
        cpu.regs[15] = addr & !1;
    } else {
        cpu.cpsr = cpu.cpsr & !T_FLAG;
        cpu.regs[15] = addr & !3;
    }
    cpu.pipeline_valid = false;
}

fn arm_bx(cpu: &mut Cpu, instr: u32) -> (r: u32)
    ensures
        final(cpu)@ == bx_spec(old(cpu)@, old(cpu).regs[(instr & 0xF) as int]),
        r == 3,
{
    let rm = (instr & 0xF) as usize;
    let addr = cpu.regs[rm];
    branch_exchange(cpu, addr);
    3
}


// ---------------------------------------------------------------------------
// Loads and stores
// ---------------------------------------------------------------------------

/// The offset of a single data transfer: a 12-bit immediate, or a register
/// shifted by an immediate amount.
pub open spec fn single_offset(s: CpuState, instr: u32) -> u32 {
    if (instr >> 25) & 1 == 0 {
        instr & 0xFFF
    } else {
        shifter(s.regs[(instr & 0xF) as int], (instr >> 5) & 3, (instr >> 7) & 0x1F, false, bit_set(s.cpsr, C_FLAG)).0
    }
}

/// The base register written back after a transfer at `wb_addr`: after
/// post-indexing or with the W bit, unless a load went to the base itself.
pub open spec fn writeback(s: CpuState, instr: u32, wb_addr: u32) -> CpuState {
    let pre = (instr >> 24) & 1 != 0;
    let load = (instr >> 20) & 1 != 0;
    let rn = ((instr >> 16) & 0xF) as int;
    let rd = ((instr >> 12) & 0xF) as int;
    if (!pre || (instr >> 21) & 1 != 0) && (!load || rd != rn) {
        s.with_reg(rn, wb_addr)
    } else {
        s
    }
}

/// LDR, LDRB, STR and STRB: the transfer at the pre-indexed address or at the
/// base, then the write-back; a load to r15 is a jump (5 cycles), another load
/// takes 3, a store 2.
pub open spec fn single_transfer_spec(s: CpuState, b: BusView, instr: u32) -> (CpuState, BusView, u32) {
    let pre = (instr >> 24) & 1 != 0;
    let up = (instr >> 23) & 1 != 0;
    let byte = (instr >> 22) & 1 != 0;
    let load = (instr >> 20) & 1 != 0;
    let rd = ((instr >> 12) & 0xF) as int;
    let off = single_offset(s, instr);
    let base = s.regs[((instr >> 16) & 0xF) as int];
    let addr = if pre { offset_addr(base, off, up) } else { base };
    let wb_addr = if pre { addr } else { offset_addr(base, off, up) };
    if load {
        let val = if byte { read8_value(b, addr) as u32 } else { ldr_value(b, addr) };
        let b1 = if byte { read8_effect(b, addr) } else { ldr_effect(b, addr) };
        if rd == 15 {
            (writeback(jump(s, val & !3u32), instr, wb_addr), b1, 5)
        } else {
            (writeback(s.with_reg(rd, val), instr, wb_addr), b1, 3)
        }
    } else {
        let val = s.regs[rd];
        let b1 = if byte { write8_spec(b, addr, val as u8) } else { write32_spec(b, addr & !3u32, val) };
        (writeback(s, instr, wb_addr), b1, 2)
    }
}

/// LDRH, LDRSB, LDRSH and STRH with an immediate or register offset; a load
/// to r15 refills the pipeline (5 cycles).
pub open spec fn halfword_transfer_spec(s: CpuState, b: BusView, instr: u32) -> (CpuState, BusView, u32) {
    let pre = (instr >> 24) & 1 != 0;
    let up = (instr >> 23) & 1 != 0;
    let load = (instr >> 20) & 1 != 0;
    let rd = ((instr >> 12) & 0xF) as int;
    let op = (instr >> 5) & 3;
    let off = if (instr >> 22) & 1 != 0 {
        ((instr >> 4) & 0xF0) | (instr & 0xF)
    } else {
        s.regs[(instr & 0xF) as int]
    };
    let base = s.regs[((instr >> 16) & 0xF) as int];
    let addr = if pre { offset_addr(base, off, up) } else { base };
    let wb_addr = if pre { addr } else { offset_addr(base, off, up) };
    if load {
        let (val, b1) = if op == 1 {
            (read16_value(b, addr & !1u32) as u32, read16_effect(b, addr & !1u32))
        } else if op == 2 || (op == 3 && addr & 1 != 0) {
            (sext8(read8_value(b, addr)), read8_effect(b, addr))
        } else if op == 3 {
            (sext16(read16_value(b, addr)), read16_effect(b, addr))
        } else {
            (0u32, b)
        };
        let s1 = s.with_reg(rd, val);
        if rd == 15 {
            (writeback(CpuState { pipeline_valid: false, ..s1 }, instr, wb_addr), b1, 5)
        } else {
            (writeback(s1, instr, wb_addr), b1, 3)
        }
    } else {
        let b1 = if op == 1 { write16_spec(b, addr & !1u32, s.regs[rd] as u16) } else { b };
        (writeback(s, instr, wb_addr), b1, 2)
    }
}

/// A word load at the aligned address below `addr`: the word and the bus after.
#[verifier::opaque]
pub open spec fn load_word(b: BusView, addr: u32) -> (u32, BusView) {
    (read32_value(b, addr & !3u32), read32_effect(b, addr & !3u32))
}

/// The bus after a word store at the aligned address below `addr`.
#[verifier::opaque]
pub open spec fn store_word(b: BusView, addr: u32, v: u32) -> BusView {
    write32_spec(b, addr & !3u32, v)
}

/// A byte load at `addr`: the byte and the bus after.
#[verifier::opaque]
pub open spec fn load_byte(b: BusView, addr: u32) -> (u8, BusView) {
    (read8_value(b, addr), read8_effect(b, addr))
}

/// A halfword load at `addr`: the halfword and the bus after.
#[verifier::opaque]
pub open spec fn load_half(b: BusView, addr: u32) -> (u16, BusView) {
    (read16_value(b, addr), read16_effect(b, addr))
}

/// The bus after a byte store at `addr`.
#[verifier::opaque]
pub open spec fn store_byte(b: BusView, addr: u32, v: u8) -> BusView {
    write8_spec(b, addr, v)
}

/// The bus after a halfword store at `addr`.
#[verifier::opaque]
pub open spec fn store_half(b: BusView, addr: u32, v: u16) -> BusView {
    write16_spec(b, addr, v)
}

pub(crate) fn read_byte(bus: &mut Bus, addr: u32) -> (r: u8)
    requires
        old(bus)@.wf(),
    ensures
        (r, final(bus)@) == load_byte(old(bus)@, addr),
        final(bus)@.wf(),
        old(bus).data_wait_cycles <= 0xF000_0000 ==> waits_within(old(bus)@, final(bus)@, 1),
{
    reveal(load_byte);
    bus.read8(addr)
}

pub(crate) fn read_half(bus: &mut Bus, addr: u32) -> (r: u16)
    requires
        old(bus)@.wf(),
    ensures
        (r, final(bus)@) == load_half(old(bus)@, addr),
        final(bus)@.wf(),
        old(bus).data_wait_cycles <= 0xF000_0000 ==> waits_within(old(bus)@, final(bus)@, 1),
{
    reveal(load_half);
    bus.read16(addr)
}

pub(crate) fn write_byte(bus: &mut Bus, addr: u32, v: u8)
    requires
        old(bus)@.wf(),
    ensures
        final(bus)@ == store_byte(old(bus)@, addr, v),
        final(bus)@.wf(),
        old(bus).data_wait_cycles <= 0xF000_0000 ==> waits_within(old(bus)@, final(bus)@, 1),
{
    reveal(store_byte);
    bus.write8(addr, v)
}

pub(crate) fn write_half(bus: &mut Bus, addr: u32, v: u16)
    requires
        old(bus)@.wf(),
    ensures
        final(bus)@ == store_half(old(bus)@, addr, v),
        final(bus)@.wf(),
        old(bus).data_wait_cycles <= 0xF000_0000 ==> waits_within(old(bus)@, final(bus)@, 1),
{
    reveal(store_half);
    bus.write16(addr, v)
}

/// The registers of `rlist` from number `i` up, moved one word at a time
/// starting at `addr`, loaded or stored; the first one moved also writes the
/// base back when `wb` holds. Gives the state, the bus, the next address and
/// the count of words moved added to `cyc`.
pub open spec fn block_regs(
    s: CpuState,
    b: BusView,
    load: bool,
    rlist: u32,
    addr: u32,
    i: nat,
    first: bool,
    wb: bool,
    rn: int,
    wb_val: u32,
    cyc: u32,
) -> (CpuState, BusView, u32, u32)
    decreases 16 - i,
{
    if i >= 16 {
        (s, b, addr, cyc)
    } else if rlist & (1u32 << (i as u32)) != 0 {
        let s1 = if load { s.with_reg(i as int, load_word(b, addr).0) } else { s };
        let b1 = if load { load_word(b, addr).1 } else { store_word(b, addr, s.regs[i as int]) };
        let s2 = if first && wb { s1.with_reg(rn, wb_val) } else { s1 };
        block_regs(s2, b1, load, rlist, wrap32(addr + 4), i + 1, false, wb, rn, wb_val, (cyc + 1) as u32)
    } else {
        block_regs(s, b, load, rlist, addr, i + 1, first, wb, rn, wb_val, cyc)
    }
}

/// A word-aligned address of on-chip work RAM: it is its own aligned address,
/// and its offset into the RAM is its distance from the start.
pub(crate) proof fn lemma_iwram_word(a: u32)
    requires
        0x0300_0000 <= a,
        a + 4 <= 0x0300_8000,
        a % 4 == 0,
    ensures
        a & !3u32 == a,
        region(a) == 0x03,
        (a >> 24u32) & 0xF == 3,
        a & 0x7FFF == a - 0x0300_0000,
{
    assert({
        &&& a & !3u32 == a
        &&& (a >> 24u32) & 0xFF == 3
        &&& (a >> 24u32) & 0xF == 3
        &&& a & 0x7FFF == a - 0x0300_0000
    }) by (bit_vector)
        requires
            0x0300_0000 <= a,
            a + 4 <= 0x0300_8000,
            a % 4 == 0,
    ;
}

/// Storing the registers of `rlist` (r13 not among them) from number `i` up,
/// one word each from `addr` upwards in on-chip work RAM, with r13 as the base
/// written back after the first store when `wb` holds: register `j` lands at
/// the word after those of the listed registers below it, nothing below `addr`
/// changes, and no register but r13 does.
pub(crate) proof fn lemma_push_words(
    s: CpuState,
    b: BusView,
    rlist: u32,
    a0: u32,
    addr: u32,
    i: nat,
    first: bool,
    wb: bool,
    wb_val: u32,
    cyc: u32,
)
    requires
        b.iwram.len() == 0x8000,
        s.regs.len() == 16,
        i <= 16,
        0x0300_0000 <= a0,
        a0 % 4 == 0,
        a0 + 4 * popcount(rlist, 16) <= 0x0300_8000,
        addr == a0 + 4 * popcount(rlist, i),
        cyc == popcount(rlist, i),
        rlist & (1u32 << (13nat as u32)) == 0,
    ensures
        ({
            let t = block_regs(s, b, false, rlist, addr, i, first, wb, 13, wb_val, cyc);
            &&& !wb ==> t.0 == s
            &&& t.0 == (CpuState { regs: t.0.regs, ..s })
            &&& t.0.regs.len() == 16
            &&& forall|k: int| 0 <= k < 16 && k != 13 ==> #[trigger] t.0.regs[k] == s.regs[k]
            &&& t.2 == a0 + 4 * popcount(rlist, 16)
            &&& t.3 == popcount(rlist, 16)
            &&& t.1.iwram.len() == 0x8000
            &&& forall|k: int| 0 <= k < addr - 0x0300_0000 ==> #[trigger] t.1.iwram[k] == b.iwram[k]
            &&& forall|j: nat|
                i <= j < 16 && rlist & (1u32 << (j as u32)) != 0 ==> mem32(
                    t.1.iwram,
                    a0 - 0x0300_0000 + 4 * #[trigger] popcount(rlist, j),
                ) == s.regs[j as int]
        }),
    decreases 16 - i,
{
    if i < 16 {
        lemma_popcount_step(rlist, i);
        lemma_popcount_mono(rlist, i + 1, 16);
        if rlist & (1u32 << (i as u32)) != 0 {
            assert(i != 13);
            let v = s.regs[i as int];
            let b1 = store_word(b, addr, v);
            let off = addr - 0x0300_0000;
            lemma_iwram_word(addr);
            reveal(store_word);
            assert(b1.iwram == crate::bus::store32(b.iwram, off, v));
            let s2 = if first && wb { s.with_reg(13, wb_val) } else { s };
            lemma_push_words(s2, b1, rlist, a0, wrap32(addr + 4), i + 1, false, wb, wb_val, (cyc + 1) as u32);
            let t = block_regs(s2, b1, false, rlist, wrap32(addr + 4), i + 1, false, wb, 13, wb_val, (cyc + 1) as u32);
            lemma_le32_bytes(v);
            assert(t.1.iwram[off] == b1.iwram[off]);
            assert(t.1.iwram[off + 1] == b1.iwram[off + 1]);
            assert(t.1.iwram[off + 2] == b1.iwram[off + 2]);
            assert(t.1.iwram[off + 3] == b1.iwram[off + 3]);
            assert(mem32(t.1.iwram, off) == v);
            assert forall|j: nat|
                i <= j < 16 && rlist & (1u32 << (j as u32)) != 0 implies mem32(
                    t.1.iwram,
                    a0 - 0x0300_0000 + 4 * #[trigger] popcount(rlist, j),
                ) == s.regs[j as int] by {
                if j > i {
                    assert(j != 13);
                    assert(s2.regs[j as int] == s.regs[j as int]);
                }
            }
        } else {
            lemma_push_words(s, b, rlist, a0, addr, i + 1, first, wb, wb_val, cyc);
        }
    }
}

/// Loading the registers of `rlist` (r13 not among them) from number `i` up,
/// one word each from `addr` upwards in on-chip work RAM, with r13 as the base
/// written back after the first load when `wb` holds: register `k` gets the
/// word after those of the listed registers below it, the others but r13 keep
/// their values, and the RAM is untouched.
pub(crate) proof fn lemma_pop_words(
    s: CpuState,
    b: BusView,
    rlist: u32,
    a0: u32,
    addr: u32,
    i: nat,
    first: bool,
    wb: bool,
    wb_val: u32,
    cyc: u32,
)
    requires
        b.iwram.len() == 0x8000,
        s.regs.len() == 16,
        i <= 16,
        0x0300_0000 <= a0,
        a0 % 4 == 0,
        a0 + 4 * popcount(rlist, 16) <= 0x0300_8000,
        addr == a0 + 4 * popcount(rlist, i),
        cyc == popcount(rlist, i),
        rlist & (1u32 << (13nat as u32)) == 0,
    ensures
        ({
            let t = block_regs(s, b, true, rlist, addr, i, first, wb, 13, wb_val, cyc);
            &&& t.0 == (CpuState { regs: t.0.regs, ..s })
            &&& t.0.regs.len() == 16
            &&& t.2 == a0 + 4 * popcount(rlist, 16)
            &&& t.3 == popcount(rlist, 16)
            &&& t.1.iwram == b.iwram
            &&& forall|k: int|
                0 <= k < 16 && k != 13 ==> #[trigger] t.0.regs[k] == if i <= k && rlist & (1u32 << (k as u32)) != 0 {
                    mem32(b.iwram, a0 - 0x0300_0000 + 4 * popcount(rlist, k as nat))
                } else {
                    s.regs[k]
                }
        }),
    decreases 16 - i,
{
    if i < 16 {
        lemma_popcount_step(rlist, i);
        lemma_popcount_mono(rlist, i + 1, 16);
        if rlist & (1u32 << (i as u32)) != 0 {
            let w = load_word(b, addr);
            lemma_iwram_word(addr);
            reveal(load_word);
            assert(w.0 == mem32(b.iwram, addr - 0x0300_0000));
            assert(w.1.iwram == b.iwram);
            let s1 = s.with_reg(i as int, w.0);
            let s2 = if first && wb { s1.with_reg(13, wb_val) } else { s1 };
            lemma_pop_words(s2, w.1, rlist, a0, wrap32(addr + 4), i + 1, false, wb, wb_val, (cyc + 1) as u32);
        } else {
            lemma_pop_words(s, b, rlist, a0, addr, i + 1, first, wb, wb_val, cyc);
        }
    }
}

/// A block transfer with an empty list: r15 alone is moved, and the base
/// steps by 0x40.
#[verifier::opaque]
pub open spec fn block_empty(s: CpuState, b: BusView, instr: u32) -> (CpuState, BusView) {
    let rn = ((instr >> 16) & 0xF) as int;
    let base = s.regs[rn];
    let load = (instr >> 20) & 1 != 0;
    let s1 = if load { jump(s, read32_value(b, base)) } else { s };
    let b1 = if load { read32_effect(b, base) } else { write32_spec(b, base, s.regs[15]) };
    (if (instr >> 21) & 1 != 0 { s1.with_reg(rn, offset_addr(base, 0x40, (instr >> 23) & 1 != 0)) } else { s1 }, b1)
}

/// The end of a block transfer: a loaded r15 is a jump (restoring the saved
/// status register with S), then the mode switched for a User-bank transfer
/// is left, or else the base is written back.
#[verifier::opaque]
pub open spec fn block_finish(
    s2: CpuState,
    load: bool,
    rlist: u32,
    s_bit: bool,
    user_mode: bool,
    old_mode: u32,
    wback: bool,
    rn: int,
    wb_val: u32,
) -> CpuState {
    let s3 = if load && rlist & 0x8000 != 0 {
        let s3a = if s_bit {
            restore_spsr(if user_mode { switch_mode_spec(s2, old_mode) } else { s2 })
        } else {
            s2
        };
        jump(s3a, s3a.regs[15] & pc_mask(s3a))
    } else {
        s2
    };
    if user_mode {
        switch_mode_spec(s3, old_mode)
    } else if wback {
        s3.with_reg(rn, wb_val)
    } else {
        s3
    }
}

/// LDM and STM. An empty list moves r15 alone and steps the base by 0x40.
/// Otherwise the registers move in ascending order from the lowest address of
/// the block; with S and without r15 loaded the User bank is used; loading
/// r15 is a jump, restoring the saved status register with S.
pub open spec fn block_transfer_spec(s: CpuState, b: BusView, instr: u32) -> (CpuState, BusView, u32) {
    let pre = (instr >> 24) & 1 != 0;
    let up = (instr >> 23) & 1 != 0;
    let s_bit = (instr >> 22) & 1 != 0;
    let wback = (instr >> 21) & 1 != 0;
    let load = (instr >> 20) & 1 != 0;
    let rn = ((instr >> 16) & 0xF) as int;
    let rlist = instr & 0xFFFF;
    let base = s.regs[rn];
    if rlist == 0 {
        let t = block_empty(s, b, instr);
        (t.0, t.1, 3)
    } else {
        let n = popcount(rlist, 16);
        let wb_val = offset_addr(base, (n * 4) as u32, up);
        let addr0 = if up {
            if pre { wrap32(base + 4) } else { base }
        } else {
            if pre { wrap32(base - n * 4) } else { wrap32(wrap32(base - n * 4) + 4) }
        };
        let user_mode = s_bit && (!load || rlist & 0x8000 == 0);
        let old_mode = mode_of(s.cpsr);
        let s1 = if user_mode { switch_mode_spec(s, MODE_USR) } else { s };
        let t = block_regs(s1, b, load, rlist, addr0, 0, true, wback && !user_mode, rn, wb_val, 0);
        let s4 = block_finish(t.0, load, rlist, s_bit, user_mode, old_mode, wback, rn, wb_val);
        (s4, t.1, (t.3 + if load { 2u32 } else { 1u32 }) as u32)
    }
}

/// SWP and SWPB: the old memory value goes to Rd, Rm to memory; 4 cycles.
pub open spec fn swap_spec(s: CpuState, b: BusView, instr: u32) -> (CpuState, BusView) {
    let addr = s.regs[((instr >> 16) & 0xF) as int];
    let rd = ((instr >> 12) & 0xF) as int;
    let v = s.regs[(instr & 0xF) as int];
    if (instr >> 22) & 1 != 0 {
        (s.with_reg(rd, read8_value(b, addr) as u32), write8_spec(read8_effect(b, addr), addr, v as u8))
    } else {
        (s.with_reg(rd, ldr_value(b, addr)), write32_spec(ldr_effect(b, addr), addr & !3u32, v))
    }
}

fn arm_single_transfer(cpu: &mut Cpu, bus: &mut Bus, instr: u32) -> (r: u32)
    requires
        old(bus)@.wf(),
    ensures
        (final(cpu)@, final(bus)@, r) == single_transfer_spec(old(cpu)@, old(bus)@, instr),
        final(bus)@.wf(),
        old(bus).data_wait_cycles <= 0x1000_0000 ==> waits_within(old(bus)@, final(bus)@, 1),
        1 <= r <= 5,
{
    let imm = (instr >> 25) & 1 == 0;
    let pre = (instr >> 24) & 1 != 0;
    let up = (instr >> 23) & 1 != 0;
    let byte = (instr >> 22) & 1 != 0;
    let writeback = (instr >> 21) & 1 != 0;
    let load = (instr >> 20) & 1 != 0;
    let rn = ((instr >> 16) & 0xF) as usize;
    let rd = ((instr >> 12) & 0xF) as usize;
    let offset = if imm {
        instr & 0xFFF
    } else {
        let rm = (instr & 0xF) as usize;
        let shift_type = (instr >> 5) & 3;
        let shift_amount = (instr >> 7) & 0x1F;
        let rm_val = cpu.regs[rm];
        cpu.barrel_shift(rm_val, shift_type, shift_amount, false, false)
    };
    let base = cpu.regs[rn];
    let addr = if pre {
        offset_exec(base, offset, up)
    } else {
        base
    };
    let cycles: u32;
    if load {
        let val = if byte {
            bus.read8(addr) as u32
        } else {
            ldr_rotated(bus, addr)
        };
        if rd == 15 {
            cpu.regs[15] = val & !3;
            cpu.pipeline_valid = false;
            cycles = 5;
        } else {
            cpu.regs[rd] = val;
            cycles = 3;
        }
    } else {
        let val = cpu.regs[rd];
        if byte {
            bus.write8(addr, val as u8);
        } else {
            bus.write32(addr & !3, val);
        }
        cycles = 2;
    }
    let wb_addr = if !pre {
        offset_exec(base, offset, up)
    } else {
        addr
    };
    if (!pre || writeback) && (!load || rd != rn) {
        cpu.regs[rn] = wb_addr;
    }
    cycles
}

fn arm_halfword_transfer(cpu: &mut Cpu, bus: &mut Bus, instr: u32) -> (r: u32)
    requires
        old(bus)@.wf(),
    ensures
        (final(cpu)@, final(bus)@, r) == halfword_transfer_spec(old(cpu)@, old(bus)@, instr),
        final(bus)@.wf(),
        old(bus).data_wait_cycles <= 0x1000_0000 ==> waits_within(old(bus)@, final(bus)@, 1),
        1 <= r <= 5,
{
    let pre = (instr >> 24) & 1 != 0;
    let up = (instr >> 23) & 1 != 0;
    let imm_offset = (instr >> 22) & 1 != 0;
    let writeback = (instr >> 21) & 1 != 0;
    let load = (instr >> 20) & 1 != 0;
    let rn = ((instr >> 16) & 0xF) as usize;
    let rd = ((instr >> 12) & 0xF) as usize;
    let op = (instr >> 5) & 3;
    let offset = if imm_offset {
        ((instr >> 4) & 0xF0) | (instr & 0xF)
    } else {
        let rm = (instr & 0xF) as usize;
        cpu.regs[rm]
    };
    let base = cpu.regs[rn];
    let addr = if pre {
        offset_exec(base, offset, up)
    } else {
        base
    };
    let cycles: u32;
    if load {
        let val: u32 = if op == 1 {
            bus.read16(addr & !1) as u32
        } else if op == 2 {
            bus.read8(addr) as i8 as i32 as u32
        } else if op == 3 {
            if addr & 1 != 0 {
                bus.read8(addr) as i8 as i32 as u32
            } else {
                bus.read16(addr) as i16 as i32 as u32
            }
        } else {
            0
        };
        cpu.regs[rd] = val;
        if rd == 15 {
            cpu.pipeline_valid = false;
            cycles = 5;
        } else {
            cycles = 3;
        }
    } else {
        if op == 1 {
            let val = cpu.regs[rd] as u16;
            bus.write16(addr & !1, val);
        }
        cycles = 2;
    }
    let wb_addr = if !pre {
        offset_exec(base, offset, up)
    } else {
        addr
    };
    if (!pre || writeback) && (!load || rd != rn) {
        cpu.regs[rn] = wb_addr;
    }
    cycles
}

fn move_word(cpu: &mut Cpu, bus: &mut Bus, load: bool, i: usize, addr: u32)
    requires
        old(bus)@.wf(),
        i < 16,
    ensures
        final(cpu)@ == if load { old(cpu)@.with_reg(i as int, load_word(old(bus)@, addr).0) } else { old(cpu)@ },
        final(bus)@ == if load { load_word(old(bus)@, addr).1 } else { store_word(old(bus)@, addr, old(cpu).regs[i as int]) },
        final(bus)@.wf(),
        old(bus).data_wait_cycles <= 0xF000_0000 ==> waits_within(old(bus)@, final(bus)@, 1),
{
    reveal(load_word);
    reveal(store_word);
    if load {
        let val = bus.read32(addr & !3);
        cpu.regs[i] = val;
    } else {
        let val = cpu.regs[i];
        bus.write32(addr & !3, val);
    }
}

#[verifier::spinoff_prover]
pub(crate) fn block_loop(
    cpu: &mut Cpu,
    bus: &mut Bus,
    load: bool,
    rlist: u32,
    addr0: u32,
    wb: bool,
    rn: usize,
    wb_val: u32,
) -> (r: u32)
    requires
        old(bus)@.wf(),
        rn < 16,
    ensures
        ({
            let t = block_regs(old(cpu)@, old(bus)@, load, rlist, addr0, 0, true, wb, rn as int, wb_val, 0);
            final(cpu)@ == t.0 && final(bus)@ == t.1 && r == t.3
        }),
        final(bus)@.wf(),
        old(bus).data_wait_cycles <= 0x1000_0000 ==> waits_within(old(bus)@, final(bus)@, 16),
        r <= 16,
{
    let mut addr = addr0;
    let mut first = true;
    let mut cycles = 0u32;
    let mut i: u32 = 0;
    while i < 16
        invariant
            i <= 16,
            cycles <= i,
            rn < 16,
            bus@.wf(),
            old(bus).data_wait_cycles <= 0x1000_0000 ==> waits_within(old(bus)@, bus@, cycles as int),
            block_regs(cpu@, bus@, load, rlist, addr, i as nat, first, wb, rn as int, wb_val, cycles)
                == block_regs(old(cpu)@, old(bus)@, load, rlist, addr0, 0, true, wb, rn as int, wb_val, 0),
        decreases 16 - i,
    {
        let ghost s0 = cpu@;
        let ghost b0 = bus@;
        let ghost a0 = addr;
        let ghost f0 = first;
        let ghost c0 = cycles;
        if rlist & (1u32 << i) != 0 {
            move_word(cpu, bus, load, i as usize, addr);
            addr = addr.wrapping_add(4);
            if first {
                first = false;
                if wb {
                    cpu.regs[rn] = wb_val;
                }
            }
            cycles += 1;
        }
        i += 1;
        assert(block_regs(s0, b0, load, rlist, a0, (i - 1) as nat, f0, wb, rn as int, wb_val, c0)
            == block_regs(cpu@, bus@, load, rlist, addr, i as nat, first, wb, rn as int, wb_val, cycles));
    }
    cycles
}

fn block_finish_exec(
    cpu: &mut Cpu,
    load: bool,
    rlist: u32,
    s_bit: bool,
    user_mode: bool,
    old_mode: u32,
    wback: bool,
    rn: usize,
    wb_val: u32,
)
    requires
        rn < 16,
    ensures
        final(cpu)@ == block_finish(old(cpu)@, load, rlist, s_bit, user_mode, old_mode, wback, rn as int, wb_val),
{
    reveal(block_finish);
    if load && rlist & 0x8000 != 0 {
        if s_bit {
            if user_mode {
                cpu.switch_mode(old_mode);
            }
            restore_spsr_exec(cpu);
        }
        let mask: u32 = if cpu.in_thumb() { !1 } else { !3 };
        cpu.regs[15] = cpu.regs[15] & mask;
        cpu.pipeline_valid = false;
    }
    if user_mode {
        cpu.switch_mode(old_mode);
    } else if wback {
        cpu.regs[rn] = wb_val;
    }
}

fn block_empty_exec(cpu: &mut Cpu, bus: &mut Bus, instr: u32)
    requires
        old(bus)@.wf(),
    ensures
        (final(cpu)@, final(bus)@) == block_empty(old(cpu)@, old(bus)@, instr),
        final(bus)@.wf(),
        old(bus).data_wait_cycles <= 0x1000_0000 ==> waits_within(old(bus)@, final(bus)@, 1),
{
    reveal(block_empty);
    let up = (instr >> 23) & 1 != 0;
    let writeback = (instr >> 21) & 1 != 0;
    let load = (instr >> 20) & 1 != 0;
    let rn = ((instr >> 16) & 0xF) as usize;
    let base = cpu.regs[rn];
    if load {
        cpu.regs[15] = bus.read32(base);
        cpu.pipeline_valid = false;
    } else {
        bus.write32(base, cpu.regs[15]);
    }
    if writeback {
        cpu.regs[rn] = offset_exec(base, 0x40, up);
    }
}

#[verifier::spinoff_prover]
#[verifier::rlimit(40)]
fn arm_block_transfer(cpu: &mut Cpu, bus: &mut Bus, instr: u32) -> (r: u32)
    requires
        old(bus)@.wf(),
    ensures
        (final(cpu)@, final(bus)@, r) == block_transfer_spec(old(cpu)@, old(bus)@, instr),
        final(bus)@.wf(),
        old(bus).data_wait_cycles <= 0x1000_0000 ==> waits_within(old(bus)@, final(bus)@, 16),
        1 <= r <= 18,
{
    let pre = (instr >> 24) & 1 != 0;
    let up = (instr >> 23) & 1 != 0;
    let s_bit = (instr >> 22) & 1 != 0;
    let writeback = (instr >> 21) & 1 != 0;
    let load = (instr >> 20) & 1 != 0;
    let rn = ((instr >> 16) & 0xF) as usize;
    let rlist = instr & 0xFFFF;
    let base = cpu.regs[rn];
    if rlist == 0 {
        block_empty_exec(cpu, bus, instr);
        return 3;
    }
    let reg_count = count_low_ones(rlist, 16);
    let wb_val = offset_exec(base, reg_count * 4, up);
    let addr = if up {
        if pre {
            base.wrapping_add(4)
        } else {
            base
        }
    } else {
        if pre {
            base.wrapping_sub(reg_count * 4)
        } else {
            base.wrapping_sub(reg_count * 4).wrapping_add(4)
        }
    };
    let user_mode = s_bit && (!load || rlist & 0x8000 == 0);
    let old_mode = cpu.cpsr & 0x1F;
    if user_mode {
        cpu.switch_mode(MODE_USR);
    }
    let cycles = block_loop(cpu, bus, load, rlist, addr, writeback && !user_mode, rn, wb_val);
    block_finish_exec(cpu, load, rlist, s_bit, user_mode, old_mode, writeback, rn, wb_val);
    if load {
        cycles + 2
    } else {
        cycles + 1
    }
}

fn arm_swp(cpu: &mut Cpu, bus: &mut Bus, instr: u32) -> (r: u32)
    requires
        old(bus)@.wf(),
    ensures
        (final(cpu)@, final(bus)@) == swap_spec(old(cpu)@, old(bus)@, instr),
        final(bus)@.wf(),
        old(bus).data_wait_cycles <= 0x1000_0000 ==> waits_within(old(bus)@, final(bus)@, 2),
        r == 4,
{
    let byte = (instr >> 22) & 1 != 0;
    let rn = ((instr >> 16) & 0xF) as usize;
    let rd = ((instr >> 12) & 0xF) as usize;
    let rm = (instr & 0xF) as usize;
    let addr = cpu.regs[rn];
    let v = cpu.regs[rm];
    if byte {
        let old = bus.read8(addr) as u32;
        bus.write8(addr, v as u8);
        cpu.regs[rd] = old;
    } else {
        let old = ldr_rotated(bus, addr);
        bus.write32(addr & !3, v);
        cpu.regs[rd] = old;
    }
    4
}

// ---------------------------------------------------------------------------
// Multiplication and the rest
// ---------------------------------------------------------------------------

/// MUL and MLA: the low word of Rm * Rs (plus Rn) in Rd, N and Z set with S;
/// the cycles follow the multiplier as it reads afterwards.
pub open spec fn multiply_spec(s: CpuState, instr: u32) -> (CpuState, u32) {
    let acc = (instr >> 21) & 1 != 0;
    let rs = ((instr >> 8) & 0xF) as int;
    let p = wrap32(s.regs[(instr & 0xF) as int] * s.regs[rs]);
    let r = if acc { wrap32(p + s.regs[((instr >> 12) & 0xF) as int]) } else { p };
    let s1 = s.with_reg(((instr >> 16) & 0xF) as int, r);
    let s2 = if (instr >> 20) & 1 != 0 { s1.with_cpsr(nz_flags(s1.cpsr, r)) } else { s1 };
    (s2, (mul_cycles(s2.regs[rs]) + if acc { 1u32 } else { 0u32 }) as u32)
}

/// The 64-bit result of UMULL, UMLAL, SMULL and SMLAL: the product of Rm and
/// Rs, signed or not, plus RdHi:RdLo when accumulating, modulo 2^64.
pub open spec fn mull_result(s: CpuState, instr: u32) -> int {
    let a = s.regs[(instr & 0xF) as int];
    let b = s.regs[((instr >> 8) & 0xF) as int];
    let prod: int = if (instr >> 22) & 1 != 0 { signed32(a) * signed32(b) } else { a * b };
    let acc: int = if (instr >> 21) & 1 != 0 {
        s.regs[((instr >> 16) & 0xF) as int] * 0x1_0000_0000 + s.regs[((instr >> 12) & 0xF) as int]
    } else {
        0
    };
    (prod + acc) % 0x1_0000_0000_0000_0000
}

/// The long multiplications: the high word in RdHi, the low word in RdLo (so
/// RdLo wins when both are the same register), N and Z of the 64-bit result
/// with S.
pub open spec fn multiply_long_spec(s: CpuState, instr: u32) -> (CpuState, u32) {
    let res = mull_result(s, instr);
    let rs = ((instr >> 8) & 0xF) as int;
    let s1 = s.with_reg(((instr >> 16) & 0xF) as int, (res / 0x1_0000_0000) as u32).with_reg(
        ((instr >> 12) & 0xF) as int,
        (res % 0x1_0000_0000) as u32,
    );
    let s2 = if (instr >> 20) & 1 != 0 {
        s1.with_cpsr(
            (s1.cpsr & !0xC000_0000u32) | (if res == 0 { Z_FLAG } else { 0u32 }) | (if res
                >= 0x8000_0000_0000_0000 {
                N_FLAG
            } else {
                0u32
            }),
        )
    } else {
        s1
    };
    (s2, (mul_cycles(s2.regs[rs]) + 1 + if (instr >> 21) & 1 != 0 { 1u32 } else { 0u32 }) as u32)
}

fn arm_multiply(cpu: &mut Cpu, instr: u32) -> (r: u32)
    ensures
        (final(cpu)@, r) == multiply_spec(old(cpu)@, instr),
        1 <= r <= 5,
{
    let acc = (instr >> 21) & 1 != 0;
    let set_flags = (instr >> 20) & 1 != 0;
    let rd = ((instr >> 16) & 0xF) as usize;
    let rn = ((instr >> 12) & 0xF) as usize;
    let rs = ((instr >> 8) & 0xF) as usize;
    let rm = (instr & 0xF) as usize;
    let mut result = cpu.regs[rm].wrapping_mul(cpu.regs[rs]);
    if acc {
        result = result.wrapping_add(cpu.regs[rn]);
    }
    cpu.regs[rd] = result;
    if set_flags {
        cpu.set_nz(result);
    }
    let m = multiply_cycles(cpu.regs[rs]);
    m + if acc { 1 } else { 0 }
}

/// A word sign-extended to 64 bits.
fn sign_extend_64(a: u32) -> (r: u64)
    ensures
        r as int == if a >= 0x8000_0000 { signed32(a) + 0x1_0000_0000_0000_0000 } else { signed32(a) },
{
    if a >= 0x8000_0000 {
        a as u64 + 0xFFFF_FFFF_0000_0000
    } else {
        a as u64
    }
}

proof fn lemma_mull(x: int, y: int, sa: int, sb: int, ea: int, eb: int)
    requires
        x == sa + 0x1_0000_0000_0000_0000 * ea,
        y == sb + 0x1_0000_0000_0000_0000 * eb,
        ea == 0 || ea == 1,
        eb == 0 || eb == 1,
    ensures
        (x * y) % 0x1_0000_0000_0000_0000 == (sa * sb) % 0x1_0000_0000_0000_0000,
{
    let m: int = 0x1_0000_0000_0000_0000;
    let k: int = if ea == 0 && eb == 0 {
        0
    } else if ea == 0 {
        sa
    } else if eb == 0 {
        sb
    } else {
        sa + sb + m
    };
    if ea == 0 && eb == 0 {
    } else if ea == 0 {
        assert(sa * (sb + m) == m * sa + sa * sb) by (nonlinear_arith);
    } else if eb == 0 {
        assert((sa + m) * sb == m * sb + sa * sb) by (nonlinear_arith);
    } else {
        assert((sa + m) * (sb + m) == m * (sa + sb + m) + sa * sb) by (nonlinear_arith);
    }
    assert(x * y == m * k + sa * sb);
    vstd::arithmetic::div_mod::lemma_mod_multiples_vanish(k, sa * sb, m);
}

fn arm_multiply_long(cpu: &mut Cpu, instr: u32) -> (r: u32)
    ensures
        (final(cpu)@, r) == multiply_long_spec(old(cpu)@, instr),
        2 <= r <= 6,
{
    let sign = (instr >> 22) & 1 != 0;
    let acc = (instr >> 21) & 1 != 0;
    let set_flags = (instr >> 20) & 1 != 0;
    let rdhi = ((instr >> 16) & 0xF) as usize;
    let rdlo = ((instr >> 12) & 0xF) as usize;
    let rs = ((instr >> 8) & 0xF) as usize;
    let rm = (instr & 0xF) as usize;
    let a = cpu.regs[rm];
    let b = cpu.regs[rs];
    let ghost m: int = 0x1_0000_0000_0000_0000;
    let (x, y) = if sign {
        (sign_extend_64(a), sign_extend_64(b))
    } else {
        (a as u64, b as u64)
    };
    let p = x.wrapping_mul(y);
    let ghost prod: int = if sign { signed32(a) * signed32(b) } else { a * b };
    proof {
        if sign {
            lemma_mull(
                x as int,
                y as int,
                signed32(a),
                signed32(b),
                if a >= 0x8000_0000 { 1 } else { 0 },
                if b >= 0x8000_0000 { 1 } else { 0 },
            );
        } else {
            assert(a * b <= 0xFFFF_FFFF * 0xFFFF_FFFF) by (nonlinear_arith)
                requires
                    a <= 0xFFFF_FFFF,
                    b <= 0xFFFF_FFFF,
            ;
            assert(0 <= a * b) by (nonlinear_arith);
        }
        assert(p as int == prod % m);
    }
    let mut result = p;
    if acc {
        let old = (cpu.regs[rdhi] as u64) * 0x1_0000_0000 + cpu.regs[rdlo] as u64;
        result = result.wrapping_add(old);
        proof {
            vstd::arithmetic::div_mod::lemma_add_mod_noop(prod, old as int, m);
            assert(old as int % m == old as int);
            assert(result as int == (p as int + old as int) % m);
        }
    }
    assert(result as int == mull_result(old(cpu)@, instr));
    cpu.regs[rdhi] = (result / 0x1_0000_0000) as u32;
    cpu.regs[rdlo] = (result % 0x1_0000_0000) as u32;
    if set_flags {
        let z: u32 = if result == 0 { Z_FLAG } else { 0 };
        let n: u32 = if result >= 0x8000_0000_0000_0000 { N_FLAG } else { 0 };
        cpu.cpsr = (cpu.cpsr & !0xC000_0000u32) | z | n;
    }
    let m = multiply_cycles(cpu.regs[rs]);
    m + 1 + if acc { 1 } else { 0 }
}

fn arm_swi(cpu: &mut Cpu, bus: &Bus, instr: u32) -> (r: u32)
    ensures
        final(cpu)@ == swi_spec(old(cpu)@),
        r == 3,
{
    let comment = (instr >> 16) & 0xFF;
    cpu.software_interrupt(comment, bus);
    3
}

/// One ARM instruction, decoded by bits 25 to 27 and the patterns within:
/// the processor state, the bus and the cycles it took.
#[verifier::opaque]
pub open spec fn arm_spec(s: CpuState, b: BusView, instr: u32) -> (CpuState, BusView, u32) {
    let group = (instr >> 25) & 0x7;
    if group == 0 {
        if instr & 0x0FFF_FFF0 == 0x012F_FF10 {
            (bx_spec(s, s.regs[(instr & 0xF) as int]), b, 3)
        } else if instr & 0x0FB0_0FF0 == 0x0100_0090 {
            let t = swap_spec(s, b, instr);
            (t.0, t.1, 4)
        } else if instr & 0x0FC0_00F0 == 0x0000_0090 {
            let t = multiply_spec(s, instr);
            (t.0, b, t.1)
        } else if instr & 0x0F80_00F0 == 0x0080_0090 {
            let t = multiply_long_spec(s, instr);
            (t.0, b, t.1)
        } else if (instr >> 7) & 1 == 1 && (instr >> 4) & 1 == 1 {
            halfword_transfer_spec(s, b, instr)
        } else {
            let t = data_processing_spec(s, instr);
            (t.0, b, t.1)
        }
    } else if group == 1 {
        let t = data_processing_spec(s, instr);
        (t.0, b, t.1)
    } else if group == 2 || (group == 3 && (instr >> 4) & 1 == 0) {
        single_transfer_spec(s, b, instr)
    } else if group == 4 {
        block_transfer_spec(s, b, instr)
    } else if group == 5 {
        (branch_spec(s, instr), b, 3)
    } else if group == 7 && (instr >> 24) & 1 == 1 {
        (swi_spec(s), b, 3)
    } else {
        (s, b, 1)
    }
}

/// Executes one ARM instruction whose condition has passed.
pub fn execute(cpu: &mut Cpu, bus: &mut Bus, instr: u32) -> (r: u32)
    requires
        old(bus)@.wf(),
    ensures
        (final(cpu)@, final(bus)@, r) == arm_spec(old(cpu)@, old(bus)@, instr),
        final(bus)@.wf(),
        old(bus).data_wait_cycles <= 0x1000_0000 ==> waits_within(old(bus)@, final(bus)@, 16),
        1 <= r <= 18,
{
    reveal(arm_spec);
    let bits_27_25 = (instr >> 25) & 0x7;
    let bit4 = (instr >> 4) & 1;
    let bit7 = (instr >> 7) & 1;
    if bits_27_25 == 0 {
        if instr & 0x0FFF_FFF0 == 0x012F_FF10 {
            return arm_bx(cpu, instr);
        }
        if (instr & 0x0FB0_0FF0) == 0x0100_0090 {
            return arm_swp(cpu, bus, instr);
        }
        if (instr & 0x0FC0_00F0) == 0x0000_0090 {
            return arm_multiply(cpu, instr);
        }
        if (instr & 0x0F80_00F0) == 0x0080_0090 {
            return arm_multiply_long(cpu, instr);
        }
        if bit7 == 1 && bit4 == 1 {
            return arm_halfword_transfer(cpu, bus, instr);
        }
        arm_data_processing(cpu, instr)
    } else if bits_27_25 == 1 {
        let opcode = (instr >> 21) & 0xF;
        if (opcode & 0xC) == 0x8 && (instr >> 20) & 1 == 0 {
            proof {
                assert((opcode & 0xC) == 0x8 ==> 8 <= opcode <= 11) by (bit_vector)
                    requires
                        opcode <= 0xF,
                ;
            }
            return arm_msr(cpu, instr);
        }
        proof {
            assert(8 <= opcode <= 11 ==> (opcode & 0xC) == 0x8) by (bit_vector)
                requires
                    opcode <= 0xF,
            ;
        }
        arm_data_processing(cpu, instr)
    } else if bits_27_25 == 2 {
        arm_single_transfer(cpu, bus, instr)
    } else if bits_27_25 == 3 {
        if bit4 == 1 {
            1
        } else {
            arm_single_transfer(cpu, bus, instr)
        }
    } else if bits_27_25 == 4 {
        arm_block_transfer(cpu, bus, instr)
    } else if bits_27_25 == 5 {
        arm_branch(cpu, instr)
    } else if bits_27_25 == 6 {
        1
    } else {
        if (instr >> 24) & 1 == 1 {
            arm_swi(cpu, bus, instr)
        } else {
            1
        }
    }
}


// ---------------------------------------------------------------------------
// What a data-processing instruction computes
// ---------------------------------------------------------------------------

/// N and Z as `nz_flags` leaves them survive the carry and overflow updates
/// that follow.
proof fn lemma_nz_kept(x: u32, r: u32, c: bool, v: bool)
    ensures
        bit_set(put_bit(nz_flags(x, r), C_FLAG, c), Z_FLAG) == (r == 0),
        bit_set(put_bit(nz_flags(x, r), C_FLAG, c), N_FLAG) == (r >= 0x8000_0000),
        bit_set(put_bit(put_bit(nz_flags(x, r), C_FLAG, c), V_FLAG, v), Z_FLAG) == (r == 0),
        bit_set(put_bit(put_bit(nz_flags(x, r), C_FLAG, c), V_FLAG, v), N_FLAG) == (r >= 0x8000_0000),
{
    let z = put_bit(x, Z_FLAG, r == 0);
    let n = nz_flags(x, r);
    let cc = put_bit(n, C_FLAG, c);
    crate::bits::lemma_put_bit(x, Z_FLAG, Z_FLAG, r == 0);
    crate::bits::lemma_put_bit(z, N_FLAG, Z_FLAG, r >= 0x8000_0000);
    crate::bits::lemma_put_bit(z, N_FLAG, N_FLAG, r >= 0x8000_0000);
    crate::bits::lemma_put_bit(n, C_FLAG, Z_FLAG, c);
    crate::bits::lemma_put_bit(n, C_FLAG, N_FLAG, c);
    crate::bits::lemma_put_bit(cc, V_FLAG, Z_FLAG, v);
    crate::bits::lemma_put_bit(cc, V_FLAG, N_FLAG, v);
}

/// The second operand of a data-processing instruction in its two plain forms:
/// an 8-bit immediate rotated right by twice the 4-bit rotation field, or a
/// register with no shift.
pub open spec fn plain_operand(s: CpuState, instr: u32) -> u32 {
    if (instr >> 25) & 1 != 0 {
        let imm = instr & 0xFF;
        let r: u32 = (((instr >> 8) & 0xF) * 2) as u32;
        if r == 0 { imm } else { (imm >> r) | (imm << ((32 - r) as u32)) }
    } else {
        s.regs[(instr & 0xF) as int]
    }
}

/// The value a data-processing operation `op` computes from Rn = `a`, the
/// operand `x` and the carry `c` (0 or 1), modulo 2^32: AND, EOR, SUB, RSB,
/// ADD, ADC, SBC, RSC, then ORR, MOV, BIC and MVN (the comparisons give 0).
pub open spec fn dp_value(op: u32, a: u32, x: u32, c: int) -> u32 {
    if op == 0x0 {
        a & x
    } else if op == 0x1 {
        a ^ x
    } else if op == 0x2 {
        wrap32(a - x)
    } else if op == 0x3 {
        wrap32(x - a)
    } else if op == 0x4 {
        wrap32(a + x)
    } else if op == 0x5 {
        wrap32(a + x + c)
    } else if op == 0x6 {
        wrap32(a - x - 1 + c)
    } else if op == 0x7 {
        wrap32(x - a - 1 + c)
    } else if op == 0xC {
        a | x
    } else if op == 0xD {
        x
    } else if op == 0xE {
        a & !x
    } else if op == 0xF {
        !x
    } else {
        0
    }
}

pub(crate) proof fn lemma_dp_dispatch(s: CpuState, b: BusView, instr: u32)
    requires
        (instr >> 26) & 3 == 0,
        (instr >> 25) & 1 != 0 || instr & 0xFF0 == 0,
        !((instr >> 20) & 1 == 0 && 8 <= (instr >> 21) & 0xF <= 11),
    ensures
        arm_spec(s, b, instr) == ({
            let t = alu_instr_spec(s, instr);
            (t.0, b, t.1)
        }),
        dp_operand(s, instr).0 == plain_operand(s, instr),
        dp_operand_state(s, instr) == s,
        (instr >> 25) & 1 == 0 ==> (instr >> 4) & 1 == 0 && dp_operand(s, instr).1 == bit_set(s.cpsr, C_FLAG),
{
    reveal(arm_spec);
    let group = (instr >> 25) & 0x7;
    assert({
        &&& group <= 1
        &&& (group == 0 ==> (instr >> 25) & 1 == 0)
        &&& (group == 1 ==> (instr >> 25) & 1 == 1)
        &&& (group == 0 ==> {
            &&& instr & 0x0FFF_FFF0 != 0x012F_FF10
            &&& instr & 0x0FB0_0FF0 != 0x0100_0090
            &&& instr & 0x0FC0_00F0 != 0x0000_0090
            &&& instr & 0x0F80_00F0 != 0x0080_0090
            &&& (instr >> 7) & 1 == 0
            &&& (instr >> 4) & 1 == 0
            &&& (instr >> 5) & 3 == 0
            &&& (instr >> 7) & 0x1F == 0
        })
    }) by (bit_vector)
        requires
            (instr >> 26) & 3 == 0,
            group == (instr >> 25) & 0x7,
            (instr >> 25) & 1 != 0 || instr & 0xFF0 == 0,
    ;
    if group == 0 {
        crate::bits::lemma_put_bit(s.cpsr, C_FLAG, C_FLAG, bit_set(s.cpsr, C_FLAG));
    } else {
        let r: u32 = (((instr >> 8) & 0xF) * 2) as u32;
        assert((instr >> 8) & 0xF <= 0xF);
        assert(r % 32 == r);
        assert(dp_operand(s, instr).0 == rotr(instr & 0xFF, r));
    }
}

/// A data-processing instruction whose operand is shifted by a register is
/// decoded as one.
pub(crate) proof fn lemma_dp_dispatch_shifted(s: CpuState, b: BusView, instr: u32)
    requires
        (instr >> 25) & 0x7 == 0,
        instr & 0x0FFF_FFF0 != 0x012F_FF10,
        instr & 0x0FB0_0FF0 != 0x0100_0090,
        instr & 0x0FC0_00F0 != 0x0000_0090,
        instr & 0x0F80_00F0 != 0x0080_0090,
        (instr >> 7) & 1 == 0,
        (instr >> 20) & 1 != 0,
    ensures
        arm_spec(s, b, instr) == ({
            let t = alu_instr_spec(s, instr);
            (t.0, b, t.1)
        }),
{
    reveal(arm_spec);
}

proof fn lemma_alu_value(s: CpuState, op: u32, a: u32, x: u32, carry: bool, sf: bool)
    requires
        op < 16,
        !(8 <= op <= 11),
    ensures
        ({
            let t = alu_spec(s, op, a, x, carry, sf);
            let v = dp_value(op, a, x, carry_in(s.cpsr));
            &&& t.1 == v
            &&& t.0 == (CpuState { cpsr: t.0.cpsr, ..s })
            &&& (sf ==> bit_set(t.0.cpsr, Z_FLAG) == (v == 0) && bit_set(t.0.cpsr, N_FLAG) == (v >= 0x8000_0000))
            &&& (!sf ==> t.0.cpsr == s.cpsr)
        }),
{
    let c = carry_in(s.cpsr);
    if op == 0x2 {
        lemma_nz_kept(s.cpsr, wrap32(a - x), a - x - (1 - 1) >= 0, crate::cpu::sub_overflow(a, x, 1));
    } else if op == 0x3 {
        lemma_nz_kept(s.cpsr, wrap32(x - a), x - a - (1 - 1) >= 0, crate::cpu::sub_overflow(x, a, 1));
    } else if op == 0x6 {
        assert(wrap32(a - x - (1 - c)) == wrap32(a - x - 1 + c));
        lemma_nz_kept(s.cpsr, wrap32(a - x - (1 - c)), a - x - (1 - c) >= 0, crate::cpu::sub_overflow(a, x, c));
    } else if op == 0x7 {
        assert(wrap32(x - a - (1 - c)) == wrap32(x - a - 1 + c));
        lemma_nz_kept(s.cpsr, wrap32(x - a - (1 - c)), x - a - (1 - c) >= 0, crate::cpu::sub_overflow(x, a, c));
    } else if op == 0x4 {
        lemma_nz_kept(s.cpsr, wrap32(a + x), a + x + 0 > 0xFFFF_FFFF, crate::cpu::add_overflow(a, x, 0));
    } else if op == 0x5 {
        lemma_nz_kept(s.cpsr, wrap32(a + x + c), a + x + c > 0xFFFF_FFFF, crate::cpu::add_overflow(a, x, c));
    } else {
        lemma_nz_kept(s.cpsr, dp_value(op, a, x, c), carry, false);
    }
}

/// A data-processing instruction with an immediate operand (an 8-bit value
/// rotated right by twice the rotation field) or an unshifted register operand,
/// and a destination other than r15, writes to Rd the value `dp_value` gives
/// for its opcode, Rn and the operand (AND a & b, BIC a & !b, SUB a - b, ...),
/// and changes no other register; the four comparisons write no register. With
/// S the N and Z flags describe the value; without S the status register is
/// unchanged. It takes one cycle and does not touch the bus.
pub proof fn lemma_data_processing_results(s: CpuState, b: BusView, instr: u32)
    requires
        (instr >> 26) & 3 == 0,
        (instr >> 25) & 1 != 0 || instr & 0xFF0 == 0,
        !((instr >> 20) & 1 == 0 && 8 <= (instr >> 21) & 0xF <= 11),
        (instr >> 12) & 0xF != 15,
    ensures
        ({
            let t = arm_spec(s, b, instr);
            let op = (instr >> 21) & 0xF;
            let rd = ((instr >> 12) & 0xF) as int;
            let v = dp_value(
                op,
                s.regs[((instr >> 16) & 0xF) as int],
                plain_operand(s, instr),
                if s.cpsr & C_FLAG != 0 { 1 } else { 0 },
            );
            &&& t.1 == b
            &&& t.2 == 1
            &&& t.0 == (CpuState { regs: t.0.regs, cpsr: t.0.cpsr, ..s })
            &&& (8 <= op <= 11 ==> t.0.regs == s.regs)
            &&& (!(8 <= op <= 11) ==> t.0.regs == s.regs.update(rd, v))
            &&& ((instr >> 20) & 1 != 0 && !(8 <= op <= 11) ==> {
                &&& (t.0.cpsr & Z_FLAG != 0) == (v == 0)
                &&& (t.0.cpsr & N_FLAG != 0) == (v >= 0x8000_0000)
            })
            &&& ((instr >> 20) & 1 == 0 ==> t.0.cpsr == s.cpsr)
        }),
{
    lemma_dp_dispatch(s, b, instr);
    let op = (instr >> 21) & 0xF;
    assert(op < 16);
    let a = s.regs[((instr >> 16) & 0xF) as int];
    let (x, carry) = dp_operand(s, instr);
    if !(8 <= op <= 11) {
        lemma_alu_value(s, op, a, x, carry, (instr >> 20) & 1 != 0);
    }
}

// ---------------------------------------------------------------------------
// STMDB then LDMIA on the stack
// ---------------------------------------------------------------------------

proof fn lemma_block_dispatch(s: CpuState, b: BusView, instr: u32)
    requires
        (instr >> 25) & 0x7 == 4,
    ensures
        arm_spec(s, b, instr) == block_transfer_spec(s, b, instr),
{
    reveal(arm_spec);
}

/// `STMDB SP!, {list}` followed by `LDMIA SP!, {list}`, for a list of r0 to
/// r12, with the stack in on-chip work RAM and room below SP for the words
/// stored, gives the processor back exactly as it was: the store lowers SP by
/// four bytes per register and the load raises it again. The store takes one
/// cycle more than the count of registers, the load two.
pub proof fn lemma_stm_ldm_round_trip(s: CpuState, b: BusView, rlist: u32)
    requires
        s.wf(),
        b.wf(),
        0 < rlist < 0x2000,
        s.regs[13] % 4 == 0,
        0x0300_0000 + 4 * popcount(rlist, 16) <= s.regs[13] <= 0x0300_8000,
    ensures
        ({
            let n = popcount(rlist, 16);
            let p = arm_spec(s, b, 0xE92D_0000u32 | rlist);
            let q = arm_spec(p.0, p.1, 0xE8BD_0000u32 | rlist);
            &&& p.0 == s.with_reg(13, (s.regs[13] - 4 * n) as u32)
            &&& q.0 == s
            &&& p.2 == n + 1
            &&& q.2 == n + 2
        }),
{
    let stm = 0xE92D_0000u32 | rlist;
    let ldm = 0xE8BD_0000u32 | rlist;
    assert({
        &&& rlist >> 13u32 == 0
        &&& rlist & 0x8000 == 0
        &&& (stm >> 25) & 0x7 == 4
        &&& (ldm >> 25) & 0x7 == 4
        &&& stm & 0xFFFF == rlist
        &&& ldm & 0xFFFF == rlist
        &&& (stm >> 24) & 1 != 0 && (stm >> 23) & 1 == 0 && (stm >> 22) & 1 == 0
        &&& (stm >> 21) & 1 != 0 && (stm >> 20) & 1 == 0 && (stm >> 16) & 0xF == 13
        &&& (ldm >> 24) & 1 == 0 && (ldm >> 23) & 1 != 0 && (ldm >> 22) & 1 == 0
        &&& (ldm >> 21) & 1 != 0 && (ldm >> 20) & 1 != 0 && (ldm >> 16) & 0xF == 13
    }) by (bit_vector)
        requires
            rlist < 0x2000,
            stm == 0xE92D_0000u32 | rlist,
            ldm == 0xE8BD_0000u32 | rlist,
    ;
    crate::bits::lemma_no_bits_above(rlist, 13);
    assert(rlist & (1u32 << (13nat as u32)) == 0);
    crate::bits::lemma_popcount_mono(rlist, 0, 16);
    let n = popcount(rlist, 16);
    let sp = s.regs[13];
    let a0 = wrap32(sp - n * 4);
    assert(a0 == sp - 4 * n);
    assert(a0 % 4 == 0);
    assert(wrap32(a0 + n * 4) == sp);
    let mode = mode_of(s.cpsr);
    lemma_block_dispatch(s, b, stm);
    let t = block_regs(s, b, false, rlist, a0, 0, true, true, 13, a0, 0);
    lemma_push_words(s, b, rlist, a0, a0, 0, true, true, a0, 0);
    reveal(block_finish);
    let s0 = s.with_reg(13, a0);
    assert(t.0.with_reg(13, a0).regs =~= s0.regs);
    let p = arm_spec(s, b, stm);
    assert(p == (s0, t.1, (n + 1) as u32));
    lemma_block_dispatch(s0, t.1, ldm);
    let u = block_regs(s0, t.1, true, rlist, a0, 0, true, true, 13, sp, 0);
    lemma_pop_words(s0, t.1, rlist, a0, a0, 0, true, true, sp, 0);
    let q = arm_spec(p.0, p.1, ldm);
    assert(q == (u.0.with_reg(13, sp), u.1, (n + 2) as u32));
    assert forall|k: int| 0 <= k < 16 implies #[trigger] q.0.regs[k] == s.regs[k] by {
        if k != 13 && rlist & (1u32 << ((k as nat) as u32)) != 0 {
            assert(k < 13);
        }
    }
    assert(q.0.regs =~= s.regs);
}

} // verus!
