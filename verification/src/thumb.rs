use vstd::prelude::*;

use crate::arm::{
    arm_spec, block_loop, lemma_pop_words, lemma_push_words, block_regs, branch_exchange, bx_spec, ldr_rotated, ldr_effect, ldr_value, load_byte,
    load_half, load_word, mul_cycles, read_byte, read_half, sext16, sext8, store_byte,
    store_half, store_word, write_byte, write_half,
};
use crate::bits::{bit_set, count_low_ones, group_bounds, popcount, put_bit};
use crate::bus::{Bus, BusView, read32_effect, read32_value, waits_within, write32_spec};
use crate::cpu::{
    C_FLAG, Cpu, CpuState, N_FLAG, Z_FLAG, add_flags, carry_in, cond_passed, nz_flags, shifter, sub_flags,
    swi_spec, wrap32,
};

verus! {

broadcast use group_bounds;

// ---------------------------------------------------------------------------
// Register operations
// ---------------------------------------------------------------------------

/// `s` after the barrel shifter moves `val` by `amount` with shift type `ty`:
/// the shifted value and the state with the carry out in C.
pub open spec fn shift_through(s: CpuState, val: u32, ty: u32, amount: u32, reg_shift: bool) -> (u32, CpuState) {
    let t = shifter(val, ty, amount, reg_shift, bit_set(s.cpsr, C_FLAG));
    (t.0, s.with_cpsr(put_bit(s.cpsr, C_FLAG, t.1)))
}

/// `s` with `r` in register `rd` and N and Z describing it.
pub open spec fn set_result(s: CpuState, rd: int, r: u32) -> CpuState {
    s.with_reg(rd, r).with_cpsr(nz_flags(s.cpsr, r))
}

/// LSL, LSR and ASR by a 5-bit immediate (0 meaning 32 for the right shifts).
pub open spec fn shift_imm_spec(s: CpuState, instr: u16) -> CpuState {
    let t = shift_through(
        s,
        s.regs[((instr >> 3) & 7) as int],
        ((instr >> 11) & 3) as u32,
        ((instr >> 6) & 0x1F) as u32,
        false,
    );
    set_result(t.1, (instr & 7) as int, t.0)
}

/// ADD and SUB of a register or a 3-bit immediate, setting all flags.
pub open spec fn add_sub_spec(s: CpuState, instr: u16) -> CpuState {
    let a = s.regs[((instr >> 3) & 7) as int];
    let n = ((instr >> 6) & 7) as u32;
    let b = if (instr >> 10) & 1 != 0 { n } else { s.regs[n as int] };
    let rd = (instr & 7) as int;
    if (instr >> 9) & 1 != 0 {
        let r = wrap32(a - b);
        s.with_cpsr(sub_flags(s.cpsr, a, b, 1, r)).with_reg(rd, r)
    } else {
        let r = wrap32(a + b);
        s.with_cpsr(add_flags(s.cpsr, a, b, 0, r)).with_reg(rd, r)
    }
}

/// MOV, CMP, ADD and SUB with an 8-bit immediate.
pub open spec fn imm_op_spec(s: CpuState, instr: u16) -> CpuState {
    let op = (instr >> 11) & 3;
    let rd = ((instr >> 8) & 7) as int;
    let imm = (instr & 0xFF) as u32;
    let a = s.regs[rd];
    if op == 0 {
        set_result(s, rd, imm)
    } else if op == 1 {
        s.with_cpsr(sub_flags(s.cpsr, a, imm, 1, wrap32(a - imm)))
    } else if op == 2 {
        s.with_cpsr(add_flags(s.cpsr, a, imm, 0, wrap32(a + imm))).with_reg(rd, wrap32(a + imm))
    } else {
        s.with_cpsr(sub_flags(s.cpsr, a, imm, 1, wrap32(a - imm))).with_reg(rd, wrap32(a - imm))
    }
}

/// The sixteen register-to-register ALU operations: the state and the cycles
/// (2 for the shifts by a register, 1 plus the multiplier cost for MUL).
pub open spec fn alu_op_spec(s: CpuState, instr: u16) -> (CpuState, u32) {
    let op = (instr >> 6) & 0xF;
    let rd = (instr & 7) as int;
    let a = s.regs[rd];
    let b = s.regs[((instr >> 3) & 7) as int];
    let c = carry_in(s.cpsr);
    if op == 0x0 {
        (set_result(s, rd, a & b), 1)
    } else if op == 0x1 {
        (set_result(s, rd, a ^ b), 1)
    } else if op == 0x2 || op == 0x3 || op == 0x4 || op == 0x7 {
        let ty: u32 = if op == 0x2 { 0 } else if op == 0x3 { 1 } else if op == 0x4 { 2 } else { 3 };
        let t = shift_through(s, a, ty, b & 0xFF, true);
        (set_result(t.1, rd, t.0), 2)
    } else if op == 0x5 {
        let r = wrap32(a + b + c);
        (s.with_cpsr(add_flags(s.cpsr, a, b, c, r)).with_reg(rd, r), 1)
    } else if op == 0x6 {
        let r = wrap32(a - b - (1 - c));
        (s.with_cpsr(sub_flags(s.cpsr, a, b, c, r)).with_reg(rd, r), 1)
    } else if op == 0x8 {
        (s.with_cpsr(nz_flags(s.cpsr, a & b)), 1)
    } else if op == 0x9 {
        let r = wrap32(0 - b);
        (s.with_cpsr(sub_flags(s.cpsr, 0, b, 1, r)).with_reg(rd, r), 1)
    } else if op == 0xA {
        (s.with_cpsr(sub_flags(s.cpsr, a, b, 1, wrap32(a - b))), 1)
    } else if op == 0xB {
        (s.with_cpsr(add_flags(s.cpsr, a, b, 0, wrap32(a + b))), 1)
    } else if op == 0xC {
        (set_result(s, rd, a | b), 1)
    } else if op == 0xD {
        (set_result(s, rd, wrap32(a * b)), (1 + mul_cycles(a)) as u32)
    } else if op == 0xE {
        (set_result(s, rd, a & !b), 1)
    } else {
        (set_result(s, rd, !b), 1)
    }
}

/// ADD, CMP, MOV and BX on the full register set; a write to r15 is a jump to
/// an even address (3 cycles).
pub open spec fn hi_reg_spec(s: CpuState, instr: u16) -> (CpuState, u32) {
    let op = (instr >> 8) & 3;
    let rs = ((((instr >> 6) & 1) << 3u16) | ((instr >> 3) & 7)) as int;
    let rd = ((((instr >> 7) & 1) << 3u16) | (instr & 7)) as int;
    let a = s.regs[rd];
    let b = s.regs[rs];
    if op == 0 || op == 2 {
        let r = if op == 0 { wrap32(a + b) } else { b };
        if rd == 15 {
            (CpuState { regs: s.regs.update(15, r & !1u32), pipeline_valid: false, ..s }, 3)
        } else {
            (s.with_reg(rd, r), 1)
        }
    } else if op == 1 {
        (s.with_cpsr(sub_flags(s.cpsr, a, b, 1, wrap32(a - b))), 1)
    } else {
        (bx_spec(s, b), 3)
    }
}

/// ADD Rd, PC/SP, #imm: the word-aligned program counter or the stack pointer
/// plus a word offset.
pub open spec fn load_addr_spec(s: CpuState, instr: u16) -> CpuState {
    let off = ((instr & 0xFF) as u32) * 4;
    let base = if (instr >> 11) & 1 != 0 { s.regs[13] } else { s.regs[15] & !2u32 };
    s.with_reg(((instr >> 8) & 7) as int, wrap32(base + off))
}

/// ADD SP, #+/-imm.
pub open spec fn adjust_sp_spec(s: CpuState, instr: u16) -> CpuState {
    let off = ((instr & 0x7F) as u32) * 4;
    s.with_reg(13, if (instr >> 7) & 1 != 0 { wrap32(s.regs[13] - off) } else { wrap32(s.regs[13] + off) })
}

fn set_result_exec(cpu: &mut Cpu, rd: usize, r: u32)
    requires
        rd < 16,
    ensures
        final(cpu)@ == set_result(old(cpu)@, rd as int, r),
{
    cpu.regs[rd] = r;
    cpu.set_nz(r);
}

fn thumb_shift(cpu: &mut Cpu, instr: u16) -> (r: u32)
    ensures
        final(cpu)@ == shift_imm_spec(old(cpu)@, instr),
        r == 1,
{
    let op = ((instr >> 11) & 3) as u32;
    let offset = ((instr >> 6) & 0x1F) as u32;
    let rs = ((instr >> 3) & 7) as usize;
    let rd = (instr & 7) as usize;
    let val = cpu.regs[rs];
    let result = cpu.barrel_shift(val, op, offset, true, false);
    set_result_exec(cpu, rd, result);
    1
}

fn thumb_add_sub(cpu: &mut Cpu, instr: u16) -> (r: u32)
    ensures
        final(cpu)@ == add_sub_spec(old(cpu)@, instr),
        r == 1,
{
    let imm = (instr >> 10) & 1 != 0;
    let sub = (instr >> 9) & 1 != 0;
    let rn_or_imm = ((instr >> 6) & 7) as u32;
    let rs = ((instr >> 3) & 7) as usize;
    let rd = (instr & 7) as usize;
    let op1 = cpu.regs[rs];
    let op2 = if imm {
        rn_or_imm
    } else {
        cpu.regs[rn_or_imm as usize]
    };
    let result = if sub {
        cpu.sub_with_flags(op1, op2, true)
    } else {
        cpu.add_with_flags(op1, op2, true)
    };
    cpu.regs[rd] = result;
    1
}

/// The destination register and the 8-bit immediate of an immediate operation.
fn imm_op_fields(instr: u16) -> (r: (usize, u32))
    ensures
        r.0 == ((instr >> 8) & 7) as usize,
        r.1 == (instr & 0xFF) as u32,
        r.0 < 8,
{
    (((instr >> 8) & 7) as usize, (instr & 0xFF) as u32)
}

fn thumb_mov_cmp_add_sub_imm(cpu: &mut Cpu, instr: u16) -> (r: u32)
    ensures
        final(cpu)@ == imm_op_spec(old(cpu)@, instr),
        r == 1,
{
    let op = (instr >> 11) & 3;
    let (rd, imm) = imm_op_fields(instr);
    if op == 0 {
        set_result_exec(cpu, rd, imm);
    } else if op == 1 {
        let a = cpu.regs[rd];
        cpu.sub_with_flags(a, imm, true);
    } else if op == 2 {
        let a = cpu.regs[rd];
        let r = cpu.add_with_flags(a, imm, true);
        cpu.regs[rd] = r;
    } else {
        let a = cpu.regs[rd];
        let r = cpu.sub_with_flags(a, imm, true);
        cpu.regs[rd] = r;
    }
    1
}

fn thumb_alu(cpu: &mut Cpu, instr: u16) -> (r: u32)
    ensures
        (final(cpu)@, r) == alu_op_spec(old(cpu)@, instr),
        1 <= r <= 5,
{
    let op = (instr >> 6) & 0xF;
    let rs = ((instr >> 3) & 7) as usize;
    let rd = (instr & 7) as usize;
    let a = cpu.regs[rd];
    let b = cpu.regs[rs];
    if op == 0x0 {
        set_result_exec(cpu, rd, a & b);
        1
    } else if op == 0x1 {
        set_result_exec(cpu, rd, a ^ b);
        1
    } else if op == 0x2 || op == 0x3 || op == 0x4 || op == 0x7 {
        let ty: u32 = if op == 0x2 {
            0
        } else if op == 0x3 {
            1
        } else if op == 0x4 {
            2
        } else {
            3
        };
        let shift = b & 0xFF;
        let r = cpu.barrel_shift(a, ty, shift, true, true);
        set_result_exec(cpu, rd, r);
        2
    } else if op == 0x5 {
        let r = cpu.adc_with_flags(a, b, true);
        cpu.regs[rd] = r;
        1
    } else if op == 0x6 {
        let r = cpu.sbc_with_flags(a, b, true);
        cpu.regs[rd] = r;
        1
    } else if op == 0x8 {
        cpu.set_nz(a & b);
        1
    } else if op == 0x9 {
        let r = cpu.sub_with_flags(0, b, true);
        cpu.regs[rd] = r;
        1
    } else if op == 0xA {
        cpu.sub_with_flags(a, b, true);
        1
    } else if op == 0xB {
        cpu.add_with_flags(a, b, true);
        1
    } else if op == 0xC {
        set_result_exec(cpu, rd, a | b);
        1
    } else if op == 0xD {
        let r = a.wrapping_mul(b);
        set_result_exec(cpu, rd, r);
        1 + multiply_cycles_thumb(a)
    } else if op == 0xE {
        set_result_exec(cpu, rd, a & !b);
        1
    } else {
        set_result_exec(cpu, rd, !b);
        1
    }
}

/// The extra cycles of a multiplication by `val`, as for ARM multiplies.
fn multiply_cycles_thumb(val: u32) -> (r: u32)
    ensures
        r == mul_cycles(val),
        1 <= r <= 4,
{
    if val & 0xFFFF_FF00 == 0 || val & 0xFFFF_FF00 == 0xFFFF_FF00 {
        1
    } else if val & 0xFFFF_0000 == 0 || val & 0xFFFF_0000 == 0xFFFF_0000 {
        2
    } else if val & 0xFF00_0000 == 0 || val & 0xFF00_0000 == 0xFF00_0000 {
        3
    } else {
        4
    }
}

fn thumb_hi_reg(cpu: &mut Cpu, instr: u16) -> (r: u32)
    ensures
        (final(cpu)@, r) == hi_reg_spec(old(cpu)@, instr),
{
    let op = (instr >> 8) & 3;
    let h1 = (instr >> 7) & 1;
    let h2 = (instr >> 6) & 1;
    let rs16 = (h2 << 3) | ((instr >> 3) & 7);
    let rd16 = (h1 << 3) | (instr & 7);
    proof {
        assert(((h2 << 3u16) | ((instr >> 3) & 7)) <= 15) by (bit_vector)
            requires
                h2 <= 1,
        ;
        assert(((h1 << 3u16) | (instr & 7)) <= 15) by (bit_vector)
            requires
                h1 <= 1,
        ;
    }
    let rs = rs16 as usize;
    let rd = rd16 as usize;
    let a = cpu.regs[rd];
    let b = cpu.regs[rs];
    if op == 0 || op == 2 {
        let r = if op == 0 {
            a.wrapping_add(b)
        } else {
            b
        };
        cpu.regs[rd] = r;
        if rd == 15 {
            cpu.regs[15] = cpu.regs[15] & !1;
            cpu.pipeline_valid = false;
            return 3;
        }
        1
    } else if op == 1 {
        cpu.sub_with_flags(a, b, true);
        1
    } else {
        branch_exchange(cpu, b);
        3
    }
}

fn thumb_load_addr(cpu: &mut Cpu, instr: u16) -> (r: u32)
    ensures
        final(cpu)@ == load_addr_spec(old(cpu)@, instr),
        r == 1,
{
    let sp = (instr >> 11) & 1 != 0;
    let rd = ((instr >> 8) & 7) as usize;
    let offset = ((instr & 0xFF) as u32) * 4;
    if sp {
        cpu.regs[rd] = cpu.regs[13].wrapping_add(offset);
    } else {
        cpu.regs[rd] = (cpu.regs[15] & !2).wrapping_add(offset);
    }
    1
}

fn thumb_adjust_sp(cpu: &mut Cpu, instr: u16) -> (r: u32)
    ensures
        final(cpu)@ == adjust_sp_spec(old(cpu)@, instr),
        r == 1,
{
    let offset = ((instr & 0x7F) as u32) * 4;
    if (instr >> 7) & 1 != 0 {
        cpu.regs[13] = cpu.regs[13].wrapping_sub(offset);
    } else {
        cpu.regs[13] = cpu.regs[13].wrapping_add(offset);
    }
    1
}



// ---------------------------------------------------------------------------
// Loads, stores and branches
// ---------------------------------------------------------------------------

/// LDR Rd, [PC, #imm]: the word at the word-aligned program counter plus a word
/// offset.
pub open spec fn pc_load_spec(s: CpuState, b: BusView, instr: u16) -> (CpuState, BusView) {
    let addr = wrap32((s.regs[15] & !2u32) + ((instr & 0xFF) as u32) * 4);
    let t = load_word(b, addr);
    (s.with_reg(((instr >> 8) & 7) as int, t.0), t.1)
}

/// STR, STRB, LDR and LDRB at Rb + Ro.
pub open spec fn reg_offset_spec(s: CpuState, b: BusView, instr: u16) -> (CpuState, BusView, u32) {
    let op = (instr >> 10) & 3;
    let rd = (instr & 7) as int;
    let addr = wrap32(s.regs[((instr >> 3) & 7) as int] + s.regs[((instr >> 6) & 7) as int]);
    if op == 0 {
        (s, store_word(b, addr, s.regs[rd]), 2)
    } else if op == 1 {
        (s, store_byte(b, addr, s.regs[rd] as u8), 2)
    } else if op == 2 {
        (s.with_reg(rd, ldr_value(b, addr)), ldr_effect(b, addr), 3)
    } else {
        (s.with_reg(rd, load_byte(b, addr).0 as u32), load_byte(b, addr).1, 3)
    }
}

/// STRH, LDRSB, LDRH and LDRSH at Rb + Ro; LDRSH at an odd address loads the
/// signed byte.
pub open spec fn sign_ext_spec(s: CpuState, b: BusView, instr: u16) -> (CpuState, BusView, u32) {
    let op = (instr >> 10) & 3;
    let rd = (instr & 7) as int;
    let addr = wrap32(s.regs[((instr >> 3) & 7) as int] + s.regs[((instr >> 6) & 7) as int]);
    if op == 0 {
        (s, store_half(b, addr & !1u32, s.regs[rd] as u16), 2)
    } else if op == 1 || (op == 3 && addr & 1 != 0) {
        (s.with_reg(rd, sext8(load_byte(b, addr).0)), load_byte(b, addr).1, 3)
    } else if op == 2 {
        (s.with_reg(rd, load_half(b, addr & !1u32).0 as u32), load_half(b, addr & !1u32).1, 3)
    } else {
        (s.with_reg(rd, sext16(load_half(b, addr).0)), load_half(b, addr).1, 3)
    }
}

/// STR, LDR, STRB and LDRB at Rb plus a 5-bit offset (in words for words).
pub open spec fn imm_offset_spec(s: CpuState, b: BusView, instr: u16) -> (CpuState, BusView, u32) {
    let load = (instr >> 11) & 1 != 0;
    let off = ((instr >> 6) & 0x1F) as u32;
    let rd = (instr & 7) as int;
    let base = s.regs[((instr >> 3) & 7) as int];
    if (instr >> 12) & 1 != 0 {
        let addr = wrap32(base + off);
        if load {
            (s.with_reg(rd, load_byte(b, addr).0 as u32), load_byte(b, addr).1, 3)
        } else {
            (s, store_byte(b, addr, s.regs[rd] as u8), 2)
        }
    } else {
        let addr = wrap32(base + off * 4);
        if load {
            (s.with_reg(rd, ldr_value(b, addr)), ldr_effect(b, addr), 3)
        } else {
            (s, store_word(b, addr, s.regs[rd]), 2)
        }
    }
}

/// STRH and LDRH at Rb plus a 5-bit halfword offset.
pub open spec fn half_offset_spec(s: CpuState, b: BusView, instr: u16) -> (CpuState, BusView, u32) {
    let rd = (instr & 7) as int;
    let addr = wrap32(s.regs[((instr >> 3) & 7) as int] + ((instr >> 6) & 0x1F) as u32 * 2);
    if (instr >> 11) & 1 != 0 {
        (s.with_reg(rd, load_half(b, addr & !1u32).0 as u32), load_half(b, addr & !1u32).1, 3)
    } else {
        (s, store_half(b, addr & !1u32, s.regs[rd] as u16), 2)
    }
}

/// STR and LDR at SP plus a word offset.
pub open spec fn sp_rel_spec(s: CpuState, b: BusView, instr: u16) -> (CpuState, BusView, u32) {
    let rd = ((instr >> 8) & 7) as int;
    let addr = wrap32(s.regs[13] + ((instr & 0xFF) as u32) * 4);
    if (instr >> 11) & 1 != 0 {
        let t = load_word(b, addr);
        (s.with_reg(rd, t.0), t.1, 3)
    } else {
        (s, store_word(b, addr, s.regs[rd]), 2)
    }
}

/// PUSH stores the listed low registers (and LR) below SP, lowest register at
/// the lowest address, and lowers SP first; POP loads them (and PC, an even
/// jump) upwards from SP and raises SP past them.
pub open spec fn push_pop_spec(s: CpuState, b: BusView, instr: u16) -> (CpuState, BusView, u32) {
    let pc_lr = (instr >> 8) & 1 != 0;
    let rlist = (instr & 0xFF) as u32;
    if (instr >> 11) & 1 != 0 {
        let t = block_regs(s, b, true, rlist, s.regs[13], 0, true, false, 13, 0, 0);
        if pc_lr {
            let w = load_word(t.1, t.2);
            (jump_to(t.0, w.0 & !1u32).with_reg(13, wrap32(t.2 + 4)), w.1, (t.3 + 5) as u32)
        } else {
            (t.0.with_reg(13, t.2), t.1, (t.3 + 2) as u32)
        }
    } else {
        let n = popcount(rlist, 8) + if pc_lr { 1int } else { 0int };
        let a0 = wrap32(s.regs[13] - n * 4);
        let s0 = s.with_reg(13, a0);
        let t = block_regs(s0, b, false, rlist, a0, 0, true, false, 13, 0, 0);
        if pc_lr {
            (t.0, store_word(t.1, t.2, s0.regs[14]), (t.3 + 2) as u32)
        } else {
            (t.0, t.1, (t.3 + 1) as u32)
        }
    }
}

/// LDMIA and STMIA from Rb upwards. An empty list moves r15 alone; otherwise a
/// load writes Rb back unless Rb is in the list, and a store writes it back
/// once the first register is stored.
pub open spec fn multiple_spec(s: CpuState, b: BusView, instr: u16) -> (CpuState, BusView, u32) {
    let load = (instr >> 11) & 1 != 0;
    let rb = ((instr >> 8) & 7) as int;
    let rlist = (instr & 0xFF) as u32;
    let addr = s.regs[rb];
    if rlist == 0 {
        let s1 = if load { jump_to(s, read32_value(b, addr)) } else { s };
        let b1 = if load { read32_effect(b, addr) } else { write32_spec(b, addr, s.regs[15]) };
        (s1.with_reg(rb, wrap32(addr + 0x40)), b1, 3)
    } else if load {
        let t = block_regs(s, b, true, rlist, addr, 0, true, false, rb, 0, 0);
        (
            if rlist & (1u32 << (rb as u32)) == 0 { t.0.with_reg(rb, t.2) } else { t.0 },
            t.1,
            (t.3 + 2) as u32,
        )
    } else {
        let t = block_regs(s, b, false, rlist, addr, 0, true, true, rb, wrap32(addr + popcount(rlist, 8) * 4), 0);
        (t.0, t.1, (t.3 + 1) as u32)
    }
}

/// `s` with the program counter set to `pc` and the pipeline to be refilled.
pub open spec fn jump_to(s: CpuState, pc: u32) -> CpuState {
    CpuState { regs: s.regs.update(15, pc), pipeline_valid: false, ..s }
}

/// The conditional branch's offset: a signed byte counted in halfwords.
pub open spec fn cond_offset(instr: u16) -> u32 {
    sext8((instr & 0xFF) as u8) << 1u32
}

/// B<cond>: taken (3 cycles) when the condition passes, else 1 cycle.
pub open spec fn cond_branch_spec(s: CpuState, instr: u16) -> (CpuState, u32) {
    if cond_passed(s.cpsr, ((instr >> 8) & 0xF) as u32) {
        (jump_to(s, wrap32(s.regs[15] + cond_offset(instr))), 3)
    } else {
        (s, 1)
    }
}

/// The unconditional branch's offset: 11 signed bits counted in halfwords.
pub open spec fn uncond_offset(instr: u16) -> u32 {
    let v = ((instr & 0x7FF) as u32) << 1u32;
    if v & 0x800 != 0 { v | 0xFFFF_F000 } else { v }
}

/// BL in two halves: the first adds the high part of the offset to PC into LR;
/// the second jumps to LR plus the low part and leaves the return address (odd,
/// for Thumb) in LR.
pub open spec fn long_branch_spec(s: CpuState, instr: u16) -> (CpuState, u32) {
    let off = (instr & 0x7FF) as u32;
    if (instr >> 11) & 1 == 0 {
        let hi = off << 12u32;
        let hi2 = if hi & 0x40_0000 != 0 { hi | 0xFF80_0000 } else { hi };
        (s.with_reg(14, wrap32(s.regs[15] + hi2)), 1)
    } else {
        (jump_to(s, wrap32(s.regs[14] + (off << 1u32))).with_reg(14, wrap32(s.regs[15] - 2) | 1), 3)
    }
}

fn read_word(bus: &mut Bus, addr: u32) -> (r: u32)
    requires
        old(bus)@.wf(),
    ensures
        (r, final(bus)@) == load_word(old(bus)@, addr),
        final(bus)@.wf(),
        old(bus).data_wait_cycles <= 0xF000_0000 ==> waits_within(old(bus)@, final(bus)@, 1),
{
    reveal(load_word);
    bus.read32(addr & !3)
}

fn write_word(bus: &mut Bus, addr: u32, v: u32)
    requires
        old(bus)@.wf(),
    ensures
        final(bus)@ == store_word(old(bus)@, addr, v),
        final(bus)@.wf(),
        old(bus).data_wait_cycles <= 0xF000_0000 ==> waits_within(old(bus)@, final(bus)@, 1),
{
    reveal(store_word);
    bus.write32(addr & !3, v)
}

#[verifier::spinoff_prover]
#[verifier::rlimit(50)]
fn thumb_pc_rel_load(cpu: &mut Cpu, bus: &mut Bus, instr: u16) -> (r: u32)
    requires
        old(bus)@.wf(),
    ensures
        (final(cpu)@, final(bus)@) == pc_load_spec(old(cpu)@, old(bus)@, instr),
        final(bus)@.wf(),
        old(bus).data_wait_cycles <= 0x1000_0000 ==> waits_within(old(bus)@, final(bus)@, 1),
        r == 3,
{
    let rd = ((instr >> 8) & 7) as usize;
    let offset = ((instr & 0xFF) as u32) * 4;
    let addr = (cpu.regs[15] & !2).wrapping_add(offset);
    cpu.regs[rd] = read_word(bus, addr);
    3
}

#[verifier::spinoff_prover]
#[verifier::rlimit(50)]
fn thumb_load_store_reg(cpu: &mut Cpu, bus: &mut Bus, instr: u16) -> (r: u32)
    requires
        old(bus)@.wf(),
    ensures
        (final(cpu)@, final(bus)@, r) == reg_offset_spec(old(cpu)@, old(bus)@, instr),
        final(bus)@.wf(),
        old(bus).data_wait_cycles <= 0x1000_0000 ==> waits_within(old(bus)@, final(bus)@, 1),
{
    let op = (instr >> 10) & 3;
    let ro = ((instr >> 6) & 7) as usize;
    let rb = ((instr >> 3) & 7) as usize;
    let rd = (instr & 7) as usize;
    let addr = cpu.regs[rb].wrapping_add(cpu.regs[ro]);
    if op == 0 {
        write_word(bus, addr, cpu.regs[rd]);
        2
    } else if op == 1 {
        write_byte(bus, addr, cpu.regs[rd] as u8);
        2
    } else if op == 2 {
        cpu.regs[rd] = ldr_rotated(bus, addr);
        3
    } else {
        cpu.regs[rd] = read_byte(bus, addr) as u32;
        3
    }
}

#[verifier::spinoff_prover]
#[verifier::rlimit(50)]
fn thumb_load_store_sign(cpu: &mut Cpu, bus: &mut Bus, instr: u16) -> (r: u32)
    requires
        old(bus)@.wf(),
    ensures
        (final(cpu)@, final(bus)@, r) == sign_ext_spec(old(cpu)@, old(bus)@, instr),
        final(bus)@.wf(),
        old(bus).data_wait_cycles <= 0x1000_0000 ==> waits_within(old(bus)@, final(bus)@, 1),
{
    let op = (instr >> 10) & 3;
    let ro = ((instr >> 6) & 7) as usize;
    let rb = ((instr >> 3) & 7) as usize;
    let rd = (instr & 7) as usize;
    let addr = cpu.regs[rb].wrapping_add(cpu.regs[ro]);
    if op == 0 {
        write_half(bus, addr & !1, cpu.regs[rd] as u16);
        2
    } else if op == 1 {
        cpu.regs[rd] = read_byte(bus, addr) as i8 as i32 as u32;
        3
    } else if op == 2 {
        cpu.regs[rd] = read_half(bus, addr & !1) as u32;
        3
    } else {
        if addr & 1 != 0 {
            cpu.regs[rd] = read_byte(bus, addr) as i8 as i32 as u32;
        } else {
            cpu.regs[rd] = read_half(bus, addr) as i16 as i32 as u32;
        }
        3
    }
}

#[verifier::spinoff_prover]
#[verifier::rlimit(50)]
fn load_store_imm_byte(cpu: &mut Cpu, bus: &mut Bus, instr: u16) -> (r: u32)
    requires
        old(bus)@.wf(),
        (instr >> 12) & 1 != 0,
    ensures
        (final(cpu)@, final(bus)@, r) == imm_offset_spec(old(cpu)@, old(bus)@, instr),
        final(bus)@.wf(),
        old(bus).data_wait_cycles <= 0x1000_0000 ==> waits_within(old(bus)@, final(bus)@, 1),
{
    let load = (instr >> 11) & 1 != 0;
    let offset = ((instr >> 6) & 0x1F) as u32;
    let rb = ((instr >> 3) & 7) as usize;
    let rd = (instr & 7) as usize;
    let addr = cpu.regs[rb].wrapping_add(offset);
    if load {
        cpu.regs[rd] = read_byte(bus, addr) as u32;
        3
    } else {
        write_byte(bus, addr, cpu.regs[rd] as u8);
        2
    }
}

#[verifier::spinoff_prover]
#[verifier::rlimit(50)]
fn load_store_imm_word(cpu: &mut Cpu, bus: &mut Bus, instr: u16) -> (r: u32)
    requires
        old(bus)@.wf(),
        (instr >> 12) & 1 == 0,
    ensures
        (final(cpu)@, final(bus)@, r) == imm_offset_spec(old(cpu)@, old(bus)@, instr),
        final(bus)@.wf(),
        old(bus).data_wait_cycles <= 0x1000_0000 ==> waits_within(old(bus)@, final(bus)@, 1),
{
    let load = (instr >> 11) & 1 != 0;
    let offset = ((instr >> 6) & 0x1F) as u32;
    let rb = ((instr >> 3) & 7) as usize;
    let rd = (instr & 7) as usize;
    let addr = cpu.regs[rb].wrapping_add(offset * 4);
    if load {
        cpu.regs[rd] = ldr_rotated(bus, addr);
        3
    } else {
        write_word(bus, addr, cpu.regs[rd]);
        2
    }
}

fn thumb_load_store_imm(cpu: &mut Cpu, bus: &mut Bus, instr: u16) -> (r: u32)
    requires
        old(bus)@.wf(),
    ensures
        (final(cpu)@, final(bus)@, r) == imm_offset_spec(old(cpu)@, old(bus)@, instr),
        final(bus)@.wf(),
        old(bus).data_wait_cycles <= 0x1000_0000 ==> waits_within(old(bus)@, final(bus)@, 1),
{
    if (instr >> 12) & 1 != 0 {
        load_store_imm_byte(cpu, bus, instr)
    } else {
        load_store_imm_word(cpu, bus, instr)
    }
}

#[verifier::spinoff_prover]
#[verifier::rlimit(50)]
fn thumb_load_store_half(cpu: &mut Cpu, bus: &mut Bus, instr: u16) -> (r: u32)
    requires
        old(bus)@.wf(),
    ensures
        (final(cpu)@, final(bus)@, r) == half_offset_spec(old(cpu)@, old(bus)@, instr),
        final(bus)@.wf(),
        old(bus).data_wait_cycles <= 0x1000_0000 ==> waits_within(old(bus)@, final(bus)@, 1),
{
    let load = (instr >> 11) & 1 != 0;
    let offset = ((instr >> 6) & 0x1F) as u32 * 2;
    let rb = ((instr >> 3) & 7) as usize;
    let rd = (instr & 7) as usize;
    let addr = cpu.regs[rb].wrapping_add(offset);
    if load {
        cpu.regs[rd] = read_half(bus, addr & !1) as u32;
        3
    } else {
        write_half(bus, addr & !1, cpu.regs[rd] as u16);
        2
    }
}

#[verifier::spinoff_prover]
#[verifier::rlimit(50)]
fn thumb_sp_rel_load_store(cpu: &mut Cpu, bus: &mut Bus, instr: u16) -> (r: u32)
    requires
        old(bus)@.wf(),
    ensures
        (final(cpu)@, final(bus)@, r) == sp_rel_spec(old(cpu)@, old(bus)@, instr),
        final(bus)@.wf(),
        old(bus).data_wait_cycles <= 0x1000_0000 ==> waits_within(old(bus)@, final(bus)@, 1),
{
    let load = (instr >> 11) & 1 != 0;
    let rd = ((instr >> 8) & 7) as usize;
    let offset = ((instr & 0xFF) as u32) * 4;
    let addr = cpu.regs[13].wrapping_add(offset);
    if load {
        cpu.regs[rd] = read_word(bus, addr);
        3
    } else {
        write_word(bus, addr, cpu.regs[rd]);
        2
    }
}

#[verifier::spinoff_prover]
fn thumb_push_pop(cpu: &mut Cpu, bus: &mut Bus, instr: u16) -> (r: u32)
    requires
        old(bus)@.wf(),
    ensures
        (final(cpu)@, final(bus)@, r) == push_pop_spec(old(cpu)@, old(bus)@, instr),
        final(bus)@.wf(),
        old(bus).data_wait_cycles <= 0x1000_0000 ==> waits_within(old(bus)@, final(bus)@, 17),
        1 <= r <= 21,
{
    let pop = (instr >> 11) & 1 != 0;
    let pc_lr = (instr >> 8) & 1 != 0;
    let rlist = (instr & 0xFF) as u32;
    if pop {
        let addr = cpu.regs[13];
        let cycles = block_loop(cpu, bus, true, rlist, addr, false, 13, 0);
        let ghost t = block_regs(old(cpu)@, old(bus)@, true, rlist, addr, 0, true, false, 13, 0, 0);
        let addr2 = block_end(rlist, addr);
        proof {
            lemma_block_end(old(cpu)@, old(bus)@, true, rlist, addr, 0, true, false, 13, 0, 0);
        }
        if pc_lr {
            let v = read_word(bus, addr2);
            cpu.regs[15] = v & !1;
            cpu.pipeline_valid = false;
            cpu.regs[13] = addr2.wrapping_add(4);
            cycles + 5
        } else {
            cpu.regs[13] = addr2;
            cycles + 2
        }
    } else {
        let n = count_low_ones(rlist, 8) + if pc_lr { 1 } else { 0 };
        let addr = cpu.regs[13].wrapping_sub(n * 4);
        cpu.regs[13] = addr;
        let lr = cpu.regs[14];
        let cycles = block_loop(cpu, bus, false, rlist, addr, false, 13, 0);
        let addr2 = block_end(rlist, addr);
        proof {
            lemma_block_end(old(cpu)@.with_reg(13, addr), old(bus)@, false, rlist, addr, 0, true, false, 13, 0, 0);
        }
        if pc_lr {
            write_word(bus, addr2, lr);
            cycles + 2
        } else {
            cycles + 1
        }
    }
}

/// The address after the words of `rlist` are moved upwards from `addr`.
pub open spec fn block_end_spec(rlist: u32, addr: u32, i: nat) -> u32
    decreases 16 - i,
{
    if i >= 16 {
        addr
    } else if rlist & (1u32 << (i as u32)) != 0 {
        block_end_spec(rlist, wrap32(addr + 4), i + 1)
    } else {
        block_end_spec(rlist, addr, i + 1)
    }
}

proof fn lemma_block_end(
    s: CpuState,
    b: BusView,
    load: bool,
    rlist: u32,
    addr: u32,
    i: nat,
    first: bool,
    wb: bool,
    rn: int,
    wb_val: u32,
    cyc: u32,
)
    ensures
        block_regs(s, b, load, rlist, addr, i, first, wb, rn, wb_val, cyc).2 == block_end_spec(rlist, addr, i),
    decreases 16 - i,
{
    if i < 16 {
        if rlist & (1u32 << (i as u32)) != 0 {
            let s1 = if load { s.with_reg(i as int, load_word(b, addr).0) } else { s };
            let b1 = if load { load_word(b, addr).1 } else { store_word(b, addr, s.regs[i as int]) };
            let s2 = if first && wb { s1.with_reg(rn, wb_val) } else { s1 };
            lemma_block_end(s2, b1, load, rlist, wrap32(addr + 4), i + 1, false, wb, rn, wb_val, (cyc + 1) as u32);
        } else {
            lemma_block_end(s, b, load, rlist, addr, i + 1, first, wb, rn, wb_val, cyc);
        }
    }
}

fn block_end(rlist: u32, addr0: u32) -> (r: u32)
    ensures
        r == block_end_spec(rlist, addr0, 0),
{
    let mut addr = addr0;
    let mut i: u32 = 0;
    while i < 16
        invariant
            i <= 16,
            block_end_spec(rlist, addr, i as nat) == block_end_spec(rlist, addr0, 0),
        decreases 16 - i,
    {
        if rlist & (1u32 << i) != 0 {
            addr = addr.wrapping_add(4);
        }
        i += 1;
    }
    addr
}

#[verifier::spinoff_prover]
fn thumb_multiple_load_store(cpu: &mut Cpu, bus: &mut Bus, instr: u16) -> (r: u32)
    requires
        old(bus)@.wf(),
    ensures
        (final(cpu)@, final(bus)@, r) == multiple_spec(old(cpu)@, old(bus)@, instr),
        final(bus)@.wf(),
        old(bus).data_wait_cycles <= 0x1000_0000 ==> waits_within(old(bus)@, final(bus)@, 16),
        1 <= r <= 18,
{
    let load = (instr >> 11) & 1 != 0;
    let rb = ((instr >> 8) & 7) as usize;
    let rlist = (instr & 0xFF) as u32;
    let addr = cpu.regs[rb];
    if rlist == 0 {
        if load {
            cpu.regs[15] = bus.read32(addr);
            cpu.pipeline_valid = false;
        } else {
            bus.write32(addr, cpu.regs[15]);
        }
        cpu.regs[rb] = addr.wrapping_add(0x40);
        return 3;
    }
    if load {
        let cycles = block_loop(cpu, bus, true, rlist, addr, false, rb, 0);
        let addr2 = block_end(rlist, addr);
        proof {
            lemma_block_end(old(cpu)@, old(bus)@, true, rlist, addr, 0, true, false, rb as int, 0, 0);
        }
        if rlist & (1u32 << (rb as u32)) == 0 {
            cpu.regs[rb] = addr2;
        }
        cycles + 2
    } else {
        let wb_val = addr.wrapping_add(count_low_ones(rlist, 8) * 4);
        let cycles = block_loop(cpu, bus, false, rlist, addr, true, rb, wb_val);
        cycles + 1
    }
}

fn thumb_cond_branch(cpu: &mut Cpu, instr: u16) -> (r: u32)
    ensures
        (final(cpu)@, r) == cond_branch_spec(old(cpu)@, instr),
{
    let cond = ((instr >> 8) & 0xF) as u32;
    if !cpu.check_condition(cond) {
        return 1;
    }
    let v = (instr & 0xFF) as u8;
    let offset = v as i8 as i32 as u32;
    cpu.regs[15] = cpu.regs[15].wrapping_add(offset << 1);
    cpu.pipeline_valid = false;
    3
}

fn thumb_swi(cpu: &mut Cpu, bus: &mut Bus, instr: u16) -> (r: u32)
    ensures
        final(cpu)@ == swi_spec(old(cpu)@),
        *final(bus) == *old(bus),
        r == 3,
{
    let comment = (instr & 0xFF) as u32;
    if bus.bios_hle(comment, cpu) {
        return 3;
    }
    cpu.software_interrupt(comment, bus);
    3
}

fn thumb_uncond_branch(cpu: &mut Cpu, instr: u16) -> (r: u32)
    ensures
        final(cpu)@ == jump_to(old(cpu)@, wrap32(old(cpu).regs[15] + uncond_offset(instr))),
        r == 3,
{
    let offset = ((instr & 0x7FF) as u32) << 1;
    let offset = if offset & 0x800 != 0 {
        offset | 0xFFFF_F000
    } else {
        offset
    };
    cpu.regs[15] = cpu.regs[15].wrapping_add(offset);
    cpu.pipeline_valid = false;
    3
}

fn thumb_long_branch(cpu: &mut Cpu, instr: u16) -> (r: u32)
    ensures
        (final(cpu)@, r) == long_branch_spec(old(cpu)@, instr),
{
    let h = (instr >> 11) & 1;
    let offset = (instr & 0x7FF) as u32;
    if h == 0 {
        let hi = offset << 12;
        let hi = if hi & 0x0040_0000 != 0 {
            hi | 0xFF80_0000
        } else {
            hi
        };
        cpu.regs[14] = cpu.regs[15].wrapping_add(hi);
        1
    } else {
        let next_pc = (cpu.regs[15].wrapping_sub(2)) | 1;
        cpu.regs[15] = cpu.regs[14].wrapping_add(offset << 1);
        cpu.regs[14] = next_pc;
        cpu.pipeline_valid = false;
        3
    }
}

/// One Thumb instruction, decoded by its top five bits and the patterns
/// within: the processor state, the bus and the cycles it took.
#[verifier::opaque]
pub open spec fn thumb_spec(s: CpuState, b: BusView, instr: u16) -> (CpuState, BusView, u32) {
    let top = (instr >> 8) >> 3u16;
    if top <= 2 {
        (shift_imm_spec(s, instr), b, 1)
    } else if top == 3 {
        (add_sub_spec(s, instr), b, 1)
    } else if top <= 7 {
        (imm_op_spec(s, instr), b, 1)
    } else if top == 8 && (instr >> 10) & 3 == 0 {
        let t = alu_op_spec(s, instr);
        (t.0, b, t.1)
    } else if top == 8 && (instr >> 10) & 3 == 1 {
        let t = hi_reg_spec(s, instr);
        (t.0, b, t.1)
    } else if top == 8 || top == 9 {
        let t = pc_load_spec(s, b, instr);
        (t.0, t.1, 3)
    } else if top == 10 || top == 11 {
        if (instr >> 9) & 1 == 0 { reg_offset_spec(s, b, instr) } else { sign_ext_spec(s, b, instr) }
    } else if top <= 15 {
        imm_offset_spec(s, b, instr)
    } else if top == 16 || top == 17 {
        half_offset_spec(s, b, instr)
    } else if top == 18 || top == 19 {
        sp_rel_spec(s, b, instr)
    } else if top == 20 || top == 21 {
        (load_addr_spec(s, instr), b, 1)
    } else if top == 22 || top == 23 {
        let sub = (instr >> 8) & 0xF;
        if (instr >> 12) & 0xF != 0xB {
            (s, b, 1)
        } else if sub == 0 {
            (adjust_sp_spec(s, instr), b, 1)
        } else if sub == 4 || sub == 5 || sub == 0xC || sub == 0xD {
            push_pop_spec(s, b, instr)
        } else {
            (s, b, 1)
        }
    } else if top == 24 || top == 25 {
        multiple_spec(s, b, instr)
    } else if top == 26 || top == 27 {
        if (instr >> 8) & 0xF == 0xF {
            (swi_spec(s), b, 3)
        } else {
            let t = cond_branch_spec(s, instr);
            (t.0, b, t.1)
        }
    } else if top == 28 {
        (jump_to(s, wrap32(s.regs[15] + uncond_offset(instr))), b, 3)
    } else if top == 30 || top == 31 {
        let t = long_branch_spec(s, instr);
        (t.0, b, t.1)
    } else {
        (s, b, 1)
    }
}

/// The top five bits of an instruction, which select its format.
fn format_bits(instr: u16) -> (r: u8)
    ensures
        r as int == ((instr >> 8) >> 3u16) as int,
{
    let top = ((instr >> 8) as u8) >> 3;
    proof {
        assert(top as u16 == (instr >> 8) >> 3u16) by (bit_vector)
            requires
                top == ((instr >> 8u16) as u8) >> 3u8,
        ;
    }
    top
}

/// Executes one Thumb instruction.
pub fn execute(cpu: &mut Cpu, bus: &mut Bus, instr: u16) -> (r: u32)
    requires
        old(bus)@.wf(),
    ensures
        (final(cpu)@, final(bus)@, r) == thumb_spec(old(cpu)@, old(bus)@, instr),
        final(bus)@.wf(),
        old(bus).data_wait_cycles <= 0x1000_0000 ==> waits_within(old(bus)@, final(bus)@, 17),
        1 <= r <= 21,
{
    reveal(thumb_spec);
    let top = format_bits(instr);
    if top <= 2 {
        thumb_shift(cpu, instr)
    } else if top == 3 {
        thumb_add_sub(cpu, instr)
    } else if top <= 7 {
        thumb_mov_cmp_add_sub_imm(cpu, instr)
    } else if top == 8 {
        if (instr >> 10) & 3 == 0 {
            thumb_alu(cpu, instr)
        } else if (instr >> 10) & 3 == 1 {
            thumb_hi_reg(cpu, instr)
        } else {
            thumb_pc_rel_load(cpu, bus, instr)
        }
    } else if top == 9 {
        thumb_pc_rel_load(cpu, bus, instr)
    } else if top == 10 || top == 11 {
        if (instr >> 9) & 1 == 0 {
            thumb_load_store_reg(cpu, bus, instr)
        } else {
            thumb_load_store_sign(cpu, bus, instr)
        }
    } else if top <= 15 {
        thumb_load_store_imm(cpu, bus, instr)
    } else if top == 16 || top == 17 {
        thumb_load_store_half(cpu, bus, instr)
    } else if top == 18 || top == 19 {
        thumb_sp_rel_load_store(cpu, bus, instr)
    } else if top == 20 || top == 21 {
        thumb_load_addr(cpu, instr)
    } else if top == 22 || top == 23 {
        if (instr >> 12) & 0xF == 0xB {
            let sub = (instr >> 8) & 0xF;
            if sub == 0x0 {
                thumb_adjust_sp(cpu, instr)
            } else if sub == 0x4 || sub == 0x5 || sub == 0xC || sub == 0xD {
                thumb_push_pop(cpu, bus, instr)
            } else {
                1
            }
        } else {
            1
        }
    } else if top == 24 || top == 25 {
        thumb_multiple_load_store(cpu, bus, instr)
    } else if top == 26 || top == 27 {
        if (instr >> 8) & 0xF == 0xF {
            thumb_swi(cpu, bus, instr)
        } else {
            thumb_cond_branch(cpu, instr)
        }
    } else if top == 28 {
        thumb_uncond_branch(cpu, instr)
    } else if top == 30 || top == 31 {
        thumb_long_branch(cpu, instr)
    } else {
        1
    }
}


// ---------------------------------------------------------------------------
// PUSH then POP
// ---------------------------------------------------------------------------

/// PUSH of a list of low registers followed by POP of the same list, with the
/// stack in on-chip work RAM and room below SP for the words pushed, gives the
/// processor back exactly as it was, registers and SP included; the PUSH takes
/// one cycle more than the count of registers, the POP two. The same holds of
/// the two instructions run through `execute`.
pub proof fn lemma_push_pop_round_trip(s: CpuState, b: BusView, rlist: u32)
    requires
        s.wf(),
        b.wf(),
        rlist < 0x100,
        s.regs[13] % 4 == 0,
        0x0300_0000 + 4 * popcount(rlist, 8) <= s.regs[13] <= 0x0300_8000,
    ensures
        ({
            let p = push_pop_spec(s, b, (0xB400u32 | rlist) as u16);
            let q = push_pop_spec(p.0, p.1, (0xBC00u32 | rlist) as u16);
            &&& q.0 == s
            &&& p.2 == popcount(rlist, 8) + 1
            &&& q.2 == popcount(rlist, 8) + 2
            &&& thumb_spec(s, b, (0xB400u32 | rlist) as u16) == p
            &&& thumb_spec(p.0, p.1, (0xBC00u32 | rlist) as u16) == q
        }),
{
    let push: u16 = (0xB400u32 | rlist) as u16;
    let pop: u16 = (0xBC00u32 | rlist) as u16;
    assert({
        &&& (push >> 8) & 1 == 0
        &&& (push >> 11) & 1 == 0
        &&& (push & 0xFF) as u32 == rlist
        &&& (pop >> 8) & 1 == 0
        &&& (pop >> 11) & 1 != 0
        &&& (pop & 0xFF) as u32 == rlist
        &&& (push >> 8) >> 3u16 == 22
        &&& (pop >> 8) >> 3u16 == 23
        &&& (push >> 12) & 0xF == 0xB
        &&& (pop >> 12) & 0xF == 0xB
        &&& (push >> 8) & 0xF == 4
        &&& (pop >> 8) & 0xF == 0xC
    }) by (bit_vector)
        requires
            rlist < 0x100,
            push == (0xB400u32 | rlist) as u16,
            pop == (0xBC00u32 | rlist) as u16,
    ;
    let n = popcount(rlist, 8);
    vstd::arithmetic::power2::lemma2_to64();
    crate::bits::lemma_below_pow2(rlist, 8);
    crate::bits::lemma_popcount_top(rlist, 8, 16);
    crate::bits::lemma_no_bits_above(rlist, 8);
    assert(rlist & (1u32 << (13nat as u32)) == 0);
    let sp = s.regs[13];
    let a0 = wrap32(sp - n * 4);
    assert(a0 == sp - 4 * n);
    assert(a0 % 4 == 0);
    let s0 = s.with_reg(13, a0);
    let t = block_regs(s0, b, false, rlist, a0, 0, true, false, 13, 0, 0);
    lemma_push_words(s0, b, rlist, a0, a0, 0, true, false, 0, 0);
    let p = push_pop_spec(s, b, push);
    assert(p == (s0, t.1, (n + 1) as u32));
    let u = block_regs(s0, t.1, true, rlist, a0, 0, true, false, 13, 0, 0);
    lemma_pop_words(s0, t.1, rlist, a0, a0, 0, true, false, 0, 0);
    let q = push_pop_spec(p.0, p.1, pop);
    assert(q == (u.0.with_reg(13, u.2), u.1, (n + 2) as u32));
    assert forall|k: int| 0 <= k < 16 implies #[trigger] q.0.regs[k] == s.regs[k] by {
        if k != 13 && rlist & (1u32 << (k as u32)) != 0 {
            assert(k < 8 || rlist & (1u32 << ((k as nat) as u32)) == 0);
        }
    }
    assert(q.0.regs =~= s.regs);
    reveal(thumb_spec);
}

// ---------------------------------------------------------------------------
// Thumb ALU operations as ARM instructions
// ---------------------------------------------------------------------------

/// The ARM instruction that a Thumb register ALU operation `op` on Rd and Rs
/// abbreviates: the flag-setting ARM operation of the same number on Rd and
/// Rs (`op Rd, Rd, Rs`), or for NEG a reverse subtraction from 0 (`RSBS Rd,
/// Rs, #0`).
pub open spec fn arm_counterpart(op: u32, rd: u32, rs: u32) -> u32 {
    if op == 9 {
        0xE270_0000u32 | (rs << 16u32) | (rd << 12u32)
    } else {
        0xE010_0000u32 | (op << 21u32) | (rd << 16u32) | (rd << 12u32) | rs
    }
}

/// Each Thumb register ALU operation other than the shifts and MUL (AND, EOR,
/// ADC, SBC, TST, NEG, CMP, CMN, ORR, BIC, MVN) does exactly what its ARM
/// counterpart does: the same registers, flags, bus and cycles.
pub proof fn lemma_thumb_alu_as_arm(s: CpuState, b: BusView, op: u32, rd: u32, rs: u32)
    requires
        rd < 8,
        rs < 8,
        op == 0 || op == 1 || op == 5 || op == 6 || op == 8 || op == 9 || op == 0xA || op == 0xB || op == 0xC
            || op == 0xE || op == 0xF,
    ensures
        thumb_spec(s, b, (0x4000u32 | (op << 6u32) | (rs << 3u32) | rd) as u16) == arm_spec(
            s,
            b,
            arm_counterpart(op, rd, rs),
        ),
{
    let t: u16 = (0x4000u32 | (op << 6u32) | (rs << 3u32) | rd) as u16;
    let a = arm_counterpart(op, rd, rs);
    let a9 = 0xE270_0000u32 | (rs << 16u32) | (rd << 12u32);
    let ao = 0xE010_0000u32 | (op << 21u32) | (rd << 16u32) | (rd << 12u32) | rs;
    assert({
        &&& (t >> 8) >> 3u16 == 8
        &&& (t >> 10) & 3 == 0
        &&& ((t >> 6) & 0xF) as u32 == op
        &&& (t & 7) as u32 == rd
        &&& ((t >> 3) & 7) as u32 == rs
        &&& (a9 >> 26) & 3 == 0
        &&& (a9 >> 25) & 1 != 0
        &&& (a9 >> 20) & 1 != 0
        &&& (a9 >> 21) & 0xF == 3
        &&& (a9 >> 12) & 0xF == rd
        &&& (a9 >> 16) & 0xF == rs
        &&& a9 & 0xFF == 0
        &&& ((a9 >> 8) & 0xF) * 2 == 0
        &&& (ao >> 26) & 3 == 0
        &&& (ao >> 25) & 1 == 0
        &&& ao & 0xFF0 == 0
        &&& (ao >> 20) & 1 != 0
        &&& (ao >> 21) & 0xF == op
        &&& (ao >> 12) & 0xF == rd
        &&& (ao >> 16) & 0xF == rd
        &&& ao & 0xF == rs
    }) by (bit_vector)
        requires
            op < 16,
            rd < 8,
            rs < 8,
            t == (0x4000u32 | (op << 6u32) | (rs << 3u32) | rd) as u16,
            a9 == 0xE270_0000u32 | (rs << 16u32) | (rd << 12u32),
            ao == 0xE010_0000u32 | (op << 21u32) | (rd << 16u32) | (rd << 12u32) | rs,
    ;
    crate::arm::lemma_dp_dispatch(s, b, a);
    reveal(thumb_spec);
    let x = s.regs[rd as int];
    let y = s.regs[rs as int];
    if op == 0 || op == 1 || op == 8 || op == 0xC || op == 0xE || op == 0xF {
        let r: u32 = if op == 0 || op == 8 {
            x & y
        } else if op == 1 {
            x ^ y
        } else if op == 0xC {
            x | y
        } else if op == 0xE {
            x & !y
        } else {
            !y
        };
        let nz = nz_flags(s.cpsr, r);
        crate::bits::lemma_put_bit(s.cpsr, Z_FLAG, C_FLAG, r == 0);
        crate::bits::lemma_put_bit(put_bit(s.cpsr, Z_FLAG, r == 0), N_FLAG, C_FLAG, r >= 0x8000_0000);
        crate::bits::lemma_put_bit(nz, C_FLAG, C_FLAG, bit_set(s.cpsr, C_FLAG));
        assert(put_bit(nz, C_FLAG, bit_set(s.cpsr, C_FLAG)) == nz);
    }
}

/// The ARM instruction that a Thumb shift by register abbreviates:
/// `MOVS Rd, Rd, <ty> Rs`, with `ty` LSL, LSR, ASR or ROR.
pub open spec fn arm_shift_counterpart(ty: u32, rd: u32, rs: u32) -> u32 {
    0xE1B0_0010u32 | (rd << 12u32) | (rs << 8u32) | (ty << 5u32) | rd
}

/// The Thumb shifts by a register (LSL, LSR, ASR and ROR, operations 2, 3, 4
/// and 7) do exactly what the flag-setting ARM move of Rd shifted by Rs does.
pub proof fn lemma_thumb_shift_as_arm(s: CpuState, b: BusView, op: u32, rd: u32, rs: u32)
    requires
        rd < 8,
        rs < 8,
        op == 2 || op == 3 || op == 4 || op == 7,
    ensures
        thumb_spec(s, b, (0x4000u32 | (op << 6u32) | (rs << 3u32) | rd) as u16) == arm_spec(
            s,
            b,
            arm_shift_counterpart(if op == 7 { 3 } else { (op - 2) as u32 }, rd, rs),
        ),
{
    let t: u16 = (0x4000u32 | (op << 6u32) | (rs << 3u32) | rd) as u16;
    let ty: u32 = if op == 7 { 3 } else { (op - 2) as u32 };
    let a = arm_shift_counterpart(ty, rd, rs);
    assert({
        &&& (t >> 8) >> 3u16 == 8
        &&& (t >> 10) & 3 == 0
        &&& ((t >> 6) & 0xF) as u32 == op
        &&& (t & 7) as u32 == rd
        &&& ((t >> 3) & 7) as u32 == rs
        &&& (a >> 25) & 0x7 == 0
        &&& (a >> 25) & 1 == 0
        &&& a & 0x0FFF_FFF0 != 0x012F_FF10
        &&& a & 0x0FB0_0FF0 != 0x0100_0090
        &&& a & 0x0FC0_00F0 != 0x0000_0090
        &&& a & 0x0F80_00F0 != 0x0080_0090
        &&& (a >> 7) & 1 == 0
        &&& (a >> 4) & 1 == 1
        &&& (a >> 20) & 1 != 0
        &&& (a >> 21) & 0xF == 0xD
        &&& (a >> 12) & 0xF == rd
        &&& (a >> 8) & 0xF == rs
        &&& (a >> 5) & 3 == ty
        &&& a & 0xF == rd
    }) by (bit_vector)
        requires
            op < 16,
            ty < 4,
            rd < 8,
            rs < 8,
            t == (0x4000u32 | (op << 6u32) | (rs << 3u32) | rd) as u16,
            a == 0xE1B0_0010u32 | (rd << 12u32) | (rs << 8u32) | (ty << 5u32) | rd,
    ;
    crate::arm::lemma_dp_dispatch_shifted(s, b, a);
    lemma_thumb_alu_dispatch(s, b, t);
    let x = s.regs[rd as int];
    let amount = s.regs[rs as int] & 0xFF;
    let sh = shifter(x, ty, amount, true, bit_set(s.cpsr, C_FLAG));
    let p = put_bit(s.cpsr, C_FLAG, sh.1);
    let r = sh.0;
    let nz = nz_flags(p, r);
    crate::bits::lemma_put_bit(s.cpsr, C_FLAG, C_FLAG, sh.1);
    crate::bits::lemma_put_bit(p, Z_FLAG, C_FLAG, r == 0);
    crate::bits::lemma_put_bit(put_bit(p, Z_FLAG, r == 0), N_FLAG, C_FLAG, r >= 0x8000_0000);
    crate::bits::lemma_put_bit(nz, C_FLAG, C_FLAG, sh.1);
    assert(put_bit(nz, C_FLAG, sh.1) == nz);
    let s1 = s.with_cpsr(p);
    assert(shift_through(s, x, ty, amount, true) == (r, s1));
    assert(alu_op_spec(s, t) == (set_result(s1, rd as int, r), 2u32));
    assert(crate::arm::dp_operand(s, a) == sh);
    assert(crate::arm::dp_operand_state(s, a) == s1);
    assert(crate::arm::alu_spec(s1, 0xD, s.regs[rd as int], r, sh.1, true) == (s1.with_cpsr(nz), r));
    assert(crate::arm::alu_instr_spec(s, a) == (s1.with_cpsr(nz).with_reg(rd as int, r), 2u32));
    assert(set_result(s1, rd as int, r) == s1.with_cpsr(nz).with_reg(rd as int, r));
}

proof fn lemma_thumb_alu_dispatch(s: CpuState, b: BusView, t: u16)
    requires
        (t >> 8) >> 3u16 == 8,
        (t >> 10) & 3 == 0,
    ensures
        thumb_spec(s, b, t) == ({
            let u = alu_op_spec(s, t);
            (u.0, b, u.1)
        }),
{
    reveal(thumb_spec);
}

} // verus!
