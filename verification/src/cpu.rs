use vstd::prelude::*;

use crate::arm::arm_spec;
use crate::bus::{
    Bus, BusView, branch_refill_spec, code_fetch_extra_spec, pipeline_stall_spec, read16_effect,
    read16_value, read32_effect, read32_value, same_timing,
};
use crate::thumb::thumb_spec;
use crate::bits::{bit_set, put_bit, put_bit_exec, rotr, rotate_right};
use vstd::arithmetic::power2::pow2;

verus! {

pub const MODE_USR: u32 = 0x10;
pub const MODE_FIQ: u32 = 0x11;
pub const MODE_IRQ: u32 = 0x12;
pub const MODE_SVC: u32 = 0x13;
pub const MODE_ABT: u32 = 0x17;
pub const MODE_UND: u32 = 0x1B;
pub const MODE_SYS: u32 = 0x1F;

pub const N_FLAG: u32 = 0x8000_0000;
pub const Z_FLAG: u32 = 0x4000_0000;
pub const C_FLAG: u32 = 0x2000_0000;
pub const V_FLAG: u32 = 0x1000_0000;
pub const I_FLAG: u32 = 0x80;
pub const F_FLAG: u32 = 0x40;
pub const T_FLAG: u32 = 0x20;

pub struct Cpu {
    pub regs: [u32; 16],
    pub cpsr: u32,
    pub spsr_fiq: u32,
    pub spsr_irq: u32,
    pub spsr_svc: u32,
    pub spsr_abt: u32,
    pub spsr_und: u32,
    pub r8_14_fiq: [u32; 7],
    pub r8_12_usr: [u32; 5],
    pub r13_14_irq: [u32; 2],
    pub r13_14_svc: [u32; 2],
    pub r13_14_abt: [u32; 2],
    pub r13_14_und: [u32; 2],
    pub r13_14_usr: [u32; 2],
    pub pipeline: [u32; 2],
    pub pipeline_valid: bool,
}

/// The mathematical state of a [`Cpu`]: every register bank as a sequence.
#[verifier::ext_equal]
pub struct CpuState {
    pub regs: Seq<u32>,
    pub cpsr: u32,
    pub spsr_fiq: u32,
    pub spsr_irq: u32,
    pub spsr_svc: u32,
    pub spsr_abt: u32,
    pub spsr_und: u32,
    pub r8_14_fiq: Seq<u32>,
    pub r8_12_usr: Seq<u32>,
    pub r13_14_irq: Seq<u32>,
    pub r13_14_svc: Seq<u32>,
    pub r13_14_abt: Seq<u32>,
    pub r13_14_und: Seq<u32>,
    pub r13_14_usr: Seq<u32>,
    pub pipeline: Seq<u32>,
    pub pipeline_valid: bool,
}

impl View for Cpu {
    type V = CpuState;

    open spec fn view(&self) -> CpuState {
        CpuState {
            regs: self.regs@,
            cpsr: self.cpsr,
            spsr_fiq: self.spsr_fiq,
            spsr_irq: self.spsr_irq,
            spsr_svc: self.spsr_svc,
            spsr_abt: self.spsr_abt,
            spsr_und: self.spsr_und,
            r8_14_fiq: self.r8_14_fiq@,
            r8_12_usr: self.r8_12_usr@,
            r13_14_irq: self.r13_14_irq@,
            r13_14_svc: self.r13_14_svc@,
            r13_14_abt: self.r13_14_abt@,
            r13_14_und: self.r13_14_und@,
            r13_14_usr: self.r13_14_usr@,
            pipeline: self.pipeline@,
            pipeline_valid: self.pipeline_valid,
        }
    }
}

impl CpuState {
    /// Every bank has the length of the hardware bank it models.
    pub open spec fn wf(self) -> bool {
        &&& self.regs.len() == 16
        &&& self.r8_14_fiq.len() == 7
        &&& self.r8_12_usr.len() == 5
        &&& self.r13_14_irq.len() == 2
        &&& self.r13_14_svc.len() == 2
        &&& self.r13_14_abt.len() == 2
        &&& self.r13_14_und.len() == 2
        &&& self.r13_14_usr.len() == 2
        &&& self.pipeline.len() == 2
    }

    /// The same state with register `i` set to `v`.
    pub open spec fn with_reg(self, i: int, v: u32) -> CpuState {
        CpuState { regs: self.regs.update(i, v), ..self }
    }

    /// The same state with a new status register.
    pub open spec fn with_cpsr(self, cpsr: u32) -> CpuState {
        CpuState { cpsr, ..self }
    }
}

/// The mode field of a status register.
pub open spec fn mode_of(psr: u32) -> u32 {
    psr & 0x1F
}

/// One of the seven processor modes.
pub open spec fn is_valid_mode(m: u32) -> bool {
    ||| m == MODE_USR
    ||| m == MODE_FIQ
    ||| m == MODE_IRQ
    ||| m == MODE_SVC
    ||| m == MODE_ABT
    ||| m == MODE_UND
    ||| m == MODE_SYS
}

/// User and System mode share one register bank.
pub open spec fn same_bank(m1: u32, m2: u32) -> bool {
    m1 == m2 || ((m1 == MODE_USR || m1 == MODE_SYS) && (m2 == MODE_USR || m2 == MODE_SYS))
}

/// Where the stored copy of r13/r14 of mode `m` lives, when `m` is not current.
pub open spec fn stored_r13_14(s: CpuState, m: u32, i: int) -> u32 {
    if m == MODE_FIQ {
        s.r8_14_fiq[i - 8]
    } else if m == MODE_IRQ {
        s.r13_14_irq[i - 13]
    } else if m == MODE_SVC {
        s.r13_14_svc[i - 13]
    } else if m == MODE_ABT {
        s.r13_14_abt[i - 13]
    } else if m == MODE_UND {
        s.r13_14_und[i - 13]
    } else {
        s.r13_14_usr[i - 13]
    }
}

/// Register `i` as a program running in mode `m` sees it.
pub open spec fn banked_reg(s: CpuState, m: u32, i: int) -> u32 {
    let cur = mode_of(s.cpsr);
    if i < 8 || i == 15 {
        s.regs[i]
    } else if i <= 12 {
        if m == MODE_FIQ {
            if cur == MODE_FIQ { s.regs[i] } else { s.r8_14_fiq[i - 8] }
        } else {
            if cur == MODE_FIQ { s.r8_12_usr[i - 8] } else { s.regs[i] }
        }
    } else {
        if same_bank(m, cur) { s.regs[i] } else { stored_r13_14(s, m, i) }
    }
}

/// The state after the registers of the current mode are written to its bank.
pub open spec fn store_bank(s: CpuState) -> CpuState {
    let m = mode_of(s.cpsr);
    if m == MODE_USR || m == MODE_SYS {
        CpuState {
            r13_14_usr: seq![s.regs[13], s.regs[14]],
            r8_12_usr: s.regs.subrange(8, 13),
            ..s
        }
    } else if m == MODE_FIQ {
        CpuState { r8_14_fiq: s.regs.subrange(8, 15), ..s }
    } else if m == MODE_IRQ {
        CpuState { r13_14_irq: seq![s.regs[13], s.regs[14]], ..s }
    } else if m == MODE_SVC {
        CpuState { r13_14_svc: seq![s.regs[13], s.regs[14]], ..s }
    } else if m == MODE_ABT {
        CpuState { r13_14_abt: seq![s.regs[13], s.regs[14]], ..s }
    } else if m == MODE_UND {
        CpuState { r13_14_und: seq![s.regs[13], s.regs[14]], ..s }
    } else {
        s
    }
}

/// `regs` with registers `lo..lo + vals.len()` replaced by `vals`.
pub open spec fn splice(regs: Seq<u32>, lo: int, vals: Seq<u32>) -> Seq<u32> {
    regs.subrange(0, lo) + vals + regs.subrange(lo + vals.len(), regs.len() as int)
}

/// The state after the bank of mode `m` is loaded into the registers.
pub open spec fn load_bank(s: CpuState, m: u32) -> CpuState {
    if m == MODE_USR || m == MODE_SYS {
        CpuState { regs: splice(s.regs, 13, s.r13_14_usr), ..s }
    } else if m == MODE_FIQ {
        CpuState { regs: splice(s.regs, 8, s.r8_14_fiq), ..s }
    } else if m == MODE_IRQ {
        CpuState { regs: splice(s.regs, 13, s.r13_14_irq), ..s }
    } else if m == MODE_SVC {
        CpuState { regs: splice(s.regs, 13, s.r13_14_svc), ..s }
    } else if m == MODE_ABT {
        CpuState { regs: splice(s.regs, 13, s.r13_14_abt), ..s }
    } else if m == MODE_UND {
        CpuState { regs: splice(s.regs, 13, s.r13_14_und), ..s }
    } else {
        s
    }
}

/// A change of processor mode: the current registers go to their bank, the
/// shared r8-r12 are exchanged when FIQ mode is entered or left, the bank of the
/// new mode is loaded, and the mode field of the status register is replaced.
pub open spec fn switch_mode_spec(s: CpuState, new_mode: u32) -> CpuState {
    let old_mode = mode_of(s.cpsr);
    let new_cpsr = (s.cpsr & !0x1Fu32) | new_mode;
    if old_mode == new_mode {
        s.with_cpsr(new_cpsr)
    } else {
        let s1 = store_bank(s);
        let s2 = if old_mode == MODE_FIQ && new_mode != MODE_FIQ {
            CpuState { regs: splice(s1.regs, 8, s1.r8_12_usr), ..s1 }
        } else {
            s1
        };
        let s3 = if old_mode != MODE_FIQ && new_mode == MODE_FIQ {
            CpuState { r8_12_usr: s2.regs.subrange(8, 13), ..s2 }
        } else {
            s2
        };
        load_bank(s3, new_mode).with_cpsr(new_cpsr)
    }
}

/// The saved status register of mode `m`; modes without one read the status register.
pub open spec fn spsr_of(s: CpuState) -> u32 {
    let m = mode_of(s.cpsr);
    if m == MODE_FIQ {
        s.spsr_fiq
    } else if m == MODE_IRQ {
        s.spsr_irq
    } else if m == MODE_SVC {
        s.spsr_svc
    } else if m == MODE_ABT {
        s.spsr_abt
    } else if m == MODE_UND {
        s.spsr_und
    } else {
        s.cpsr
    }
}

/// The state after the saved status register of the current mode is set to `v`;
/// nothing changes in a mode that has none.
pub open spec fn set_spsr_spec(s: CpuState, v: u32) -> CpuState {
    let m = mode_of(s.cpsr);
    if m == MODE_FIQ {
        CpuState { spsr_fiq: v, ..s }
    } else if m == MODE_IRQ {
        CpuState { spsr_irq: v, ..s }
    } else if m == MODE_SVC {
        CpuState { spsr_svc: v, ..s }
    } else if m == MODE_ABT {
        CpuState { spsr_abt: v, ..s }
    } else if m == MODE_UND {
        CpuState { spsr_und: v, ..s }
    } else {
        s
    }
}

/// Whether the condition field `cond` of an instruction passes under `cpsr`.
pub open spec fn cond_passed(cpsr: u32, cond: u32) -> bool {
    let n = bit_set(cpsr, N_FLAG);
    let z = bit_set(cpsr, Z_FLAG);
    let c = bit_set(cpsr, C_FLAG);
    let v = bit_set(cpsr, V_FLAG);
    if cond == 0x0 {
        z
    } else if cond == 0x1 {
        !z
    } else if cond == 0x2 {
        c
    } else if cond == 0x3 {
        !c
    } else if cond == 0x4 {
        n
    } else if cond == 0x5 {
        !n
    } else if cond == 0x6 {
        v
    } else if cond == 0x7 {
        !v
    } else if cond == 0x8 {
        c && !z
    } else if cond == 0x9 {
        !c || z
    } else if cond == 0xA {
        n == v
    } else if cond == 0xB {
        n != v
    } else if cond == 0xC {
        !z && n == v
    } else if cond == 0xD {
        z || n != v
    } else if cond == 0xE {
        true
    } else {
        false
    }
}

/// `cpsr` with N and Z describing `val`.
pub open spec fn nz_flags(cpsr: u32, val: u32) -> u32 {
    put_bit(put_bit(cpsr, Z_FLAG, val == 0), N_FLAG, val >= 0x8000_0000)
}

/// The value of a word read as a two's-complement number.
pub open spec fn signed32(a: u32) -> int {
    if a >= 0x8000_0000 {
        a - 0x1_0000_0000
    } else {
        a as int
    }
}

/// The low 32 bits of `x`.
pub open spec fn wrap32(x: int) -> u32 {
    (x % 0x1_0000_0000) as u32
}

/// Whether `a + b + c` leaves the range of a signed word.
pub open spec fn add_overflow(a: u32, b: u32, c: int) -> bool {
    let s = signed32(a) + signed32(b) + c;
    s < -0x8000_0000 || s > 0x7FFF_FFFF
}

/// Whether `a - b - (1 - c)` leaves the range of a signed word.
pub open spec fn sub_overflow(a: u32, b: u32, c: int) -> bool {
    let s = signed32(a) - signed32(b) - (1 - c);
    s < -0x8000_0000 || s > 0x7FFF_FFFF
}

/// `cpsr` after an addition `a + b + c` whose low word is `r`.
pub open spec fn add_flags(cpsr: u32, a: u32, b: u32, c: int, r: u32) -> u32 {
    put_bit(
        put_bit(nz_flags(cpsr, r), C_FLAG, a + b + c > 0xFFFF_FFFF),
        V_FLAG,
        add_overflow(a, b, c),
    )
}

/// `cpsr` after a subtraction `a - b - (1 - c)` whose low word is `r`.
pub open spec fn sub_flags(cpsr: u32, a: u32, b: u32, c: int, r: u32) -> u32 {
    put_bit(
        put_bit(nz_flags(cpsr, r), C_FLAG, a - b - (1 - c) >= 0),
        V_FLAG,
        sub_overflow(a, b, c),
    )
}

/// The carry flag of `cpsr` as 0 or 1.
pub open spec fn carry_in(cpsr: u32) -> int {
    if bit_set(cpsr, C_FLAG) { 1 } else { 0 }
}

/// The value and carry out of the barrel shifter: `ty` selects LSL, LSR, ASR or
/// ROR; an immediate amount of 0 encodes LSL #0, LSR #32, ASR #32 and RRX; a
/// register amount of 0 passes the value and the carry through.
pub open spec fn shifter(val: u32, ty: u32, amount: u32, reg_shift: bool, cin: bool) -> (u32, bool) {
    if amount == 0 && !reg_shift {
        if ty == 0 {
            (val, cin)
        } else if ty == 1 {
            (0, val >> 31 != 0)
        } else if ty == 2 {
            (if val >> 31 != 0 { 0xFFFF_FFFFu32 } else { 0u32 }, val >> 31 != 0)
        } else if ty == 3 {
            (((if cin { 1u32 } else { 0u32 }) << 31u32) | (val >> 1), val & 1 != 0)
        } else {
            (val, cin)
        }
    } else if amount == 0 {
        (val, cin)
    } else if ty == 0 {
        if amount >= 32 {
            (0, amount == 32 && val & 1 != 0)
        } else {
            (val << amount, (val >> ((32 - amount) as u32)) & 1 != 0)
        }
    } else if ty == 1 {
        if amount >= 32 {
            (0, amount == 32 && val >> 31 != 0)
        } else {
            (val >> amount, (val >> ((amount - 1) as u32)) & 1 != 0)
        }
    } else if ty == 2 {
        if amount >= 32 {
            (if val >> 31 != 0 { 0xFFFF_FFFFu32 } else { 0u32 }, val >> 31 != 0)
        } else {
            (
                ((val as i32) >> amount) as u32,
                (((val as i32) >> ((amount - 1) as u32)) as u32) & 1 != 0,
            )
        }
    } else if ty == 3 {
        let k = amount % 32;
        if k == 0 {
            (val, val >> 31 != 0)
        } else {
            (rotr(val, k), (val >> ((k - 1) as u32)) & 1 != 0)
        }
    } else {
        (val, cin)
    }
}

/// The barrel shifter by an amount `k` from 1 to 31 (the same whether the
/// amount comes from the instruction or from a register): LSR divides by 2^k,
/// its carry being the last bit shifted out; LSL multiplies by 2^k where that
/// fits, its carry being bit 32 - k; ASR is LSR on a non-negative word and the
/// complement of LSR of the complement on a negative one; ROR joins the bits
/// LSR keeps with those LSL by 32 - k keeps, with the carry of LSR.
pub proof fn lemma_shifter_amounts(v: u32, k: u32, c: bool)
    requires
        1 <= k <= 31,
    ensures
        shifter(v, 1, k, false, c).0 == v as nat / pow2(k as nat),
        shifter(v, 1, k, false, c).1 == (v as nat / pow2((k - 1) as nat) % 2 == 1),
        v * pow2(k as nat) <= u32::MAX ==> shifter(v, 0, k, false, c).0 == v * pow2(k as nat),
        shifter(v, 0, k, false, c).1 == (v as nat / pow2((32 - k) as nat) % 2 == 1),
        v < 0x8000_0000 ==> shifter(v, 2, k, false, c) == shifter(v, 1, k, false, c),
        v >= 0x8000_0000 ==> shifter(v, 2, k, false, c) == (
            !shifter(!v, 1, k, false, c).0,
            !shifter(!v, 1, k, false, c).1,
        ),
        shifter(v, 3, k, false, c) == (
            shifter(v, 1, k, false, c).0 | shifter(v, 0, (32 - k) as u32, false, c).0,
            shifter(v, 1, k, false, c).1,
        ),
        forall|ty: u32| ty < 4 ==> #[trigger] shifter(v, ty, k, true, c) == shifter(v, ty, k, false, c),
{
    vstd::bits::lemma_u32_shr_is_div(v, k);
    vstd::bits::lemma_u32_shr_is_div(v, (k - 1) as u32);
    vstd::bits::lemma_u32_shr_is_div(v, (32 - k) as u32);
    if v * pow2(k as nat) <= u32::MAX {
        vstd::bits::lemma_u32_shl_is_mul(v, k);
    }
    let km = (k - 1) as u32;
    assert({
        &&& (v >> ((k - 1) as u32)) & 1 == (v >> ((k - 1) as u32)) % 2
        &&& (v >> ((32 - k) as u32)) & 1 == (v >> ((32 - k) as u32)) % 2
        &&& (v < 0x8000_0000 ==> ((v as i32) >> k) as u32 == v >> k)
        &&& (v < 0x8000_0000 ==> (((v as i32) >> km) as u32) & 1 == (v >> km) & 1)
        &&& (v >= 0x8000_0000 ==> ((v as i32) >> k) as u32 == !((!v) >> k))
        &&& (v >= 0x8000_0000 ==> ((((v as i32) >> km) as u32) & 1 != 0) == !((!v >> km) & 1 != 0))
    }) by (bit_vector)
        requires
            1 <= k <= 31,
            km == k - 1,
    ;
    assert(v >> k | v << ((32 - k) as u32) == (v >> k) | (v << ((32 - k) as u32)));
    assert(k % 32 == k);
}

/// The barrel shifter's edge amounts: an immediate 0 is LSL #0 (no change),
/// LSR #32, ASR #32 or RRX (the carry shifted in at the top, bit 0 out); a
/// register amount of 0 changes nothing; by a register, LSL and LSR by 32 give
/// 0 with the last bit shifted out as carry and by more give 0 with no carry,
/// ASR by 32 or more fills with the sign bit, and ROR by 32 keeps the value
/// with bit 31 as carry.
pub proof fn lemma_shifter_edges(v: u32, c: bool, n: u32)
    requires
        32 < n <= 255,
    ensures
        shifter(v, 0, 0, false, c) == (v, c),
        shifter(v, 1, 0, false, c) == (0u32, v >= 0x8000_0000),
        shifter(v, 2, 0, false, c) == (if v >= 0x8000_0000 { 0xFFFF_FFFFu32 } else { 0u32 }, v >= 0x8000_0000),
        shifter(v, 3, 0, false, c) == ((v / 2 + if c { 0x8000_0000u32 } else { 0u32 }) as u32, v % 2 == 1),
        forall|ty: u32| ty < 4 ==> #[trigger] shifter(v, ty, 0, true, c) == (v, c),
        shifter(v, 0, 32, true, c) == (0u32, v % 2 == 1),
        shifter(v, 0, n, true, c) == (0u32, false),
        shifter(v, 1, 32, true, c) == (0u32, v >= 0x8000_0000),
        shifter(v, 1, n, true, c) == (0u32, false),
        shifter(v, 2, 32, true, c) == shifter(v, 2, 0, false, c),
        shifter(v, 2, n, true, c) == shifter(v, 2, 0, false, c),
        shifter(v, 3, 32, true, c) == (v, v >= 0x8000_0000),
{
    let ci: u32 = if c { 1 } else { 0 };
    assert({
        &&& (v >> 31 != 0) == (v >= 0x8000_0000)
        &&& (v & 1 != 0) == (v % 2 == 1)
        &&& (ci << 31u32) | (v >> 1) == v / 2 + (if ci == 1 { 0x8000_0000u32 } else { 0u32 })
    }) by (bit_vector)
        requires
            ci <= 1,
    ;
}

/// Flags and arithmetic facts the ALU proofs rest on.
pub proof fn lemma_alu_flags(a: u32, b: u32, c: u32)
    requires
        c <= 1,
    ensures
        ({
            let r = wrap32(a + b + c);
            (((a ^ r) & (b ^ r)) >> 31 != 0) == add_overflow(a, b, c as int)
        }),
        ({
            let r = wrap32(a - b - (1 - c));
            (((a ^ b) & (a ^ r)) >> 31 != 0) == sub_overflow(a, b, c as int)
        }),
{
    let r1 = wrap32(a + b + c);
    assert((((a ^ r1) & (b ^ r1)) >> 31 != 0) == add_overflow(a, b, c as int)) by (bit_vector)
        requires
            c <= 1,
            r1 == ((a + b + c) % 0x1_0000_0000) as u32,
    ;
    let r2 = wrap32(a - b - (1 - c));
    assert((((a ^ b) & (a ^ r2)) >> 31 != 0) == sub_overflow(a, b, c as int)) by (bit_vector)
        requires
            c <= 1,
            r2 == ((a - b - (1 - c)) % 0x1_0000_0000) as u32,
    ;
}


/// Facts about the mode field and the flag bits of a status register.
pub proof fn lemma_mode_bits(c: u32, m: u32)
    requires
        m <= 0x1F,
    ensures
        mode_of((c & !0x1Fu32) | m) == m,
        (c & !0x1Fu32) | (c & 0x1F) == c,
        ((c & !0x1Fu32) | m) & !0x1Fu32 == c & !0x1Fu32,
        bit_set((c & !0x1Fu32) | m, N_FLAG) == bit_set(c, N_FLAG),
        bit_set((c & !0x1Fu32) | m, Z_FLAG) == bit_set(c, Z_FLAG),
        bit_set((c & !0x1Fu32) | m, C_FLAG) == bit_set(c, C_FLAG),
        bit_set((c & !0x1Fu32) | m, V_FLAG) == bit_set(c, V_FLAG),
        bit_set((c & !0x1Fu32) | m, I_FLAG) == bit_set(c, I_FLAG),
        bit_set((c & !0x1Fu32) | m, T_FLAG) == bit_set(c, T_FLAG),
        mode_of(c) <= 0x1F,
        (MODE_SVC | I_FLAG | F_FLAG) == 0xD3u32,
        mode_of(0xD3u32) == MODE_SVC,
{
    assert({
        &&& mode_of((c & !0x1Fu32) | m) == m
        &&& (c & !0x1Fu32) | (c & 0x1F) == c
        &&& ((c & !0x1Fu32) | m) & !0x1Fu32 == c & !0x1Fu32
        &&& bit_set((c & !0x1Fu32) | m, N_FLAG) == bit_set(c, N_FLAG)
        &&& bit_set((c & !0x1Fu32) | m, Z_FLAG) == bit_set(c, Z_FLAG)
        &&& bit_set((c & !0x1Fu32) | m, C_FLAG) == bit_set(c, C_FLAG)
        &&& bit_set((c & !0x1Fu32) | m, V_FLAG) == bit_set(c, V_FLAG)
        &&& bit_set((c & !0x1Fu32) | m, I_FLAG) == bit_set(c, I_FLAG)
        &&& bit_set((c & !0x1Fu32) | m, T_FLAG) == bit_set(c, T_FLAG)
        &&& mode_of(c) <= 0x1F
        &&& (MODE_SVC | I_FLAG | F_FLAG) == 0xD3u32
        &&& mode_of(0xD3u32) == MODE_SVC
    }) by (bit_vector)
        requires
            m <= 0x1F,
    ;
}

/// The four flags a subtraction leaves: Z for a zero result, N for its top
/// bit, C for no borrow, V for signed overflow.
proof fn lemma_sub_flag_bits(cpsr: u32, a: u32, b: u32, c: int, r: u32)
    ensures
        ({
            let f = sub_flags(cpsr, a, b, c, r);
            &&& bit_set(f, Z_FLAG) == (r == 0)
            &&& bit_set(f, N_FLAG) == (r >= 0x8000_0000)
            &&& bit_set(f, C_FLAG) == (a - b - (1 - c) >= 0)
            &&& bit_set(f, V_FLAG) == sub_overflow(a, b, c)
        }),
{
    let z = put_bit(cpsr, Z_FLAG, r == 0);
    let n = put_bit(z, N_FLAG, r >= 0x8000_0000);
    let cc = put_bit(n, C_FLAG, a - b - (1 - c) >= 0);
    crate::bits::lemma_put_bit(cpsr, Z_FLAG, Z_FLAG, r == 0);
    crate::bits::lemma_put_bit(z, N_FLAG, Z_FLAG, r >= 0x8000_0000);
    crate::bits::lemma_put_bit(z, N_FLAG, N_FLAG, r >= 0x8000_0000);
    crate::bits::lemma_put_bit(n, C_FLAG, Z_FLAG, a - b - (1 - c) >= 0);
    crate::bits::lemma_put_bit(n, C_FLAG, N_FLAG, a - b - (1 - c) >= 0);
    crate::bits::lemma_put_bit(n, C_FLAG, C_FLAG, a - b - (1 - c) >= 0);
    crate::bits::lemma_put_bit(cc, V_FLAG, Z_FLAG, sub_overflow(a, b, c));
    crate::bits::lemma_put_bit(cc, V_FLAG, N_FLAG, sub_overflow(a, b, c));
    crate::bits::lemma_put_bit(cc, V_FLAG, C_FLAG, sub_overflow(a, b, c));
    crate::bits::lemma_put_bit(cc, V_FLAG, V_FLAG, sub_overflow(a, b, c));
}

/// After a comparison `CMP a, b` each condition code tests the relation that
/// its name says: EQ and NE equality, CS, CC, HI and LS the unsigned order,
/// GE, LT, GT and LE the signed order, MI and PL the sign of the difference,
/// VS and VC whether the signed difference overflows; AL always holds.
pub proof fn lemma_compare_conditions(cpsr: u32, a: u32, b: u32)
    ensures
        ({
            let f = sub_flags(cpsr, a, b, 1, wrap32(a - b));
            &&& cond_passed(f, 0x0) == (a == b)
            &&& cond_passed(f, 0x1) == (a != b)
            &&& cond_passed(f, 0x2) == (a >= b)
            &&& cond_passed(f, 0x3) == (a < b)
            &&& cond_passed(f, 0x4) == (wrap32(a - b) >= 0x8000_0000)
            &&& cond_passed(f, 0x5) == (wrap32(a - b) < 0x8000_0000)
            &&& cond_passed(f, 0x6) == !(-0x8000_0000 <= signed32(a) - signed32(b) <= 0x7FFF_FFFF)
            &&& cond_passed(f, 0x7) == (-0x8000_0000 <= signed32(a) - signed32(b) <= 0x7FFF_FFFF)
            &&& cond_passed(f, 0x8) == (a > b)
            &&& cond_passed(f, 0x9) == (a <= b)
            &&& cond_passed(f, 0xA) == (signed32(a) >= signed32(b))
            &&& cond_passed(f, 0xB) == (signed32(a) < signed32(b))
            &&& cond_passed(f, 0xC) == (signed32(a) > signed32(b))
            &&& cond_passed(f, 0xD) == (signed32(a) <= signed32(b))
            &&& cond_passed(f, 0xE)
        }),
{
    let r = wrap32(a - b);
    lemma_sub_flag_bits(cpsr, a, b, 1, r);
    if a >= b {
        vstd::arithmetic::div_mod::lemma_fundamental_div_mod_converse(a - b, 0x1_0000_0000, 0, a - b);
        assert(r == a - b);
    } else {
        vstd::arithmetic::div_mod::lemma_fundamental_div_mod_converse(
            a - b,
            0x1_0000_0000,
            -1,
            a - b + 0x1_0000_0000,
        );
        assert(r == a - b + 0x1_0000_0000);
    }
}

/// Comparing a value with itself reports equality: Z set, no borrow (C set),
/// no overflow and a non-negative result, whatever the flags were.
pub proof fn lemma_compare_self(cpsr: u32, a: u32)
    ensures
        ({
            let f = sub_flags(cpsr, a, a, 1, wrap32(a - a));
            &&& bit_set(f, Z_FLAG)
            &&& bit_set(f, C_FLAG)
            &&& !bit_set(f, N_FLAG)
            &&& !bit_set(f, V_FLAG)
            &&& mode_of(f) == mode_of(cpsr)
        }),
{
    let z = put_bit(cpsr, Z_FLAG, true);
    let n = put_bit(z, N_FLAG, false);
    let c = put_bit(n, C_FLAG, true);
    crate::bits::lemma_put_bit(cpsr, Z_FLAG, N_FLAG, true);
    crate::bits::lemma_put_bit(z, N_FLAG, Z_FLAG, false);
    crate::bits::lemma_put_bit(n, C_FLAG, Z_FLAG, true);
    crate::bits::lemma_put_bit(n, C_FLAG, N_FLAG, true);
    crate::bits::lemma_put_bit(c, V_FLAG, Z_FLAG, false);
    crate::bits::lemma_put_bit(c, V_FLAG, N_FLAG, false);
    crate::bits::lemma_put_bit(c, V_FLAG, C_FLAG, false);
    crate::bits::lemma_put_bit(c, V_FLAG, V_FLAG, false);
    crate::bits::lemma_put_bit(cpsr, Z_FLAG, Z_FLAG, true);
    crate::bits::lemma_put_bit(z, N_FLAG, N_FLAG, false);
    crate::bits::lemma_put_bit(n, C_FLAG, C_FLAG, true);
    assert(wrap32(a - a) == 0);
}

/// The value and carry out of the barrel shifter.
pub fn shift_value(val: u32, ty: u32, amount: u32, reg_shift: bool, cin: bool) -> (r: (u32, bool))
    ensures
        r == shifter(val, ty, amount, reg_shift, cin),
{
    if amount == 0 && !reg_shift {
        if ty == 0 {
            (val, cin)
        } else if ty == 1 {
            (0, val >> 31 != 0)
        } else if ty == 2 {
            (if val >> 31 != 0 { 0xFFFF_FFFFu32 } else { 0u32 }, val >> 31 != 0)
        } else if ty == 3 {
            (((if cin { 1u32 } else { 0u32 }) << 31u32) | (val >> 1), val & 1 != 0)
        } else {
            (val, cin)
        }
    } else if amount == 0 {
        (val, cin)
    } else if ty == 0 {
        if amount >= 32 {
            (0, amount == 32 && val & 1 != 0)
        } else {
            (val << amount, (val >> (32 - amount)) & 1 != 0)
        }
    } else if ty == 1 {
        if amount >= 32 {
            (0, amount == 32 && val >> 31 != 0)
        } else {
            (val >> amount, (val >> (amount - 1)) & 1 != 0)
        }
    } else if ty == 2 {
        if amount >= 32 {
            (if val >> 31 != 0 { 0xFFFF_FFFFu32 } else { 0u32 }, val >> 31 != 0)
        } else {
            (((val as i32) >> amount) as u32, (((val as i32) >> (amount - 1)) as u32) & 1 != 0)
        }
    } else if ty == 3 {
        let k = amount % 32;
        if k == 0 {
            (val, val >> 31 != 0)
        } else {
            (rotate_right(val, k), (val >> (k - 1)) & 1 != 0)
        }
    } else {
        (val, cin)
    }
}

impl Cpu {
    /// The state of a processor that has just been built.
    pub open spec fn initial_state() -> CpuState {
        CpuState {
            regs: Seq::new(16, |i: int| 0u32),
            cpsr: 0xD3,
            spsr_fiq: 0,
            spsr_irq: 0,
            spsr_svc: 0,
            spsr_abt: 0,
            spsr_und: 0,
            r8_14_fiq: Seq::new(7, |i: int| 0u32),
            r8_12_usr: Seq::new(5, |i: int| 0u32),
            r13_14_irq: seq![0u32, 0u32],
            r13_14_svc: seq![0u32, 0u32],
            r13_14_abt: seq![0u32, 0u32],
            r13_14_und: seq![0u32, 0u32],
            r13_14_usr: seq![0u32, 0u32],
            pipeline: seq![0u32, 0u32],
            pipeline_valid: false,
        }
    }

    pub fn new() -> (c: Self)
        ensures
            c@ == Self::initial_state(),
    {
        proof {
            lemma_mode_bits(0, 0);
        }
        let c = Self {
            regs: [0;16],
            cpsr: MODE_SVC | I_FLAG | F_FLAG,
            spsr_fiq: 0,
            spsr_irq: 0,
            spsr_svc: 0,
            spsr_abt: 0,
            spsr_und: 0,
            r8_14_fiq: [0;7],
            r8_12_usr: [0;5],
            r13_14_irq: [0;2],
            r13_14_svc: [0;2],
            r13_14_abt: [0;2],
            r13_14_und: [0;2],
            r13_14_usr: [0;2],
            pipeline: [0;2],
            pipeline_valid: false,
        };
        assert(c@ =~= Self::initial_state());
        c
    }

    /// The state after a reset of `s`: Supervisor mode with interrupts off, all
    /// registers zero but the stack pointers of Supervisor, IRQ and User mode.
    pub open spec fn reset_state(s: CpuState) -> CpuState {
        CpuState {
            cpsr: 0xD3,
            regs: Seq::new(16, |i: int| if i == 13 { 0x0300_7FE0u32 } else { 0u32 }),
            r13_14_irq: s.r13_14_irq.update(0, 0x0300_7FA0),
            r13_14_svc: s.r13_14_svc.update(0, 0x0300_7FE0),
            r13_14_usr: s.r13_14_usr.update(0, 0x0300_7F00),
            pipeline_valid: false,
            ..s
        }
    }

    pub fn reset(&mut self, bus: &Bus)
        ensures
            final(self)@ == Self::reset_state(old(self)@),
    {
        proof {
            lemma_mode_bits(0, 0);
        }
        self.cpsr = MODE_SVC | I_FLAG | F_FLAG;
        self.regs = [0;16];
        self.regs[15] = 0;
        self.regs[13] = 0x0300_7FE0;
        self.r13_14_irq[0] = 0x0300_7FA0;
        self.r13_14_svc[0] = 0x0300_7FE0;
        self.r13_14_usr[0] = 0x0300_7F00;
        self.pipeline_valid = false;
        let _ = bus;
        assert(self@ =~= Self::reset_state(old(self)@));
    }

    pub fn get_pc(&self) -> (r: u32)
        ensures
            r == self.regs[15],
    {
        self.regs[15]
    }

    pub fn in_thumb(&self) -> (r: bool)
        ensures
            r == bit_set(self.cpsr, T_FLAG),
    {
        self.cpsr & T_FLAG != 0
    }

    fn pc_offset(&self) -> (r: u32)
        ensures
            r == if bit_set(self.cpsr, T_FLAG) { 4u32 } else { 8u32 },
    {
        if self.in_thumb() { 4 } else { 8 }
    }

    pub fn get_spsr(&self) -> (r: u32)
        ensures
            r == spsr_of(self@),
    {
        let m = self.cpsr & 0x1F;
        if m == MODE_FIQ {
            self.spsr_fiq
        } else if m == MODE_IRQ {
            self.spsr_irq
        } else if m == MODE_SVC {
            self.spsr_svc
        } else if m == MODE_ABT {
            self.spsr_abt
        } else if m == MODE_UND {
            self.spsr_und
        } else {
            self.cpsr
        }
    }

    pub fn set_spsr(&mut self, val: u32)
        ensures
            final(self)@ == set_spsr_spec(old(self)@, val),
    {
        let m = self.cpsr & 0x1F;
        if m == MODE_FIQ {
            self.spsr_fiq = val;
        } else if m == MODE_IRQ {
            self.spsr_irq = val;
        } else if m == MODE_SVC {
            self.spsr_svc = val;
        } else if m == MODE_ABT {
            self.spsr_abt = val;
        } else if m == MODE_UND {
            self.spsr_und = val;
        }
    }

    pub fn check_condition(&self, cond: u32) -> (r: bool)
        ensures
            r == cond_passed(self.cpsr, cond),
    {
        let c = self.cpsr;
        if cond == 0x0 {
            c & Z_FLAG != 0
        } else if cond == 0x1 {
            c & Z_FLAG == 0
        } else if cond == 0x2 {
            c & C_FLAG != 0
        } else if cond == 0x3 {
            c & C_FLAG == 0
        } else if cond == 0x4 {
            c & N_FLAG != 0
        } else if cond == 0x5 {
            c & N_FLAG == 0
        } else if cond == 0x6 {
            c & V_FLAG != 0
        } else if cond == 0x7 {
            c & V_FLAG == 0
        } else if cond == 0x8 {
            c & C_FLAG != 0 && c & Z_FLAG == 0
        } else if cond == 0x9 {
            c & C_FLAG == 0 || c & Z_FLAG != 0
        } else if cond == 0xA {
            (c & N_FLAG != 0) == (c & V_FLAG != 0)
        } else if cond == 0xB {
            (c & N_FLAG != 0) != (c & V_FLAG != 0)
        } else if cond == 0xC {
            c & Z_FLAG == 0 && (c & N_FLAG != 0) == (c & V_FLAG != 0)
        } else if cond == 0xD {
            c & Z_FLAG != 0 || (c & N_FLAG != 0) != (c & V_FLAG != 0)
        } else if cond == 0xE {
            true
        } else {
            false
        }
    }

    pub fn set_nz(&mut self, val: u32)
        ensures
            final(self)@ == old(self)@.with_cpsr(nz_flags(old(self).cpsr, val)),
    {
        let z = put_bit_exec(self.cpsr, Z_FLAG, val == 0);
        self.cpsr = put_bit_exec(z, N_FLAG, val >= 0x8000_0000);
    }

    pub fn set_nzcv_add(&mut self, a: u32, b: u32, result: u32)
        ensures
            final(self)@ == old(self)@.with_cpsr(
                put_bit(
                    put_bit(nz_flags(old(self).cpsr, result), C_FLAG, a + b > 0xFFFF_FFFF),
                    V_FLAG,
                    ((a ^ result) & (b ^ result)) >> 31 != 0,
                ),
            ),
    {
        self.set_nz(result);
        let carry = (a as u64) + (b as u64) > 0xFFFF_FFFF;
        let overflow = ((a ^ result) & (b ^ result)) >> 31 != 0;
        let c = put_bit_exec(self.cpsr, C_FLAG, carry);
        self.cpsr = put_bit_exec(c, V_FLAG, overflow);
    }

    pub fn add_with_flags(&mut self, a: u32, b: u32, set_flags: bool) -> (r: u32)
        ensures
            r == wrap32(a + b),
            final(self)@ == if set_flags {
                old(self)@.with_cpsr(add_flags(old(self).cpsr, a, b, 0, r))
            } else {
                old(self)@
            },
    {
        let result = a.wrapping_add(b);
        if set_flags {
            proof {
                lemma_alu_flags(a, b, 0);
            }
            self.set_nz(result);
            let c = put_bit_exec(self.cpsr, C_FLAG, (a as u64) + (b as u64) > 0xFFFF_FFFF);
            self.cpsr = put_bit_exec(c, V_FLAG, ((a ^ result) & (b ^ result)) >> 31 != 0);
        }
        result
    }

    pub fn sub_with_flags(&mut self, a: u32, b: u32, set_flags: bool) -> (r: u32)
        ensures
            r == wrap32(a - b),
            final(self)@ == if set_flags {
                old(self)@.with_cpsr(sub_flags(old(self).cpsr, a, b, 1, r))
            } else {
                old(self)@
            },
    {
        let result = a.wrapping_sub(b);
        if set_flags {
            proof {
                lemma_alu_flags(a, b, 1);
            }
            self.set_nz(result);
            let c = put_bit_exec(self.cpsr, C_FLAG, a >= b);
            self.cpsr = put_bit_exec(c, V_FLAG, ((a ^ b) & (a ^ result)) >> 31 != 0);
        }
        result
    }

    pub fn adc_with_flags(&mut self, a: u32, b: u32, set_flags: bool) -> (r: u32)
        ensures
            r == wrap32(a + b + carry_in(old(self).cpsr)),
            final(self)@ == if set_flags {
                old(self)@.with_cpsr(
                    add_flags(old(self).cpsr, a, b, carry_in(old(self).cpsr), r),
                )
            } else {
                old(self)@
            },
    {
        let c: u64 = if self.cpsr & C_FLAG != 0 { 1 } else { 0 };
        let result64: u64 = (a as u64) + (b as u64) + c;
        let result: u32 = if result64 > 0xFFFF_FFFF {
            (result64 - 0x1_0000_0000) as u32
        } else {
            result64 as u32
        };
        if set_flags {
            proof {
                lemma_alu_flags(a, b, c as u32);
            }
            self.set_nz(result);
            let cf = put_bit_exec(self.cpsr, C_FLAG, result64 > 0xFFFF_FFFF);
            self.cpsr = put_bit_exec(cf, V_FLAG, ((a ^ result) & (b ^ result)) >> 31 != 0);
        }
        result
    }

    pub fn sbc_with_flags(&mut self, a: u32, b: u32, set_flags: bool) -> (r: u32)
        ensures
            r == wrap32(a - b - (1 - carry_in(old(self).cpsr))),
            final(self)@ == if set_flags {
                old(self)@.with_cpsr(
                    sub_flags(old(self).cpsr, a, b, carry_in(old(self).cpsr), r),
                )
            } else {
                old(self)@
            },
    {
        let c: u32 = if self.cpsr & C_FLAG != 0 { 1 } else { 0 };
        let result = a.wrapping_sub(b).wrapping_sub(1).wrapping_add(c);
        if set_flags {
            proof {
                lemma_alu_flags(a, b, c);
            }
            self.set_nz(result);
            let borrow = (a as u64) >= (b as u64) + (1 - c as u64);
            let cf = put_bit_exec(self.cpsr, C_FLAG, borrow);
            self.cpsr = put_bit_exec(cf, V_FLAG, ((a ^ b) & (a ^ result)) >> 31 != 0);
        }
        result
    }

    pub fn barrel_shift(
        &mut self,
        val: u32,
        shift_type: u32,
        amount: u32,
        set_carry: bool,
        reg_shift: bool,
    ) -> (r: u32)
        ensures
            r == shifter(val, shift_type, amount, reg_shift, bit_set(old(self).cpsr, C_FLAG)).0,
            final(self)@ == if set_carry {
                old(self)@.with_cpsr(
                    put_bit(
                        old(self).cpsr,
                        C_FLAG,
                        shifter(val, shift_type, amount, reg_shift, bit_set(old(self).cpsr, C_FLAG)).1,
                    ),
                )
            } else {
                old(self)@
            },
    {
        let cin = self.cpsr & C_FLAG != 0;
        let (result, carry) = shift_value(val, shift_type, amount, reg_shift, cin);
        if set_carry {
            self.cpsr = put_bit_exec(self.cpsr, C_FLAG, carry);
        }
        result
    }

    pub fn switch_mode(&mut self, new_mode: u32)
        ensures
            final(self)@ == switch_mode_spec(old(self)@, new_mode),
    {
        let old_mode = self.cpsr & 0x1F;
        if old_mode == new_mode {
            self.cpsr = (self.cpsr & !0x1F) | new_mode;
            assert(self@ =~= switch_mode_spec(old(self)@, new_mode));
            return;
        }
        if old_mode == MODE_USR || old_mode == MODE_SYS {
            self.r13_14_usr[0] = self.regs[13];
            self.r13_14_usr[1] = self.regs[14];
            self.r8_12_usr = [self.regs[8], self.regs[9], self.regs[10], self.regs[11], self.regs[12]];
        } else if old_mode == MODE_FIQ {
            self.r8_14_fiq = [
                self.regs[8],
                self.regs[9],
                self.regs[10],
                self.regs[11],
                self.regs[12],
                self.regs[13],
                self.regs[14],
            ];
        } else if old_mode == MODE_IRQ {
            self.r13_14_irq[0] = self.regs[13];
            self.r13_14_irq[1] = self.regs[14];
        } else if old_mode == MODE_SVC {
            self.r13_14_svc[0] = self.regs[13];
            self.r13_14_svc[1] = self.regs[14];
        } else if old_mode == MODE_ABT {
            self.r13_14_abt[0] = self.regs[13];
            self.r13_14_abt[1] = self.regs[14];
        } else if old_mode == MODE_UND {
            self.r13_14_und[0] = self.regs[13];
            self.r13_14_und[1] = self.regs[14];
        }
        let ghost s1 = self@;
        assert(s1 =~= store_bank(old(self)@));
        if old_mode == MODE_FIQ && new_mode != MODE_FIQ {
            self.regs[8] = self.r8_12_usr[0];
            self.regs[9] = self.r8_12_usr[1];
            self.regs[10] = self.r8_12_usr[2];
            self.regs[11] = self.r8_12_usr[3];
            self.regs[12] = self.r8_12_usr[4];
            assert(self.regs@ =~= splice(s1.regs, 8, s1.r8_12_usr));
        }
        let ghost s2 = self@;
        if old_mode != MODE_FIQ && new_mode == MODE_FIQ {
            self.r8_12_usr = [self.regs[8], self.regs[9], self.regs[10], self.regs[11], self.regs[12]];
            assert(self.r8_12_usr@ =~= s2.regs.subrange(8, 13));
        }
        let ghost s3 = self@;
        if new_mode == MODE_USR || new_mode == MODE_SYS {
            self.regs[13] = self.r13_14_usr[0];
            self.regs[14] = self.r13_14_usr[1];
            assert(self.regs@ =~= splice(s3.regs, 13, s3.r13_14_usr));
        } else if new_mode == MODE_FIQ {
            self.regs[8] = self.r8_14_fiq[0];
            self.regs[9] = self.r8_14_fiq[1];
            self.regs[10] = self.r8_14_fiq[2];
            self.regs[11] = self.r8_14_fiq[3];
            self.regs[12] = self.r8_14_fiq[4];
            self.regs[13] = self.r8_14_fiq[5];
            self.regs[14] = self.r8_14_fiq[6];
            assert(self.regs@ =~= splice(s3.regs, 8, s3.r8_14_fiq));
        } else if new_mode == MODE_IRQ {
            self.regs[13] = self.r13_14_irq[0];
            self.regs[14] = self.r13_14_irq[1];
            assert(self.regs@ =~= splice(s3.regs, 13, s3.r13_14_irq));
        } else if new_mode == MODE_SVC {
            self.regs[13] = self.r13_14_svc[0];
            self.regs[14] = self.r13_14_svc[1];
            assert(self.regs@ =~= splice(s3.regs, 13, s3.r13_14_svc));
        } else if new_mode == MODE_ABT {
            self.regs[13] = self.r13_14_abt[0];
            self.regs[14] = self.r13_14_abt[1];
            assert(self.regs@ =~= splice(s3.regs, 13, s3.r13_14_abt));
        } else if new_mode == MODE_UND {
            self.regs[13] = self.r13_14_und[0];
            self.regs[14] = self.r13_14_und[1];
            assert(self.regs@ =~= splice(s3.regs, 13, s3.r13_14_und));
        }
        assert(self@ =~= load_bank(s3, new_mode));
        self.cpsr = (self.cpsr & !0x1F) | new_mode;
        assert(self@ =~= switch_mode_spec(old(self)@, new_mode));
    }
}


/// In the current mode, the banked view of a register is the register itself.
pub proof fn lemma_banked_current(s: CpuState, i: int)
    requires
        s.wf(),
        0 <= i < 16,
    ensures
        banked_reg(s, mode_of(s.cpsr), i) == s.regs[i],
{
}

/// A change between two valid modes leaves unchanged the register that any mode
/// sees at any index, and makes the new mode current.
pub proof fn lemma_switch_mode_keeps_banks(s: CpuState, new_mode: u32, m: u32, i: int)
    requires
        s.wf(),
        is_valid_mode(mode_of(s.cpsr)),
        is_valid_mode(new_mode),
        is_valid_mode(m),
        0 <= i < 16,
    ensures
        banked_reg(switch_mode_spec(s, new_mode), m, i) == banked_reg(s, m, i),
        mode_of(switch_mode_spec(s, new_mode).cpsr) == new_mode,
        switch_mode_spec(s, new_mode).wf(),
{
    lemma_mode_bits(s.cpsr, new_mode);
}

/// Switching to another valid mode and back restores every register and the
/// status register.
pub proof fn lemma_switch_mode_round_trip(s: CpuState, new_mode: u32)
    requires
        s.wf(),
        is_valid_mode(mode_of(s.cpsr)),
        is_valid_mode(new_mode),
    ensures
        switch_mode_spec(switch_mode_spec(s, new_mode), mode_of(s.cpsr)).regs == s.regs,
        switch_mode_spec(switch_mode_spec(s, new_mode), mode_of(s.cpsr)).cpsr == s.cpsr,
{
    let old_mode = mode_of(s.cpsr);
    let s1 = switch_mode_spec(s, new_mode);
    let s2 = switch_mode_spec(s1, old_mode);
    lemma_mode_bits(s.cpsr, new_mode);
    lemma_mode_bits(s1.cpsr, old_mode);
    lemma_switch_mode_keeps_banks(s, new_mode, old_mode, 0);
    assert forall|i: int| 0 <= i < 16 implies s2.regs[i] == s.regs[i] by {
        lemma_switch_mode_keeps_banks(s, new_mode, old_mode, i);
        lemma_switch_mode_keeps_banks(s1, old_mode, old_mode, i);
        lemma_banked_current(s, i);
        lemma_banked_current(s2, i);
    }
    assert(s2.regs =~= s.regs);
}


/// Taking a software interrupt: Supervisor mode with the old status register
/// in its SPSR, the address after the SWI in r14, ARM state with IRQs masked,
/// running from vector 0x08.
pub open spec fn swi_spec(s: CpuState) -> CpuState {
    let s1 = switch_mode_spec(s, MODE_SVC);
    let ret = if bit_set(s.cpsr, T_FLAG) { wrap32(s1.regs[15] - 2) } else { wrap32(s1.regs[15] - 4) };
    let s2 = CpuState { spsr_svc: s.cpsr, ..s1 }.with_reg(14, ret);
    CpuState { cpsr: (s2.cpsr & !T_FLAG) | I_FLAG, regs: s2.regs.update(15, 8), pipeline_valid: false, ..s2 }
}

/// Taking an interrupt: IRQ mode with the old status register in its SPSR, the
/// return address in r14, ARM state with IRQs masked, running from vector 0x18.
pub open spec fn irq_spec(s: CpuState) -> CpuState {
    let s1 = switch_mode_spec(s, MODE_IRQ);
    let ret = if bit_set(s.cpsr, T_FLAG) { s1.regs[15] } else { wrap32(s1.regs[15] - 4) };
    let s2 = CpuState { spsr_irq: s.cpsr, ..s1 }.with_reg(14, ret);
    CpuState { cpsr: (s2.cpsr & !T_FLAG) | I_FLAG, regs: s2.regs.update(15, 0x18), pipeline_valid: false, ..s2 }
}

/// An interrupt is taken: IRQs are unmasked, the master enable is on, and an
/// enabled interrupt is requested.
pub open spec fn irq_pending(s: CpuState, b: BusView) -> bool {
    !bit_set(s.cpsr, I_FLAG) && b.ime && b.ie & b.if_ != 0
}

/// The program counter moved past the two instructions the pipeline holds.
pub open spec fn flushed(s: CpuState) -> CpuState {
    CpuState {
        regs: s.regs.update(15, wrap32(s.regs[15] + if bit_set(s.cpsr, T_FLAG) { 4int } else { 8int })),
        pipeline_valid: true,
        ..s
    }
}

/// Taking an interrupt or a software interrupt masks further interrupts, leaves
/// Thumb state, enters the handler's mode with the interrupted status saved,
/// and jumps to the handler's vector; an interrupt is then no longer pending.
pub proof fn lemma_exception_entry(s: CpuState, b: BusView)
    requires
        s.wf(),
    ensures
        bit_set(irq_spec(s).cpsr, I_FLAG),
        !bit_set(irq_spec(s).cpsr, T_FLAG),
        mode_of(irq_spec(s).cpsr) == MODE_IRQ,
        irq_spec(s).spsr_irq == s.cpsr,
        irq_spec(s).regs[15] == 0x18,
        !irq_pending(irq_spec(s), b),
        bit_set(swi_spec(s).cpsr, I_FLAG),
        !bit_set(swi_spec(s).cpsr, T_FLAG),
        mode_of(swi_spec(s).cpsr) == MODE_SVC,
        swi_spec(s).spsr_svc == s.cpsr,
        swi_spec(s).regs[15] == 0x08,
{
    let c1 = switch_mode_spec(s, MODE_IRQ).cpsr;
    let c2 = switch_mode_spec(s, MODE_SVC).cpsr;
    lemma_mode_bits(s.cpsr, MODE_IRQ);
    lemma_mode_bits(s.cpsr, MODE_SVC);
    assert(mode_of(c1) == MODE_IRQ);
    assert(mode_of(c2) == MODE_SVC);
    assert(forall|c: u32|
        #![trigger (c & !T_FLAG) | I_FLAG]
        bit_set((c & !T_FLAG) | I_FLAG, I_FLAG) && !bit_set((c & !T_FLAG) | I_FLAG, T_FLAG) && mode_of(
            (c & !T_FLAG) | I_FLAG,
        ) == mode_of(c)) by (bit_vector);
}

impl Cpu {
    /// Enters the software interrupt handler; the comment field and the bus
    /// play no part.
    pub fn software_interrupt(&mut self, comment: u32, bus: &Bus)
        ensures
            final(self)@ == swi_spec(old(self)@),
    {
        let _ = comment;
        let _ = bus;
        let old_cpsr = self.cpsr;
        self.switch_mode(MODE_SVC);
        self.spsr_svc = old_cpsr;
        self.regs[14] = if old_cpsr & T_FLAG != 0 {
            self.regs[15].wrapping_sub(2)
        } else {
            self.regs[15].wrapping_sub(4)
        };
        self.cpsr = self.cpsr & !T_FLAG;
        self.cpsr = self.cpsr | I_FLAG;
        self.regs[15] = 0x08;
        self.pipeline_valid = false;
        assert(self@ =~= swi_spec(old(self)@));
    }

    fn check_irq(&mut self, bus: &mut Bus) -> (r: bool)
        ensures
            r == irq_pending(old(self)@, old(bus)@),
            final(self)@ == if r { irq_spec(old(self)@) } else { old(self)@ },
            final(bus)@ == if r { BusView { halted: false, ..old(bus)@ } } else { old(bus)@ },
    {
        if self.cpsr & I_FLAG != 0 {
            return false;
        }
        if !bus.ime {
            return false;
        }
        if bus.ie & bus.if_ == 0 {
            return false;
        }
        bus.halted = false;
        let old_cpsr = self.cpsr;
        self.switch_mode(MODE_IRQ);
        self.spsr_irq = old_cpsr;
        let ret_addr = if old_cpsr & T_FLAG != 0 {
            self.regs[15]
        } else {
            self.regs[15].wrapping_sub(4)
        };
        self.regs[14] = ret_addr;
        self.cpsr = self.cpsr & !T_FLAG;
        self.cpsr = self.cpsr | I_FLAG;
        self.regs[15] = 0x18;
        self.pipeline_valid = false;
        assert(self@ =~= irq_spec(old(self)@));
        true
    }

    /// Points the program counter past the two instructions the pipeline
    /// holds after a jump.
    pub fn flush_pipeline(&mut self, bus: &mut Bus)
        ensures
            final(self)@ == flushed(old(self)@),
            *final(bus) == *old(bus),
    {
        let _ = bus;
        if self.in_thumb() {
            self.regs[15] = self.regs[15].wrapping_add(4);
        } else {
            self.regs[15] = self.regs[15].wrapping_add(8);
        }
        self.pipeline_valid = true;
        assert(self@ =~= flushed(old(self)@));
    }
}


/// The end of an instruction: when it did not jump, PC moves to the next
/// instruction and, after a data access that paid wait states, the next code
/// fetch pays its own; after a jump the pipeline refill is paid. The cycles of
/// the instruction, its data and write waits and these extras are recorded for
/// the next fetch, and the stall before the fetch is added.
pub open spec fn finish_step(
    s: CpuState,
    b: BusView,
    cycles: u32,
    addr: u32,
    stall: u32,
    thumb: bool,
) -> (CpuState, BusView, u32) {
    let valid = s.pipeline_valid;
    let s1 = if valid { s.with_reg(15, wrap32(s.regs[15] + if thumb { 2int } else { 4int })) } else { s };
    let fe: u32 = if valid && (b.rom_data_accessed || b.write_wait_cycles > 0) {
        code_fetch_extra_spec(b, addr, thumb, false)
    } else {
        0
    };
    let rf: u32 = if valid { 0 } else { branch_refill_spec(s.regs[15], bit_set(s.cpsr, T_FLAG)) };
    let base = cycles + b.data_wait_cycles + b.write_wait_cycles + fe + rf;
    (s1, BusView { prev_exec_cycles: base as u32, prev_was_branch: !valid, ..b }, (base + stall) as u32)
}

/// A word fetch at `addr`: the word and the bus after.
#[verifier::opaque]
pub open spec fn fetch32(b: BusView, addr: u32) -> (u32, BusView) {
    (read32_value(b, addr), read32_effect(b, addr))
}

/// A halfword fetch at `addr`: the halfword and the bus after.
#[verifier::opaque]
pub open spec fn fetch16(b: BusView, addr: u32) -> (u16, BusView) {
    (read16_value(b, addr), read16_effect(b, addr))
}

/// The bus once an instruction is fetched: the per-instruction wait counters
/// and the data-access trackers start afresh.
pub open spec fn fetched(b: BusView) -> BusView {
    BusView {
        fetching_code: false,
        data_wait_cycles: 0,
        write_wait_cycles: 0,
        rom_data_accessed: false,
        last_rom_data_addr: 0xFFFF_FFFF,
        ..b
    }
}

/// One ARM step from a full pipeline: the word at PC - 8 is fetched after any
/// prefetch stall; an instruction whose condition fails only moves PC on (one
/// cycle), another runs and ends as [`finish_step`] says.
pub open spec fn arm_step_spec(s: CpuState, b: BusView) -> (CpuState, BusView, u32) {
    let addr = wrap32(s.regs[15] - 8);
    let stall = pipeline_stall_spec(b, addr, false);
    let b1 = BusView { fetching_code: true, ..b };
    let f = fetch32(b1, addr);
    let instr = f.0;
    arm_run_spec(s, fetched(f.1), instr, addr, stall)
}

/// A fetched ARM instruction runs: when its condition fails only PC moves on
/// (one cycle); otherwise it ends as [`finish_step`] says.
pub open spec fn arm_run_spec(s: CpuState, b2: BusView, instr: u32, addr: u32, stall: u32) -> (CpuState, BusView, u32) {
    if !cond_passed(s.cpsr, (instr >> 28u32) & 0xF) {
        (
            s.with_reg(15, wrap32(s.regs[15] + 4)),
            BusView { prev_exec_cycles: 1, prev_was_branch: false, ..b2 },
            (1 + stall) as u32,
        )
    } else {
        let t = arm_spec(CpuState { pipeline_valid: true, ..s }, b2, instr);
        finish_step(t.0, t.1, t.2, addr, stall, false)
    }
}

/// One Thumb step from a full pipeline: the halfword at PC - 4 is fetched after
/// any prefetch stall, runs, and ends as [`finish_step`] says.
pub open spec fn thumb_step_spec(s: CpuState, b: BusView) -> (CpuState, BusView, u32) {
    let addr = wrap32(s.regs[15] - 4);
    let stall = pipeline_stall_spec(b, addr, true);
    let b1 = BusView { fetching_code: true, ..b };
    let f = fetch16(b1, addr);
    let instr = f.0;
    let b2 = fetched(f.1);
    let t = thumb_spec(CpuState { pipeline_valid: true, ..s }, b2, instr);
    finish_step(t.0, t.1, t.2, addr, stall, true)
}

/// One step of the processor: a pipeline emptied by a jump is refilled, a
/// pending interrupt is taken (3 cycles, waking the processor), otherwise one
/// instruction of the current state runs.
pub open spec fn step_spec(s: CpuState, b: BusView) -> (CpuState, BusView, u32) {
    let s1 = if !s.pipeline_valid { flushed(s) } else { s };
    if irq_pending(s1, b) {
        (irq_spec(s1), BusView { halted: false, ..b }, 3)
    } else if bit_set(s1.cpsr, T_FLAG) {
        thumb_step_spec(s1, b)
    } else {
        arm_step_spec(s1, b)
    }
}

fn fetch_word(bus: &mut Bus, addr: u32) -> (r: u32)
    requires
        old(bus)@.wf(),
    ensures
        (r, final(bus)@) == fetch32(old(bus)@, addr),
        final(bus)@.wf(),
        same_timing(old(bus)@, final(bus)@),
{
    reveal(fetch32);
    bus.read32(addr)
}

fn fetch_half(bus: &mut Bus, addr: u32) -> (r: u16)
    requires
        old(bus)@.wf(),
    ensures
        (r, final(bus)@) == fetch16(old(bus)@, addr),
        final(bus)@.wf(),
        same_timing(old(bus)@, final(bus)@),
{
    reveal(fetch16);
    bus.read16(addr)
}

impl Cpu {
    fn finish_exec(&mut self, bus: &mut Bus, cycles: u32, addr: u32, stall: u32, thumb: bool) -> (r: u32)
        requires
            old(bus)@.wf(),
            cycles <= 21,
            old(bus).data_wait_cycles <= 289,
            old(bus).write_wait_cycles == 0,
            stall <= 18,
        ensures
            (final(self)@, final(bus)@, r) == finish_step(old(self)@, old(bus)@, cycles, addr, stall, thumb),
            final(bus)@.wf(),
            same_timing(old(bus)@, final(bus)@),
            1 <= r <= 400 || cycles == 0,
    {
        let valid = self.pipeline_valid;
        let mut fe: u32 = 0;
        let mut rf: u32 = 0;
        if valid {
            self.regs[15] = self.regs[15].wrapping_add(if thumb { 2 } else { 4 });
            if bus.rom_data_accessed || bus.write_wait_cycles > 0 {
                fe = bus.code_fetch_extra(addr, thumb, false);
            }
        } else {
            let target = self.regs[15];
            rf = bus.branch_refill_cycles(target, self.in_thumb());
        }
        let base = cycles + bus.data_wait_cycles + bus.write_wait_cycles + fe + rf;
        bus.prev_exec_cycles = base;
        bus.prev_was_branch = !valid;
        base + stall
    }

    fn run_arm(&mut self, bus: &mut Bus, instr: u32, instr_addr: u32, stall: u32) -> (r: u32)
        requires
            old(bus)@.wf(),
            old(bus).data_wait_cycles == 0,
            old(bus).write_wait_cycles == 0,
            stall <= 18,
        ensures
            (final(self)@, final(bus)@, r) == arm_run_spec(old(self)@, old(bus)@, instr, instr_addr, stall),
            final(bus)@.wf(),
            same_timing(old(bus)@, final(bus)@),
            1 <= r <= 400,
    {
        let cond = (instr >> 28) & 0xF;
        if !self.check_condition(cond) {
            self.regs[15] = self.regs[15].wrapping_add(4);
            bus.prev_exec_cycles = 1;
            bus.prev_was_branch = false;
            return 1 + stall;
        }
        self.pipeline_valid = true;
        let cycles = crate::arm::execute(self, bus, instr);
        self.finish_exec(bus, cycles, instr_addr, stall, false)
    }

    /// Runs the ARM instruction the pipeline holds; returns the cycles taken.
    pub fn execute_arm(&mut self, bus: &mut Bus) -> (r: u32)
        requires
            old(bus)@.wf(),
        ensures
            (final(self)@, final(bus)@, r) == arm_step_spec(old(self)@, old(bus)@),
            final(bus)@.wf(),
            same_timing(old(bus)@, final(bus)@),
            1 <= r <= 400,
    {
        let instr_addr = self.regs[15].wrapping_sub(8);
        let stall = bus.pipeline_stall(instr_addr, false);
        bus.fetching_code = true;
        let instr = fetch_word(bus, instr_addr);
        bus.fetching_code = false;
        bus.data_wait_cycles = 0;
        bus.write_wait_cycles = 0;
        bus.rom_data_accessed = false;
        bus.last_rom_data_addr = 0xFFFF_FFFF;
        self.run_arm(bus, instr, instr_addr, stall)
    }

    /// Runs the Thumb instruction the pipeline holds; returns the cycles taken.
    pub fn execute_thumb(&mut self, bus: &mut Bus) -> (r: u32)
        requires
            old(bus)@.wf(),
        ensures
            (final(self)@, final(bus)@, r) == thumb_step_spec(old(self)@, old(bus)@),
            final(bus)@.wf(),
            same_timing(old(bus)@, final(bus)@),
            1 <= r <= 400,
    {
        let instr_addr = self.regs[15].wrapping_sub(4);
        let stall = bus.pipeline_stall(instr_addr, true);
        bus.fetching_code = true;
        let instr = fetch_half(bus, instr_addr);
        bus.fetching_code = false;
        bus.data_wait_cycles = 0;
        bus.write_wait_cycles = 0;
        bus.rom_data_accessed = false;
        bus.last_rom_data_addr = 0xFFFF_FFFF;
        self.pipeline_valid = true;
        let cycles = crate::thumb::execute(self, bus, instr);
        self.finish_exec(bus, cycles, instr_addr, stall, true)
    }

    /// The address of the instruction that runs next: the program counter
    /// less the two instructions the pipeline holds, or the program counter
    /// itself when the pipeline is to be refilled.
    pub fn next_instruction_address(&self) -> (r: u32)
        ensures
            r == if self.pipeline_valid {
                wrap32(self.regs[15] - if bit_set(self.cpsr, T_FLAG) { 4int } else { 8int })
            } else {
                self.regs[15]
            },
    {
        if self.pipeline_valid {
            if self.in_thumb() {
                self.regs[15].wrapping_sub(4)
            } else {
                self.regs[15].wrapping_sub(8)
            }
        } else {
            self.regs[15]
        }
    }

    /// Whether the processor is about to run ARM code from on-board work RAM,
    /// where no program is expected to run ARM code.
    pub fn arm_code_in_ewram(&self) -> (r: bool)
        ensures
            r == ((({
                if self.pipeline_valid {
                    wrap32(self.regs[15] - if bit_set(self.cpsr, T_FLAG) { 4int } else { 8int })
                } else {
                    self.regs[15]
                }
            }) >> 24u32) & 0xFF == 0x02 && !bit_set(self.cpsr, T_FLAG)),
    {
        let pc = self.next_instruction_address();
        (pc >> 24) & 0xFF == 0x02 && !self.in_thumb()
    }

    /// Runs one step: refills the pipeline after a jump, takes a pending
    /// interrupt, or runs one instruction; returns the cycles taken.
    pub fn step(&mut self, bus: &mut Bus) -> (r: u32)
        requires
            old(bus)@.wf(),
        ensures
            (final(self)@, final(bus)@, r) == step_spec(old(self)@, old(bus)@),
            final(bus)@.wf(),
            same_timing(old(bus)@, final(bus)@),
            1 <= r <= 400,
    {
        if !self.pipeline_valid {
            self.flush_pipeline(bus);
        }
        if self.check_irq(bus) {
            return 3;
        }
        if self.in_thumb() {
            self.execute_thumb(bus)
        } else {
            self.execute_arm(bus)
        }
    }
}

} // verus!
