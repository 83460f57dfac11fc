use vstd::prelude::*;

use crate::bits::group_bounds;
use crate::timer::Timers;


verus! {

broadcast use group_bounds;

pub struct Apu {
    pub enabled: bool,
    pub ch1_sweep: u8,
    pub ch1_duty_len: u8,
    pub ch1_envelope: u8,
    pub ch1_freq: u16,
    pub ch1_timer: u32,
    pub ch1_freq_counter: u32,
    pub ch1_duty_pos: u8,
    pub ch1_env_timer: u8,
    pub ch1_volume: u8,
    pub ch1_enabled: bool,
    pub ch1_len_counter: u8,
    pub ch1_sweep_timer: u8,
    pub ch1_shadow_freq: u16,
    pub ch1_sweep_enabled: bool,
    pub ch2_duty_len: u8,
    pub ch2_envelope: u8,
    pub ch2_freq: u16,
    pub ch2_timer: u32,
    pub ch2_freq_counter: u32,
    pub ch2_duty_pos: u8,
    pub ch2_env_timer: u8,
    pub ch2_volume: u8,
    pub ch2_enabled: bool,
    pub ch2_len_counter: u8,
    pub ch3_enable: u8,
    pub ch3_len: u8,
    pub ch3_volume: u8,
    pub ch3_freq: u16,
    pub ch3_timer: u32,
    pub ch3_freq_counter: u32,
    pub ch3_pos: u8,
    pub ch3_enabled: bool,
    pub ch3_len_counter: u16,
    pub wave_ram: [u8; 16],
    pub ch3_bank: u8,
    pub ch3_dimension: bool,
    pub ch4_len_env: u8,
    pub ch4_envelope: u8,
    pub ch4_poly: u8,
    pub ch4_control: u8,
    pub ch4_timer: u32,
    pub ch4_freq_counter: u32,
    pub ch4_lfsr: u16,
    pub ch4_env_timer: u8,
    pub ch4_volume: u8,
    pub ch4_enabled: bool,
    pub ch4_len_counter: u8,
    pub soundcnt_l: u16,
    pub soundcnt_h: u16,
    pub soundcnt_x: u16,
    pub soundbias: u16,
    pub fifo_a: [i8; 32],
    pub fifo_a_read: usize,
    pub fifo_a_write: usize,
    pub fifo_a_count: usize,
    pub fifo_a_sample: i8,
    pub fifo_b: [i8; 32],
    pub fifo_b_read: usize,
    pub fifo_b_write: usize,
    pub fifo_b_count: usize,
    pub fifo_b_sample: i8,
    pub frame_seq_counter: u32,
    pub frame_seq_step: u8,
}

/// The level (0 or 1) of step `pos` of the square wave with duty setting `duty`.
pub open spec fn duty_level(duty: int, pos: int) -> u8 {
    if duty == 0 {
        if pos == 7 { 1 } else { 0 }
    } else if duty == 1 {
        if pos == 0 || pos == 7 { 1 } else { 0 }
    } else if duty == 2 {
        if pos == 0 || pos == 5 || pos == 6 || pos == 7 { 1 } else { 0 }
    } else {
        if 1 <= pos <= 6 { 1 } else { 0 }
    }
}

fn duty_table(duty: usize, pos: usize) -> (r: u8)
    ensures
        r == duty_level(duty as int, pos as int),
{
    if duty == 0 {
        if pos == 7 { 1 } else { 0 }
    } else if duty == 1 {
        if pos == 0 || pos == 7 { 1 } else { 0 }
    } else if duty == 2 {
        if pos == 0 || pos == 5 || pos == 6 || pos == 7 { 1 } else { 0 }
    } else {
        if 1 <= pos && pos <= 6 { 1 } else { 0 }
    }
}

/// The length counter loaded from a 6-bit length field.
pub open spec fn length_from(len: u8) -> u8 {
    if len & 0x3F == 0 { 64 } else { (64 - (len & 0x3F)) as u8 }
}

/// Channel 1 after a restart.
pub open spec fn trigger_ch1_spec(a: Apu) -> Apu {
    let freq = a.ch1_freq & 0x7FF;
    let period = (a.ch1_sweep >> 4u8) & 7;
    let shift = a.ch1_sweep & 7;
    Apu {
        ch1_enabled: true,
        ch1_len_counter: length_from(a.ch1_duty_len),
        ch1_freq_counter: ((2048 - freq) * 16) as u32,
        ch1_timer: ((2048 - freq) * 16) as u32,
        ch1_volume: a.ch1_envelope >> 4u8,
        ch1_env_timer: a.ch1_envelope & 7,
        ch1_shadow_freq: freq,
        ch1_sweep_timer: if period == 0 { 8 } else { period },
        ch1_sweep_enabled: period != 0 || shift != 0,
        ..a
    }
}

/// Channel 2 after a restart.
pub open spec fn trigger_ch2_spec(a: Apu) -> Apu {
    let freq = a.ch2_freq & 0x7FF;
    Apu {
        ch2_enabled: true,
        ch2_len_counter: length_from(a.ch2_duty_len),
        ch2_freq_counter: ((2048 - freq) * 16) as u32,
        ch2_timer: ((2048 - freq) * 16) as u32,
        ch2_volume: a.ch2_envelope >> 4u8,
        ch2_env_timer: a.ch2_envelope & 7,
        ..a
    }
}

/// Channel 3 after a restart.
pub open spec fn trigger_ch3_spec(a: Apu) -> Apu {
    let freq = a.ch3_freq & 0x7FF;
    Apu {
        ch3_enabled: true,
        ch3_len_counter: if a.ch3_len == 0 { 256 } else { (256 - a.ch3_len) as u16 },
        ch3_freq_counter: ((2048 - freq) * 8) as u32,
        ch3_timer: ((2048 - freq) * 8) as u32,
        ch3_pos: 0,
        ..a
    }
}

/// The period of the noise channel for the divider `r` and shift `s`.
pub open spec fn noise_period(r: u32, s: u32) -> u32 {
    if r == 0 { 8u32 << s } else { ((16 * r) as u32) << s }
}

/// Channel 4 after a restart.
pub open spec fn trigger_ch4_spec(a: Apu) -> Apu {
    let r = (a.ch4_poly & 7) as u32;
    let s = ((a.ch4_poly >> 4u8) & 0xF) as u32;
    Apu {
        ch4_enabled: true,
        ch4_len_counter: length_from(a.ch4_len_env),
        ch4_lfsr: 0x7FFF,
        ch4_volume: a.ch4_envelope >> 4u8,
        ch4_env_timer: a.ch4_envelope & 7,
        ch4_freq_counter: noise_period(r, s),
        ch4_timer: noise_period(r, s),
        ..a
    }
}

/// FIFO A after the byte `b` is offered: it is kept when there is room.
pub open spec fn push_a(a: Apu, b: i8) -> Apu {
    if a.fifo_a_count < 32 {
        Apu {
            fifo_a: vstd::array::spec_array_update(a.fifo_a, a.fifo_a_write as int, b),
            fifo_a_write: ((a.fifo_a_write + 1) % 32) as usize,
            fifo_a_count: (a.fifo_a_count + 1) as usize,
            ..a
        }
    } else {
        a
    }
}

/// FIFO B after the byte `b` is offered: it is kept when there is room.
pub open spec fn push_b(a: Apu, b: i8) -> Apu {
    if a.fifo_b_count < 32 {
        Apu {
            fifo_b: vstd::array::spec_array_update(a.fifo_b, a.fifo_b_write as int, b),
            fifo_b_write: ((a.fifo_b_write + 1) % 32) as usize,
            fifo_b_count: (a.fifo_b_count + 1) as usize,
            ..a
        }
    } else {
        a
    }
}

/// FIFO A after the four bytes of `val` are offered, lowest first.
pub open spec fn push_word_a(a: Apu, val: u32) -> Apu {
    push_a(push_a(push_a(push_a(a, val as i8), (val >> 8u32) as i8), (val >> 16u32) as i8),
        (val >> 24u32) as i8)
}

/// FIFO B after the four bytes of `val` are offered, lowest first.
pub open spec fn push_word_b(a: Apu, val: u32) -> Apu {
    push_b(push_b(push_b(push_b(a, val as i8), (val >> 8u32) as i8), (val >> 16u32) as i8),
        (val >> 24u32) as i8)
}

/// The FIFOs after an overflow of timer `timer_id`: each FIFO driven by that
/// timer takes its oldest byte as its current sample, when it holds one.
pub open spec fn timer_overflow_spec(a: Apu, timer_id: int) -> Apu {
    let a1 = if timer_id == ((a.soundcnt_h >> 10u16) & 1) as int && a.fifo_a_count > 0 {
        Apu {
            fifo_a_sample: a.fifo_a@[a.fifo_a_read as int],
            fifo_a_read: ((a.fifo_a_read + 1) % 32) as usize,
            fifo_a_count: (a.fifo_a_count - 1) as usize,
            ..a
        }
    } else {
        a
    };
    if timer_id == ((a.soundcnt_h >> 14u16) & 1) as int && a1.fifo_b_count > 0 {
        Apu {
            fifo_b_sample: a1.fifo_b@[a1.fifo_b_read as int],
            fifo_b_read: ((a1.fifo_b_read + 1) % 32) as usize,
            fifo_b_count: (a1.fifo_b_count - 1) as usize,
            ..a1
        }
    } else {
        a1
    }
}

/// What a read of the sound register at `addr` returns.
pub open spec fn read_reg_spec(a: Apu, addr: u32) -> u16 {
    if addr == 0x060 {
        a.ch1_sweep as u16
    } else if addr == 0x062 {
        (a.ch1_duty_len as u16) & 0xC0
    } else if addr == 0x064 {
        a.ch1_freq & 0xC7FF
    } else if addr == 0x068 {
        (a.ch2_duty_len as u16) & 0xC0
    } else if addr == 0x06C {
        a.ch2_freq & 0xC7FF
    } else if addr == 0x070 {
        a.ch3_enable as u16
    } else if addr == 0x072 {
        a.ch3_volume as u16
    } else if addr == 0x074 {
        a.ch3_freq & 0xC7FF
    } else if addr == 0x078 {
        a.ch4_len_env as u16
    } else if addr == 0x07C {
        (a.ch4_poly as u16) | ((a.ch4_control as u16) << 8u16)
    } else if addr == 0x080 {
        a.soundcnt_l
    } else if addr == 0x082 {
        a.soundcnt_h
    } else if addr == 0x084 {
        (a.soundcnt_x & 0x80) | (if a.ch1_enabled { 1u16 } else { 0u16 }) | (if a.ch2_enabled {
            2u16
        } else {
            0u16
        }) | (if a.ch3_enabled { 4u16 } else { 0u16 }) | (if a.ch4_enabled {
            8u16
        } else {
            0u16
        })
    } else if addr == 0x088 {
        a.soundbias
    } else if 0x090 <= addr <= 0x09E {
        let idx = ((addr - 0x090) as u32 & 0xF) as int;
        if idx + 1 < 16 {
            crate::bits::le16(a.wave_ram@[idx], a.wave_ram@[idx + 1])
        } else {
            0
        }
    } else {
        0
    }
}

/// The sound unit after the register at `addr` is written with `val`.
/// The square channels after a write to one of their registers.
pub open spec fn tone_write_spec(a: Apu, addr: u32, val: u16) -> Apu {
    if addr == 0x060 {
        Apu { ch1_sweep: val as u8, ..a }
    } else if addr == 0x062 {
        Apu { ch1_duty_len: val as u8, ch1_envelope: (val >> 8u16) as u8, ..a }
    } else if addr == 0x064 {
        let a1 = Apu { ch1_freq: val, ..a };
        if val & 0x8000 != 0 { trigger_ch1_spec(a1) } else { a1 }
    } else if addr == 0x068 {
        Apu { ch2_duty_len: val as u8, ch2_envelope: (val >> 8u16) as u8, ..a }
    } else if addr == 0x06C {
        let a1 = Apu { ch2_freq: val, ..a };
        if val & 0x8000 != 0 { trigger_ch2_spec(a1) } else { a1 }
    } else {
        a
    }
}

/// The wave channel after a write to one of its registers or to wave RAM.
pub open spec fn wave_write_spec(a: Apu, addr: u32, val: u16) -> Apu {
    if addr == 0x070 {
        Apu {
            ch3_enable: val as u8,
            ch3_dimension: val & 0x20 != 0,
            ch3_bank: ((val >> 6u16) & 1) as u8,
            ch3_enabled: if val & 0x80 == 0 { false } else { a.ch3_enabled },
            ..a
        }
    } else if addr == 0x072 {
        Apu { ch3_len: val as u8, ch3_volume: (val >> 8u16) as u8, ..a }
    } else if addr == 0x074 {
        let a1 = Apu { ch3_freq: val, ..a };
        if val & 0x8000 != 0 { trigger_ch3_spec(a1) } else { a1 }
    } else if 0x090 <= addr <= 0x09E {
        let idx = ((addr - 0x090) as u32 & 0xF) as int;
        let w1 = vstd::array::spec_array_update(a.wave_ram, idx, val as u8);
        let w2 = if idx + 1 < 16 {
            vstd::array::spec_array_update(w1, idx + 1, (val >> 8u16) as u8)
        } else {
            w1
        };
        Apu { wave_ram: w2, ..a }
    } else {
        a
    }
}

/// The noise channel after a write to one of its registers.
pub open spec fn noise_write_spec(a: Apu, addr: u32, val: u16) -> Apu {
    if addr == 0x078 {
        Apu { ch4_len_env: val as u8, ch4_envelope: (val >> 8u16) as u8, ..a }
    } else if addr == 0x07C {
        let a1 = Apu { ch4_poly: val as u8, ch4_control: (val >> 8u16) as u8, ..a };
        if val & 0x8000 != 0 { trigger_ch4_spec(a1) } else { a1 }
    } else {
        a
    }
}

/// The sound unit after a write to one of its control registers.
pub open spec fn control_write_spec(a: Apu, addr: u32, val: u16) -> Apu {
    if addr == 0x080 {
        Apu { soundcnt_l: val, ..a }
    } else if addr == 0x082 {
        let a1 = Apu { soundcnt_h: val, ..a };
        let a2 = if val & 0x0800 != 0 {
            Apu { fifo_a_read: 0, fifo_a_write: 0, fifo_a_count: 0, ..a1 }
        } else {
            a1
        };
        if val & 0x8000 != 0 {
            Apu { fifo_b_read: 0, fifo_b_write: 0, fifo_b_count: 0, ..a2 }
        } else {
            a2
        }
    } else if addr == 0x084 {
        let on = val & 0x80 != 0;
        let a1 = if !on && a.enabled {
            Apu {
                ch1_enabled: false,
                ch2_enabled: false,
                ch3_enabled: false,
                ch4_enabled: false,
                ..a
            }
        } else {
            a
        };
        Apu { enabled: on, soundcnt_x: val & 0x80, ..a1 }
    } else if addr == 0x088 {
        Apu { soundbias: val, ..a }
    } else {
        a
    }
}

/// The FIFOs after a write to one of their data ports.
pub open spec fn fifo_write_spec(a: Apu, addr: u32, val: u16) -> Apu {
    if addr == 0x0A0 {
        push_word_a(a, val as u32)
    } else if addr == 0x0A2 {
        push_word_a(a, (val as u32) << 16u32)
    } else if addr == 0x0A4 {
        push_word_b(a, val as u32)
    } else if addr == 0x0A6 {
        push_word_b(a, (val as u32) << 16u32)
    } else {
        a
    }
}

/// The sound unit after the register at `addr` is written with `val`.
pub open spec fn write_reg_spec(a: Apu, addr: u32, val: u16) -> Apu {
    if (addr == 0x060) || (addr == 0x062) || (addr == 0x064) || (addr == 0x068) || (addr == 0x06C) {
        tone_write_spec(a, addr, val)
    } else if (addr == 0x070) || (addr == 0x072) || (addr == 0x074) || (0x090 <= addr <= 0x09E) {
        wave_write_spec(a, addr, val)
    } else if (addr == 0x078) || (addr == 0x07C) {
        noise_write_spec(a, addr, val)
    } else if (addr == 0x080) || (addr == 0x082) || (addr == 0x084) || (addr == 0x088) {
        control_write_spec(a, addr, val)
    } else if (addr == 0x0A0) || (addr == 0x0A2) || (addr == 0x0A4) || (addr == 0x0A6) {
        fifo_write_spec(a, addr, val)
    } else {
        a
    }
}


/// One length clock of a channel whose length counter is on when `gate` holds:
/// `(counter, enabled)` afterwards. A running counter counts down and silences
/// the channel when it reaches zero.
pub open spec fn length_step(gate: bool, counter: int, enabled: bool) -> (int, bool) {
    if gate && counter > 0 {
        (counter - 1, if counter - 1 == 0 { false } else { enabled })
    } else {
        (counter, enabled)
    }
}

/// The counters after one length clock.
pub open spec fn clock_length_spec(a: Apu) -> Apu {
    let l1 = length_step(a.ch1_freq & 0x4000 != 0, a.ch1_len_counter as int, a.ch1_enabled);
    let l2 = length_step(a.ch2_freq & 0x4000 != 0, a.ch2_len_counter as int, a.ch2_enabled);
    let l3 = length_step(a.ch3_freq & 0x4000 != 0, a.ch3_len_counter as int, a.ch3_enabled);
    let l4 = length_step(a.ch4_control & 0x40 != 0, a.ch4_len_counter as int, a.ch4_enabled);
    Apu {
        ch1_len_counter: l1.0 as u8,
        ch1_enabled: l1.1,
        ch2_len_counter: l2.0 as u8,
        ch2_enabled: l2.1,
        ch3_len_counter: l3.0 as u16,
        ch3_enabled: l3.1,
        ch4_len_counter: l4.0 as u8,
        ch4_enabled: l4.1,
        ..a
    }
}

/// One envelope clock of a channel: `(timer, volume)` afterwards. When the timer
/// runs out it restarts with the period and the volume moves one step, up to 15
/// or down to 0, in the direction of bit 3.
pub open spec fn envelope_step(enabled: bool, envelope: u8, timer: u8, volume: u8) -> (u8, u8) {
    let period = envelope & 7;
    if !enabled || period == 0 {
        (timer, volume)
    } else {
        let t = if timer > 0 { (timer - 1) as u8 } else { timer };
        if t == 0 {
            (
                period,
                if envelope & 8 != 0 {
                    if volume < 15 { (volume + 1) as u8 } else { volume }
                } else {
                    if volume > 0 { (volume - 1) as u8 } else { volume }
                },
            )
        } else {
            (t, volume)
        }
    }
}

/// The channels after one envelope clock.
pub open spec fn clock_envelope_spec(a: Apu) -> Apu {
    let e1 = envelope_step(a.ch1_enabled, a.ch1_envelope, a.ch1_env_timer, a.ch1_volume);
    let e2 = envelope_step(a.ch2_enabled, a.ch2_envelope, a.ch2_env_timer, a.ch2_volume);
    let e4 = envelope_step(a.ch4_enabled, a.ch4_envelope, a.ch4_env_timer, a.ch4_volume);
    Apu {
        ch1_env_timer: e1.0,
        ch1_volume: e1.1,
        ch2_env_timer: e2.0,
        ch2_volume: e2.1,
        ch4_env_timer: e4.0,
        ch4_volume: e4.1,
        ..a
    }
}

/// Channel 1 after one sweep clock: when the sweep timer runs out, the shadow
/// frequency moves by itself shifted right, and a result past 2047 silences it.
pub open spec fn clock_sweep_spec(a: Apu) -> Apu {
    let period = (a.ch1_sweep >> 4u8) & 7;
    if !a.ch1_sweep_enabled || period == 0 {
        a
    } else {
        let t = if a.ch1_sweep_timer > 0 { (a.ch1_sweep_timer - 1) as u8 } else { a.ch1_sweep_timer };
        if t != 0 {
            Apu { ch1_sweep_timer: t, ..a }
        } else {
            let a1 = Apu { ch1_sweep_timer: period, ..a };
            let shift = a.ch1_sweep & 7;
            if shift == 0 {
                a1
            } else {
                let delta = a.ch1_shadow_freq >> (shift as u16);
                let new_freq: int = if a.ch1_sweep & 8 != 0 {
                    a.ch1_shadow_freq - delta
                } else {
                    a.ch1_shadow_freq + delta
                };
                if new_freq > 2047 {
                    Apu { ch1_enabled: false, ..a1 }
                } else {
                    Apu {
                        ch1_shadow_freq: new_freq as u16,
                        ch1_freq: (a.ch1_freq & !0x7FFu16) | ((new_freq as u16) & 0x7FF),
                        ch1_freq_counter: ((2048 - new_freq) * 16) as u32,
                        ..a1
                    }
                }
            }
        }
    }
}

/// The sound unit after one step of the frame sequencer: every 64 steps it
/// advances; length counters clock on even steps, envelopes on step 7 and the
/// sweep on steps 2 and 6.
pub open spec fn frame_sequencer_spec(a: Apu) -> Apu {
    let c = a.frame_seq_counter + 1;
    if c >= 64 {
        let step = ((a.frame_seq_step + 1) as u8) & 7;
        let a1 = Apu { frame_seq_counter: 0, frame_seq_step: step, ..a };
        let a2 = if step & 1 == 0 { clock_length_spec(a1) } else { a1 };
        let a3 = if step == 7 { clock_envelope_spec(a2) } else { a2 };
        if step == 2 || step == 6 { clock_sweep_spec(a3) } else { a3 }
    } else {
        Apu { frame_seq_counter: c as u32, ..a }
    }
}

/// The output of a square channel.
pub open spec fn square_out(enabled: bool, duty_len: u8, pos: u8, volume: u8) -> int {
    if !enabled {
        0
    } else if duty_level((duty_len >> 6u8) as int, pos as int) != 0 {
        volume as int
    } else {
        -(volume as int)
    }
}

/// The right shift that the output level of the wave channel selects.
pub open spec fn wave_shift(level: u8) -> u8 {
    if level == 0 {
        4
    } else if level == 1 {
        0
    } else if level == 2 {
        1
    } else {
        2
    }
}

/// The output of the wave channel: the current 4-bit sample, high nibble first,
/// scaled by the output level and centred on zero.
pub open spec fn wave_out(a: Apu) -> int {
    if !a.ch3_enabled {
        0
    } else {
        let pos = a.ch3_pos as int;
        let byte = a.wave_ram@[pos / 2];
        let sample = if (a.ch3_pos as usize) & 1 == 0 { byte >> 4u8 } else { byte & 0xF };
        (sample >> wave_shift((a.ch3_volume >> 5u8) & 3)) as int - 8
    }
}

/// The output of the noise channel.
pub open spec fn noise_out(a: Apu) -> int {
    if !a.ch4_enabled {
        0
    } else if (a.ch4_lfsr & 1) ^ 1 != 0 {
        a.ch4_volume as int
    } else {
        -(a.ch4_volume as int)
    }
}

/// Integer division rounding toward zero.
pub open spec fn trunc_div(x: int, d: int) -> int {
    if x >= 0 {
        x / d
    } else {
        -((-x) / d)
    }
}

/// `x` limited to `lo..=hi`.
pub open spec fn clamp(x: int, lo: int, hi: int) -> int {
    if x < lo {
        lo
    } else if x > hi {
        hi
    } else {
        x
    }
}

/// The sum of the tone channels enabled in the 4-bit mask `en`.
pub open spec fn psg_sum(a: Apu, en: u16) -> int {
    (if en & 1 != 0 { square_out(a.ch1_enabled, a.ch1_duty_len, a.ch1_duty_pos, a.ch1_volume) } else { 0 })
        + (if en & 2 != 0 { square_out(a.ch2_enabled, a.ch2_duty_len, a.ch2_duty_pos, a.ch2_volume) } else { 0 })
        + (if en & 4 != 0 { wave_out(a) } else { 0 })
        + (if en & 8 != 0 { noise_out(a) } else { 0 })
}

/// The tone volume set by the low bits of SOUNDCNT_H, in quarters.
pub open spec fn psg_scale(h: u16) -> int {
    let p = h & 3;
    if p == 0 {
        1
    } else if p == 1 {
        2
    } else if p == 2 {
        4
    } else {
        0
    }
}

/// One output side: the tone channels in `en` at master volume `vol` (1..8
/// eighths), scaled by the tone volume, plus the FIFOs that feed this side,
/// biased, limited to ten bits and scaled to sixteen.
pub open spec fn mix_side(a: Apu, en: u16, vol: int, fa_on: bool, fb_on: bool) -> i16 {
    let p1 = trunc_div(psg_sum(a, en) * vol, 8);
    let p2 = trunc_div(p1 * psg_scale(a.soundcnt_h), 4);
    let fa = a.fifo_a_sample as int * (if a.soundcnt_h & 4 != 0 { 4int } else { 2int });
    let fb = a.fifo_b_sample as int * (if a.soundcnt_h & 8 != 0 { 4int } else { 2int });
    let s = p2 + (if fa_on { fa } else { 0 }) + (if fb_on { fb } else { 0 });
    let bias = (a.soundbias & 0x3FE) as int;
    let out = (clamp(s + bias, 0, 0x3FF) - bias) * 32;
    clamp(out, -32768, 32767) as i16
}

/// The left and right output of a sound unit in state `a`.
pub open spec fn mix(a: Apu) -> (i16, i16) {
    let l = a.soundcnt_l;
    let h = a.soundcnt_h;
    (
        mix_side(a, (l >> 12u16) & 0xF, ((l >> 4u16) & 7) as int + 1, h & 0x200 != 0, h & 0x2000 != 0),
        mix_side(a, (l >> 8u16) & 0xF, (l & 7) as int + 1, h & 0x100 != 0, h & 0x1000 != 0),
    )
}

/// The sound unit after one output sample, with the sample: a disabled unit
/// outputs silence and does not move; otherwise the frame sequencer steps and the
/// channels are mixed.
pub open spec fn generate_sample_spec(a: Apu) -> (Apu, (i16, i16)) {
    if !a.enabled {
        (a, (0, 0))
    } else {
        let a1 = frame_sequencer_spec(a);
        (a1, mix(a1))
    }
}

impl Apu {
    /// Ring-buffer positions in range, square-wave and wave positions in range,
    /// the frame sequencer below its period and the sweep frequency in 11 bits.
    pub open spec fn wf(&self) -> bool {
        &&& self.fifo_a_read < 32
        &&& self.fifo_a_write < 32
        &&& self.fifo_a_count <= 32
        &&& self.fifo_b_read < 32
        &&& self.fifo_b_write < 32
        &&& self.fifo_b_count <= 32
        &&& self.ch1_duty_pos < 8
        &&& self.ch2_duty_pos < 8
        &&& self.ch3_pos < 32
        &&& self.frame_seq_counter < 64
        &&& self.frame_seq_step < 8
        &&& self.ch1_shadow_freq <= 0x7FF
    }

    /// The state of a sound unit that has just been built.
    pub open spec fn is_initial(&self) -> bool {
        &&& !self.enabled
        &&& self.ch1_sweep == 0 && self.ch1_duty_len == 0 && self.ch1_envelope == 0
        &&& self.ch1_freq == 0 && self.ch1_timer == 0 && self.ch1_freq_counter == 0
        &&& self.ch1_duty_pos == 0 && self.ch1_env_timer == 0 && self.ch1_volume == 0
        &&& !self.ch1_enabled && self.ch1_len_counter == 0 && self.ch1_sweep_timer == 0
        &&& self.ch1_shadow_freq == 0 && !self.ch1_sweep_enabled
        &&& self.ch2_duty_len == 0 && self.ch2_envelope == 0 && self.ch2_freq == 0
        &&& self.ch2_timer == 0 && self.ch2_freq_counter == 0 && self.ch2_duty_pos == 0
        &&& self.ch2_env_timer == 0 && self.ch2_volume == 0 && !self.ch2_enabled
        &&& self.ch2_len_counter == 0
        &&& self.ch3_enable == 0 && self.ch3_len == 0 && self.ch3_volume == 0
        &&& self.ch3_freq == 0 && self.ch3_timer == 0 && self.ch3_freq_counter == 0
        &&& self.ch3_pos == 0 && !self.ch3_enabled && self.ch3_len_counter == 0
        &&& (forall|i: int| 0 <= i < 16 ==> #[trigger] self.wave_ram@[i] == 0)
        &&& self.ch3_bank == 0 && !self.ch3_dimension
        &&& self.ch4_len_env == 0 && self.ch4_envelope == 0 && self.ch4_poly == 0
        &&& self.ch4_control == 0 && self.ch4_timer == 0 && self.ch4_freq_counter == 0
        &&& self.ch4_lfsr == 0x7FFF && self.ch4_env_timer == 0 && self.ch4_volume == 0
        &&& !self.ch4_enabled && self.ch4_len_counter == 0
        &&& self.soundcnt_l == 0 && self.soundcnt_h == 0 && self.soundcnt_x == 0
        &&& self.soundbias == 0x200
        &&& (forall|i: int| 0 <= i < 32 ==> #[trigger] self.fifo_a@[i] == 0)
        &&& self.fifo_a_read == 0 && self.fifo_a_write == 0 && self.fifo_a_count == 0
        &&& self.fifo_a_sample == 0
        &&& (forall|i: int| 0 <= i < 32 ==> #[trigger] self.fifo_b@[i] == 0)
        &&& self.fifo_b_read == 0 && self.fifo_b_write == 0 && self.fifo_b_count == 0
        &&& self.fifo_b_sample == 0
        &&& self.frame_seq_counter == 0 && self.frame_seq_step == 0
    }

    pub fn new() -> (a: Self)
        ensures
            a.is_initial(),
            a.wf(),
    {
        Self {
            enabled: false,
            ch1_sweep: 0,
            ch1_duty_len: 0,
            ch1_envelope: 0,
            ch1_freq: 0,
            ch1_timer: 0,
            ch1_freq_counter: 0,
            ch1_duty_pos: 0,
            ch1_env_timer: 0,
            ch1_volume: 0,
            ch1_enabled: false,
            ch1_len_counter: 0,
            ch1_sweep_timer: 0,
            ch1_shadow_freq: 0,
            ch1_sweep_enabled: false,
            ch2_duty_len: 0,
            ch2_envelope: 0,
            ch2_freq: 0,
            ch2_timer: 0,
            ch2_freq_counter: 0,
            ch2_duty_pos: 0,
            ch2_env_timer: 0,
            ch2_volume: 0,
            ch2_enabled: false,
            ch2_len_counter: 0,
            ch3_enable: 0,
            ch3_len: 0,
            ch3_volume: 0,
            ch3_freq: 0,
            ch3_timer: 0,
            ch3_freq_counter: 0,
            ch3_pos: 0,
            ch3_enabled: false,
            ch3_len_counter: 0,
            wave_ram: [0;16],
            ch3_bank: 0,
            ch3_dimension: false,
            ch4_len_env: 0,
            ch4_envelope: 0,
            ch4_poly: 0,
            ch4_control: 0,
            ch4_timer: 0,
            ch4_freq_counter: 0,
            ch4_lfsr: 0x7FFF,
            ch4_env_timer: 0,
            ch4_volume: 0,
            ch4_enabled: false,
            ch4_len_counter: 0,
            soundcnt_l: 0,
            soundcnt_h: 0,
            soundcnt_x: 0,
            soundbias: 0x200,
            fifo_a: [0;32],
            fifo_a_read: 0,
            fifo_a_write: 0,
            fifo_a_count: 0,
            fifo_a_sample: 0,
            fifo_b: [0;32],
            fifo_b_read: 0,
            fifo_b_write: 0,
            fifo_b_count: 0,
            fifo_b_sample: 0,
            frame_seq_counter: 0,
            frame_seq_step: 0,
        }
    }

    pub fn read_reg(&self, addr: u32) -> (r: u16)
        ensures
            r == read_reg_spec(*self, addr),
    {
        if addr == 0x060 {
            self.ch1_sweep as u16
        } else if addr == 0x062 {
            self.ch1_duty_len as u16 & 0xC0
        } else if addr == 0x064 {
            self.ch1_freq & 0xC7FF
        } else if addr == 0x068 {
            self.ch2_duty_len as u16 & 0xC0
        } else if addr == 0x06C {
            self.ch2_freq & 0xC7FF
        } else if addr == 0x070 {
            self.ch3_enable as u16
        } else if addr == 0x072 {
            self.ch3_volume as u16
        } else if addr == 0x074 {
            self.ch3_freq & 0xC7FF
        } else if addr == 0x078 {
            self.ch4_len_env as u16
        } else if addr == 0x07C {
            self.ch4_poly as u16 | ((self.ch4_control as u16) << 8u16)
        } else if addr == 0x080 {
            self.soundcnt_l
        } else if addr == 0x082 {
            self.soundcnt_h
        } else if addr == 0x084 {
            let mut val = self.soundcnt_x & 0x80;
            val = val | (if self.ch1_enabled { 1u16 } else { 0u16 });
            val = val | (if self.ch2_enabled { 2u16 } else { 0u16 });
            val = val | (if self.ch3_enabled { 4u16 } else { 0u16 });
            val = val | (if self.ch4_enabled { 8u16 } else { 0u16 });
            val
        } else if addr == 0x088 {
            self.soundbias
        } else if 0x090 <= addr && addr <= 0x09E {
            let idx = ((addr - 0x090) & 0xF) as usize;
            if idx + 1 < 16 {
                crate::bits::from_le16(self.wave_ram[idx], self.wave_ram[idx + 1])
            } else {
                0
            }
        } else {
            0
        }
    }

    fn trigger_ch1(&mut self)
        ensures
            *final(self) == trigger_ch1_spec(*old(self)),
    {
        self.ch1_enabled = true;
        self.ch1_len_counter = if self.ch1_duty_len & 0x3F == 0 {
            64
        } else {
            64 - (self.ch1_duty_len & 0x3F)
        };
        let freq = self.ch1_freq & 0x7FF;
        self.ch1_freq_counter = (2048 - freq as u32) * 16;
        self.ch1_timer = self.ch1_freq_counter;
        self.ch1_volume = self.ch1_envelope >> 4;
        self.ch1_env_timer = self.ch1_envelope & 7;
        self.ch1_shadow_freq = freq;
        let sweep_period = (self.ch1_sweep >> 4) & 7;
        let sweep_shift = self.ch1_sweep & 7;
        self.ch1_sweep_timer = if sweep_period == 0 { 8 } else { sweep_period };
        self.ch1_sweep_enabled = sweep_period != 0 || sweep_shift != 0;
    }

    fn trigger_ch2(&mut self)
        ensures
            *final(self) == trigger_ch2_spec(*old(self)),
    {
        self.ch2_enabled = true;
        self.ch2_len_counter = if self.ch2_duty_len & 0x3F == 0 {
            64
        } else {
            64 - (self.ch2_duty_len & 0x3F)
        };
        let freq = self.ch2_freq & 0x7FF;
        self.ch2_freq_counter = (2048 - freq as u32) * 16;
        self.ch2_timer = self.ch2_freq_counter;
        self.ch2_volume = self.ch2_envelope >> 4;
        self.ch2_env_timer = self.ch2_envelope & 7;
    }

    fn trigger_ch3(&mut self)
        ensures
            *final(self) == trigger_ch3_spec(*old(self)),
    {
        self.ch3_enabled = true;
        self.ch3_len_counter = if self.ch3_len == 0 { 256 } else { 256 - self.ch3_len as u16 };
        let freq = self.ch3_freq & 0x7FF;
        self.ch3_freq_counter = (2048 - freq as u32) * 8;
        self.ch3_timer = self.ch3_freq_counter;
        self.ch3_pos = 0;
    }

    fn trigger_ch4(&mut self)
        ensures
            *final(self) == trigger_ch4_spec(*old(self)),
    {
        self.ch4_enabled = true;
        self.ch4_len_counter = if self.ch4_len_env & 0x3F == 0 {
            64
        } else {
            64 - (self.ch4_len_env & 0x3F)
        };
        self.ch4_lfsr = 0x7FFF;
        self.ch4_volume = self.ch4_envelope >> 4;
        self.ch4_env_timer = self.ch4_envelope & 7;
        let r = (self.ch4_poly & 7) as u32;
        let s = ((self.ch4_poly >> 4) & 0xF) as u32;
        self.ch4_freq_counter = if r == 0 { 8u32 << s } else { (16 * r) << s };
        self.ch4_timer = self.ch4_freq_counter;
    }

    fn push_fifo_a(&mut self, b: i8)
        requires
            old(self).wf(),
        ensures
            *final(self) == push_a(*old(self), b),
            final(self).wf(),
    {
        if self.fifo_a_count < 32 {
            let w = self.fifo_a_write;
            self.fifo_a[w] = b;
            self.fifo_a_write = (self.fifo_a_write + 1) % 32;
            self.fifo_a_count += 1;
            assert(self.fifo_a =~= vstd::array::spec_array_update(old(self).fifo_a, w as int, b));
        }
    }

    fn push_fifo_b(&mut self, b: i8)
        requires
            old(self).wf(),
        ensures
            *final(self) == push_b(*old(self), b),
            final(self).wf(),
    {
        if self.fifo_b_count < 32 {
            let w = self.fifo_b_write;
            self.fifo_b[w] = b;
            self.fifo_b_write = (self.fifo_b_write + 1) % 32;
            self.fifo_b_count += 1;
            assert(self.fifo_b =~= vstd::array::spec_array_update(old(self).fifo_b, w as int, b));
        }
    }

    /// Offers the four bytes of `val`, lowest first, to FIFO A.
    pub fn write_fifo_a(&mut self, val: u32)
        requires
            old(self).wf(),
        ensures
            *final(self) == push_word_a(*old(self), val),
            final(self).wf(),
    {
        self.push_fifo_a(val as i8);
        self.push_fifo_a((val >> 8u32) as i8);
        self.push_fifo_a((val >> 16u32) as i8);
        self.push_fifo_a((val >> 24u32) as i8);
    }

    /// Offers the four bytes of `val`, lowest first, to FIFO B.
    pub fn write_fifo_b(&mut self, val: u32)
        requires
            old(self).wf(),
        ensures
            *final(self) == push_word_b(*old(self), val),
            final(self).wf(),
    {
        self.push_fifo_b(val as i8);
        self.push_fifo_b((val >> 8u32) as i8);
        self.push_fifo_b((val >> 16u32) as i8);
        self.push_fifo_b((val >> 24u32) as i8);
    }

    fn tone_write(&mut self, addr: u32, val: u16)
        requires
            old(self).wf(),
        ensures
            *final(self) === tone_write_spec(*old(self), addr, val),
            final(self).wf(),
    {
        if addr == 0x060 {
            self.ch1_sweep = val as u8;
        } else if addr == 0x062 {
            self.ch1_duty_len = val as u8;
            self.ch1_envelope = (val >> 8) as u8;
        } else if addr == 0x064 {
            self.ch1_freq = val;
            if val & 0x8000 != 0 {
                self.trigger_ch1();
            }
        } else if addr == 0x068 {
            self.ch2_duty_len = val as u8;
            self.ch2_envelope = (val >> 8) as u8;
        } else if addr == 0x06C {
            self.ch2_freq = val;
            if val & 0x8000 != 0 {
                self.trigger_ch2();
            }
        }
    }

    fn wave_write(&mut self, addr: u32, val: u16)
        requires
            old(self).wf(),
        ensures
            *final(self) === wave_write_spec(*old(self), addr, val),
            final(self).wf(),
    {
        if addr == 0x070 {
            self.ch3_enable = val as u8;
            let bank = (val >> 6) & 1;
            self.ch3_dimension = val & 0x20 != 0;
            self.ch3_bank = bank as u8;
            if val & 0x80 == 0 {
                self.ch3_enabled = false;
            }
        } else if addr == 0x072 {
            self.ch3_len = val as u8;
            self.ch3_volume = (val >> 8) as u8;
        } else if addr == 0x074 {
            self.ch3_freq = val;
            if val & 0x8000 != 0 {
                self.trigger_ch3();
            }
        } else if 0x090 <= addr && addr <= 0x09E {
            let idx = ((addr - 0x090) & 0xF) as usize;
            let b0 = val as u8;
            let b1 = (val >> 8) as u8;
            let ghost w0 = self.wave_ram;
            if idx < 16 {
                self.wave_ram[idx] = b0;
            }
            let ghost w1 = self.wave_ram;
            assert(w1 =~= vstd::array::spec_array_update(w0, idx as int, b0));
            if idx + 1 < 16 {
                self.wave_ram[idx + 1] = b1;
                assert(self.wave_ram =~= vstd::array::spec_array_update(w1, idx + 1, b1));
            }
        }
    }

    fn noise_write(&mut self, addr: u32, val: u16)
        requires
            old(self).wf(),
        ensures
            *final(self) === noise_write_spec(*old(self), addr, val),
            final(self).wf(),
    {
        if addr == 0x078 {
            self.ch4_len_env = val as u8;
            self.ch4_envelope = (val >> 8) as u8;
        } else if addr == 0x07C {
            self.ch4_poly = val as u8;
            self.ch4_control = (val >> 8) as u8;
            if val & 0x8000 != 0 {
                self.trigger_ch4();
            }
        }
    }

    fn control_write(&mut self, addr: u32, val: u16)
        requires
            old(self).wf(),
        ensures
            *final(self) === control_write_spec(*old(self), addr, val),
            final(self).wf(),
    {
        if addr == 0x080 {
            self.soundcnt_l = val;
        } else if addr == 0x082 {
            self.soundcnt_h = val;
            if val & 0x0800 != 0 {
                self.fifo_a_read = 0;
                self.fifo_a_write = 0;
                self.fifo_a_count = 0;
            }
            if val & 0x8000 != 0 {
                self.fifo_b_read = 0;
                self.fifo_b_write = 0;
                self.fifo_b_count = 0;
            }
        } else if addr == 0x084 {
            let new_enabled = val & 0x80 != 0;
            if !new_enabled && self.enabled {
                self.ch1_enabled = false;
                self.ch2_enabled = false;
                self.ch3_enabled = false;
                self.ch4_enabled = false;
            }
            self.enabled = new_enabled;
            self.soundcnt_x = val & 0x80;
        } else if addr == 0x088 {
            self.soundbias = val;
        }
    }

    fn fifo_write(&mut self, addr: u32, val: u16)
        requires
            old(self).wf(),
        ensures
            *final(self) === fifo_write_spec(*old(self), addr, val),
            final(self).wf(),
    {
        if addr == 0x0A0 {
            self.write_fifo_a(val as u32);
        } else if addr == 0x0A2 {
            self.write_fifo_a((val as u32) << 16u32);
        } else if addr == 0x0A4 {
            self.write_fifo_b(val as u32);
        } else if addr == 0x0A6 {
            self.write_fifo_b((val as u32) << 16u32);
        }
    }

    pub fn write_reg(&mut self, addr: u32, val: u16)
        requires
            old(self).wf(),
        ensures
            *final(self) === write_reg_spec(*old(self), addr, val),
            final(self).wf(),
    {
        if (addr == 0x060) || (addr == 0x062) || (addr == 0x064) || (addr == 0x068) || (addr == 0x06C) {
            self.tone_write(addr, val);
        } else if (addr == 0x070) || (addr == 0x072) || (addr == 0x074) || (0x090 <= addr && addr <= 0x09E) {
            self.wave_write(addr, val);
        } else if (addr == 0x078) || (addr == 0x07C) {
            self.noise_write(addr, val);
        } else if (addr == 0x080) || (addr == 0x082) || (addr == 0x084) || (addr == 0x088) {
            self.control_write(addr, val);
        } else if (addr == 0x0A0) || (addr == 0x0A2) || (addr == 0x0A4) || (addr == 0x0A6) {
            self.fifo_write(addr, val);
        }
    }

    #[verifier::spinoff_prover]
    pub fn on_timer_overflow(&mut self, timer_id: usize, dma_request: &mut [bool; 2])
        requires
            old(self).wf(),
        ensures
            *final(self) === timer_overflow_spec(*old(self), timer_id as int),
            final(self).wf(),
            final(dma_request)@[0] == (old(dma_request)@[0] || (timer_id as int == ((old(
                self,
            ).soundcnt_h >> 10u16) & 1) as int && timer_overflow_spec(
                *old(self),
                timer_id as int,
            ).fifo_a_count <= 16)),
            final(dma_request)@[1] == (old(dma_request)@[1] || (timer_id as int == ((old(
                self,
            ).soundcnt_h >> 14u16) & 1) as int && timer_overflow_spec(
                *old(self),
                timer_id as int,
            ).fifo_b_count <= 16)),
    {
        let fifo_a_timer = (self.soundcnt_h >> 10) & 1;
        let fifo_b_timer = (self.soundcnt_h >> 14) & 1;
        if timer_id == fifo_a_timer as usize {
            if self.fifo_a_count > 0 {
                self.fifo_a_sample = self.fifo_a[self.fifo_a_read];
                self.fifo_a_read = (self.fifo_a_read + 1) % 32;
                self.fifo_a_count -= 1;
            }
            if self.fifo_a_count <= 16 {
                dma_request[0] = true;
            }
        }
        if timer_id == fifo_b_timer as usize {
            if self.fifo_b_count > 0 {
                self.fifo_b_sample = self.fifo_b[self.fifo_b_read];
                self.fifo_b_read = (self.fifo_b_read + 1) % 32;
                self.fifo_b_count -= 1;
            }
            if self.fifo_b_count <= 16 {
                dma_request[1] = true;
            }
        }
    }

    pub fn tick_frame_sequencer(&mut self)
        requires
            old(self).wf(),
        ensures
            *final(self) == frame_sequencer_spec(*old(self)),
            final(self).wf(),
    {
        self.frame_seq_counter += 1;
        if self.frame_seq_counter >= 64 {
            self.frame_seq_counter = 0;
            self.frame_seq_step = (self.frame_seq_step + 1) & 7;
            if self.frame_seq_step & 1 == 0 {
                self.clock_length();
            }
            if self.frame_seq_step == 7 {
                self.clock_envelope();
            }
            if self.frame_seq_step == 2 || self.frame_seq_step == 6 {
                self.clock_sweep();
            }
        }
    }

    fn clock_length(&mut self)
        requires
            old(self).wf(),
        ensures
            *final(self) == clock_length_spec(*old(self)),
            final(self).wf(),
    {
        let (n1, e1) = length_step_u8(self.ch1_freq & 0x4000 != 0, self.ch1_len_counter, self.ch1_enabled);
        let (n2, e2) = length_step_u8(self.ch2_freq & 0x4000 != 0, self.ch2_len_counter, self.ch2_enabled);
        let (n3, e3) = length_step_u16(self.ch3_freq & 0x4000 != 0, self.ch3_len_counter, self.ch3_enabled);
        let (n4, e4) = length_step_u8(self.ch4_control & 0x40 != 0, self.ch4_len_counter, self.ch4_enabled);
        self.ch1_len_counter = n1;
        self.ch1_enabled = e1;
        self.ch2_len_counter = n2;
        self.ch2_enabled = e2;
        self.ch3_len_counter = n3;
        self.ch3_enabled = e3;
        self.ch4_len_counter = n4;
        self.ch4_enabled = e4;
    }

    fn clock_envelope(&mut self)
        requires
            old(self).wf(),
        ensures
            *final(self) == clock_envelope_spec(*old(self)),
            final(self).wf(),
    {
        let (t1, v1) = envelope_step_exec(self.ch1_enabled, self.ch1_envelope, self.ch1_env_timer, self.ch1_volume);
        let (t2, v2) = envelope_step_exec(self.ch2_enabled, self.ch2_envelope, self.ch2_env_timer, self.ch2_volume);
        let (t4, v4) = envelope_step_exec(self.ch4_enabled, self.ch4_envelope, self.ch4_env_timer, self.ch4_volume);
        self.ch1_env_timer = t1;
        self.ch1_volume = v1;
        self.ch2_env_timer = t2;
        self.ch2_volume = v2;
        self.ch4_env_timer = t4;
        self.ch4_volume = v4;
    }

    fn clock_sweep(&mut self)
        requires
            old(self).wf(),
        ensures
            *final(self) == clock_sweep_spec(*old(self)),
            final(self).wf(),
    {
        if !self.ch1_sweep_enabled {
            return;
        }
        let period = (self.ch1_sweep >> 4) & 7;
        if period == 0 {
            return;
        }
        if self.ch1_sweep_timer > 0 {
            self.ch1_sweep_timer -= 1;
        }
        if self.ch1_sweep_timer == 0 {
            self.ch1_sweep_timer = period;
            let shift = self.ch1_sweep & 7;
            if shift != 0 {
                let delta = self.ch1_shadow_freq >> (shift as u16);
                proof {
                    assert(delta <= self.ch1_shadow_freq);
                }
                let new_freq = if self.ch1_sweep & 8 != 0 {
                    self.ch1_shadow_freq - delta
                } else {
                    self.ch1_shadow_freq + delta
                };
                if new_freq > 2047 {
                    self.ch1_enabled = false;
                } else {
                    self.ch1_shadow_freq = new_freq;
                    self.ch1_freq = (self.ch1_freq & !0x7FF) | (new_freq & 0x7FF);
                    self.ch1_freq_counter = (2048 - new_freq as u32) * 16;
                }
            }
        }
    }

    fn sample_ch1(&self) -> (r: i32)
        requires
            self.wf(),
        ensures
            r as int == square_out(self.ch1_enabled, self.ch1_duty_len, self.ch1_duty_pos, self.ch1_volume),
    {
        if !self.ch1_enabled {
            return 0;
        }
        let duty = (self.ch1_duty_len >> 6) as usize;
        let sample = duty_table(duty, self.ch1_duty_pos as usize);
        if sample != 0 { self.ch1_volume as i32 } else { -(self.ch1_volume as i32) }
    }

    fn sample_ch2(&self) -> (r: i32)
        requires
            self.wf(),
        ensures
            r as int == square_out(self.ch2_enabled, self.ch2_duty_len, self.ch2_duty_pos, self.ch2_volume),
    {
        if !self.ch2_enabled {
            return 0;
        }
        let duty = (self.ch2_duty_len >> 6) as usize;
        let sample = duty_table(duty, self.ch2_duty_pos as usize);
        if sample != 0 { self.ch2_volume as i32 } else { -(self.ch2_volume as i32) }
    }

    fn sample_ch3(&self) -> (r: i32)
        requires
            self.wf(),
        ensures
            r as int == wave_out(*self),
    {
        if !self.ch3_enabled {
            return 0;
        }
        let pos = self.ch3_pos as usize;
        let byte = self.wave_ram[pos / 2];
        let sample = if pos & 1 == 0 { byte >> 4 } else { byte & 0xF };
        let level = (self.ch3_volume >> 5) & 3;
        let vol_shift: u8 = if level == 0 {
            4
        } else if level == 1 {
            0
        } else if level == 2 {
            1
        } else {
            2
        };
        let out = (sample >> vol_shift) as i32;
        out - 8
    }

    fn sample_ch4(&self) -> (r: i32)
        ensures
            r as int == noise_out(*self),
    {
        if !self.ch4_enabled {
            return 0;
        }
        let bit = (self.ch4_lfsr & 1) ^ 1;
        if bit != 0 { self.ch4_volume as i32 } else { -(self.ch4_volume as i32) }
    }

    /// The tone channels of one side, at master volume `vol` and scaled by the
    /// tone volume.
    fn psg_part(&self, en: u16, vol: i32, c1: i32, c2: i32, c3: i32, c4: i32) -> (r: i32)
        requires
            self.wf(),
            1 <= vol <= 8,
            c1 as int == square_out(self.ch1_enabled, self.ch1_duty_len, self.ch1_duty_pos, self.ch1_volume),
            c2 as int == square_out(self.ch2_enabled, self.ch2_duty_len, self.ch2_duty_pos, self.ch2_volume),
            c3 as int == wave_out(*self),
            c4 as int == noise_out(*self),
            -255 <= c1 <= 255,
            -255 <= c2 <= 255,
            -8 <= c3 <= 8,
            -255 <= c4 <= 255,
        ensures
            r as int == trunc_div(trunc_div(psg_sum(*self, en) * vol, 8) * psg_scale(self.soundcnt_h), 4),
            -800 <= r <= 800,
    {
        let mut psg: i32 = 0;
        if en & 1 != 0 {
            psg += c1;
        }
        if en & 2 != 0 {
            psg += c2;
        }
        if en & 4 != 0 {
            psg += c3;
        }
        if en & 8 != 0 {
            psg += c4;
        }
        assert(psg as int == psg_sum(*self, en));
        proof {
            assert(-6400 <= psg * vol <= 6400) by (nonlinear_arith)
                requires
                    -800 <= psg <= 800,
                    1 <= vol <= 8,
            ;
        }
        let p1 = div_trunc(psg * vol, 8);
        proof {
            assert(-800 <= p1 <= 800) by (nonlinear_arith)
                requires
                    p1 as int == trunc_div(psg * vol, 8),
                    -6400 <= psg * vol <= 6400,
            ;
        }
        let p = self.soundcnt_h & 3;
        let scale: i32 = if p == 0 {
            1
        } else if p == 1 {
            2
        } else if p == 2 {
            4
        } else {
            0
        };
        assert(scale as int == psg_scale(self.soundcnt_h));
        assert(-3200 <= p1 * scale <= 3200) by (nonlinear_arith)
            requires
                -800 <= p1 <= 800,
                0 <= scale <= 4,
        ;
        let r = div_trunc(p1 * scale, 4);
        proof {
            assert(-800 <= r <= 800) by (nonlinear_arith)
                requires
                    r as int == trunc_div(p1 * scale, 4),
                    -800 <= p1 <= 800,
                    0 <= scale <= 4,
            ;
        }
        r
    }

    fn mix_side(&self, en: u16, vol: i32, fa_on: bool, fb_on: bool, c1: i32, c2: i32, c3: i32, c4: i32) -> (r: i16)
        requires
            self.wf(),
            1 <= vol <= 8,
            c1 as int == square_out(self.ch1_enabled, self.ch1_duty_len, self.ch1_duty_pos, self.ch1_volume),
            c2 as int == square_out(self.ch2_enabled, self.ch2_duty_len, self.ch2_duty_pos, self.ch2_volume),
            c3 as int == wave_out(*self),
            c4 as int == noise_out(*self),
            -255 <= c1 <= 255,
            -255 <= c2 <= 255,
            -8 <= c3 <= 8,
            -255 <= c4 <= 255,
        ensures
            r == mix_side(*self, en, vol as int, fa_on, fb_on),
    {
        let p2 = self.psg_part(en, vol, c1, c2, c3, c4);
        let fa: i32 = if self.soundcnt_h & 4 != 0 {
            self.fifo_a_sample as i32 * 4
        } else {
            self.fifo_a_sample as i32 * 2
        };
        let fb: i32 = if self.soundcnt_h & 8 != 0 {
            self.fifo_b_sample as i32 * 4
        } else {
            self.fifo_b_sample as i32 * 2
        };
        let mut s = p2;
        if fa_on {
            s += fa;
        }
        if fb_on {
            s += fb;
        }
        let bias = (self.soundbias & 0x3FE) as i32;
        let out = (clamp_i32(s + bias, 0, 0x3FF) - bias) * 32;
        clamp_i32(out, -32768, 32767) as i16
    }

    pub fn generate_sample(&mut self, timers: &Timers) -> (r: (i16, i16))
        requires
            old(self).wf(),
        ensures
            (*final(self), r) == generate_sample_spec(*old(self)),
            final(self).wf(),
    {
        let _ = timers;
        if !self.enabled {
            return (0, 0);
        }
        self.tick_frame_sequencer();
        let l = self.soundcnt_l;
        let h = self.soundcnt_h;
        let left_vol = ((l >> 4) & 7) as i32 + 1;
        let right_vol = (l & 7) as i32 + 1;
        let left_enable = (l >> 12) & 0xF;
        let right_enable = (l >> 8) & 0xF;
        let c1 = self.sample_ch1();
        let c2 = self.sample_ch2();
        let c3 = self.sample_ch3();
        let c4 = self.sample_ch4();
        proof {
            let pos = self.ch3_pos as int;
            let byte = self.wave_ram@[pos / 2];
            let sample = if (self.ch3_pos as usize) & 1 == 0 { byte >> 4u8 } else { byte & 0xF };
            assert(byte >> 4u8 <= 15) by (bit_vector);
            assert(sample <= 15);
            let sh = wave_shift((self.ch3_volume >> 5u8) & 3);
            assert(sample >> sh <= sample);
        }
        let left = self.mix_side(left_enable, left_vol, h & 0x200 != 0, h & 0x2000 != 0, c1, c2, c3, c4);
        let right = self.mix_side(right_enable, right_vol, h & 0x100 != 0, h & 0x1000 != 0, c1, c2, c3, c4);
        (left, right)
    }
}


/// Integer division of `x` by a positive `d`, rounding toward zero.
fn div_trunc(x: i32, d: i32) -> (r: i32)
    requires
        d > 0,
        x > i32::MIN,
    ensures
        r as int == trunc_div(x as int, d as int),
{
    if x >= 0 {
        x / d
    } else {
        let nx: i32 = -x;
        let q = nx / d;
        proof {
            assert(0 <= q <= nx) by (nonlinear_arith)
                requires
                    nx >= 0,
                    d > 0,
                    q == nx / d,
            ;
        }
        -q
    }
}

/// `x` limited to `lo..=hi`.
fn clamp_i32(x: i32, lo: i32, hi: i32) -> (r: i32)
    requires
        lo <= hi,
    ensures
        r as int == clamp(x as int, lo as int, hi as int),
{
    if x < lo {
        lo
    } else if x > hi {
        hi
    } else {
        x
    }
}


/// One length clock of a channel with an 8-bit length counter.
fn length_step_u8(gate: bool, counter: u8, enabled: bool) -> (r: (u8, bool))
    ensures
        r.0 as int == length_step(gate, counter as int, enabled).0,
        r.1 == length_step(gate, counter as int, enabled).1,
{
    if gate && counter > 0 {
        let n = counter - 1;
        (n, if n == 0 { false } else { enabled })
    } else {
        (counter, enabled)
    }
}

/// One length clock of a channel with a 16-bit length counter.
fn length_step_u16(gate: bool, counter: u16, enabled: bool) -> (r: (u16, bool))
    ensures
        r.0 as int == length_step(gate, counter as int, enabled).0,
        r.1 == length_step(gate, counter as int, enabled).1,
{
    if gate && counter > 0 {
        let n = counter - 1;
        (n, if n == 0 { false } else { enabled })
    } else {
        (counter, enabled)
    }
}

/// One envelope clock of a channel.
fn envelope_step_exec(enabled: bool, envelope: u8, timer: u8, volume: u8) -> (r: (u8, u8))
    ensures
        r == envelope_step(enabled, envelope, timer, volume),
{
    let period = envelope & 7;
    if !enabled || period == 0 {
        return (timer, volume);
    }
    let t = if timer > 0 { timer - 1 } else { timer };
    if t == 0 {
        let v = if envelope & 8 != 0 {
            if volume < 15 { volume + 1 } else { volume }
        } else {
            if volume > 0 { volume - 1 } else { volume }
        };
        (period, v)
    } else {
        (t, volume)
    }
}


// ---------------------------------------------------------------------------
// Square-wave duty cycles
// ---------------------------------------------------------------------------

/// How many of the first `n` steps of the square wave with duty bits
/// `duty_len` (bits 6 and 7) and volume `v` are high.
pub open spec fn high_steps(duty_len: u8, v: u8, n: nat) -> nat
    decreases n,
{
    if n == 0 {
        0
    } else {
        high_steps(duty_len, v, (n - 1) as nat) + if square_out(true, duty_len, (n - 1) as u8, v) > 0 {
            1nat
        } else {
            0nat
        }
    }
}

/// An enabled square channel of volume `v` outputs `v` on the high steps of
/// its wave and `-v` on the low ones (a disabled one outputs 0). Of the eight
/// steps, the duty settings 0 to 3 make 1, 2, 4 and 6 high (12.5%, 25%, 50% and
/// 75%); each of the first three waves is high wherever the one before it is,
/// the 75% wave is the 25% wave inverted, and the 50% wave is high at steps 5,
/// 6, 7 and 0.
pub proof fn lemma_square_duty(duty_len: u8, v: u8)
    requires
        v > 0,
    ensures
        ({
            let d = duty_len >> 6u8;
            let expected: nat = if d == 0 { 1 } else if d == 1 { 2 } else if d == 2 { 4 } else { 6 };
            &&& high_steps(duty_len, v, 8) == expected
            &&& forall|p: u8| p < 8 ==> {
                ||| #[trigger] square_out(true, duty_len, p, v) == v as int
                ||| square_out(true, duty_len, p, v) == -(v as int)
            }
            &&& forall|p: u8| #[trigger] square_out(false, duty_len, p, v) == 0
            &&& forall|p: u8|
                p < 8 ==> (#[trigger] square_out(true, 0x80, p, v) > 0) == (p == 0 || p >= 5)
            &&& forall|p: u8|
                p < 8 ==> #[trigger] square_out(true, 0xC0, p, v) == -square_out(true, 0x40, p, v)
            &&& forall|p: u8|
                p < 8 && #[trigger] square_out(true, 0x00, p, v) > 0 ==> square_out(true, 0x40, p, v) > 0
            &&& forall|p: u8|
                p < 8 && #[trigger] square_out(true, 0x40, p, v) > 0 ==> square_out(true, 0x80, p, v) > 0
        }),
{
    let d = duty_len >> 6u8;
    assert(d < 4 && (0x00u8 >> 6u8) == 0 && (0x40u8 >> 6u8) == 1 && (0x80u8 >> 6u8) == 2 && (0xC0u8 >> 6u8) == 3)
        by (bit_vector)
        requires
            d == duty_len >> 6u8,
    ;
    reveal_with_fuel(high_steps, 9);
}

/// The output level of the wave channel scales its 4-bit samples: level 0 is
/// silent, 1 is full volume, 2 half and 3 a quarter (rounding down).
pub proof fn lemma_wave_volume(sample: u8)
    requires
        sample < 16,
    ensures
        sample >> wave_shift(0) == 0,
        sample >> wave_shift(1) == sample,
        sample >> wave_shift(2) == sample / 2,
        sample >> wave_shift(3) == sample / 4,
{
    vstd::arithmetic::power2::lemma2_to64();
    vstd::bits::lemma_u8_shr_is_div(sample, 4);
    vstd::bits::lemma_u8_shr_is_div(sample, 0);
    vstd::bits::lemma_u8_shr_is_div(sample, 1);
    vstd::bits::lemma_u8_shr_is_div(sample, 2);
}

/// The sound registers read back what was written: SOUNDCNT_L, SOUNDCNT_H and
/// SOUNDBIAS whole, the sweep register's low byte and the duty bits of the
/// square channels; SOUNDCNT_X reads back its master enable, and switching the
/// sound off silences all four channels.
pub proof fn lemma_sound_write_read(a: Apu, val: u16)
    ensures
        read_reg_spec(write_reg_spec(a, 0x080, val), 0x080) == val,
        read_reg_spec(write_reg_spec(a, 0x082, val), 0x082) == val,
        read_reg_spec(write_reg_spec(a, 0x088, val), 0x088) == val,
        read_reg_spec(write_reg_spec(a, 0x060, val), 0x060) == val & 0xFF,
        read_reg_spec(write_reg_spec(a, 0x062, val), 0x062) == val & 0xC0,
        read_reg_spec(write_reg_spec(a, 0x068, val), 0x068) == val & 0xC0,
        read_reg_spec(write_reg_spec(a, 0x084, val), 0x084) & 0x80 == val & 0x80,
        a.enabled && val & 0x80 == 0 ==> read_reg_spec(write_reg_spec(a, 0x084, val), 0x084) == 0,
{
    let a2 = write_reg_spec(a, 0x084, val);
    let sx = a2.soundcnt_x;
    let c1: u16 = if a2.ch1_enabled { 1u16 } else { 0u16 };
    let c2: u16 = if a2.ch2_enabled { 2u16 } else { 0u16 };
    let c3: u16 = if a2.ch3_enabled { 4u16 } else { 0u16 };
    let c4: u16 = if a2.ch4_enabled { 8u16 } else { 0u16 };
    assert(sx == val & 0x80);
    assert({
        &&& (val as u8) as u16 == val & 0xFF
        &&& ((val as u8) as u16) & 0xC0 == val & 0xC0
        &&& ((sx & 0x80) | c1 | c2 | c3 | c4) & 0x80 == val & 0x80
        &&& (val & 0x80 == 0 && c1 == 0 && c2 == 0 && c3 == 0 && c4 == 0 ==> ((sx & 0x80) | c1 | c2 | c3 | c4) == 0)
    }) by (bit_vector)
        requires
            sx == val & 0x80,
            c1 == 0 || c1 == 1,
            c2 == 0 || c2 == 2,
            c3 == 0 || c3 == 4,
            c4 == 0 || c4 == 8,
    ;
}

} // verus!
