pub mod bits;
pub mod cpu;
pub mod apu;
pub mod timer;
pub mod dma;
pub mod ppu;
pub mod bus;
pub mod arm;
pub mod thumb;
pub mod ppm;
pub mod replay;

use vstd::prelude::*;

use crate::bus::{Bus, BusView, bus_tick_spec, frame_pos, run_dma_spec, tick_ok};
use crate::cpu::{Cpu, CpuState, step_spec};

verus! {

/// The console: the processor and everything on its bus.
pub struct Gba {
    pub cpu: Cpu,
    pub bus: Bus,
}

/// The cycles a halted processor sleeps: to the end of the current line.
pub open spec fn sleep_cycles(b: BusView) -> u32 {
    let remaining: u32 = if b.scanline_cycles < 1232 { (1232 - b.scanline_cycles) as u32 } else { 0 };
    if remaining > 0 { remaining } else { 1 }
}

/// One step of the console: an active DMA transfer runs to completion, a
/// halted processor sleeps to the end of the line, or else the processor runs
/// one step; then the rest of the machine catches up with the cycles taken.
#[verifier::opaque]
pub open spec fn gba_step(s: CpuState, b: BusView) -> (CpuState, BusView) {
    if exists|i: int| 0 <= i < 4 && #[trigger] b.dma[i].active {
        let t = run_dma_spec(b);
        (s, bus_tick_spec(t.0, t.1))
    } else if b.halted {
        (s, bus_tick_spec(b, sleep_cycles(b)))
    } else {
        let t = step_spec(s, b);
        (t.0, bus_tick_spec(t.1, t.2))
    }
}

/// The console after `n` steps.
pub open spec fn gba_steps(s: CpuState, b: BusView, n: nat) -> (CpuState, BusView)
    decreases n,
{
    if n == 0 {
        (s, b)
    } else {
        let t = gba_step(s, b);
        gba_steps(t.0, t.1, (n - 1) as nat)
    }
}

/// A frame is 228 lines of 1232 cycles: the position within it never reaches
/// a whole frame.
proof fn lemma_frame_pos(b: BusView)
    requires
        b.wf(),
    ensures
        b.frame_count * 280896 <= frame_pos(b) < b.frame_count * 280896 + 280896,
{
}

/// A well-formed bus short of its last frame can always be ticked by the
/// cycles of one step.
proof fn lemma_tick_ok(b: BusView, cycles: u32)
    requires
        b.wf(),
        b.frame_count < u64::MAX,
        cycles <= 0x20000,
    ensures
        tick_ok(b, cycles),
{
    lemma_frame_pos(b);
    let p = frame_pos(b) + cycles;
    let f = b.frame_count as int;
    assert(p / 280896 <= f + 1) by (nonlinear_arith)
        requires
            0 <= p < (f + 2) * 280896,
    ;
    assert forall|i: int| 0 <= i < 4 && #[trigger] b.timers[i].enabled && !b.timers[i].cascade implies b.timers[i].internal_counter + cycles <= u32::MAX by {
        assert(b.timers[i].wf());
    }
}

impl Gba {
    /// One step of the console (`gba_step`): it always moves the machine on
    /// by at least one cycle, and never by more than 0x20000.
    pub fn step(&mut self)
        requires
            old(self).bus@.wf(),
            old(self).bus.frame_count < u64::MAX,
        ensures
            (final(self).cpu@, final(self).bus@) == gba_step(old(self).cpu@, old(self).bus@),
            final(self).bus@.wf(),
            frame_pos(old(self).bus@) < frame_pos(final(self).bus@) <= frame_pos(old(self).bus@) + 0x20000,
    {
        reveal(gba_step);
        proof {
            lemma_frame_pos(self.bus@);
        }
        if self.bus.dma_active() {
            let dma_cycles = self.bus.run_dma();
            proof {
                lemma_tick_ok(self.bus@, dma_cycles);
            }
            self.bus.tick(dma_cycles, &mut self.cpu);
            return;
        }
        if self.bus.halted {
            let remaining: u32 = if self.bus.scanline_cycles < 1232 { 1232 - self.bus.scanline_cycles } else { 0 };
            let advance = if remaining > 0 { remaining } else { 1 };
            proof {
                lemma_tick_ok(self.bus@, advance);
            }
            self.bus.tick(advance, &mut self.cpu);
            return;
        }
        let cycles = self.cpu.step(&mut self.bus);
        proof {
            lemma_tick_ok(self.bus@, cycles);
        }
        self.bus.tick(cycles, &mut self.cpu);
    }

    /// Runs the console until the frame counter moves on: exactly one frame.
    pub fn run_frame(&mut self)
        requires
            old(self).bus@.wf(),
            old(self).bus.frame_count < u64::MAX,
        ensures
            final(self).bus@.wf(),
            final(self).bus.frame_count == old(self).bus.frame_count + 1,
            exists|n: nat|
                {
                    &&& 1 <= n <= 228 * 1232
                    &&& (final(self).cpu@, final(self).bus@) == gba_steps(old(self).cpu@, old(self).bus@, n)
                    &&& forall|k: nat|
                        k < n ==> #[trigger] gba_steps(old(self).cpu@, old(self).bus@, k).1.frame_count
                            == old(self).bus.frame_count
                },
    {
        let start_frame = self.bus.frame_count;
        let ghost s0 = self.cpu@;
        let ghost b0 = self.bus@;
        let ghost mut n: nat = 0;
        proof {
            lemma_frame_pos(self.bus@);
        }
        assert(b0.frame_count * 280896 <= frame_pos(b0));
        while self.bus.frame_count == start_frame
            invariant
                self.bus@.wf(),
                start_frame == b0.frame_count,
                start_frame < u64::MAX,
                (self.cpu@, self.bus@) == gba_steps(s0, b0, n),
                forall|k: nat| k < n ==> #[trigger] gba_steps(s0, b0, k).1.frame_count == start_frame,
                start_frame <= self.bus.frame_count <= start_frame + 1,
                n <= frame_pos(self.bus@) - frame_pos(b0),
                n <= 228 * 1232,
                self.bus.frame_count != start_frame ==> n >= 1,
            decreases
                if self.bus.frame_count == start_frame {
                    (start_frame + 1) * 280896 - frame_pos(self.bus@)
                } else {
                    0
                },
        {
            let ghost before = self.bus@;
            proof {
                lemma_frame_pos(self.bus@);
                assert(gba_steps(s0, b0, n).1.frame_count == start_frame);
            }
            self.step();
            proof {
                lemma_frame_pos(self.bus@);
                lemma_steps_next(s0, b0, n);
                n = n + 1;
            }
        }
    }
}

proof fn lemma_steps_next(s: CpuState, b: BusView, n: nat)
    ensures
        gba_steps(s, b, n + 1) == ({
            let t = gba_steps(s, b, n);
            gba_step(t.0, t.1)
        }),
    decreases n,
{
    reveal_with_fuel(gba_steps, 2);
    if n > 0 {
        let t = gba_step(s, b);
        lemma_steps_next(t.0, t.1, (n - 1) as nat);
        assert(gba_steps(s, b, n + 1) == gba_steps(t.0, t.1, n));
        assert(gba_steps(s, b, n) == gba_steps(t.0, t.1, (n - 1) as nat));
    }
}

} // verus!
