use vstd::prelude::*;

use crate::apu::{Apu, timer_overflow_spec};

verus! {

#[derive(Clone, Copy)]
pub struct Timer {
    pub counter: u16,
    pub reload: u16,
    pub control: u16,
    pub enabled: bool,
    pub cascade: bool,
    pub prescaler: u32,
    pub internal_counter: u32,
    pub irq: bool,
}

impl Timer {
    /// A valid prescaler and a cycle count below the largest prescaler.
    pub open spec fn wf(self) -> bool {
        &&& (self.prescaler == 1 || self.prescaler == 64 || self.prescaler == 256
            || self.prescaler == 1024)
        &&& self.internal_counter < 1024
    }

    pub open spec fn initial() -> Timer {
        Timer {
            counter: 0,
            reload: 0,
            control: 0,
            enabled: false,
            cascade: false,
            prescaler: 1,
            internal_counter: 0,
            irq: false,
        }
    }

    pub fn new() -> (t: Self)
        ensures
            t == Timer::initial(),
    {
        Self {
            counter: 0,
            reload: 0,
            control: 0,
            enabled: false,
            cascade: false,
            prescaler: 1,
            internal_counter: 0,
            irq: false,
        }
    }
}

/// The prescaler selected by the low two bits of a control value.
pub open spec fn prescaler_for(val: u16) -> u32 {
    let p = val & 3;
    if p == 0 {
        1
    } else if p == 1 {
        64
    } else if p == 2 {
        256
    } else {
        1024
    }
}

/// Timer `idx` after its control register is written with `val`: the enable,
/// cascade (not for timer 0), interrupt and prescaler settings follow `val`, and a
/// timer that starts reloads its counter.
pub open spec fn control_written(t: Timer, idx: int, val: u16) -> Timer {
    let enabled = val & 0x80 != 0;
    let starts = !t.enabled && enabled;
    Timer {
        control: val,
        enabled,
        cascade: val & 4 != 0 && idx > 0,
        irq: val & 0x40 != 0,
        prescaler: prescaler_for(val),
        counter: if starts { t.reload } else { t.counter },
        internal_counter: if starts { 0 } else { t.internal_counter },
        ..t
    }
}

/// One increment of a counter: past 0xFFFF it takes the reload value.
pub open spec fn step_counter(c: u16, reload: u16) -> u16 {
    if c == 0xFFFF {
        reload
    } else {
        (c + 1) as u16
    }
}

/// The counter after `k` increments.
pub open spec fn run_counter(c: u16, reload: u16, k: nat) -> u16
    decreases k,
{
    if k == 0 {
        c
    } else {
        step_counter(run_counter(c, reload, (k - 1) as nat), reload)
    }
}

/// Whether one of the first `k` increments overflows.
pub open spec fn overflowed_within(c: u16, reload: u16, k: nat) -> bool
    decreases k,
{
    if k == 0 {
        false
    } else {
        overflowed_within(c, reload, (k - 1) as nat) || run_counter(c, reload, (k - 1) as nat)
            == 0xFFFF
    }
}

/// The number of increments a free-running timer makes in `cycles` cycles.
pub open spec fn ticks_in(t: Timer, cycles: u32) -> nat {
    ((t.internal_counter + cycles) / (t.prescaler as int)) as nat
}

/// A free-running timer after `cycles` cycles.
pub open spec fn timer_after_cycles(t: Timer, cycles: u32) -> Timer {
    Timer {
        internal_counter: ((t.internal_counter + cycles) % (t.prescaler as int)) as u32,
        counter: run_counter(t.counter, t.reload, ticks_in(t, cycles)),
        ..t
    }
}

/// Whether a free-running timer overflows within `cycles` cycles.
pub open spec fn timer_overflows(t: Timer, cycles: u32) -> bool {
    overflowed_within(t.counter, t.reload, ticks_in(t, cycles))
}

/// Runs a free-running timer for `cycles` cycles; says whether it overflowed.
fn run_timer(t: &mut Timer, cycles: u32) -> (ov: bool)
    requires
        old(t).wf(),
        old(t).internal_counter + cycles <= 0xFFFF_FFFF,
    ensures
        *final(t) == timer_after_cycles(*old(t), cycles),
        ov == timer_overflows(*old(t), cycles),
        final(t).wf(),
{
    let ghost t0 = *t;
    let total = t.internal_counter + cycles;
    t.internal_counter = total;
    let p = t.prescaler;
    let mut ov = false;
    let ghost mut k: nat = 0;
    while t.internal_counter >= p
        invariant
            p == t0.prescaler,
            p > 0,
            t.internal_counter + k * p == total,
            total == t0.internal_counter + cycles,
            t.counter == run_counter(t0.counter, t0.reload, k),
            ov == overflowed_within(t0.counter, t0.reload, k),
            *t == (Timer { internal_counter: t.internal_counter, counter: t.counter, ..t0 }),
        decreases t.internal_counter,
    {
        t.internal_counter = t.internal_counter - p;
        if t.counter == 0xFFFF {
            t.counter = t.reload;
            ov = true;
        } else {
            t.counter = t.counter + 1;
        }
        proof {
            assert((k + 1) * p == k * p + p) by (nonlinear_arith);
            k = k + 1;
        }
    }
    proof {
        vstd::arithmetic::div_mod::lemma_fundamental_div_mod_converse(
            total as int,
            p as int,
            k as int,
            t.internal_counter as int,
        );
    }
    ov
}

pub struct Timers {
    pub timers: [Timer; 4],
}

/// Bit `3 + i` of the interrupt request register belongs to timer `i`.
pub open spec fn timer_irq_bit(i: int) -> u16 {
    if i == 0 {
        0x08
    } else if i == 1 {
        0x10
    } else if i == 2 {
        0x20
    } else {
        0x40
    }
}

/// The first pass of a tick: the free-running timers advance.
pub open spec fn tick_free(ts: Seq<Timer>, cycles: u32) -> Seq<Timer> {
    Seq::new(
        4,
        |i: int|
            if ts[i].enabled && !ts[i].cascade {
                timer_after_cycles(ts[i], cycles)
            } else {
                ts[i]
            },
    )
}

/// Which free-running timers overflow in the first pass.
pub open spec fn free_overflows(ts: Seq<Timer>, cycles: u32) -> Seq<bool> {
    Seq::new(4, |i: int| ts[i].enabled && !ts[i].cascade && timer_overflows(ts[i], cycles))
}

/// The second pass, from timer `i` on: a cascading timer counts once when the
/// timer before it overflowed. Returns the timers and the overflow flags.
pub open spec fn cascade_from(ts: Seq<Timer>, ov: Seq<bool>, i: int) -> (Seq<Timer>, Seq<bool>)
    decreases 4 - i,
{
    if i >= 4 || i < 1 {
        (ts, ov)
    } else if ts[i].enabled && ts[i].cascade && ov[i - 1] {
        let t = ts[i];
        let ts2 = ts.update(i, Timer { counter: step_counter(t.counter, t.reload), ..t });
        let ov2 = if t.counter == 0xFFFF { ov.update(i, true) } else { ov };
        cascade_from(ts2, ov2, i + 1)
    } else {
        cascade_from(ts, ov, i + 1)
    }
}

/// The interrupt requests raised by the overflowing timers whose interrupt is on.
pub open spec fn overflow_irqs(ts: Seq<Timer>, ov: Seq<bool>) -> u16 {
    (if ov[0] && ts[0].irq { 0x08u16 } else { 0u16 }) | (if ov[1] && ts[1].irq {
        0x10u16
    } else {
        0u16
    }) | (if ov[2] && ts[2].irq { 0x20u16 } else { 0u16 }) | (if ov[3] && ts[3].irq {
        0x40u16
    } else {
        0u16
    })
}

/// The timers after a tick of `cycles` cycles, with the overflow of each.
pub open spec fn tick_spec(ts: Seq<Timer>, cycles: u32) -> (Seq<Timer>, Seq<bool>) {
    cascade_from(tick_free(ts, cycles), free_overflows(ts, cycles), 1)
}

/// The sound unit after the overflows of timers 0 and 1 reach it.
pub open spec fn apu_after_overflows(a: Apu, ov: Seq<bool>) -> Apu {
    let a1 = if ov[0] { timer_overflow_spec(a, 0) } else { a };
    if ov[1] { timer_overflow_spec(a1, 1) } else { a1 }
}

impl Timers {
    pub open spec fn wf(&self) -> bool {
        forall|i: int| 0 <= i < 4 ==> #[trigger] self.timers@[i].wf()
    }

    pub fn new() -> (t: Self)
        ensures
            t.wf(),
            forall|i: int| 0 <= i < 4 ==> #[trigger] t.timers@[i] == Timer::initial(),
    {
        Self { timers: [Timer::new(), Timer::new(), Timer::new(), Timer::new()] }
    }

    pub fn read_counter(&self, idx: usize) -> (r: u16)
        requires
            idx < 4,
        ensures
            r == self.timers@[idx as int].counter,
    {
        self.timers[idx].counter
    }

    pub fn read_control(&self, idx: usize) -> (r: u16)
        requires
            idx < 4,
        ensures
            r == self.timers@[idx as int].control,
    {
        self.timers[idx].control
    }

    pub fn write_reload(&mut self, idx: usize, val: u16)
        requires
            idx < 4,
        ensures
            final(self).timers@ == old(self).timers@.update(
                idx as int,
                Timer { reload: val, ..old(self).timers@[idx as int] },
            ),
    {
        let mut t = self.timers[idx];
        t.reload = val;
        self.timers[idx] = t;
    }

    pub fn write_control(&mut self, idx: usize, val: u16)
        requires
            idx < 4,
            old(self).wf(),
        ensures
            final(self).timers@ == old(self).timers@.update(
                idx as int,
                control_written(old(self).timers@[idx as int], idx as int, val),
            ),
            final(self).wf(),
    {
        assert(old(self).timers@[idx as int].wf());
        let mut t = self.timers[idx];
        let was_enabled = t.enabled;
        t.control = val;
        t.enabled = val & 0x80 != 0;
        t.cascade = val & 4 != 0 && idx > 0;
        t.irq = val & 0x40 != 0;
        let p = val & 3;
        t.prescaler = if p == 0 {
            1
        } else if p == 1 {
            64
        } else if p == 2 {
            256
        } else {
            1024
        };
        if !was_enabled && t.enabled {
            t.counter = t.reload;
            t.internal_counter = 0;
        }
        self.timers[idx] = t;
        assert forall|i: int| 0 <= i < 4 implies #[trigger] self.timers@[i].wf() by {
            if i != idx {
                assert(old(self).timers@[i].wf());
            }
        }
    }

    /// The first pass for timer `i`: a free-running timer advances.
    fn free_run(&mut self, i: usize, cycles: u32) -> (ov: bool)
        requires
            i < 4,
            old(self).wf(),
            old(self).timers@[i as int].enabled && !old(self).timers@[i as int].cascade
                ==> old(self).timers@[i as int].internal_counter + cycles <= 0xFFFF_FFFF,
        ensures
            final(self).wf(),
            final(self).timers@ == old(self).timers@.update(
                i as int,
                if old(self).timers@[i as int].enabled && !old(self).timers@[i as int].cascade {
                    timer_after_cycles(old(self).timers@[i as int], cycles)
                } else {
                    old(self).timers@[i as int]
                },
            ),
            ov == (old(self).timers@[i as int].enabled && !old(self).timers@[i as int].cascade
                && timer_overflows(old(self).timers@[i as int], cycles)),
    {
        assert(old(self).timers@[i as int].wf());
        let mut t = self.timers[i];
        if !t.enabled || t.cascade {
            assert(self.timers@ =~= old(self).timers@.update(i as int, t));
            return false;
        }
        let ov = run_timer(&mut t, cycles);
        self.timers[i] = t;
        assert forall|j: int| 0 <= j < 4 implies #[trigger] self.timers@[j].wf() by {
            if j != i {
                assert(old(self).timers@[j].wf());
            }
        }
        ov
    }

    /// The second pass for timer `i`: a cascading timer counts once when the
    /// timer before it overflowed. Returns the overflow flag of timer `i`.
    fn cascade_run(&mut self, i: usize, prev: bool, ov: bool) -> (r: bool)
        requires
            1 <= i < 4,
            old(self).wf(),
        ensures
            final(self).wf(),
            ({
                let t = old(self).timers@[i as int];
                if t.enabled && t.cascade && prev {
                    &&& final(self).timers@ == old(self).timers@.update(
                        i as int,
                        Timer { counter: step_counter(t.counter, t.reload), ..t },
                    )
                    &&& r == (ov || t.counter == 0xFFFF)
                } else {
                    &&& final(self).timers@ == old(self).timers@
                    &&& r == ov
                }
            }),
    {
        let mut t = self.timers[i];
        if !t.enabled || !t.cascade || !prev {
            return ov;
        }
        let mut r = ov;
        if t.counter == 0xFFFF {
            t.counter = t.reload;
            r = true;
        } else {
            t.counter = t.counter + 1;
        }
        self.timers[i] = t;
        assert forall|j: int| 0 <= j < 4 implies #[trigger] self.timers@[j].wf() by {
            assert(old(self).timers@[j].wf());
        }
        r
    }

    /// Advances the timers by `cycles` cycles: free-running timers count at their
    /// prescaler rate and reload on overflow, cascading timers count the overflows
    /// of the timer before them, overflowing timers with their interrupt on raise
    /// it in `if_`, and overflows of timers 0 and 1 feed the sound FIFOs.
    pub fn tick(&mut self, cycles: u32, apu: &mut Apu, if_: &mut u16)
        requires
            old(self).wf(),
            old(apu).wf(),
            forall|i: int|
                0 <= i < 4 && #[trigger] old(self).timers@[i].enabled && !old(self).timers@[i].cascade
                    ==> old(self).timers@[i].internal_counter + cycles <= 0xFFFF_FFFF,
        ensures
            final(self).wf(),
            final(apu).wf(),
            final(self).timers@ == tick_spec(old(self).timers@, cycles).0,
            *final(if_) == *old(if_) | overflow_irqs(
                tick_spec(old(self).timers@, cycles).0,
                tick_spec(old(self).timers@, cycles).1,
            ),
            *final(apu) === apu_after_overflows(*old(apu), tick_spec(old(self).timers@, cycles).1),
    {
        let ghost ts0 = self.timers@;
        let o0 = self.free_run(0, cycles);
        let o1 = self.free_run(1, cycles);
        let o2 = self.free_run(2, cycles);
        let o3 = self.free_run(3, cycles);
        let ghost ts1 = self.timers@;
        assert(ts1 =~= tick_free(ts0, cycles));
        let ghost ov1 = seq![o0, o1, o2, o3];
        assert(ov1 =~= free_overflows(ts0, cycles));
        let ghost c1 = cascade_from(ts1, ov1, 1);
        let o1b = self.cascade_run(1, o0, o1);
        let ghost ts2 = self.timers@;
        let ghost ov2 = seq![o0, o1b, o2, o3];
        assert(cascade_from(ts1, ov1, 1) == cascade_from(ts2, ov2, 2)) by {
            assert(ov2 =~= (if ts1[1].enabled && ts1[1].cascade && ov1[0] && ts1[1].counter == 0xFFFF { ov1.update(1, true) } else { ov1 }));
        }
        let o2b = self.cascade_run(2, o1b, o2);
        let ghost ts3 = self.timers@;
        let ghost ov3 = seq![o0, o1b, o2b, o3];
        assert(cascade_from(ts2, ov2, 2) == cascade_from(ts3, ov3, 3)) by {
            assert(ov3 =~= (if ts2[2].enabled && ts2[2].cascade && ov2[1] && ts2[2].counter == 0xFFFF { ov2.update(2, true) } else { ov2 }));
        }
        let o3b = self.cascade_run(3, o2b, o3);
        let ghost ts4 = self.timers@;
        let ghost ov4 = seq![o0, o1b, o2b, o3b];
        assert(cascade_from(ts3, ov3, 3) == cascade_from(ts4, ov4, 4)) by {
            assert(ov4 =~= (if ts3[3].enabled && ts3[3].cascade && ov3[2] && ts3[3].counter == 0xFFFF { ov3.update(3, true) } else { ov3 }));
        }
        assert(cascade_from(ts4, ov4, 4) == (ts4, ov4));
        let bits: u16 = (if o0 && self.timers[0].irq { 0x08u16 } else { 0u16 }) | (if o1b
            && self.timers[1].irq {
            0x10u16
        } else {
            0u16
        }) | (if o2b && self.timers[2].irq { 0x20u16 } else { 0u16 }) | (if o3b
            && self.timers[3].irq {
            0x40u16
        } else {
            0u16
        });
        *if_ = *if_ | bits;
        let mut dma_request = [false;2];
        if o0 {
            apu.on_timer_overflow(0, &mut dma_request);
        }
        if o1b {
            apu.on_timer_overflow(1, &mut dma_request);
        }
    }
}


// ---------------------------------------------------------------------------
// Counting
// ---------------------------------------------------------------------------

proof fn lemma_run_counter_up(c: u16, reload: u16, k: nat)
    requires
        c + k <= 0xFFFF,
    ensures
        run_counter(c, reload, k) == c + k,
        !overflowed_within(c, reload, k),
    decreases k,
{
    if k > 0 {
        lemma_run_counter_up(c, reload, (k - 1) as nat);
    }
}

/// A free-running timer counts one step for each `prescaler` cycles, the
/// cycles short of a step being kept for the next tick: while its counter
/// stays within 16 bits it goes up by exactly the number of whole periods and
/// does not overflow; the step that takes it past 0xFFFF loads the reload
/// value and is an overflow.
pub proof fn lemma_timer_counts(t: Timer, cycles: u32)
    requires
        t.prescaler > 0,
    ensures
        ({
            let n = (t.internal_counter + cycles) / (t.prescaler as int);
            let t1 = timer_after_cycles(t, cycles);
            &&& t1.internal_counter == (t.internal_counter + cycles) % (t.prescaler as int)
            &&& (t.counter + n <= 0xFFFF ==> t1.counter == t.counter + n && !timer_overflows(t, cycles))
            &&& (t.counter + n == 0x10000 ==> t1.counter == t.reload && timer_overflows(t, cycles))
        }),
{
    let n = ticks_in(t, cycles);
    if t.counter + n <= 0xFFFF {
        lemma_run_counter_up(t.counter, t.reload, n);
    } else if t.counter + n == 0x10000 {
        lemma_run_counter_up(t.counter, t.reload, (n - 1) as nat);
    }
}

} // verus!