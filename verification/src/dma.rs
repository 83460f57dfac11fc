use vstd::prelude::*;

verus! {

#[derive(Clone, Copy, PartialEq, Eq, Structural)]
pub enum DmaTrigger {
    Immediate,
    VBlank,
    HBlank,
    Special,
}

#[derive(Clone, Copy)]
pub struct DmaChannel {
    pub src: u32,
    pub dst: u32,
    pub count: u16,
    pub cnt: u16,
    pub internal_src: u32,
    pub internal_dst: u32,
    pub internal_count: u32,
    pub active: bool,
}

impl DmaChannel {
    pub open spec fn initial() -> DmaChannel {
        DmaChannel {
            src: 0,
            dst: 0,
            count: 0,
            cnt: 0,
            internal_src: 0,
            internal_dst: 0,
            internal_count: 0,
            active: false,
        }
    }

    pub fn new() -> (c: Self)
        ensures
            c == DmaChannel::initial(),
    {
        Self {
            src: 0,
            dst: 0,
            count: 0,
            cnt: 0,
            internal_src: 0,
            internal_dst: 0,
            internal_count: 0,
            active: false,
        }
    }
}

pub struct DmaController {
    pub channels: [DmaChannel; 4],
}

/// The channel whose registers contain I/O address `addr`, if any.
pub open spec fn reg_channel(addr: u32) -> Option<int> {
    if 0x0B0 <= addr <= 0x0BB {
        Some(0)
    } else if 0x0BC <= addr <= 0x0C7 {
        Some(1)
    } else if 0x0C8 <= addr <= 0x0D3 {
        Some(2)
    } else if 0x0D4 <= addr <= 0x0DF {
        Some(3)
    } else {
        None
    }
}

/// The offset of `addr` within the registers of channel `ch`.
pub open spec fn reg_offset(addr: u32, ch: int) -> int {
    addr - (0x0B0 + ch * 12)
}

/// What a read of the DMA register at `addr` returns: the halves of the source and
/// destination, the word count and the control; other addresses read zero.
pub open spec fn dma_read_spec(chs: Seq<DmaChannel>, addr: u32) -> u16 {
    match reg_channel(addr) {
        None => 0,
        Some(ch) => {
            let c = chs[ch];
            let off = reg_offset(addr, ch);
            if off == 0 {
                c.src as u16
            } else if off == 2 {
                (c.src >> 16u32) as u16
            } else if off == 4 {
                c.dst as u16
            } else if off == 6 {
                (c.dst >> 16u32) as u16
            } else if off == 8 {
                c.count
            } else if off == 10 {
                c.cnt
            } else {
                0
            }
        },
    }
}

/// A channel after the register at offset `off` is written with `val`.
pub open spec fn channel_written(c: DmaChannel, off: int, val: u16) -> DmaChannel {
    if off == 0 {
        DmaChannel { src: (c.src & 0xFFFF0000) | (val as u32), ..c }
    } else if off == 2 {
        DmaChannel { src: (c.src & 0x0000FFFF) | ((val as u32) << 16u32), ..c }
    } else if off == 4 {
        DmaChannel { dst: (c.dst & 0xFFFF0000) | (val as u32), ..c }
    } else if off == 6 {
        DmaChannel { dst: (c.dst & 0x0000FFFF) | ((val as u32) << 16u32), ..c }
    } else if off == 8 {
        DmaChannel { count: val, ..c }
    } else if off == 10 {
        DmaChannel { cnt: val, ..c }
    } else {
        c
    }
}

/// The channels after the DMA register at `addr` is written with `val`.
pub open spec fn dma_write_spec(chs: Seq<DmaChannel>, addr: u32, val: u16) -> Seq<DmaChannel> {
    match reg_channel(addr) {
        None => chs,
        Some(ch) => chs.update(ch, channel_written(chs[ch], reg_offset(addr, ch), val)),
    }
}

/// The number of units a channel moves when its count register holds 0.
pub open spec fn max_count(ch: int) -> u32 {
    if ch == 3 { 0x10000 } else { 0x4000 }
}

/// Channel `ch` after its control register is examined: an enabled channel
/// latches its masked addresses and its count, and starts when it is timed to run
/// immediately.
pub open spec fn enable_spec(c: DmaChannel, ch: int) -> DmaChannel {
    if c.cnt & 0x8000 != 0 {
        let src_mask: u32 = if ch == 0 { 0x07FF_FFFF } else { 0x0FFF_FFFF };
        let dst_mask: u32 = if ch == 3 { 0x0FFF_FFFF } else { 0x07FF_FFFF };
        DmaChannel {
            internal_src: c.src & src_mask,
            internal_dst: c.dst & dst_mask,
            internal_count: if c.count == 0 { max_count(ch) } else { c.count as u32 },
            active: if (c.cnt >> 12u16) & 3 == 0 { true } else { c.active },
            ..c
        }
    } else {
        c
    }
}

/// Whether an enabled channel timed by `timing` answers the event `t`.
pub open spec fn timing_matches(timing: u16, t: DmaTrigger) -> bool {
    if timing == 1 {
        t == DmaTrigger::VBlank
    } else if timing == 2 {
        t == DmaTrigger::HBlank
    } else if timing == 3 {
        t == DmaTrigger::Special
    } else {
        false
    }
}

/// Channel `ch` after the event `t`: an enabled channel timed to that event
/// starts, reloading its count when it has none left.
pub open spec fn trigger_spec(c: DmaChannel, ch: int, t: DmaTrigger) -> DmaChannel {
    if c.cnt & 0x8000 != 0 && timing_matches((c.cnt >> 12u16) & 3, t) {
        DmaChannel {
            active: true,
            internal_count: if c.internal_count == 0 {
                if c.count == 0 { max_count(ch) } else { c.count as u32 }
            } else {
                c.internal_count
            },
            ..c
        }
    } else {
        c
    }
}

impl DmaController {
    pub fn new() -> (d: Self)
        ensures
            forall|i: int| 0 <= i < 4 ==> #[trigger] d.channels@[i] == DmaChannel::initial(),
    {
        Self {
            channels: [DmaChannel::new(), DmaChannel::new(), DmaChannel::new(), DmaChannel::new()],
        }
    }

    pub fn any_active(&self) -> (r: bool)
        ensures
            r == exists|i: int| 0 <= i < 4 && #[trigger] self.channels@[i].active,
    {
        let r = self.channels[0].active || self.channels[1].active || self.channels[2].active
            || self.channels[3].active;
        proof {
            if r {
                if self.channels@[0].active {
                } else if self.channels@[1].active {
                } else if self.channels@[2].active {
                } else {
                    assert(self.channels@[3].active);
                }
            }
        }
        r
    }

    pub fn read_reg(&self, addr: u32) -> (r: u16)
        ensures
            r == dma_read_spec(self.channels@, addr),
    {
        let ch: usize = if 0x0B0 <= addr && addr <= 0x0BB {
            0
        } else if 0x0BC <= addr && addr <= 0x0C7 {
            1
        } else if 0x0C8 <= addr && addr <= 0x0D3 {
            2
        } else if 0x0D4 <= addr && addr <= 0x0DF {
            3
        } else {
            return 0;
        };
        let base = 0x0B0 + ch as u32 * 12;
        let offset = addr - base;
        let c = &self.channels[ch];
        if offset == 0 {
            c.src as u16
        } else if offset == 2 {
            (c.src >> 16) as u16
        } else if offset == 4 {
            c.dst as u16
        } else if offset == 6 {
            (c.dst >> 16) as u16
        } else if offset == 8 {
            c.count
        } else if offset == 10 {
            c.cnt
        } else {
            0
        }
    }

    pub fn write_reg(&mut self, addr: u32, val: u16)
        ensures
            final(self).channels@ == dma_write_spec(old(self).channels@, addr, val),
    {
        let ch: usize = if 0x0B0 <= addr && addr <= 0x0BB {
            0
        } else if 0x0BC <= addr && addr <= 0x0C7 {
            1
        } else if 0x0C8 <= addr && addr <= 0x0D3 {
            2
        } else if 0x0D4 <= addr && addr <= 0x0DF {
            3
        } else {
            return ;
        };
        let base = 0x0B0 + ch as u32 * 12;
        let offset = addr - base;
        let mut c = self.channels[ch];
        if offset == 0 {
            c.src = (c.src & 0xFFFF0000) | val as u32;
        } else if offset == 2 {
            c.src = (c.src & 0x0000FFFF) | ((val as u32) << 16);
        } else if offset == 4 {
            c.dst = (c.dst & 0xFFFF0000) | val as u32;
        } else if offset == 6 {
            c.dst = (c.dst & 0x0000FFFF) | ((val as u32) << 16);
        } else if offset == 8 {
            c.count = val;
        } else if offset == 10 {
            c.cnt = val;
        }
        self.channels[ch] = c;
    }

    pub fn check_enable(&mut self, ch: usize)
        requires
            ch < 4,
        ensures
            final(self).channels@ == old(self).channels@.update(
                ch as int,
                enable_spec(old(self).channels@[ch as int], ch as int),
            ),
    {
        let mut c = self.channels[ch];
        if c.cnt & 0x8000 != 0 {
            let src_mask: u32 = if ch == 0 { 0x07FF_FFFF } else { 0x0FFF_FFFF };
            let dst_mask: u32 = if ch == 3 { 0x0FFF_FFFF } else { 0x07FF_FFFF };
            c.internal_src = c.src & src_mask;
            c.internal_dst = c.dst & dst_mask;
            let max: u32 = if ch == 3 { 0x10000 } else { 0x4000 };
            c.internal_count = if c.count == 0 { max } else { c.count as u32 };
            let timing = (c.cnt >> 12) & 3;
            if timing == 0 {
                c.active = true;
            }
        }
        self.channels[ch] = c;
        assert(self.channels@ =~= old(self).channels@.update(
            ch as int,
            enable_spec(old(self).channels@[ch as int], ch as int),
        ));
    }

    fn trigger_channel(&mut self, ch: usize, trigger: DmaTrigger)
        requires
            ch < 4,
        ensures
            final(self).channels@ == old(self).channels@.update(
                ch as int,
                trigger_spec(old(self).channels@[ch as int], ch as int, trigger),
            ),
    {
        let mut c = self.channels[ch];
        if c.cnt & 0x8000 == 0 {
            assert(self.channels@ =~= old(self).channels@.update(ch as int, c));
            return ;
        }
        let timing = (c.cnt >> 12) & 3;
        let matches = if timing == 1 {
            trigger == DmaTrigger::VBlank
        } else if timing == 2 {
            trigger == DmaTrigger::HBlank
        } else if timing == 3 {
            trigger == DmaTrigger::Special
        } else {
            false
        };
        if matches {
            c.active = true;
            if c.internal_count == 0 {
                let max: u32 = if ch == 3 { 0x10000 } else { 0x4000 };
                c.internal_count = if c.count == 0 { max } else { c.count as u32 };
            }
        }
        self.channels[ch] = c;
        assert(self.channels@ =~= old(self).channels@.update(
            ch as int,
            trigger_spec(old(self).channels@[ch as int], ch as int, trigger),
        ));
    }

    /// Starts every enabled channel timed to the event `trigger`.
    pub fn trigger(&mut self, trigger: DmaTrigger)
        ensures
            final(self).channels@ == Seq::new(
                4,
                |i: int| trigger_spec(old(self).channels@[i], i, trigger),
            ),
    {
        self.trigger_channel(0, trigger);
        self.trigger_channel(1, trigger);
        self.trigger_channel(2, trigger);
        self.trigger_channel(3, trigger);
        assert(self.channels@ =~= Seq::new(
            4,
            |i: int| trigger_spec(old(self).channels@[i], i, trigger),
        ));
    }

    /// Starts the channel that refills FIFO `fifo` (channel 1 for FIFO 0, channel
    /// 2 otherwise) when it is enabled and in the special timing mode, for one
    /// burst of four units.
    pub fn trigger_sound_fifo(&mut self, fifo: usize)
        ensures
            ({
                let ch: int = if fifo == 0 { 1 } else { 2 };
                let c = old(self).channels@[ch];
                final(self).channels@ == if c.cnt & 0x8000 != 0 && (c.cnt >> 12u16) & 3 == 3 {
                    old(self).channels@.update(
                        ch,
                        DmaChannel { active: true, internal_count: 4, ..c },
                    )
                } else {
                    old(self).channels@
                }
            }),
    {
        let ch: usize = if fifo == 0 { 1 } else { 2 };
        let mut c = self.channels[ch];
        if c.cnt & 0x8000 == 0 {
            return ;
        }
        let timing = (c.cnt >> 12) & 3;
        if timing == 3 {
            c.active = true;
            c.internal_count = 4;
            self.channels[ch] = c;
        }
    }
}

/// A register write followed by a read of the same register gives back the value
/// written, for each of the six registers of each channel.
pub proof fn lemma_dma_write_read(chs: Seq<DmaChannel>, addr: u32, val: u16)
    requires
        chs.len() == 4,
        reg_channel(addr) is Some,
        ({
            let off = reg_offset(addr, reg_channel(addr)->0);
            off == 0 || off == 2 || off == 4 || off == 6 || off == 8 || off == 10
        }),
    ensures
        dma_read_spec(dma_write_spec(chs, addr, val), addr) == val,
{
    let ch = reg_channel(addr)->0;
    let src = chs[ch].src;
    let dst = chs[ch].dst;
    assert(((src & 0xFFFF0000) | (val as u32)) as u16 == val
        && (((src & 0x0000FFFF) | ((val as u32) << 16u32)) >> 16u32) as u16 == val
        && ((dst & 0xFFFF0000) | (val as u32)) as u16 == val
        && (((dst & 0x0000FFFF) | ((val as u32) << 16u32)) >> 16u32) as u16 == val)
        by (bit_vector);
}

} // verus!
