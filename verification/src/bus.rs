use vstd::prelude::*;

use crate::apu::{Apu, generate_sample_spec, read_reg_spec, write_reg_spec};
use crate::bits::{group_bounds, le16, le32, from_le16, from_le32, lemma_le32_bytes, sext28, sign_extend_28};
use crate::cpu::{Cpu, CpuState, wrap32};
use crate::dma::{
    DmaChannel, DmaController, DmaTrigger, dma_read_spec, dma_write_spec, enable_spec, max_count,
    trigger_spec,
};
use crate::ppu::{
    BgAffine, Ppu, affine_after_line, bg_lines_spec, compose_pixel, obj_line_spec,
    render_fits, with_row,
};
use crate::timer::{Timer, Timers, apu_after_overflows, control_written, overflow_irqs, tick_spec};

verus! {

broadcast use group_bounds;

/// Size of the BIOS image the bus serves from address 0.
pub const BIOS_SIZE: usize = 0x4000;

pub struct Bus {
    pub bios: Vec<u8>,
    pub ewram: Vec<u8>,
    pub iwram: Vec<u8>,
    pub palette: Vec<u8>,
    pub vram: Vec<u8>,
    pub oam: Vec<u8>,
    pub rom: Vec<u8>,
    pub sram: Vec<u8>,
    pub ppu: Ppu,
    pub apu: Apu,
    pub dma: DmaController,
    pub timers: Timers,
    pub keyinput: u16,
    pub ime: bool,
    pub ie: u16,
    pub if_: u16,
    pub cycles: u32,
    pub scanline_cycles: u32,
    pub current_scanline: u16,
    pub frame_count: u64,
    pub framebuffer: Vec<u32>,
    pub audio_output_buffer: Vec<i16>,
    pub audio_samples_ready: usize,
    pub audio_cycles: u32,
    pub halted: bool,
    pub post_boot: u8,
    pub waitcnt: u16,
    pub bios_latch: u32,
    pub io_regs: Vec<u8>,
    pub ws_n: [u32; 3],
    pub ws_s: [u32; 3],
    pub data_wait_cycles: u32,
    pub fetching_code: bool,
    pub prefetch: bool,
    pub last_rom_data_addr: u32,
    pub prev_exec_cycles: u32,
    pub prev_was_branch: bool,
    pub write_wait_cycles: u32,
    pub rom_data_accessed: bool,
}

/// The mathematical state of a [`Bus`]: every memory as a sequence of bytes.
#[verifier::ext_equal]
pub struct BusView {
    pub bios: Seq<u8>,
    pub ewram: Seq<u8>,
    pub iwram: Seq<u8>,
    pub palette: Seq<u8>,
    pub vram: Seq<u8>,
    pub oam: Seq<u8>,
    pub rom: Seq<u8>,
    pub sram: Seq<u8>,
    pub ppu: Ppu,
    pub apu: Apu,
    pub dma: Seq<DmaChannel>,
    pub timers: Seq<Timer>,
    pub keyinput: u16,
    pub ime: bool,
    pub ie: u16,
    pub if_: u16,
    pub cycles: u32,
    pub scanline_cycles: u32,
    pub current_scanline: u16,
    pub frame_count: u64,
    pub framebuffer: Seq<u32>,
    pub audio_output_buffer: Seq<i16>,
    pub audio_samples_ready: usize,
    pub audio_cycles: u32,
    pub halted: bool,
    pub post_boot: u8,
    pub waitcnt: u16,
    pub bios_latch: u32,
    pub io_regs: Seq<u8>,
    pub ws_n: Seq<u32>,
    pub ws_s: Seq<u32>,
    pub data_wait_cycles: u32,
    pub fetching_code: bool,
    pub prefetch: bool,
    pub last_rom_data_addr: u32,
    pub prev_exec_cycles: u32,
    pub prev_was_branch: bool,
    pub write_wait_cycles: u32,
    pub rom_data_accessed: bool,
}

impl View for Bus {
    type V = BusView;

    open spec fn view(&self) -> BusView {
        BusView {
            bios: self.bios@,
            ewram: self.ewram@,
            iwram: self.iwram@,
            palette: self.palette@,
            vram: self.vram@,
            oam: self.oam@,
            rom: self.rom@,
            sram: self.sram@,
            ppu: self.ppu,
            apu: self.apu,
            dma: self.dma.channels@,
            timers: self.timers.timers@,
            keyinput: self.keyinput,
            ime: self.ime,
            ie: self.ie,
            if_: self.if_,
            cycles: self.cycles,
            scanline_cycles: self.scanline_cycles,
            current_scanline: self.current_scanline,
            frame_count: self.frame_count,
            framebuffer: self.framebuffer@,
            audio_output_buffer: self.audio_output_buffer@,
            audio_samples_ready: self.audio_samples_ready,
            audio_cycles: self.audio_cycles,
            halted: self.halted,
            post_boot: self.post_boot,
            waitcnt: self.waitcnt,
            bios_latch: self.bios_latch,
            io_regs: self.io_regs@,
            ws_n: self.ws_n@,
            ws_s: self.ws_s@,
            data_wait_cycles: self.data_wait_cycles,
            fetching_code: self.fetching_code,
            prefetch: self.prefetch,
            last_rom_data_addr: self.last_rom_data_addr,
            prev_exec_cycles: self.prev_exec_cycles,
            prev_was_branch: self.prev_was_branch,
            write_wait_cycles: self.write_wait_cycles,
            rom_data_accessed: self.rom_data_accessed,
        }
    }
}

impl BusView {
    /// Every memory has its hardware size, the wait states are those a WAITCNT
    /// value can select, and the components are well formed.
    pub open spec fn wf(self) -> bool {
        &&& self.bios.len() == 0x4000
        &&& self.ewram.len() == 0x40000
        &&& self.iwram.len() == 0x8000
        &&& self.palette.len() == 0x400
        &&& self.vram.len() == 0x18000
        &&& self.oam.len() == 0x400
        &&& self.sram.len() == 0x10000
        &&& self.io_regs.len() == 0x400
        &&& self.framebuffer.len() == 240 * 160
        &&& self.audio_output_buffer.len() == 65536
        &&& self.dma.len() == 4
        &&& self.timers.len() == 4
        &&& self.ws_n.len() == 3
        &&& self.ws_s.len() == 3
        &&& forall|i: int| 0 <= i < 3 ==> 1 <= #[trigger] self.ws_n[i] <= 9
        &&& forall|i: int| 0 <= i < 3 ==> 1 <= #[trigger] self.ws_s[i] <= 9
        &&& self.apu.wf()
        &&& forall|i: int| 0 <= i < 4 ==> #[trigger] self.timers[i].wf()
        &&& self.current_scanline < 228
        &&& self.scanline_cycles < 1232
        &&& self.audio_cycles < 512
        &&& self.audio_samples_ready <= 0x8000
        &&& forall|i: int| 0 <= i < 4 ==> #[trigger] self.dma[i].internal_count <= 0x10000
        &&& affine_ok(self.ppu.bg_affine@[0], self.current_scanline)
        &&& affine_ok(self.ppu.bg_affine@[1], self.current_scanline)
    }
}

/// How far the internal reference point of an affine background can have moved
/// from a 28-bit value by `line`: one step per drawn line.
pub open spec fn affine_bound(line: u16) -> int {
    0x0800_0000 + (if line < 160 { line as int } else { 160 }) * 0x8000
}

/// The internal reference point is within its bound for `line`.
pub open spec fn affine_ok(a: BgAffine, line: u16) -> bool {
    &&& -affine_bound(line) <= a.internal_x <= affine_bound(line)
    &&& -affine_bound(line) <= a.internal_y <= affine_bound(line)
}

/// The region field of an address.
pub open spec fn region(addr: u32) -> u32 {
    (addr >> 24u32) & 0xFF
}

/// Whether `r` is one of the cartridge ROM regions.
pub open spec fn is_rom_region(r: u32) -> bool {
    0x08 <= r <= 0x0D
}

/// The wait-state set that serves cartridge region `r`.
pub open spec fn ws_index(r: u32) -> int {
    if r == 0x08 || r == 0x09 {
        0
    } else if r == 0x0A || r == 0x0B {
        1
    } else {
        2
    }
}

/// The bus after a data access of `size` bytes at `addr` is charged its wait
/// states: cartridge accesses cost the sequential or non-sequential wait of their
/// region (one more sequential wait for a word) and remember the address; any
/// other access forgets it. Code fetches are not charged.
pub open spec fn data_wait_spec(b: BusView, addr: u32, size: u32) -> BusView {
    if b.fetching_code {
        b
    } else {
        let r = (addr >> 24u32) & 0xF;
        if 0x08 <= r <= 0x0D {
            let i = ws_index(r);
            let seq_access = addr == wrap32(b.last_rom_data_addr + 4)
                || addr == wrap32(b.last_rom_data_addr + 2);
            let extra: int = if size == 4 {
                if seq_access {
                    b.ws_s[i] + b.ws_s[i] - 1
                } else {
                    b.ws_n[i] + b.ws_s[i] - 1
                }
            } else {
                if seq_access { b.ws_s[i] - 1 } else { b.ws_n[i] - 1 }
            };
            BusView {
                data_wait_cycles: wrap32(b.data_wait_cycles + extra),
                last_rom_data_addr: addr,
                ..b
            }
        } else {
            BusView { last_rom_data_addr: 0xFFFF_FFFF, ..b }
        }
    }
}

/// The wait-state counters after `k` bus accesses: at most 17 more data-wait
/// cycles for each, the write-wait counter unchanged.
pub open spec fn waits_within(b0: BusView, b1: BusView, k: int) -> bool {
    &&& b1.data_wait_cycles <= b0.data_wait_cycles + 17 * k
    &&& b1.write_wait_cycles == b0.write_wait_cycles
    &&& same_timing(b0, b1)
}

/// The video timeline stands still: same frame, line and cycle within it.
pub open spec fn same_timing(b0: BusView, b1: BusView) -> bool {
    &&& b1.frame_count == b0.frame_count
    &&& b1.current_scanline == b0.current_scanline
    &&& b1.scanline_cycles == b0.scanline_cycles
}

/// The offset in VRAM that `addr` maps to: the last 32 KiB mirror the 32 KiB
/// before them.
pub open spec fn vram_mirror_spec(addr: u32) -> int {
    let offset = addr & 0x1FFFF;
    if offset >= 0x18000 { offset - 0x8000 } else { offset as int }
}

/// The wait states selected by a WAITCNT value: `(n, s)` for each region.
pub open spec fn waitcnt_n(w: u16, shift: u16) -> u32 {
    let k = (w >> shift) & 3;
    (1 + if k == 0 { 4u32 } else if k == 1 { 3u32 } else if k == 2 { 2u32 } else { 8u32 }) as u32
}

/// The sequential wait state of region `i` selected by the bit at `shift`.
pub open spec fn waitcnt_s(w: u16, shift: u16, slow: u32) -> u32 {
    (1 + if (w >> shift) & 1 == 0 { slow } else { 1u32 }) as u32
}


/// What a read of the 16-bit I/O register at offset `addr` returns.
pub open spec fn io_read16_spec(b: BusView, addr: u32) -> u16 {
    let p = b.ppu;
    if addr == 0x000 {
        p.dispcnt
    } else if addr == 0x002 {
        p.green_swap
    } else if addr == 0x004 {
        p.dispstat
    } else if addr == 0x006 {
        b.current_scanline
    } else if 0x008 <= addr <= 0x00E && addr % 2 == 0 {
        p.bgcnt@[(addr - 0x008) / 2]
    } else if 0x010 <= addr <= 0x01E && addr % 2 == 0 {
        if addr % 4 == 0 { p.bghofs@[(addr - 0x010) / 4] } else { p.bgvofs@[(addr - 0x012) / 4] }
    } else if addr == 0x040 {
        p.win0h
    } else if addr == 0x042 {
        p.win1h
    } else if addr == 0x044 {
        p.win0v
    } else if addr == 0x046 {
        p.win1v
    } else if addr == 0x048 {
        p.winin
    } else if addr == 0x04A {
        p.winout
    } else if addr == 0x04C {
        p.mosaic
    } else if addr == 0x050 {
        p.bldcnt
    } else if addr == 0x052 {
        p.bldalpha
    } else if addr == 0x054 {
        p.bldy
    } else if addr == 0x060 || addr == 0x062 || addr == 0x064 || addr == 0x068 || addr == 0x06C
        || addr == 0x070 || addr == 0x072 || addr == 0x074 || addr == 0x078 || addr == 0x07C
        || addr == 0x080 || addr == 0x082 || addr == 0x084 || addr == 0x088 || (0x090 <= addr
        <= 0x09E) {
        read_reg_spec(b.apu, addr)
    } else if 0x0B0 <= addr <= 0x0DE {
        dma_read_spec(b.dma, addr)
    } else if 0x100 <= addr <= 0x10E && addr % 2 == 0 {
        if addr % 4 == 0 {
            b.timers[(addr - 0x100) / 4].counter
        } else {
            b.timers[(addr - 0x102) / 4].control
        }
    } else if addr == 0x130 {
        b.keyinput
    } else if addr == 0x132 {
        le16(b.io_regs[0x132], b.io_regs[0x133])
    } else if addr == 0x200 {
        b.ie
    } else if addr == 0x202 {
        b.if_
    } else if addr == 0x204 {
        b.waitcnt
    } else if addr == 0x208 {
        if b.ime { 1 } else { 0 }
    } else if addr == 0x300 {
        b.post_boot as u16
    } else {
        let idx = (addr & 0x3FE) as int;
        if idx + 1 < b.io_regs.len() {
            le16(b.io_regs[idx], b.io_regs[idx + 1])
        } else {
            0
        }
    }
}

/// What a byte read of I/O offset `addr` returns: a half of the 16-bit register.
pub open spec fn io_read8_spec(b: BusView, addr: u32) -> u8 {
    let v = io_read16_spec(b, addr & !1u32);
    if addr & 1 == 0 { v as u8 } else { (v >> 8u16) as u8 }
}

/// What a byte read at `addr` returns.
pub open spec fn read8_value(b: BusView, addr: u32) -> u8 {
    let r = region(addr);
    if r == 0x00 {
        if addr < 0x4000 {
            b.bios[(addr & 0x3FFF) as int]
        } else {
            (b.bios_latch >> ((addr & 3) * 8)) as u8
        }
    } else if r == 0x02 {
        b.ewram[(addr & 0x3FFFF) as int]
    } else if r == 0x03 {
        b.iwram[(addr & 0x7FFF) as int]
    } else if r == 0x04 {
        io_read8_spec(b, addr & 0xFFF)
    } else if r == 0x05 {
        b.palette[(addr & 0x3FF) as int]
    } else if r == 0x06 {
        b.vram[vram_mirror_spec(addr)]
    } else if r == 0x07 {
        b.oam[(addr & 0x3FF) as int]
    } else if is_rom_region(r) {
        let off = (addr & 0x01FF_FFFF) as int;
        if off < b.rom.len() { b.rom[off] } else { 0 }
    } else if r == 0x0E || r == 0x0F {
        b.sram[(addr & 0xFFFF) as int]
    } else {
        0
    }
}

/// The bus after a byte read at `addr`: the wait states are charged and a BIOS
/// read refreshes the low byte of the BIOS latch.
pub open spec fn read8_effect(b: BusView, addr: u32) -> BusView {
    let b1 = data_wait_spec(b, addr, 1);
    if region(addr) == 0 && addr < 0x4000 {
        BusView { bios_latch: (b.bios_latch & 0xFFFFFF00) | (read8_value(b, addr) as u32), ..b1 }
    } else {
        b1
    }
}

/// The 16-bit little-endian value at `i` of `m`.
pub open spec fn mem16(m: Seq<u8>, i: int) -> u16 {
    le16(m[i], m[i + 1])
}

/// The 32-bit little-endian value at `i` of `m`.
pub open spec fn mem32(m: Seq<u8>, i: int) -> u32 {
    le32(m[i], m[i + 1], m[i + 2], m[i + 3])
}

/// What a half-word read at `addr` (rounded down to even) returns.
pub open spec fn read16_value(b: BusView, addr0: u32) -> u16 {
    let addr = addr0 & !1u32;
    let r = region(addr);
    if r == 0x00 {
        if addr < 0x4000 {
            mem16(b.bios, (addr & 0x3FFF) as int)
        } else {
            (b.bios_latch >> ((addr & 2) * 8)) as u16
        }
    } else if r == 0x02 {
        mem16(b.ewram, (addr & 0x3FFFF) as int)
    } else if r == 0x03 {
        mem16(b.iwram, (addr & 0x7FFF) as int)
    } else if r == 0x04 {
        io_read16_spec(b, addr & 0xFFF)
    } else if r == 0x05 {
        mem16(b.palette, (addr & 0x3FF) as int)
    } else if r == 0x06 {
        mem16(b.vram, vram_mirror_spec(addr))
    } else if r == 0x07 {
        mem16(b.oam, (addr & 0x3FF) as int)
    } else if is_rom_region(r) {
        let off = (addr & 0x01FF_FFFF) as int;
        if off + 1 < b.rom.len() { mem16(b.rom, off) } else { 0 }
    } else if r == 0x0E || r == 0x0F {
        let v = b.sram[(addr & 0xFFFF) as int];
        le16(v, v)
    } else {
        0
    }
}

/// The bus after a half-word read: the wait states are charged and a BIOS read
/// loads the latch with the value twice.
pub open spec fn read16_effect(b: BusView, addr0: u32) -> BusView {
    let addr = addr0 & !1u32;
    let b1 = data_wait_spec(b, addr, 2);
    if region(addr) == 0 && addr < 0x4000 {
        let v = read16_value(b, addr0) as u32;
        BusView { bios_latch: v | (v << 16u32), ..b1 }
    } else {
        b1
    }
}

/// What a word read at `addr` (rounded down to a multiple of four) returns.
pub open spec fn read32_value(b: BusView, addr0: u32) -> u32 {
    let addr = addr0 & !3u32;
    let r = region(addr);
    if r == 0x00 {
        if addr < 0x4000 { mem32(b.bios, (addr & 0x3FFF) as int) } else { b.bios_latch }
    } else if r == 0x02 {
        mem32(b.ewram, (addr & 0x3FFFF) as int)
    } else if r == 0x03 {
        mem32(b.iwram, (addr & 0x7FFF) as int)
    } else if r == 0x04 {
        (io_read16_spec(b, addr & 0xFFF) as u32) | ((io_read16_spec(b, ((addr & 0xFFF) + 2) as u32) as u32)
            << 16u32)
    } else if r == 0x05 {
        mem32(b.palette, (addr & 0x3FF) as int)
    } else if r == 0x06 {
        mem32(b.vram, vram_mirror_spec(addr))
    } else if r == 0x07 {
        mem32(b.oam, (addr & 0x3FF) as int)
    } else if is_rom_region(r) {
        let off = (addr & 0x01FF_FFFF) as int;
        if off + 3 < b.rom.len() { mem32(b.rom, off) } else { 0 }
    } else if r == 0x0E || r == 0x0F {
        let v = b.sram[(addr & 0xFFFF) as int];
        le32(v, v, v, v)
    } else {
        0
    }
}

/// The bus after a word read: the wait states are charged and a BIOS read loads
/// the latch.
pub open spec fn read32_effect(b: BusView, addr0: u32) -> BusView {
    let addr = addr0 & !3u32;
    let b1 = data_wait_spec(b, addr, 4);
    if region(addr) == 0 && addr < 0x4000 {
        BusView { bios_latch: read32_value(b, addr0), ..b1 }
    } else {
        b1
    }
}


/// The VRAM offset that `addr` maps to.
fn vram_mirror(addr: u32) -> (r: usize)
    ensures
        r as int == vram_mirror_spec(addr),
        r < 0x18000,
{
    let offset = addr & 0x1FFFF;
    if offset >= 0x18000 {
        (offset - 0x8000) as usize
    } else {
        offset as usize
    }
}

/// A zero-filled byte buffer of `n` bytes.
fn zeroed(n: usize) -> (v: Vec<u8>)
    ensures
        v@ == Seq::new(n as nat, |i: int| 0u8),
{
    let v = vec![0u8; n];
    assert(v@ =~= Seq::new(n as nat, |i: int| 0u8));
    v
}

/// Sets every byte of `v` to zero, keeping its length.
fn fill_zero(v: &mut Vec<u8>)
    ensures
        final(v)@ == Seq::new(old(v)@.len(), |i: int| 0u8),
{
    let n = v.len();
    let mut i: usize = 0;
    while i < n
        invariant
            i <= n,
            v@.len() == n,
            forall|j: int| 0 <= j < i ==> v@[j] == 0u8,
        decreases n - i,
    {
        v.set(i, 0);
        i += 1;
    }
    assert(v@ =~= Seq::new(n as nat, |i: int| 0u8));
}

impl Bus {
    /// The state of the bus at power-on, apart from the BIOS image and the
    /// cartridge: all memories cleared (whatever their lengths), the display and sound units and the timers
    /// and DMA channels in their initial state, no key pressed.
    pub open spec fn power_on(v: BusView) -> bool {
        &&& v.ewram == Seq::new(v.ewram.len(), |i: int| 0u8)
        &&& v.iwram == Seq::new(v.iwram.len(), |i: int| 0u8)
        &&& v.palette == Seq::new(v.palette.len(), |i: int| 0u8)
        &&& v.vram == Seq::new(v.vram.len(), |i: int| 0u8)
        &&& v.oam == Seq::new(v.oam.len(), |i: int| 0u8)
        &&& v.sram == Seq::new(v.sram.len(), |i: int| 0u8)
        &&& v.io_regs == Seq::new(v.io_regs.len(), |i: int| 0u8)
        &&& v.ppu.is_initial()
        &&& v.apu.is_initial()
        &&& (forall|i: int| 0 <= i < 4 ==> #[trigger] v.dma[i] == DmaChannel::initial())
        &&& (forall|i: int| 0 <= i < 4 ==> #[trigger] v.timers[i] == Timer::initial())
        &&& v.keyinput == 0x03FF
        &&& !v.ime && v.ie == 0 && v.if_ == 0
        &&& v.cycles == 0 && v.scanline_cycles == 0 && v.current_scanline == 0
        &&& v.frame_count == 0
        &&& v.audio_samples_ready == 0 && v.audio_cycles == 0
        &&& !v.halted && v.post_boot == 0 && v.waitcnt == 0 && v.bios_latch == 0
        &&& v.ws_n == seq![5u32, 5, 5]
        &&& v.ws_s == seq![3u32, 5, 9]
        &&& !v.prefetch
    }

    pub fn new() -> (b: Self)
        ensures
            b@.wf(),
            Self::power_on(b@),
            b@.bios == Seq::new(0x4000, |i: int| 0u8),
            b@.rom.len() == 0,
            b@.framebuffer == Seq::new(240 * 160, |i: int| 0u32),
            b@.audio_output_buffer == Seq::new(65536, |i: int| 0i16),
            b@.data_wait_cycles == 0,
            !b@.fetching_code,
            b@.last_rom_data_addr == 0xFFFF_FFFF,
            b@.prev_exec_cycles == 0,
            b@.prev_was_branch,
            b@.write_wait_cycles == 0,
            !b@.rom_data_accessed,
    {
        let framebuffer = vec![0u32; 240 * 160];
        assert(framebuffer@ =~= Seq::new(240 * 160, |i: int| 0u32));
        let audio = vec![0i16; 65536];
        assert(audio@ =~= Seq::new(65536, |i: int| 0i16));
        let b = Self {
            bios: zeroed(BIOS_SIZE),
            ewram: zeroed(0x40000),
            iwram: zeroed(0x8000),
            palette: zeroed(0x400),
            vram: zeroed(0x18000),
            oam: zeroed(0x400),
            rom: Vec::new(),
            sram: zeroed(0x10000),
            ppu: Ppu::new(),
            apu: Apu::new(),
            dma: DmaController::new(),
            timers: Timers::new(),
            keyinput: 0x03FF,
            ime: false,
            ie: 0,
            if_: 0,
            cycles: 0,
            scanline_cycles: 0,
            current_scanline: 0,
            frame_count: 0,
            framebuffer,
            audio_output_buffer: audio,
            audio_samples_ready: 0,
            audio_cycles: 0,
            halted: false,
            post_boot: 0,
            waitcnt: 0,
            bios_latch: 0,
            io_regs: zeroed(0x400),
            ws_n: [5, 5, 5],
            ws_s: [3, 5, 9],
            data_wait_cycles: 0,
            fetching_code: false,
            prefetch: false,
            last_rom_data_addr: 0xFFFF_FFFF,
            prev_exec_cycles: 0,
            prev_was_branch: true,
            write_wait_cycles: 0,
            rom_data_accessed: false,
        };
        assert(b@.ws_n =~= seq![5u32, 5, 5]);
        assert(b@.ws_s =~= seq![3u32, 5, 9]);
        b
    }

    /// Replaces the cartridge with a copy of `data` (one zero byte when it is
    /// empty).
    pub fn load_rom(&mut self, data: &[u8])
        ensures
            final(self)@ == (BusView {
                rom: if data@.len() == 0 { seq![0u8] } else { data@ },
                ..old(self)@
            }),
    {
        let n = if data.len() > 1 { data.len() } else { 1 };
        let mut rom: Vec<u8> = Vec::with_capacity(n);
        let mut i: usize = 0;
        while i < data.len()
            invariant
                i <= data.len(),
                rom@ == data@.subrange(0, i as int),
            decreases data.len() - i,
        {
            rom.push(data[i]);
            i += 1;
            assert(rom@ =~= data@.subrange(0, i as int));
        }
        if data.len() == 0 {
            rom.push(0);
        }
        assert(rom@ =~= if data@.len() == 0 { seq![0u8] } else { data@ });
        self.rom = rom;
    }

    /// The BIOS image that `load_bios` makes of `data`: its first 16 KiB, padded
    /// with zero bytes where `data` is shorter.
    pub open spec fn bios_image(data: Seq<u8>) -> Seq<u8> {
        Seq::new(0x4000, |i: int| if i < data.len() { data[i] } else { 0u8 })
    }

    /// Replaces the BIOS image with the first 16 KiB of `data`; the bytes past
    /// the end of a shorter image read as zero.
    pub fn load_bios(&mut self, data: &[u8])
        ensures
            final(self)@ == (BusView { bios: Self::bios_image(data@), ..old(self)@ }),
    {
        let mut bios: Vec<u8> = Vec::with_capacity(BIOS_SIZE);
        let mut i: usize = 0;
        while i < BIOS_SIZE
            invariant
                i <= BIOS_SIZE,
                bios@.len() == i,
                forall|j: int| 0 <= j < i ==> bios@[j] == Self::bios_image(data@)[j],
            decreases BIOS_SIZE - i,
        {
            let byte: u8 = if i < data.len() { data[i] } else { 0 };
            bios.push(byte);
            i += 1;
        }
        assert(bios@ =~= Self::bios_image(data@));
        self.bios = bios;
    }

    /// Clears every memory but the BIOS image, the cartridge, the frame buffer
    /// and the sound output, in place and keeping its length, and returns every
    /// unit to its initial state.
    pub fn reset(&mut self)
        ensures
            final(self)@.wf() == (old(self)@.bios.len() == 0x4000 && old(self)@.ewram.len()
                == 0x40000 && old(self)@.iwram.len() == 0x8000 && old(self)@.palette.len() == 0x400
                && old(self)@.vram.len() == 0x18000 && old(self)@.oam.len() == 0x400
                && old(self)@.sram.len() == 0x10000 && old(self)@.io_regs.len() == 0x400
                && old(self)@.framebuffer.len() == 240 * 160
                && old(self)@.audio_output_buffer.len() == 65536),
            Self::power_on(final(self)@),
            final(self)@.ewram.len() == old(self)@.ewram.len(),
            final(self)@.iwram.len() == old(self)@.iwram.len(),
            final(self)@.palette.len() == old(self)@.palette.len(),
            final(self)@.vram.len() == old(self)@.vram.len(),
            final(self)@.oam.len() == old(self)@.oam.len(),
            final(self)@.sram.len() == old(self)@.sram.len(),
            final(self)@.io_regs.len() == old(self)@.io_regs.len(),
            final(self)@.bios == old(self)@.bios,
            final(self)@.rom == old(self)@.rom,
            final(self)@.framebuffer == old(self)@.framebuffer,
            final(self)@.audio_output_buffer == old(self)@.audio_output_buffer,
            final(self)@.data_wait_cycles == old(self)@.data_wait_cycles,
            final(self)@.fetching_code == old(self)@.fetching_code,
            final(self)@.last_rom_data_addr == old(self)@.last_rom_data_addr,
            final(self)@.prev_exec_cycles == old(self)@.prev_exec_cycles,
            final(self)@.prev_was_branch == old(self)@.prev_was_branch,
            final(self)@.write_wait_cycles == old(self)@.write_wait_cycles,
            final(self)@.rom_data_accessed == old(self)@.rom_data_accessed,
    {
        fill_zero(&mut self.ewram);
        fill_zero(&mut self.iwram);
        fill_zero(&mut self.palette);
        fill_zero(&mut self.vram);
        fill_zero(&mut self.oam);
        fill_zero(&mut self.sram);
        fill_zero(&mut self.io_regs);
        self.ppu = Ppu::new();
        self.apu = Apu::new();
        self.dma = DmaController::new();
        self.timers = Timers::new();
        self.keyinput = 0x03FF;
        self.ime = false;
        self.ie = 0;
        self.if_ = 0;
        self.cycles = 0;
        self.scanline_cycles = 0;
        self.current_scanline = 0;
        self.frame_count = 0;
        self.audio_samples_ready = 0;
        self.audio_cycles = 0;
        self.halted = false;
        self.post_boot = 0;
        self.waitcnt = 0;
        self.bios_latch = 0;
        self.ws_n = [5, 5, 5];
        self.ws_s = [3, 5, 9];
        self.prefetch = false;
        assert(self@.ws_n =~= seq![5u32, 5, 5]);
        assert(self@.ws_s =~= seq![3u32, 5, 9]);
    }

    /// Records the pressed keys: KEYINPUT holds the released keys, active low.
    pub fn set_keys(&mut self, keys: u16)
        ensures
            final(self)@ == (BusView { keyinput: !keys & 0x03FF, ..old(self)@ }),
    {
        self.keyinput = !keys & 0x03FF;
    }

    fn update_waitcnt(&mut self)
        requires
            old(self)@.wf(),
        ensures
            final(self)@ == (BusView {
                ws_n: seq![
                    waitcnt_n(old(self).waitcnt, 2),
                    waitcnt_n(old(self).waitcnt, 5),
                    waitcnt_n(old(self).waitcnt, 8),
                ],
                ws_s: seq![
                    waitcnt_s(old(self).waitcnt, 4, 2),
                    waitcnt_s(old(self).waitcnt, 7, 4),
                    waitcnt_s(old(self).waitcnt, 10, 8),
                ],
                ..old(self)@
            }),
            final(self)@.wf(),
    {
        let w = self.waitcnt;
        let n0 = waitcnt_n_exec(w, 2);
        let n1 = waitcnt_n_exec(w, 5);
        let n2 = waitcnt_n_exec(w, 8);
        let s0: u32 = 1 + if (w >> 4) & 1 == 0 { 2 } else { 1 };
        let s1: u32 = 1 + if (w >> 7) & 1 == 0 { 4 } else { 1 };
        let s2: u32 = 1 + if (w >> 10) & 1 == 0 { 8 } else { 1 };
        self.ws_n = [n0, n1, n2];
        self.ws_s = [s0, s1, s2];
        assert(self@.ws_n =~= seq![n0, n1, n2]);
        assert(self@.ws_s =~= seq![s0, s1, s2]);
    }

    #[verifier::spinoff_prover]
    #[verifier::rlimit(50)]
    fn add_data_wait(&mut self, addr: u32, size: u32)
        requires
            old(self)@.wf(),
        ensures
            final(self)@ == data_wait_spec(old(self)@, addr, size),
            final(self)@.wf(),
            old(self).data_wait_cycles <= 0xF000_0000 ==> waits_within(old(self)@, final(self)@, 1),
            same_timing(old(self)@, final(self)@),
    {
        if self.fetching_code {
            return;
        }
        let r = (addr >> 24) & 0xF;
        if 0x08 <= r && r <= 0x0D {
            let i: usize = if r == 0x08 || r == 0x09 {
                0
            } else if r == 0x0A || r == 0x0B {
                1
            } else {
                2
            };
            let seq_access = addr == self.last_rom_data_addr.wrapping_add(4) || addr
                == self.last_rom_data_addr.wrapping_add(2);
            let wn = self.ws_n[i];
            let ws = self.ws_s[i];
            let extra: u32 = if size == 4 {
                if seq_access {
                    ws + ws - 1
                } else {
                    wn + ws - 1
                }
            } else {
                if seq_access {
                    ws - 1
                } else {
                    wn - 1
                }
            };
            self.data_wait_cycles = self.data_wait_cycles.wrapping_add(extra);
            self.last_rom_data_addr = addr;
        } else {
            self.last_rom_data_addr = 0xFFFF_FFFF;
        }
    }

    pub fn io_read16(&self, addr: u32) -> (r: u16)
        requires
            self@.wf(),
        ensures
            r == io_read16_spec(self@, addr),
    {
        if addr == 0x000 {
            self.ppu.dispcnt
        } else if addr == 0x002 {
            self.ppu.green_swap
        } else if addr == 0x004 {
            self.ppu.dispstat
        } else if addr == 0x006 {
            self.current_scanline
        } else if addr == 0x008 {
            self.ppu.bgcnt[0]
        } else if addr == 0x00A {
            self.ppu.bgcnt[1]
        } else if addr == 0x00C {
            self.ppu.bgcnt[2]
        } else if addr == 0x00E {
            self.ppu.bgcnt[3]
        } else if addr == 0x010 {
            self.ppu.bghofs[0]
        } else if addr == 0x012 {
            self.ppu.bgvofs[0]
        } else if addr == 0x014 {
            self.ppu.bghofs[1]
        } else if addr == 0x016 {
            self.ppu.bgvofs[1]
        } else if addr == 0x018 {
            self.ppu.bghofs[2]
        } else if addr == 0x01A {
            self.ppu.bgvofs[2]
        } else if addr == 0x01C {
            self.ppu.bghofs[3]
        } else if addr == 0x01E {
            self.ppu.bgvofs[3]
        } else if addr == 0x040 {
            self.ppu.win0h
        } else if addr == 0x042 {
            self.ppu.win1h
        } else if addr == 0x044 {
            self.ppu.win0v
        } else if addr == 0x046 {
            self.ppu.win1v
        } else if addr == 0x048 {
            self.ppu.winin
        } else if addr == 0x04A {
            self.ppu.winout
        } else if addr == 0x04C {
            self.ppu.mosaic
        } else if addr == 0x050 {
            self.ppu.bldcnt
        } else if addr == 0x052 {
            self.ppu.bldalpha
        } else if addr == 0x054 {
            self.ppu.bldy
        } else if addr == 0x060 || addr == 0x062 || addr == 0x064 || addr == 0x068 || addr
            == 0x06C || addr == 0x070 || addr == 0x072 || addr == 0x074 || addr == 0x078 || addr
            == 0x07C || addr == 0x080 || addr == 0x082 || addr == 0x084 || addr == 0x088 || (0x090
            <= addr && addr <= 0x09E) {
            self.apu.read_reg(addr)
        } else if 0x0B0 <= addr && addr <= 0x0DE {
            self.dma.read_reg(addr)
        } else if addr == 0x100 {
            self.timers.read_counter(0)
        } else if addr == 0x102 {
            self.timers.read_control(0)
        } else if addr == 0x104 {
            self.timers.read_counter(1)
        } else if addr == 0x106 {
            self.timers.read_control(1)
        } else if addr == 0x108 {
            self.timers.read_counter(2)
        } else if addr == 0x10A {
            self.timers.read_control(2)
        } else if addr == 0x10C {
            self.timers.read_counter(3)
        } else if addr == 0x10E {
            self.timers.read_control(3)
        } else if addr == 0x130 {
            self.keyinput
        } else if addr == 0x132 {
            from_le16(self.io_regs[0x132], self.io_regs[0x133])
        } else if addr == 0x200 {
            self.ie
        } else if addr == 0x202 {
            self.if_
        } else if addr == 0x204 {
            self.waitcnt
        } else if addr == 0x208 {
            if self.ime {
                1
            } else {
                0
            }
        } else if addr == 0x300 {
            self.post_boot as u16
        } else {
            let idx = (addr & 0x3FE) as usize;
            if idx + 1 < self.io_regs.len() {
                from_le16(self.io_regs[idx], self.io_regs[idx + 1])
            } else {
                0
            }
        }
    }

    pub fn io_read8(&self, addr: u32) -> (r: u8)
        requires
            self@.wf(),
        ensures
            r == io_read8_spec(self@, addr),
    {
        let val16 = self.io_read16(addr & !1);
        if addr & 1 == 0 {
            val16 as u8
        } else {
            (val16 >> 8) as u8
        }
    }

    pub fn read8(&mut self, addr: u32) -> (r: u8)
        requires
            old(self)@.wf(),
        ensures
            r == read8_value(old(self)@, addr),
            final(self)@ == read8_effect(old(self)@, addr),
            final(self)@.wf(),
            old(self).data_wait_cycles <= 0xF000_0000 ==> waits_within(old(self)@, final(self)@, 1),
            same_timing(old(self)@, final(self)@),
    {
        let ghost b0 = self@;
        let val = self.read8_pure(addr);
        self.add_data_wait(addr, 1);
        if addr < 0x4000 {
            proof {
                lemma_aligned_offsets(addr);
            }
            self.bios_latch = (self.bios_latch & 0xFFFFFF00) | val as u32;
        } else {
            assert(!(region(addr) == 0 && addr < 0x4000));
        }
        val
    }

    fn read8_pure(&self, addr: u32) -> (r: u8)
        requires
            self@.wf(),
        ensures
            r == read8_value(self@, addr),
    {
        let region = (addr >> 24) & 0xFF;
        if region == 0x00 {
            if addr < 0x4000 {
                self.bios[(addr & 0x3FFF) as usize]
            } else {
                (self.bios_latch >> ((addr & 3) * 8)) as u8
            }
        } else if region == 0x02 {
            self.ewram[(addr & 0x3FFFF) as usize]
        } else if region == 0x03 {
            self.iwram[(addr & 0x7FFF) as usize]
        } else if region == 0x04 {
            self.io_read8(addr & 0xFFF)
        } else if region == 0x05 {
            self.palette[(addr & 0x3FF) as usize]
        } else if region == 0x06 {
            self.vram[vram_mirror(addr)]
        } else if region == 0x07 {
            self.oam[(addr & 0x3FF) as usize]
        } else if 0x08 <= region && region <= 0x0D {
            let offset = (addr & 0x01FF_FFFF) as usize;
            if offset < self.rom.len() {
                self.rom[offset]
            } else {
                0
            }
        } else if region == 0x0E || region == 0x0F {
            self.sram[(addr & 0xFFFF) as usize]
        } else {
            0
        }
    }
}

fn waitcnt_n_exec(w: u16, shift: u16) -> (r: u32)
    requires
        shift < 16,
    ensures
        r == waitcnt_n(w, shift),
        2 <= r <= 9,
{
    let k = (w >> shift) & 3;
    1 + if k == 0 {
        4
    } else if k == 1 {
        3
    } else if k == 2 {
        2
    } else {
        8
    }
}


/// Bounds of the offsets that aligned accesses use in each memory.
pub proof fn lemma_aligned_offsets(addr: u32)
    ensures
        ((addr & !1u32) & 0x3FFFF) + 1 < 0x40000,
        ((addr & !1u32) & 0x7FFF) + 1 < 0x8000,
        ((addr & !1u32) & 0x3FF) + 1 < 0x400,
        ((addr & !1u32) & 0x3FFF) + 1 < 0x4000,
        vram_mirror_spec(addr & !1u32) + 1 < 0x18000,
        ((addr & !3u32) & 0x3FFFF) + 3 < 0x40000,
        ((addr & !3u32) & 0x7FFF) + 3 < 0x8000,
        ((addr & !3u32) & 0x3FF) + 3 < 0x400,
        ((addr & !3u32) & 0x3FFF) + 3 < 0x4000,
        vram_mirror_spec(addr & !3u32) + 3 < 0x18000,
        (addr & 0x3FE) + 1 < 0x400,
        (addr & 0x3FE) & 1 == 0,
        (addr & !1u32) & 0x3FE == (addr & 0x3FE),
        (addr & 0x3FE) <= 0x3FE,
        addr < 0x4000 ==> region(addr) == 0,
        (addr & !1u32) < 0x4000 ==> region(addr & !1u32) == 0,
        (addr & !3u32) < 0x4000 ==> region(addr & !3u32) == 0,
        region(addr & !1u32) == region(addr),
        region(addr & !3u32) == region(addr),
        (addr & !1u32) & 0xFFF == (addr & 0xFFF) & !1u32,
        (addr & 1 == 0) ==> addr & !1u32 == addr,
        (addr & 3 == 0) ==> addr & !3u32 == addr,
        (addr & !1u32) & 1 == 0,
        (addr & !1u32) & !1u32 == addr & !1u32,
        (addr & !3u32) & 3 == 0,
        (addr & !3u32) & !3u32 == addr & !3u32,
{
    assert({
        &&& ((addr & !1u32) & 0x3FFFF) + 1 < 0x40000
        &&& ((addr & !1u32) & 0x7FFF) + 1 < 0x8000
        &&& ((addr & !1u32) & 0x3FF) + 1 < 0x400
        &&& ((addr & !1u32) & 0x3FFF) + 1 < 0x4000
        &&& vram_mirror_spec(addr & !1u32) + 1 < 0x18000
        &&& ((addr & !3u32) & 0x3FFFF) + 3 < 0x40000
        &&& ((addr & !3u32) & 0x7FFF) + 3 < 0x8000
        &&& ((addr & !3u32) & 0x3FF) + 3 < 0x400
        &&& ((addr & !3u32) & 0x3FFF) + 3 < 0x4000
        &&& vram_mirror_spec(addr & !3u32) + 3 < 0x18000
        &&& (addr & 0x3FE) + 1 < 0x400
        &&& (addr & 0x3FE) & 1 == 0
        &&& (addr & !1u32) & 0x3FE == (addr & 0x3FE)
        &&& (addr & 0x3FE) <= 0x3FE
        &&& (addr < 0x4000 ==> region(addr) == 0)
        &&& ((addr & !1u32) < 0x4000 ==> region(addr & !1u32) == 0)
        &&& ((addr & !3u32) < 0x4000 ==> region(addr & !3u32) == 0)
        &&& region(addr & !1u32) == region(addr)
        &&& region(addr & !3u32) == region(addr)
        &&& (addr & !1u32) & 0xFFF == (addr & 0xFFF) & !1u32
        &&& ((addr & 1 == 0) ==> addr & !1u32 == addr)
        &&& ((addr & 3 == 0) ==> addr & !3u32 == addr)
        &&& (addr & !1u32) & 1 == 0
        &&& (addr & !1u32) & !1u32 == addr & !1u32
        &&& (addr & !3u32) & 3 == 0
        &&& (addr & !3u32) & !3u32 == addr & !3u32
    }) by (bit_vector);
}

impl Bus {
    fn read16_pure(&self, addr: u32) -> (r: u16)
        requires
            self@.wf(),
            addr & 1 == 0,
        ensures
            r == read16_value(self@, addr),
    {
        proof {
            lemma_aligned_offsets(addr);
        }
        let region = (addr >> 24) & 0xFF;
        if region == 0x00 {
            if addr < 0x4000 {
                let idx = (addr & 0x3FFF) as usize;
                from_le16(self.bios[idx], self.bios[idx + 1])
            } else {
                (self.bios_latch >> ((addr & 2) * 8)) as u16
            }
        } else if region == 0x02 {
            let idx = (addr & 0x3FFFF) as usize;
            from_le16(self.ewram[idx], self.ewram[idx + 1])
        } else if region == 0x03 {
            let idx = (addr & 0x7FFF) as usize;
            from_le16(self.iwram[idx], self.iwram[idx + 1])
        } else if region == 0x04 {
            self.io_read16(addr & 0xFFF)
        } else if region == 0x05 {
            let idx = (addr & 0x3FF) as usize;
            from_le16(self.palette[idx], self.palette[idx + 1])
        } else if region == 0x06 {
            let a = vram_mirror(addr);
            from_le16(self.vram[a], self.vram[a + 1])
        } else if region == 0x07 {
            let idx = (addr & 0x3FF) as usize;
            from_le16(self.oam[idx], self.oam[idx + 1])
        } else if 0x08 <= region && region <= 0x0D {
            let offset = (addr & 0x01FF_FFFF) as usize;
            if offset + 1 < self.rom.len() {
                from_le16(self.rom[offset], self.rom[offset + 1])
            } else {
                0
            }
        } else if region == 0x0E || region == 0x0F {
            let b = self.sram[(addr & 0xFFFF) as usize];
            from_le16(b, b)
        } else {
            0
        }
    }

    pub fn read16(&mut self, addr: u32) -> (r: u16)
        requires
            old(self)@.wf(),
        ensures
            r == read16_value(old(self)@, addr),
            final(self)@ == read16_effect(old(self)@, addr),
            final(self)@.wf(),
            old(self).data_wait_cycles <= 0xF000_0000 ==> waits_within(old(self)@, final(self)@, 1),
            same_timing(old(self)@, final(self)@),
    {
        let addr0 = addr;
        let addr = addr & !1;
        proof {
            lemma_aligned_offsets(addr0);
        }
        let val = self.read16_pure(addr);
        self.add_data_wait(addr, 2);
        if addr < 0x4000 {
            self.bios_latch = val as u32 | ((val as u32) << 16);
        }
        val
    }

    fn read32_pure(&self, addr: u32) -> (r: u32)
        requires
            self@.wf(),
            addr & 3 == 0,
        ensures
            r == read32_value(self@, addr),
    {
        proof {
            lemma_aligned_offsets(addr);
        }
        let region = (addr >> 24) & 0xFF;
        if region == 0x00 {
            if addr < 0x4000 {
                let idx = (addr & 0x3FFF) as usize;
                from_le32(self.bios[idx], self.bios[idx + 1], self.bios[idx + 2], self.bios[idx + 3])
            } else {
                self.bios_latch
            }
        } else if region == 0x02 {
            let idx = (addr & 0x3FFFF) as usize;
            from_le32(self.ewram[idx], self.ewram[idx + 1], self.ewram[idx + 2], self.ewram[idx + 3])
        } else if region == 0x03 {
            let idx = (addr & 0x7FFF) as usize;
            from_le32(self.iwram[idx], self.iwram[idx + 1], self.iwram[idx + 2], self.iwram[idx + 3])
        } else if region == 0x04 {
            let lo = self.io_read16(addr & 0xFFF) as u32;
            let hi = self.io_read16((addr & 0xFFF) + 2) as u32;
            lo | (hi << 16)
        } else if region == 0x05 {
            let idx = (addr & 0x3FF) as usize;
            from_le32(
                self.palette[idx],
                self.palette[idx + 1],
                self.palette[idx + 2],
                self.palette[idx + 3],
            )
        } else if region == 0x06 {
            let a = vram_mirror(addr);
            from_le32(self.vram[a], self.vram[a + 1], self.vram[a + 2], self.vram[a + 3])
        } else if region == 0x07 {
            let idx = (addr & 0x3FF) as usize;
            from_le32(self.oam[idx], self.oam[idx + 1], self.oam[idx + 2], self.oam[idx + 3])
        } else if 0x08 <= region && region <= 0x0D {
            let offset = (addr & 0x01FF_FFFF) as usize;
            if offset + 3 < self.rom.len() {
                from_le32(
                    self.rom[offset],
                    self.rom[offset + 1],
                    self.rom[offset + 2],
                    self.rom[offset + 3],
                )
            } else {
                0
            }
        } else if region == 0x0E || region == 0x0F {
            let b = self.sram[(addr & 0xFFFF) as usize];
            from_le32(b, b, b, b)
        } else {
            0
        }
    }

    pub fn read32(&mut self, addr: u32) -> (r: u32)
        requires
            old(self)@.wf(),
        ensures
            r == read32_value(old(self)@, addr),
            final(self)@ == read32_effect(old(self)@, addr),
            final(self)@.wf(),
            old(self).data_wait_cycles <= 0xF000_0000 ==> waits_within(old(self)@, final(self)@, 1),
            same_timing(old(self)@, final(self)@),
    {
        let addr0 = addr;
        let addr = addr & !3;
        proof {
            lemma_aligned_offsets(addr0);
        }
        let val = self.read32_pure(addr);
        self.add_data_wait(addr, 4);
        if addr < 0x4000 {
            self.bios_latch = val;
        }
        val
    }
}


/// An affine background after a write of `val` to its register at offset `reg`
/// (0..0xE): the matrix entries, or a half of a reference point, which also
/// reloads the internal point from the 28-bit value.
pub open spec fn affine_write_spec(a: BgAffine, reg: u32, val: u16) -> BgAffine {
    if reg == 0x0 {
        BgAffine { pa: val as i16, ..a }
    } else if reg == 0x2 {
        BgAffine { pb: val as i16, ..a }
    } else if reg == 0x4 {
        BgAffine { pc: val as i16, ..a }
    } else if reg == 0x6 {
        BgAffine { pd: val as i16, ..a }
    } else if reg == 0x8 || reg == 0xA {
        let x = if reg == 0x8 {
            (a.ref_x & 0xFFFF0000) | (val as u32)
        } else {
            (a.ref_x & 0x0000FFFF) | ((val as u32) << 16u32)
        };
        BgAffine { ref_x: x, internal_x: sext28(x) as i32, ..a }
    } else if reg == 0xC || reg == 0xE {
        let y = if reg == 0xC {
            (a.ref_y & 0xFFFF0000) | (val as u32)
        } else {
            (a.ref_y & 0x0000FFFF) | ((val as u32) << 16u32)
        };
        BgAffine { ref_y: y, internal_y: sext28(y) as i32, ..a }
    } else {
        a
    }
}

/// The display registers that the display unit keeps itself.
pub open spec fn is_ppu_reg(addr: u32) -> bool {
    ||| addr == 0x000
    ||| addr == 0x002
    ||| addr == 0x004
    ||| (0x008 <= addr <= 0x054 && addr % 2 == 0 && addr != 0x04E)
}

/// The display unit after a write of `val` to its register at `addr`.
pub open spec fn ppu_write_spec(p: Ppu, addr: u32, val: u16) -> Ppu {
    if addr == 0x000 {
        Ppu { dispcnt: val, ..p }
    } else if addr == 0x002 {
        Ppu { green_swap: val, ..p }
    } else if addr == 0x004 {
        Ppu { dispstat: (p.dispstat & 0x7) | (val & !0x7u16), ..p }
    } else if 0x008 <= addr <= 0x00E {
        Ppu { bgcnt: vstd::array::spec_array_update(p.bgcnt, (addr - 0x008) / 2, val), ..p }
    } else if 0x010 <= addr <= 0x01E {
        if addr % 4 == 0 {
            Ppu {
                bghofs: vstd::array::spec_array_update(p.bghofs, (addr - 0x010) / 4, val & 0x1FF),
                ..p
            }
        } else {
            Ppu {
                bgvofs: vstd::array::spec_array_update(p.bgvofs, (addr - 0x012) / 4, val & 0x1FF),
                ..p
            }
        }
    } else if 0x020 <= addr <= 0x03E {
        let k = (addr - 0x020) / 0x10;
        Ppu {
            bg_affine: vstd::array::spec_array_update(
                p.bg_affine,
                k,
                affine_write_spec(p.bg_affine@[k], addr & 0xF, val),
            ),
            ..p
        }
    } else if addr == 0x040 {
        Ppu { win0h: val, ..p }
    } else if addr == 0x042 {
        Ppu { win1h: val, ..p }
    } else if addr == 0x044 {
        Ppu { win0v: val, ..p }
    } else if addr == 0x046 {
        Ppu { win1v: val, ..p }
    } else if addr == 0x048 {
        Ppu { winin: val, ..p }
    } else if addr == 0x04A {
        Ppu { winout: val, ..p }
    } else if addr == 0x04C {
        Ppu { mosaic: val, ..p }
    } else if addr == 0x050 {
        Ppu { bldcnt: val, ..p }
    } else if addr == 0x052 {
        Ppu { bldalpha: val, ..p }
    } else if addr == 0x054 {
        Ppu { bldy: val, ..p }
    } else {
        p
    }
}

/// The DMA channels after a write of `val` to `addr`; a write to a control
/// register also examines the channel's enable bit.
pub open spec fn dma_io_write_spec(d: Seq<DmaChannel>, addr: u32, val: u16) -> Seq<DmaChannel> {
    let d1 = dma_write_spec(d, addr, val);
    if addr == 0x0BA || addr == 0x0C6 || addr == 0x0D2 || addr == 0x0DE {
        let ch = (addr - 0x0BA) / 0xC;
        d1.update(ch, enable_spec(d1[ch], ch))
    } else {
        d1
    }
}

/// The timers after a write of `val` to the timer register at `addr`.
pub open spec fn timer_io_write_spec(t: Seq<Timer>, addr: u32, val: u16) -> Seq<Timer> {
    let i = (addr - 0x100) / 4;
    if addr % 4 == 0 {
        t.update(i, Timer { reload: val, ..t[i] })
    } else {
        t.update(i, control_written(t[i], i, val))
    }
}

/// `m` with the two bytes of `v` stored little-endian at `i`.
pub open spec fn store16(m: Seq<u8>, i: int, v: u16) -> Seq<u8> {
    m.update(i, v as u8).update(i + 1, (v >> 8u16) as u8)
}

/// `m` with the four bytes of `v` stored little-endian at `i`.
pub open spec fn store32(m: Seq<u8>, i: int, v: u32) -> Seq<u8> {
    m.update(i, v as u8).update(i + 1, (v >> 8u32) as u8).update(i + 2, (v >> 16u32) as u8).update(
        i + 3,
        (v >> 24u32) as u8,
    )
}

/// The bus after a write of `val` to the 16-bit I/O register at offset `addr`.
pub open spec fn io_write16_spec(b: BusView, addr: u32, val: u16) -> BusView {
    if is_ppu_reg(addr) {
        BusView { ppu: ppu_write_spec(b.ppu, addr, val), ..b }
    } else if 0x060 <= addr <= 0x0A6 {
        BusView { apu: write_reg_spec(b.apu, addr, val), ..b }
    } else if 0x0B0 <= addr <= 0x0DE {
        BusView { dma: dma_io_write_spec(b.dma, addr, val), ..b }
    } else if 0x100 <= addr <= 0x10E && addr % 2 == 0 {
        BusView { timers: timer_io_write_spec(b.timers, addr, val), ..b }
    } else if addr == 0x130 {
        b
    } else if addr == 0x132 {
        BusView { io_regs: store16(b.io_regs, 0x132, val), ..b }
    } else if addr == 0x200 {
        BusView { ie: val, ..b }
    } else if addr == 0x202 {
        BusView { if_: b.if_ & !val, ..b }
    } else if addr == 0x204 {
        BusView {
            waitcnt: val,
            ws_n: seq![waitcnt_n(val, 2), waitcnt_n(val, 5), waitcnt_n(val, 8)],
            ws_s: seq![waitcnt_s(val, 4, 2), waitcnt_s(val, 7, 4), waitcnt_s(val, 10, 8)],
            prefetch: val & 0x4000 != 0,
            ..b
        }
    } else if addr == 0x208 {
        BusView { ime: val & 1 != 0, ..b }
    } else if addr == 0x300 {
        BusView { post_boot: val as u8, halted: if val & 0x80 != 0 { true } else { b.halted }, ..b }
    } else if addr == 0x301 {
        BusView { halted: true, ..b }
    } else {
        let idx = (addr & 0x3FE) as int;
        if idx + 1 < b.io_regs.len() {
            BusView { io_regs: store16(b.io_regs, idx, val), ..b }
        } else {
            b
        }
    }
}

/// The bus after a byte write of `val` to I/O offset `addr`: writing HALTCNT
/// halts; any other byte is merged into its 16-bit register.
pub open spec fn io_write8_spec(b: BusView, addr: u32, val: u8) -> BusView {
    if addr == 0x301 {
        BusView { halted: true, ..b }
    } else {
        let aligned = addr & !1u32;
        let old = io_read16_spec(b, aligned);
        let new_val = if addr & 1 == 0 {
            (old & 0xFF00) | (val as u16)
        } else {
            (old & 0x00FF) | ((val as u16) << 8u16)
        };
        io_write16_spec(b, aligned, new_val)
    }
}

/// The bus after a byte write: the wait states are charged; RAM takes the byte,
/// palette and VRAM take it in both bytes of the half-word, I/O merges it, and
/// the other regions ignore it.
pub open spec fn write8_spec(b0: BusView, addr: u32, val: u8) -> BusView {
    let b = data_wait_spec(b0, addr, 1);
    let r = region(addr);
    if r == 0x02 {
        BusView { ewram: b.ewram.update((addr & 0x3FFFF) as int, val), ..b }
    } else if r == 0x03 {
        BusView { iwram: b.iwram.update((addr & 0x7FFF) as int, val), ..b }
    } else if r == 0x04 {
        io_write8_spec(b, addr & 0xFFF, val)
    } else if r == 0x05 {
        let idx = (addr & 0x3FE) as int;
        BusView { palette: b.palette.update(idx, val).update(idx + 1, val), ..b }
    } else if r == 0x06 {
        let a = ((vram_mirror_spec(addr) as u32) & !1u32) as int;
        BusView { vram: b.vram.update(a, val).update(a + 1, val), ..b }
    } else if r == 0x0E || r == 0x0F {
        BusView { sram: b.sram.update((addr & 0xFFFF) as int, val), ..b }
    } else {
        b
    }
}

/// The bus after a half-word write at `addr0` rounded down to even.
pub open spec fn write16_spec(b0: BusView, addr0: u32, val: u16) -> BusView {
    let addr = addr0 & !1u32;
    let b = data_wait_spec(b0, addr, 2);
    let r = region(addr);
    if r == 0x02 {
        BusView { ewram: store16(b.ewram, (addr & 0x3FFFF) as int, val), ..b }
    } else if r == 0x03 {
        BusView { iwram: store16(b.iwram, (addr & 0x7FFF) as int, val), ..b }
    } else if r == 0x04 {
        io_write16_spec(b, addr & 0xFFF, val)
    } else if r == 0x05 {
        BusView { palette: store16(b.palette, (addr & 0x3FF) as int, val), ..b }
    } else if r == 0x06 {
        BusView { vram: store16(b.vram, vram_mirror_spec(addr), val), ..b }
    } else if r == 0x07 {
        BusView { oam: store16(b.oam, (addr & 0x3FF) as int, val), ..b }
    } else if r == 0x0E || r == 0x0F {
        BusView { sram: b.sram.update((addr & 0xFFFF) as int, val as u8), ..b }
    } else {
        b
    }
}

/// The bus after a word write at `addr0` rounded down to a multiple of four; an
/// I/O word is written as its low half then its high half.
pub open spec fn write32_spec(b0: BusView, addr0: u32, val: u32) -> BusView {
    let addr = addr0 & !3u32;
    let b = data_wait_spec(b0, addr, 4);
    let r = region(addr);
    if r == 0x02 {
        BusView { ewram: store32(b.ewram, (addr & 0x3FFFF) as int, val), ..b }
    } else if r == 0x03 {
        BusView { iwram: store32(b.iwram, (addr & 0x7FFF) as int, val), ..b }
    } else if r == 0x04 {
        io_write16_spec(
            io_write16_spec(b, addr & 0xFFF, val as u16),
            ((addr & 0xFFF) + 2) as u32,
            (val >> 16u32) as u16,
        )
    } else if r == 0x05 {
        BusView { palette: store32(b.palette, (addr & 0x3FF) as int, val), ..b }
    } else if r == 0x06 {
        BusView { vram: store32(b.vram, vram_mirror_spec(addr), val), ..b }
    } else if r == 0x07 {
        BusView { oam: store32(b.oam, (addr & 0x3FF) as int, val), ..b }
    } else if r == 0x0E || r == 0x0F {
        BusView { sram: b.sram.update((addr & 0xFFFF) as int, val as u8), ..b }
    } else {
        b
    }
}

/// A register write to the display unit.
fn ppu_io_write(p: &mut Ppu, addr: u32, val: u16)
    requires
        is_ppu_reg(addr),
    ensures
        *final(p) === ppu_write_spec(*old(p), addr, val),
{
    if addr == 0x000 {
        p.dispcnt = val;
    } else if addr == 0x002 {
        p.green_swap = val;
    } else if addr == 0x004 {
        p.dispstat = (p.dispstat & 0x7) | (val & !0x7);
    } else if 0x008 <= addr && addr <= 0x00E {
        let i = ((addr - 0x008) / 2) as usize;
        p.bgcnt.set(i, val);
        assert(p.bgcnt =~= vstd::array::spec_array_update(old(p).bgcnt, i as int, val));
    } else if 0x010 <= addr && addr <= 0x01E {
        if addr % 4 == 0 {
            let i = ((addr - 0x010) / 4) as usize;
            p.bghofs.set(i, val & 0x1FF);
            assert(p.bghofs =~= vstd::array::spec_array_update(old(p).bghofs, i as int, val & 0x1FF));
        } else {
            let i = ((addr - 0x012) / 4) as usize;
            p.bgvofs.set(i, val & 0x1FF);
            assert(p.bgvofs =~= vstd::array::spec_array_update(old(p).bgvofs, i as int, val & 0x1FF));
        }
    } else if 0x020 <= addr && addr <= 0x03E {
        let k = ((addr - 0x020) / 0x10) as usize;
        let a = affine_write(p.bg_affine[k], addr & 0xF, val);
        p.bg_affine.set(k, a);
        assert(p.bg_affine =~= vstd::array::spec_array_update(old(p).bg_affine, k as int, a));
    } else if addr == 0x040 {
        p.win0h = val;
    } else if addr == 0x042 {
        p.win1h = val;
    } else if addr == 0x044 {
        p.win0v = val;
    } else if addr == 0x046 {
        p.win1v = val;
    } else if addr == 0x048 {
        p.winin = val;
    } else if addr == 0x04A {
        p.winout = val;
    } else if addr == 0x04C {
        p.mosaic = val;
    } else if addr == 0x050 {
        p.bldcnt = val;
    } else if addr == 0x052 {
        p.bldalpha = val;
    } else if addr == 0x054 {
        p.bldy = val;
    }
}

/// A write to a register of an affine background.
fn affine_write(a: BgAffine, reg: u32, val: u16) -> (r: BgAffine)
    ensures
        r == affine_write_spec(a, reg, val),
{
    let mut a = a;
    if reg == 0x0 {
        a.pa = val as i16;
    } else if reg == 0x2 {
        a.pb = val as i16;
    } else if reg == 0x4 {
        a.pc = val as i16;
    } else if reg == 0x6 {
        a.pd = val as i16;
    } else if reg == 0x8 {
        a.ref_x = (a.ref_x & 0xFFFF0000) | val as u32;
        a.internal_x = sign_extend_28(a.ref_x);
    } else if reg == 0xA {
        a.ref_x = (a.ref_x & 0x0000FFFF) | ((val as u32) << 16);
        a.internal_x = sign_extend_28(a.ref_x);
    } else if reg == 0xC {
        a.ref_y = (a.ref_y & 0xFFFF0000) | val as u32;
        a.internal_y = sign_extend_28(a.ref_y);
    } else if reg == 0xE {
        a.ref_y = (a.ref_y & 0x0000FFFF) | ((val as u32) << 16);
        a.internal_y = sign_extend_28(a.ref_y);
    }
    a
}

impl Bus {
    fn timer_io_write(&mut self, addr: u32, val: u16)
        requires
            old(self)@.wf(),
            0x100 <= addr <= 0x10E,
            addr % 2 == 0,
        ensures
            final(self)@ == (BusView { timers: timer_io_write_spec(old(self)@.timers, addr, val), ..old(self)@ }),
            final(self)@.wf(),
    {
        let i = ((addr - 0x100) / 4) as usize;
        if addr % 4 == 0 {
            self.timers.write_reload(i, val);
            assert forall|j: int| 0 <= j < 4 implies #[trigger] self@.timers[j].wf() by {
                assert(old(self)@.timers[j].wf());
            }
        } else {
            self.timers.write_control(i, val);
        }
    }

    fn dma_io_write(&mut self, addr: u32, val: u16)
        requires
            old(self)@.wf(),
            0x0B0 <= addr <= 0x0DE,
        ensures
            final(self)@ == (BusView { dma: dma_io_write_spec(old(self)@.dma, addr, val), ..old(self)@ }),
            final(self)@.wf(),
    {
        self.dma.write_reg(addr, val);
        if addr == 0x0BA || addr == 0x0C6 || addr == 0x0D2 || addr == 0x0DE {
            let ch = ((addr - 0x0BA) / 0xC) as usize;
            if ch < 4 {
                self.dma.check_enable(ch);
            }
        }
    }

    fn control_io_write(&mut self, addr: u32, val: u16)
        requires
            old(self)@.wf(),
            !is_ppu_reg(addr),
            !(0x060 <= addr <= 0x0A6),
            !(0x0B0 <= addr <= 0x0DE),
            !(0x100 <= addr <= 0x10E && addr % 2 == 0),
        ensures
            final(self)@ == io_write16_spec(old(self)@, addr, val),
            final(self)@.wf(),
            final(self).data_wait_cycles == old(self).data_wait_cycles,
            final(self).write_wait_cycles == old(self).write_wait_cycles,
            same_timing(old(self)@, final(self)@),
    {
        if addr == 0x130 {
        } else if addr == 0x132 {
            self.io_regs.set(0x132, val as u8);
            self.io_regs.set(0x133, (val >> 8) as u8);
        } else if addr == 0x200 {
            self.ie = val;
        } else if addr == 0x202 {
            self.if_ = self.if_ & !val;
        } else if addr == 0x204 {
            self.waitcnt = val;
            self.update_waitcnt();
            self.prefetch = val & 0x4000 != 0;
        } else if addr == 0x208 {
            self.ime = val & 1 != 0;
        } else if addr == 0x300 {
            self.post_boot = val as u8;
            if val & 0x80 != 0 {
                self.halted = true;
            }
        } else if addr == 0x301 {
            self.halted = true;
        } else {
            let idx = (addr & 0x3FE) as usize;
            if idx + 1 < self.io_regs.len() {
                self.io_regs.set(idx, val as u8);
                self.io_regs.set(idx + 1, (val >> 8) as u8);
            }
        }
    }

    /// A write of `val` to the 16-bit I/O register at offset `addr`.
    pub fn io_write16(&mut self, addr: u32, val: u16)
        requires
            old(self)@.wf(),
        ensures
            final(self)@ == io_write16_spec(old(self)@, addr, val),
            final(self)@.wf(),
    {
        if addr == 0x000 || addr == 0x002 || addr == 0x004 || (0x008 <= addr && addr <= 0x054
            && addr % 2 == 0 && addr != 0x04E) {
            ppu_io_write(&mut self.ppu, addr, val);
        } else if 0x060 <= addr && addr <= 0x0A6 {
            self.apu.write_reg(addr, val);
        } else if 0x0B0 <= addr && addr <= 0x0DE {
            self.dma_io_write(addr, val);
        } else if 0x100 <= addr && addr <= 0x10E && addr % 2 == 0 {
            self.timer_io_write(addr, val);
        } else {
            self.control_io_write(addr, val);
        }
    }

    /// A byte write of `val` to I/O offset `addr`.
    pub fn io_write8(&mut self, addr: u32, val: u8)
        requires
            old(self)@.wf(),
        ensures
            final(self)@ == io_write8_spec(old(self)@, addr, val),
            final(self)@.wf(),
            final(self).data_wait_cycles == old(self).data_wait_cycles,
            final(self).write_wait_cycles == old(self).write_wait_cycles,
            same_timing(old(self)@, final(self)@),
    {
        if addr == 0x301 {
            self.halted = true;
            return;
        }
        let aligned = addr & !1;
        let old = self.io_read16(aligned);
        let new_val = if addr & 1 == 0 {
            (old & 0xFF00) | val as u16
        } else {
            (old & 0x00FF) | ((val as u16) << 8)
        };
        self.io_write16(aligned, new_val);
    }
}


impl Bus {
    #[verifier::spinoff_prover]
    #[verifier::rlimit(60)]
    pub fn write8(&mut self, addr: u32, val: u8)
        requires
            old(self)@.wf(),
        ensures
            final(self)@ == write8_spec(old(self)@, addr, val),
            final(self)@.wf(),
            old(self).data_wait_cycles <= 0xF000_0000 ==> waits_within(old(self)@, final(self)@, 1),
            same_timing(old(self)@, final(self)@),
    {
        proof {
            lemma_aligned_offsets(addr);
        }
        self.add_data_wait(addr, 1);
        let region = (addr >> 24) & 0xFF;
        if region == 0x02 {
            self.ewram.set((addr & 0x3FFFF) as usize, val);
        } else if region == 0x03 {
            self.iwram.set((addr & 0x7FFF) as usize, val);
        } else if region == 0x04 {
            self.io_write8(addr & 0xFFF, val);
        } else if region == 0x05 {
            let idx = (addr & 0x3FE) as usize;
            self.palette.set(idx, val);
            self.palette.set(idx + 1, val);
        } else if region == 0x06 {
            let m = vram_mirror(addr) as u32;
            proof {
                assert(m < 0x18000 ==> (m & !1u32) + 1 < 0x18000) by (bit_vector);
            }
            let a = (m & !1) as usize;
            self.vram.set(a, val);
            self.vram.set(a + 1, val);
        } else if region == 0x0E || region == 0x0F {
            self.sram.set((addr & 0xFFFF) as usize, val);
        }
    }

    fn add_write_wait(&mut self, addr: u32, size: u32)
        ensures
            *final(self) == *old(self),
    {
        let _ = addr;
        let _ = size;
    }

    fn store16_at(m: &mut Vec<u8>, idx: usize, val: u16)
        requires
            idx + 1 < old(m).len(),
        ensures
            final(m)@ == store16(old(m)@, idx as int, val),
    {
        m.set(idx, val as u8);
        m.set(idx + 1, (val >> 8) as u8);
    }

    fn store32_at(m: &mut Vec<u8>, idx: usize, val: u32)
        requires
            idx + 3 < old(m).len(),
        ensures
            final(m)@ == store32(old(m)@, idx as int, val),
    {
        m.set(idx, val as u8);
        m.set(idx + 1, (val >> 8) as u8);
        m.set(idx + 2, (val >> 16) as u8);
        m.set(idx + 3, (val >> 24) as u8);
    }

    #[verifier::spinoff_prover]
    #[verifier::rlimit(60)]
    pub fn write16(&mut self, addr: u32, val: u16)
        requires
            old(self)@.wf(),
        ensures
            final(self)@ == write16_spec(old(self)@, addr, val),
            final(self)@.wf(),
            old(self).data_wait_cycles <= 0xF000_0000 ==> waits_within(old(self)@, final(self)@, 1),
            same_timing(old(self)@, final(self)@),
    {
        proof {
            lemma_aligned_offsets(addr);
        }
        let addr = addr & !1;
        self.add_data_wait(addr, 2);
        self.add_write_wait(addr, 2);
        let region = (addr >> 24) & 0xFF;
        if region == 0x02 {
            Self::store16_at(&mut self.ewram, (addr & 0x3FFFF) as usize, val);
        } else if region == 0x03 {
            Self::store16_at(&mut self.iwram, (addr & 0x7FFF) as usize, val);
        } else if region == 0x04 {
            self.io_write16(addr & 0xFFF, val);
        } else if region == 0x05 {
            Self::store16_at(&mut self.palette, (addr & 0x3FF) as usize, val);
        } else if region == 0x06 {
            let a = vram_mirror(addr);
            Self::store16_at(&mut self.vram, a, val);
        } else if region == 0x07 {
            Self::store16_at(&mut self.oam, (addr & 0x3FF) as usize, val);
        } else if region == 0x0E || region == 0x0F {
            self.sram.set((addr & 0xFFFF) as usize, val as u8);
        }
    }

    #[verifier::spinoff_prover]
    #[verifier::rlimit(60)]
    pub fn write32(&mut self, addr: u32, val: u32)
        requires
            old(self)@.wf(),
        ensures
            final(self)@ == write32_spec(old(self)@, addr, val),
            final(self)@.wf(),
            old(self).data_wait_cycles <= 0xF000_0000 ==> waits_within(old(self)@, final(self)@, 1),
            same_timing(old(self)@, final(self)@),
    {
        proof {
            lemma_aligned_offsets(addr);
        }
        let addr = addr & !3;
        self.add_data_wait(addr, 4);
        self.add_write_wait(addr, 4);
        let region = (addr >> 24) & 0xFF;
        if region == 0x02 {
            Self::store32_at(&mut self.ewram, (addr & 0x3FFFF) as usize, val);
        } else if region == 0x03 {
            Self::store32_at(&mut self.iwram, (addr & 0x7FFF) as usize, val);
        } else if region == 0x04 {
            self.io_write16(addr & 0xFFF, val as u16);
            self.io_write16((addr & 0xFFF) + 2, (val >> 16) as u16);
        } else if region == 0x05 {
            Self::store32_at(&mut self.palette, (addr & 0x3FF) as usize, val);
        } else if region == 0x06 {
            let a = vram_mirror(addr);
            Self::store32_at(&mut self.vram, a, val);
        } else if region == 0x07 {
            Self::store32_at(&mut self.oam, (addr & 0x3FF) as usize, val);
        } else if region == 0x0E || region == 0x0F {
            self.sram.set((addr & 0xFFFF) as usize, val as u8);
        }
    }
}


/// The cycles the prefetch pipeline stalls before fetching at `pc`: after a
/// branch, or with the prefetch buffer on, or outside cartridge ROM, none;
/// otherwise what is left of the sequential fetch time after the previous
/// instruction's cycles.
pub open spec fn pipeline_stall_spec(b: BusView, pc: u32, is_thumb: bool) -> u32 {
    let r = (pc >> 24u32) & 0xF;
    if b.prev_was_branch || !(0x08 <= r <= 0x0D) || b.prefetch {
        0
    } else {
        let s = b.ws_s[ws_index(r)];
        let fetch: int = if is_thumb { s as int } else { s + s };
        if b.prev_exec_cycles >= fetch { 0 } else { (fetch - b.prev_exec_cycles) as u32 }
    }
}

/// The extra cycles of a sequential code fetch at `pc` from cartridge ROM
/// without the prefetch buffer.
pub open spec fn rom_seq_fetch_extra_spec(b: BusView, pc: u32, is_thumb: bool) -> u32 {
    let r = (pc >> 24u32) & 0xF;
    if !(0x08 <= r <= 0x0D) || b.prefetch {
        0
    } else {
        let s = b.ws_s[ws_index(r)];
        if is_thumb { (s - 1) as u32 } else { (2 * s - 1) as u32 }
    }
}

/// The cycles to refill the pipeline after a branch to `target`.
pub open spec fn branch_refill_spec(target: u32, is_thumb: bool) -> u32 {
    let r = (target >> 24u32) & 0xF;
    if 0x08 <= r <= 0x0D {
        if is_thumb { 2 } else { 4 }
    } else {
        0
    }
}

/// The extra cycles of a code fetch at `pc`: cartridge ROM pays its wait states
/// (a branch pays the non-sequential ones, twice over without the prefetch
/// buffer), EWRAM pays a fixed cost, other regions none.
pub open spec fn code_fetch_extra_spec(b: BusView, pc: u32, is_thumb: bool, is_branch: bool) -> u32 {
    let r = (pc >> 24u32) & 0xF;
    if 0x08 <= r <= 0x0D {
        let n = b.ws_n[ws_index(r)] - 1;
        let s = b.ws_s[ws_index(r)] - 1;
        if b.prefetch && !is_branch {
            0
        } else if is_thumb {
            if is_branch {
                if b.prefetch { n as u32 } else { (2 * s + n) as u32 }
            } else {
                s as u32
            }
        } else {
            if is_branch {
                if b.prefetch { (n + s) as u32 } else { (2 * (n + s) + n + s) as u32 }
            } else {
                (n + s) as u32
            }
        }
    } else if r == 0x02 {
        if is_thumb {
            if is_branch { 6 } else { 2 }
        } else {
            if is_branch { 16 } else { 4 }
        }
    } else {
        0
    }
}

/// The first active DMA channel, if any.
pub open spec fn first_active(d: Seq<DmaChannel>) -> Option<int> {
    if d[0].active {
        Some(0)
    } else if d[1].active {
        Some(1)
    } else if d[2].active {
        Some(2)
    } else if d[3].active {
        Some(3)
    } else {
        None
    }
}

/// An address after one DMA unit, by its address control: up, down, fixed, or
/// (3) up.
pub open spec fn dma_step(a: u32, ctrl: u32, width: u32) -> u32 {
    if ctrl == 1 {
        wrap32(a - width)
    } else if ctrl == 2 {
        a
    } else {
        wrap32(a + width)
    }
}

/// The bus after one DMA unit is moved from `src` to `dst`.
pub open spec fn dma_unit(b: BusView, src: u32, dst: u32, is32: bool) -> BusView {
    if is32 {
        write32_spec(read32_effect(b, src), dst, read32_value(b, src))
    } else {
        write16_spec(read16_effect(b, src), dst, read16_value(b, src))
    }
}

/// The bus and the final source and destination after `n` DMA units.
pub open spec fn dma_units(b: BusView, src: u32, dst: u32, n: nat, is32: bool, sc: u32, dc: u32) -> (BusView, u32, u32)
    decreases n,
{
    if n == 0 {
        (b, src, dst)
    } else {
        let w: u32 = if is32 { 4 } else { 2 };
        dma_units(dma_unit(b, src, dst, is32), dma_step(src, sc, w), dma_step(dst, dc, w), (n - 1) as nat, is32, sc, dc)
    }
}

/// The DMA interrupt request bit of channel `ch`.
pub open spec fn dma_irq_bit(ch: int) -> u16 {
    if ch == 0 {
        0x100
    } else if ch == 1 {
        0x200
    } else if ch == 2 {
        0x400
    } else {
        0x800
    }
}

/// A channel once its transfer is done, having stopped at source `s` and
/// destination `d`: it either reloads its count (repeating and not immediate,
/// reloading the destination when its control `dc` is 3) or turns itself off.
pub open spec fn dma_finish(c1: DmaChannel, ch: int, s: u32, d: u32, dc: u32) -> DmaChannel {
    let c2 = DmaChannel { internal_src: s, internal_dst: d, internal_count: 0, active: false, ..c1 };
    if c2.cnt & 0x200 != 0 && (c2.cnt >> 12u16) & 3 != 0 {
        DmaChannel {
            internal_dst: if dc == 3 { c2.dst } else { c2.internal_dst },
            internal_count: if c2.count == 0 { max_count(ch) } else { c2.count as u32 },
            ..c2
        }
    } else {
        DmaChannel { cnt: c2.cnt & !0x8000u16, ..c2 }
    }
}

/// The bus after the first active DMA channel runs its whole transfer, and the
/// cycles it took (two per unit, at least one): the channel stops, keeps its
/// addresses, is finished as [`dma_finish`] says, and raises its interrupt when
/// that is enabled.
pub open spec fn run_dma_spec(b: BusView) -> (BusView, u32) {
    match first_active(b.dma) {
        None => (b, 1),
        Some(ch) => {
            let c = b.dma[ch];
            let is32 = c.cnt & 0x400 != 0;
            let sc = ((c.cnt >> 7u16) & 3) as u32;
            let dc = ((c.cnt >> 5u16) & 3) as u32;
            let (b1, s, d) = dma_units(b, c.internal_src, c.internal_dst, c.internal_count as nat, is32, sc, dc);
            let c3 = dma_finish(b1.dma[ch], ch, s, d, dc);
            let if2 = if c3.cnt & 0x4000 != 0 { b1.if_ | dma_irq_bit(ch) } else { b1.if_ };
            (
                BusView { dma: b1.dma.update(ch, c3), if_: if2, ..b1 },
                if c.internal_count == 0 { 1 } else { (2 * c.internal_count) as u32 },
            )
        },
    }
}

fn dma_finish_exec(c1: DmaChannel, ch: usize, s: u32, d: u32, dc: u32) -> (r: DmaChannel)
    requires
        ch < 4,
    ensures
        r == dma_finish(c1, ch as int, s, d, dc),
{
    let mut c2 = c1;
    c2.internal_src = s;
    c2.internal_dst = d;
    c2.internal_count = 0;
    c2.active = false;
    if c2.cnt & 0x200 != 0 && (c2.cnt >> 12) & 3 != 0 {
        if dc == 3 {
            c2.internal_dst = c2.dst;
        }
        c2.internal_count = if c2.count == 0 {
            if ch == 3 {
                0x10000
            } else {
                0x4000
            }
        } else {
            c2.count as u32
        };
    } else {
        c2.cnt = c2.cnt & !0x8000;
    }
    c2
}

fn dma_step_exec(a: u32, ctrl: u32, width: u32) -> (r: u32)
    ensures
        r == dma_step(a, ctrl, width),
{
    if ctrl == 1 {
        a.wrapping_sub(width)
    } else if ctrl == 2 {
        a
    } else {
        a.wrapping_add(width)
    }
}

impl Bus {
    pub fn pipeline_stall(&self, pc: u32, is_thumb: bool) -> (r: u32)
        requires
            self@.wf(),
        ensures
            r == pipeline_stall_spec(self@, pc, is_thumb),
    {
        if self.prev_was_branch {
            return 0;
        }
        let region = (pc >> 24) & 0xF;
        if 0x08 <= region && region <= 0x0D {
            if self.prefetch {
                return 0;
            }
            let i: usize = if region == 0x08 || region == 0x09 {
                0
            } else if region == 0x0A || region == 0x0B {
                1
            } else {
                2
            };
            let fetch_time = if is_thumb { self.ws_s[i] } else { self.ws_s[i] + self.ws_s[i] };
            if self.prev_exec_cycles >= fetch_time {
                0
            } else {
                fetch_time - self.prev_exec_cycles
            }
        } else {
            0
        }
    }

    pub fn rom_seq_fetch_extra(&self, pc: u32, is_thumb: bool) -> (r: u32)
        requires
            self@.wf(),
        ensures
            r == rom_seq_fetch_extra_spec(self@, pc, is_thumb),
    {
        let region = (pc >> 24) & 0xF;
        if 0x08 <= region && region <= 0x0D {
            if self.prefetch {
                return 0;
            }
            let i: usize = if region == 0x08 || region == 0x09 {
                0
            } else if region == 0x0A || region == 0x0B {
                1
            } else {
                2
            };
            if is_thumb {
                self.ws_s[i] - 1
            } else {
                2 * self.ws_s[i] - 1
            }
        } else {
            0
        }
    }

    pub fn branch_refill_cycles(&self, target: u32, is_thumb: bool) -> (r: u32)
        ensures
            r == branch_refill_spec(target, is_thumb),
    {
        let region = (target >> 24) & 0xF;
        if 0x08 <= region && region <= 0x0D {
            if is_thumb {
                2
            } else {
                4
            }
        } else {
            0
        }
    }

    pub fn code_fetch_extra(&self, pc: u32, is_thumb: bool, is_branch: bool) -> (r: u32)
        requires
            self@.wf(),
        ensures
            r == code_fetch_extra_spec(self@, pc, is_thumb, is_branch),
            r <= 48,
    {
        let region = (pc >> 24) & 0xF;
        if 0x08 <= region && region <= 0x0D {
            let i: usize = if region == 0x08 || region == 0x09 {
                0
            } else if region == 0x0A || region == 0x0B {
                1
            } else {
                2
            };
            if self.prefetch && !is_branch {
                return 0;
            }
            let n = self.ws_n[i] - 1;
            let s = self.ws_s[i] - 1;
            if is_thumb {
                if is_branch {
                    if self.prefetch {
                        n
                    } else {
                        2 * s + n
                    }
                } else {
                    s
                }
            } else {
                if is_branch {
                    if self.prefetch {
                        n + s
                    } else {
                        2 * (n + s) + n + s
                    }
                } else {
                    n + s
                }
            }
        } else if region == 0x02 {
            if is_thumb {
                if is_branch {
                    6
                } else {
                    2
                }
            } else {
                if is_branch {
                    16
                } else {
                    4
                }
            }
        } else {
            0
        }
    }

    pub fn dma_active(&self) -> (r: bool)
        ensures
            r == exists|i: int| 0 <= i < 4 && #[trigger] self@.dma[i].active,
    {
        assert(self@.dma == self.dma.channels@);
        self.dma.any_active()
    }

    /// The BIOS calls that are served without running BIOS code: none.
    pub fn bios_hle(&mut self, swi_num: u32, cpu: &mut Cpu) -> (r: bool)
        ensures
            !r,
            *final(self) == *old(self),
            *final(cpu) == *old(cpu),
    {
        let _ = swi_num;
        let _ = cpu;
        false
    }

    fn dma_move_unit(&mut self, src: u32, dst: u32, is32: bool)
        requires
            old(self)@.wf(),
        ensures
            final(self)@ == dma_unit(old(self)@, src, dst, is32),
            final(self)@.wf(),
            same_timing(old(self)@, final(self)@),
    {
        if is32 {
            let val = self.read32(src);
            self.write32(dst, val);
        } else {
            let val = self.read16(src);
            self.write16(dst, val);
        }
    }

    fn dma_transfer(&mut self, src0: u32, dst0: u32, count: u32, is32: bool, sc: u32, dc: u32) -> (r: (u32, u32))
        requires
            old(self)@.wf(),
        ensures
            ({
                let (b, s, d) = dma_units(old(self)@, src0, dst0, count as nat, is32, sc, dc);
                final(self)@ == b && r == (s, d)
            }),
            final(self)@.wf(),
            same_timing(old(self)@, final(self)@),
    {
        let width: u32 = if is32 { 4 } else { 2 };
        let mut src = src0;
        let mut dst = dst0;
        let mut remaining = count;
        while remaining > 0
            invariant
                self@.wf(),
                same_timing(old(self)@, self@),
                width == (if is32 { 4u32 } else { 2u32 }),
                dma_units(self@, src, dst, remaining as nat, is32, sc, dc) == dma_units(
                    old(self)@,
                    src0,
                    dst0,
                    count as nat,
                    is32,
                    sc,
                    dc,
                ),
            decreases remaining,
        {
            let ghost b0 = self@;
            let ghost s0 = src;
            let ghost d0 = dst;
            let ghost n0 = remaining;
            self.dma_move_unit(src, dst, is32);
            src = dma_step_exec(src, sc, width);
            dst = dma_step_exec(dst, dc, width);
            remaining -= 1;
            assert(dma_units(b0, s0, d0, n0 as nat, is32, sc, dc) == dma_units(
                self@,
                src,
                dst,
                remaining as nat,
                is32,
                sc,
                dc,
            ));
        }
        (src, dst)
    }

    /// Runs the whole transfer of the first active DMA channel; returns the
    /// cycles it took.
    #[verifier::spinoff_prover]
    #[verifier::rlimit(60)]
    pub fn run_dma(&mut self) -> (r: u32)
        requires
            old(self)@.wf(),
        ensures
            (final(self)@, r) == run_dma_spec(old(self)@),
            final(self)@.wf(),
            same_timing(old(self)@, final(self)@),
            r >= 1,
            r <= 0x20000,
    {
        let ch: usize = if self.dma.channels[0].active {
            0
        } else if self.dma.channels[1].active {
            1
        } else if self.dma.channels[2].active {
            2
        } else if self.dma.channels[3].active {
            3
        } else {
            return 1;
        };
        let c = self.dma.channels[ch];
        let is32 = c.cnt & 0x400 != 0;
        let sc = ((c.cnt >> 7) & 3) as u32;
        let dc = ((c.cnt >> 5) & 3) as u32;
        let count = c.internal_count;
        let (s, d) = self.dma_transfer(c.internal_src, c.internal_dst, count, is32, sc, dc);
        let c3 = dma_finish_exec(self.dma.channels[ch], ch, s, d, dc);
        self.dma.channels.set(ch, c3);
        if c3.cnt & 0x4000 != 0 {
            let bit: u16 = if ch == 0 {
                0x100
            } else if ch == 1 {
                0x200
            } else if ch == 2 {
                0x400
            } else {
                0x800
            };
            self.if_ = self.if_ | bit;
        }
        proof {
            assert forall|i: int| 0 <= i < 4 implies #[trigger] self@.dma[i].internal_count <= 0x10000 by {
            }
        }
        if count == 0 {
            1
        } else {
            2 * count
        }
    }
}

/// The PPU with new parameters for its two affine backgrounds.
pub open spec fn with_affine(p: Ppu, a0: BgAffine, a1: BgAffine) -> Ppu {
    Ppu {
        bg_affine: vstd::array::spec_array_update(vstd::array::spec_array_update(p.bg_affine, 0, a0), 1, a1),
        ..p
    }
}

/// The frame buffer after screen line `line` is drawn: white during forced
/// blank, otherwise each pixel composed from the layers of that line.
pub open spec fn drawn_line(p: Ppu, line: u16, palette: Seq<u8>, vram: Seq<u8>, oam: Seq<u8>, fb: Seq<u32>) -> Seq<u32> {
    if p.dispcnt & 0x80 != 0 {
        with_row(fb, line, |x: int| 0xFFFF_FFFFu32)
    } else {
        with_row(
            fb,
            line,
            |x: int|
                compose_pixel(
                    p,
                    line,
                    bg_lines_spec(p, line, vram),
                    obj_line_spec(p, line, vram, oam),
                    palette,
                    x,
                ),
        )
    }
}

/// The PPU after it draws a line: unchanged during forced blank, otherwise its
/// affine reference points have moved one line down.
pub open spec fn ppu_after_draw(p: Ppu) -> Ppu {
    if p.dispcnt & 0x80 != 0 {
        p
    } else {
        with_affine(p, affine_after_line(p)[0], affine_after_line(p)[1])
    }
}

/// An affine background whose internal reference point is reloaded from its
/// 28-bit reference registers.
pub open spec fn reloaded(a: BgAffine) -> BgAffine {
    BgAffine { internal_x: sext28(a.ref_x) as i32, internal_y: sext28(a.ref_y) as i32, ..a }
}

/// The PPU at the end of vertical blank.
pub open spec fn ppu_vblank_end(p: Ppu) -> Ppu {
    with_affine(p, reloaded(p.bg_affine@[0]), reloaded(p.bg_affine@[1]))
}

/// The DMA channels after event `t`.
pub open spec fn triggered(d: Seq<DmaChannel>, t: DmaTrigger) -> Seq<DmaChannel> {
    Seq::new(4, |i: int| trigger_spec(d[i], i, t))
}

/// The display status and interrupt requests once the line counter reads
/// `line`: the vblank flag is raised at line 160 (with its interrupt when
/// enabled), cleared at line 0 and held on lines 161 to 226; the match flag
/// follows the compare value (with its interrupt when enabled); the hblank flag
/// clears.
pub open spec fn line_status(ds: u16, if_: u16, line: u16) -> (u16, u16) {
    let d1: u16 = if line == 160 { ds | 1 } else { ds };
    let i1: u16 = if line == 160 && d1 & 8 != 0 { if_ | 1 } else { if_ };
    let d2: u16 = if line == 228 || line == 0 { d1 & !1u16 } else { d1 };
    let d3: u16 = if 160 < line < 227 { d2 | 1 } else { d2 };
    let lyc: u16 = (d3 >> 8u16) | (if d3 & 0x8000 != 0 { 256u16 } else { 0u16 });
    let d4: u16 = if line == lyc { d3 | 4 } else { d3 & !4u16 };
    let i2: u16 = if line == lyc && d4 & 0x20 != 0 { i1 | 4 } else { i1 };
    (d4 & !2u16, i2)
}

/// The bus after the line counter moves on: a visible line is drawn first, the
/// counter wraps to 0 after line 227 (counting a frame and reloading the affine
/// reference points), the display status follows [`line_status`], and VBlank
/// DMA is triggered at line 160.
pub open spec fn advance_spec(b: BusView) -> BusView {
    let line0 = b.current_scanline;
    let p1 = if line0 < 160 { ppu_after_draw(b.ppu) } else { b.ppu };
    let fb1 = if line0 < 160 {
        drawn_line(b.ppu, line0, b.palette, b.vram, b.oam, b.framebuffer)
    } else {
        b.framebuffer
    };
    let wrap = line0 + 1 >= 228;
    let line1: u16 = if wrap { 0 } else { (line0 + 1) as u16 };
    let p2 = if wrap { ppu_vblank_end(p1) } else { p1 };
    let fc: u64 = if wrap { (b.frame_count + 1) as u64 } else { b.frame_count };
    let st = line_status(p2.dispstat, b.if_, line1);
    BusView {
        ppu: Ppu { dispstat: st.0, ..p2 },
        framebuffer: fb1,
        current_scanline: line1,
        frame_count: fc,
        if_: st.1,
        dma: if line1 == 160 { triggered(b.dma, DmaTrigger::VBlank) } else { b.dma },
        ..b
    }
}

/// One sample of sound: the APU steps, and the pair is appended to the output
/// buffer while there is room.
pub open spec fn sample_step(b: BusView) -> BusView {
    let g = generate_sample_spec(b.apu);
    let idx = b.audio_samples_ready * 2;
    if idx + 1 < b.audio_output_buffer.len() {
        BusView {
            apu: g.0,
            audio_output_buffer: b.audio_output_buffer.update(idx, g.1.0).update(idx + 1, g.1.1),
            audio_samples_ready: (b.audio_samples_ready + 1) as usize,
            ..b
        }
    } else {
        BusView { apu: g.0, ..b }
    }
}

/// `n` samples, each one paid for with 512 cycles.
pub open spec fn audio_run(b: BusView, n: nat) -> BusView
    decreases n,
{
    if n == 0 {
        b
    } else {
        audio_run(sample_step(BusView { audio_cycles: (b.audio_cycles - 512) as u32, ..b }), (n - 1) as nat)
    }
}

/// `n` lines, each one paid for with 1232 cycles.
pub open spec fn scan_run(b: BusView, n: nat) -> BusView
    decreases n,
{
    if n == 0 {
        b
    } else {
        scan_run(advance_spec(BusView { scanline_cycles: (b.scanline_cycles - 1232) as u32, ..b }), (n - 1) as nat)
    }
}

/// The timers run for `cycles`; their overflows raise interrupts and feed the
/// sound FIFOs.
pub open spec fn timers_ticked(b: BusView, cycles: u32) -> BusView {
    let t = tick_spec(b.timers, cycles);
    BusView { timers: t.0, if_: b.if_ | overflow_irqs(t.0, t.1), apu: apu_after_overflows(b.apu, t.1), ..b }
}

/// The sound output for `cycles` more cycles.
pub open spec fn audio_spec(b: BusView, cycles: u32) -> BusView {
    let ac = b.audio_cycles + cycles;
    audio_run(BusView { audio_cycles: ac as u32, ..b }, (ac / 512) as nat)
}

/// The lines completed in `cycles` more cycles.
pub open spec fn lines_spec(b: BusView, cycles: u32) -> BusView {
    let sc = b.scanline_cycles + cycles;
    scan_run(BusView { scanline_cycles: sc as u32, ..b }, (sc / 1232) as nat)
}

/// The hblank flag: set from cycle 960 of a line, raising its interrupt (when
/// enabled) and triggering HBlank DMA as it rises on a visible line; clear
/// before.
pub open spec fn hblank_spec(b: BusView) -> BusView {
    let ds = b.ppu.dispstat;
    if b.scanline_cycles >= 960 {
        let p = Ppu { dispstat: ds | 2, ..b.ppu };
        if ds & 2 == 0 && b.current_scanline < 160 {
            BusView {
                ppu: p,
                if_: if (ds | 2) & 0x10 != 0 { b.if_ | 2 } else { b.if_ },
                dma: triggered(b.dma, DmaTrigger::HBlank),
                ..b
            }
        } else {
            BusView { ppu: p, ..b }
        }
    } else {
        BusView { ppu: Ppu { dispstat: ds & !2u16, ..b.ppu }, ..b }
    }
}

/// A halted processor wakes when an enabled interrupt is requested.
pub open spec fn wake_spec(b: BusView) -> BusView {
    if b.halted && b.ie & b.if_ != 0 {
        BusView { halted: false, ..b }
    } else {
        b
    }
}

/// The bus after `cycles` cycles pass.
pub open spec fn bus_tick_spec(b: BusView, cycles: u32) -> BusView {
    wake_spec(hblank_spec(lines_spec(audio_spec(timers_ticked(b, cycles), cycles), cycles)))
}

/// How far into the video timeline the bus is, in cycles from the first frame.
pub open spec fn frame_pos(b: BusView) -> int {
    b.frame_count * 280896 + b.current_scanline * 1232 + b.scanline_cycles
}

/// Well-formed but for the two cycle counters, which may run over while cycles
/// are being paid out.
pub open spec fn wf_but_counters(b: BusView) -> bool {
    BusView { scanline_cycles: 0, audio_cycles: 0, ..b }.wf()
}

/// What a tick needs: a well-formed bus, and room in the counters.
pub open spec fn tick_ok(b: BusView, cycles: u32) -> bool {
    &&& b.wf()
    &&& b.scanline_cycles + cycles <= u32::MAX
    &&& b.audio_cycles + cycles <= u32::MAX
    &&& forall|i: int|
        0 <= i < 4 && #[trigger] b.timers[i].enabled && !b.timers[i].cascade ==> b.timers[i].internal_counter
            + cycles <= u32::MAX
    &&& (frame_pos(b) + cycles) / 280896 <= u64::MAX
}

proof fn lemma_affine_fits(b: BusView)
    requires
        b.wf(),
        b.current_scanline < 160,
    ensures
        render_fits(b.ppu),
{
}

proof fn lemma_scan_run(b: BusView, n: nat)
    requires
        b.scanline_cycles >= 1232 * n,
        b.current_scanline < 228,
        frame_pos(b) / 280896 <= u64::MAX,
    ensures
        frame_pos(scan_run(b, n)) == frame_pos(b),
        scan_run(b, n).scanline_cycles == b.scanline_cycles - 1232 * n,
        scan_run(b, n).current_scanline < 228,
    decreases n,
{
    if n > 0 {
        let b1 = advance_spec(BusView { scanline_cycles: (b.scanline_cycles - 1232) as u32, ..b });
        assert(frame_pos(b1) == frame_pos(b));
        lemma_scan_run(b1, (n - 1) as nat);
    }
}

fn line_status_exec(ds: u16, if_: u16, line: u16) -> (r: (u16, u16))
    ensures
        r == line_status(ds, if_, line),
{
    let mut d = ds;
    let mut i = if_;
    if line == 160 {
        d = d | 1;
        if d & 8 != 0 {
            i = i | 1;
        }
    }
    if line == 228 || line == 0 {
        d = d & !1;
    }
    if line > 160 && line < 227 {
        d = d | 1;
    }
    let lyc: u16 = (d >> 8) | (if d & 0x8000 != 0 { 256 } else { 0 });
    if line == lyc {
        d = d | 4;
        if d & 0x20 != 0 {
            i = i | 4;
        }
    } else {
        d = d & !4;
    }
    (d & !2, i)
}

impl Bus {
    #[verifier::spinoff_prover]
    #[verifier::rlimit(50)]
    fn advance_scanline(&mut self)
        requires
            wf_but_counters(old(self)@),
            old(self).current_scanline == 227 ==> old(self).frame_count < u64::MAX,
        ensures
            final(self)@ == advance_spec(old(self)@),
            wf_but_counters(final(self)@),
    {
        let ghost b0 = self@;
        let old_line = self.current_scanline;
        if old_line < 160 {
            proof {
                lemma_affine_fits(BusView { scanline_cycles: 0, audio_cycles: 0, ..self@ });
            }
            self.ppu.render_scanline(old_line, &self.palette, &self.vram, &self.oam, &mut self.framebuffer);
            proof {
                if b0.ppu.dispcnt & 0x80 == 0 {
                    assert(self.ppu.bg_affine =~= ppu_after_draw(b0.ppu).bg_affine);
                }
            }
            assert(self.ppu == ppu_after_draw(b0.ppu));
        }
        self.current_scanline = self.current_scanline + 1;
        if self.current_scanline >= 228 {
            self.current_scanline = 0;
            self.frame_count = self.frame_count + 1;
            let ghost p1 = self.ppu;
            self.ppu.on_vblank_end();
            proof {
                assert(self.ppu.bg_affine@[0] == reloaded(p1.bg_affine@[0]));
                assert(self.ppu.bg_affine@[1] == reloaded(p1.bg_affine@[1]));
                assert(self.ppu.bg_affine =~= ppu_vblank_end(p1).bg_affine);
            }
        }
        let st = line_status_exec(self.ppu.dispstat, self.if_, self.current_scanline);
        self.ppu.dispstat = st.0;
        self.if_ = st.1;
        if self.current_scanline == 160 {
            self.dma.trigger(DmaTrigger::VBlank);
        }
        assert(self@ =~= advance_spec(b0));
    }

    fn push_sample(&mut self)
        requires
            wf_but_counters(old(self)@),
        ensures
            final(self)@ == sample_step(old(self)@),
            wf_but_counters(final(self)@),
    {
        let (left, right) = self.apu.generate_sample(&self.timers);
        let idx = self.audio_samples_ready * 2;
        if idx + 1 < self.audio_output_buffer.len() {
            self.audio_output_buffer.set(idx, left);
            self.audio_output_buffer.set(idx + 1, right);
            self.audio_samples_ready = self.audio_samples_ready + 1;
        }
    }

    fn generate_audio(&mut self, cycles: u32)
        requires
            old(self)@.wf(),
            old(self).audio_cycles + cycles <= u32::MAX,
        ensures
            final(self)@ == audio_spec(old(self)@, cycles),
            final(self)@.wf(),
            final(self)@.frame_count == old(self)@.frame_count,
            final(self)@.scanline_cycles == old(self)@.scanline_cycles,
            final(self)@.current_scanline == old(self)@.current_scanline,
    {
        self.audio_cycles = self.audio_cycles + cycles;
        let ghost start = self@;
        while self.audio_cycles >= 512
            invariant
                wf_but_counters(self@),
                self.scanline_cycles == start.scanline_cycles,
                self.scanline_cycles < 1232,
                self.frame_count == start.frame_count,
                self.current_scanline == start.current_scanline,
                audio_run(self@, (self.audio_cycles / 512) as nat) == audio_run(
                    start,
                    (start.audio_cycles / 512) as nat,
                ),
            decreases self.audio_cycles,
        {
            let ghost b0 = self@;
            self.audio_cycles = self.audio_cycles - 512;
            proof {
                let a = b0.audio_cycles as int;
                assert((a - 512) / 512 == a / 512 - 1) by (nonlinear_arith)
                    requires
                        a >= 512,
                ;
                assert(audio_run(b0, (a / 512) as nat) == audio_run(sample_step(self@), ((a - 512) / 512) as nat));
            }
            self.push_sample();
        }
    }

    fn run_lines(&mut self, cycles: u32)
        requires
            old(self)@.wf(),
            old(self).scanline_cycles + cycles <= u32::MAX,
            (frame_pos(old(self)@) + cycles) / 280896 <= u64::MAX,
        ensures
            final(self)@ == lines_spec(old(self)@, cycles),
            final(self)@.wf(),
            frame_pos(final(self)@) == frame_pos(old(self)@) + cycles,
    {
        self.scanline_cycles = self.scanline_cycles + cycles;
        let ghost start = self@;
        proof {
            lemma_scan_run(start, (start.scanline_cycles / 1232) as nat);
        }
        while self.scanline_cycles >= 1232
            invariant
                wf_but_counters(self@),
                self.audio_cycles < 512,
                self.current_scanline < 228,
                scan_run(self@, (self.scanline_cycles / 1232) as nat) == scan_run(
                    start,
                    (start.scanline_cycles / 1232) as nat,
                ),
                frame_pos(self@) == frame_pos(start),
                frame_pos(start) / 280896 <= u64::MAX,
            decreases self.scanline_cycles,
        {
            self.scanline_cycles = self.scanline_cycles - 1232;
            proof {
                if self.current_scanline == 227 {
                    assert(frame_pos(start) >= (self.frame_count + 1) * 280896);
                    assert(self.frame_count + 1 <= frame_pos(start) / 280896);
                }
            }
            let ghost before = self@;
            self.advance_scanline();
            assert(frame_pos(self@) == frame_pos(before) + 1232);
        }
    }

    fn end_of_tick(&mut self)
        requires
            old(self)@.wf(),
        ensures
            final(self)@ == wake_spec(hblank_spec(old(self)@)),
            final(self)@.wf(),
    {
        let ghost b3 = self@;
        if self.scanline_cycles >= 960 {
            let was_hblank = self.ppu.dispstat & 0x2 != 0;
            self.ppu.dispstat = self.ppu.dispstat | 0x2;
            if !was_hblank && self.current_scanline < 160 {
                if self.ppu.dispstat & 0x10 != 0 {
                    self.if_ = self.if_ | 0x2;
                }
                self.dma.trigger(DmaTrigger::HBlank);
            }
        } else {
            self.ppu.dispstat = self.ppu.dispstat & !0x2;
        }
        assert(self@ =~= hblank_spec(b3));
        if self.halted && (self.ie & self.if_) != 0 {
            self.halted = false;
        }
    }

    /// Lets `cycles` cycles pass on everything but the processor: the timers
    /// run, sound samples are produced, the lines completed are drawn, and the
    /// hblank flag and the halt state are brought up to date.
    pub fn tick(&mut self, cycles: u32, cpu: &mut Cpu)
        requires
            tick_ok(old(self)@, cycles),
        ensures
            final(self)@ == bus_tick_spec(old(self)@, cycles),
            final(self)@.wf(),
            *final(cpu) == *old(cpu),
            frame_pos(final(self)@) == frame_pos(old(self)@) + cycles,
    {
        let ghost b0 = self@;
        proof {
            assert forall|i: int|
                0 <= i < 4 && #[trigger] self.timers.timers@[i].enabled && !self.timers.timers@[i].cascade
                    implies self.timers.timers@[i].internal_counter + cycles <= 0xFFFF_FFFF by {
                assert(self@.timers[i].enabled);
            }
        }
        self.timers.tick(cycles, &mut self.apu, &mut self.if_);
        assert(self@ =~= timers_ticked(b0, cycles));
        self.generate_audio(cycles);
        self.run_lines(cycles);
        self.end_of_tick();
        let _ = cpu;
    }
}


/// Work RAM (on board or on chip) holds what is written to it: a word, a
/// halfword or a byte read back at the address just written gives the value
/// written.
pub proof fn lemma_ram_write_read(b: BusView, addr: u32, w: u32, h: u16, v: u8)
    requires
        b.wf(),
        region(addr) == 0x02 || region(addr) == 0x03,
    ensures
        read32_value(write32_spec(b, addr, w), addr) == w,
        read16_value(write16_spec(b, addr, h), addr) == h,
        read8_value(write8_spec(b, addr, v), addr) == v,
{
    lemma_aligned_offsets(addr);
    lemma_le32_bytes(w);
    crate::bits::lemma_le16_bytes(h);
    let b4 = data_wait_spec(b, addr & !3u32, 4);
    let b2 = data_wait_spec(b, addr & !1u32, 2);
    assert(b4.ewram == b.ewram && b4.iwram == b.iwram);
    assert(b2.ewram == b.ewram && b2.iwram == b.iwram);
}

/// Palette RAM, VRAM and OAM hold the words and halfwords written to them.
pub proof fn lemma_video_write_read(b: BusView, addr: u32, w: u32, h: u16)
    requires
        b.wf(),
        region(addr) == 0x05 || region(addr) == 0x06 || region(addr) == 0x07,
    ensures
        read32_value(write32_spec(b, addr, w), addr) == w,
        read16_value(write16_spec(b, addr, h), addr) == h,
{
    lemma_aligned_offsets(addr);
    lemma_le32_bytes(w);
    crate::bits::lemma_le16_bytes(h);
    let b4 = data_wait_spec(b, addr & !3u32, 4);
    let b2 = data_wait_spec(b, addr & !1u32, 2);
    assert(b4.palette == b.palette && b4.vram == b.vram && b4.oam == b.oam);
    assert(b2.palette == b.palette && b2.vram == b.vram && b2.oam == b.oam);
}

/// A write to work RAM changes no other byte of it: a byte read elsewhere
/// gives what it gave before.
pub proof fn lemma_ram_write_other(b: BusView, addr: u32, other: u32, v: u8)
    requires
        b.wf(),
        region(addr) == 0x02 || region(addr) == 0x03,
        region(other) == 0x02 || region(other) == 0x03,
        region(addr) != region(other) || (region(addr) == 0x02 && addr & 0x3FFFF != other & 0x3FFFF) || (
        region(addr) == 0x03 && addr & 0x7FFF != other & 0x7FFF),
    ensures
        read8_value(write8_spec(b, addr, v), other) == read8_value(b, other),
{
    let b1 = data_wait_spec(b, addr, 1);
    assert(b1.ewram == b.ewram && b1.iwram == b.iwram);
}


/// A word written to the I/O registers is two halfword register writes, the
/// low half first at the word-aligned offset, then the high half two bytes on;
/// the only other effect is that the bus forgets its last cartridge data
/// address.
pub proof fn lemma_io_write32_halves(b: BusView, addr: u32, val: u32)
    requires
        region(addr) == 0x04,
    ensures
        write32_spec(b, addr, val) == ({
            let b1 = if b.fetching_code { b } else { BusView { last_rom_data_addr: 0xFFFF_FFFF, ..b } };
            io_write16_spec(
                io_write16_spec(b1, addr & 0xFFC, val as u16),
                ((addr & 0xFFC) + 2) as u32,
                (val >> 16u32) as u16,
            )
        }),
{
    let a = addr & !3u32;
    assert(region(a) == 0x04 && (a >> 24u32) & 0xF == 4 && a & 0xFFF == addr & 0xFFC) by (bit_vector)
        requires
            (addr >> 24u32) & 0xFF == 0x04,
            a == addr & !3u32,
    ;
}

/// The plain I/O registers hold what is written to them: DISPCNT, the window,
/// mosaic and blending registers, IE and WAITCNT read back the value written;
/// DISPSTAT keeps its three status bits; IME reads back bit 0.
pub proof fn lemma_io_write_read(b: BusView, addr: u32, val: u16)
    ensures
        (addr == 0x000 || addr == 0x040 || addr == 0x042 || addr == 0x044 || addr == 0x046 || addr == 0x048
            || addr == 0x04A || addr == 0x04C || addr == 0x050 || addr == 0x052 || addr == 0x054
            || addr == 0x200 || addr == 0x204) ==> io_read16_spec(io_write16_spec(b, addr, val), addr) == val,
        io_read16_spec(io_write16_spec(b, 0x004, val), 0x004) == (b.ppu.dispstat & 0x7) | (val & !0x7u16),
        io_read16_spec(io_write16_spec(b, 0x208, val), 0x208) == val & 1,
        io_read16_spec(io_write16_spec(b, 0x202, val), 0x202) == b.if_ & !val,
{
    assert((val & 1 != 0) == (val & 1 == 1) && (val & 1 == 0 || val & 1 == 1)) by (bit_vector);
}

/// The keys recorded are read back from KEYINPUT, active low.
pub proof fn lemma_keys_read_back(b: BusView, keys: u16)
    ensures
        io_read16_spec(BusView { keyinput: !keys & 0x03FF, ..b }, 0x130) == !keys & 0x03FF,
{
}

/// Requests only accumulate: OR-ing in more bits keeps an enabled request.
proof fn lemma_request_kept(ie: u16, a: u16, b: u16)
    ensures
        ie & a != 0 ==> ie & (a | b) != 0,
{
    assert(ie & a != 0 ==> ie & (a | b) != 0) by (bit_vector);
}

proof fn lemma_scan_run_requests(b: BusView, n: nat)
    ensures
        b.ie & b.if_ != 0 ==> scan_run(b, n).ie & scan_run(b, n).if_ != 0,
        scan_run(b, n).halted == b.halted,
    decreases n,
{
    if n > 0 {
        let b0 = BusView { scanline_cycles: (b.scanline_cycles - 1232) as u32, ..b };
        let b1 = advance_spec(b0);
        let line0 = b0.current_scanline;
        let wrap = line0 + 1 >= 228;
        let line1: u16 = if wrap { 0 } else { (line0 + 1) as u16 };
        let p1 = if line0 < 160 { ppu_after_draw(b0.ppu) } else { b0.ppu };
        let p2 = if wrap { ppu_vblank_end(p1) } else { p1 };
        let ds = p2.dispstat;
        let d1: u16 = if line1 == 160 { ds | 1 } else { ds };
        let i1: u16 = if line1 == 160 && d1 & 8 != 0 { b.if_ | 1 } else { b.if_ };
        lemma_request_kept(b.ie, b.if_, 1);
        lemma_request_kept(b.ie, i1, 4);
        lemma_scan_run_requests(b1, (n - 1) as nat);
    }
}

proof fn lemma_audio_run_requests(b: BusView, n: nat)
    ensures
        audio_run(b, n).ie == b.ie,
        audio_run(b, n).if_ == b.if_,
        audio_run(b, n).halted == b.halted,
    decreases n,
{
    if n > 0 {
        lemma_audio_run_requests(
            sample_step(BusView { audio_cycles: (b.audio_cycles - 512) as u32, ..b }),
            (n - 1) as nat,
        );
    }
}

proof fn lemma_audio_run_timeline(b: BusView, n: nat)
    ensures
        audio_run(b, n).scanline_cycles == b.scanline_cycles,
        audio_run(b, n).current_scanline == b.current_scanline,
        audio_run(b, n).frame_count == b.frame_count,
    decreases n,
{
    if n > 0 {
        lemma_audio_run_timeline(
            sample_step(BusView { audio_cycles: (b.audio_cycles - 512) as u32, ..b }),
            (n - 1) as nat,
        );
    }
}

/// The video timeline after a tick: the cycle counter keeps the remainder of
/// the cycles within the line, the line counter moves on by the whole lines
/// and wraps after 228, and the frame counter counts the wraps. The hblank
/// flag is set exactly from cycle 960 of the line, and a processor with an
/// enabled interrupt requested is not left halted.
pub proof fn lemma_tick_counters(b: BusView, cycles: u32)
    requires
        tick_ok(b, cycles),
    ensures
        ({
            let b1 = bus_tick_spec(b, cycles);
            let t = b.scanline_cycles + cycles;
            let k = t / 1232;
            &&& b1.scanline_cycles == t % 1232
            &&& b1.current_scanline == (b.current_scanline + k) % 228
            &&& b1.frame_count == b.frame_count + (b.current_scanline + k) / 228
            &&& (b1.ppu.dispstat & 2 != 0) == (b1.scanline_cycles >= 960)
            &&& (b1.ie & b1.if_ != 0 ==> !b1.halted)
        }),
{
    let t = b.scanline_cycles + cycles;
    let k = t / 1232;
    let b1 = timers_ticked(b, cycles);
    let ac = b1.audio_cycles + cycles;
    lemma_audio_run_timeline(BusView { audio_cycles: ac as u32, ..b1 }, (ac / 512) as nat);
    let b2 = audio_spec(b1, cycles);
    assert(frame_pos(b2) == frame_pos(b));
    let b2s = BusView { scanline_cycles: t as u32, ..b2 };
    assert(t >= 1232 * k) by (nonlinear_arith)
        requires
            k == t / 1232,
            t >= 0,
    ;
    lemma_scan_run(b2s, k as nat);
    let b3 = lines_spec(b2, cycles);
    assert(b3 == scan_run(b2s, k as nat));
    let b4 = hblank_spec(b3);
    let b5 = wake_spec(b4);
    assert(b5 == bus_tick_spec(b, cycles));
    let s = b3.scanline_cycles as int;
    let l = b3.current_scanline as int;
    let f = b3.frame_count as int;
    let l0 = b.current_scanline as int;
    let f0 = b.frame_count as int;
    vstd::arithmetic::div_mod::lemma_fundamental_div_mod(t, 1232);
    assert(s == t % 1232);
    assert(f * 280896 + l * 1232 + s == f0 * 280896 + l0 * 1232 + t);
    assert(l0 + k == (f - f0) * 228 + l) by (nonlinear_arith)
        requires
            f * 280896 + l * 1232 + s == f0 * 280896 + l0 * 1232 + t,
            t == 1232 * k + s,
    ;
    vstd::arithmetic::div_mod::lemma_fundamental_div_mod_converse(l0 + k, 228, f - f0, l);
    let ds = b3.ppu.dispstat;
    assert((ds | 2) & 2 != 0 && (ds & !2u16) & 2 == 0) by (bit_vector);
}

/// A halted processor is woken by any tick once an enabled interrupt is
/// requested: requests only accumulate while cycles pass.
pub proof fn lemma_tick_wakes(b: BusView, cycles: u32)
    requires
        b.ie & b.if_ != 0,
    ensures
        !bus_tick_spec(b, cycles).halted,
        bus_tick_spec(b, cycles).ie & bus_tick_spec(b, cycles).if_ != 0,
{
    let t = tick_spec(b.timers, cycles);
    let b1 = timers_ticked(b, cycles);
    lemma_request_kept(b.ie, b.if_, overflow_irqs(t.0, t.1));
    let ac = b1.audio_cycles + cycles;
    lemma_audio_run_requests(BusView { audio_cycles: ac as u32, ..b1 }, (ac / 512) as nat);
    let b2 = audio_spec(b1, cycles);
    let sc = b2.scanline_cycles + cycles;
    lemma_scan_run_requests(BusView { scanline_cycles: sc as u32, ..b2 }, (sc / 1232) as nat);
    let b3 = lines_spec(b2, cycles);
    lemma_request_kept(b3.ie, b3.if_, 2);
}

/// The offset in on-board work RAM of an address there.
pub open spec fn ewram_offset(a: u32) -> int {
    (a & 0x3FFFF) as int
}

proof fn lemma_word_step(a: u32)
    requires
        a & 3 == 0,
        (a & 0x3FFFF) + 4 < 0x40000,
        (a >> 24u32) & 0xFF == 2,
    ensures
        a + 4 <= u32::MAX,
        ((a + 4) as u32) & 0x3FFFF == (a & 0x3FFFF) + 4,
        (((a + 4) as u32) >> 24u32) & 0xFF == 2,
        ((a + 4) as u32) & 3 == 0,
{
    assert({
        &&& a + 4 <= u32::MAX
        &&& ((a + 4) as u32) & 0x3FFFF == (a & 0x3FFFF) + 4
        &&& (((a + 4) as u32) >> 24u32) & 0xFF == 2
        &&& ((a + 4) as u32) & 3 == 0
    }) by (bit_vector)
        requires
            a & 3 == 0,
            (a & 0x3FFFF) + 4 < 0x40000,
            (a >> 24u32) & 0xFF == 2,
    ;
}

/// A 32-bit DMA transfer of `n` words with both addresses counting up, from
/// one block of on-board work RAM to another that does not overlap it, copies
/// the source words to the destination and changes no other byte there.
pub proof fn lemma_dma_copies(b: BusView, src: u32, dst: u32, n: nat)
    requires
        b.ewram.len() == 0x40000,
        n > 0,
        region(src) == 0x02,
        region(dst) == 0x02,
        src & 3 == 0,
        dst & 3 == 0,
        ewram_offset(src) + 4 * n <= 0x40000,
        ewram_offset(dst) + 4 * n <= 0x40000,
        ewram_offset(src) + 4 * n <= ewram_offset(dst) || ewram_offset(dst) + 4 * n <= ewram_offset(src),
    ensures
        ({
            let e = dma_units(b, src, dst, n, true, 0, 0).0.ewram;
            &&& e.len() == 0x40000
            &&& forall|k: int|
                0 <= k < n ==> #[trigger] mem32(e, ewram_offset(dst) + 4 * k) == mem32(
                    b.ewram,
                    ewram_offset(src) + 4 * k,
                )
            &&& forall|x: int|
                0 <= x < 0x40000 && (x < ewram_offset(dst) || x >= ewram_offset(dst) + 4 * n) ==> #[trigger] e[x]
                    == b.ewram[x]
        }),
    decreases n,
{
    lemma_aligned_offsets(src);
    lemma_aligned_offsets(dst);
    assert(src & !3u32 == src);
    assert(dst & !3u32 == dst);
    let v = read32_value(b, src);
    let b0 = read32_effect(b, src);
    assert(b0.ewram == b.ewram);
    assert(v == mem32(b.ewram, ewram_offset(src)));
    let b1 = dma_unit(b, src, dst, true);
    assert(data_wait_spec(b0, dst, 4).ewram == b.ewram);
    assert(b1.ewram == store32(b.ewram, ewram_offset(dst), v));
    lemma_le32_bytes(v);
    assert(mem32(b1.ewram, ewram_offset(dst)) == v);
    if n == 1 {
        assert(dma_units(b, src, dst, n, true, 0, 0) == dma_units(b1, wrap32(src + 4), wrap32(dst + 4), 0, true, 0, 0));
        assert forall|k: int| 0 <= k < n implies #[trigger] mem32(b1.ewram, ewram_offset(dst) + 4 * k) == mem32(
            b.ewram,
            ewram_offset(src) + 4 * k,
        ) by {
            assert(k == 0);
        }
    } else {
        lemma_word_step(src);
        lemma_word_step(dst);
        let s1 = wrap32(src + 4);
        let d1 = wrap32(dst + 4);
        assert(s1 == (src + 4) as u32);
        assert(d1 == (dst + 4) as u32);
        lemma_dma_copies(b1, s1, d1, (n - 1) as nat);
        let e = dma_units(b1, s1, d1, (n - 1) as nat, true, 0, 0).0.ewram;
        assert(dma_units(b, src, dst, n, true, 0, 0) == dma_units(b1, s1, d1, (n - 1) as nat, true, 0, 0));
        assert forall|k: int| 0 <= k < n implies #[trigger] mem32(e, ewram_offset(dst) + 4 * k) == mem32(
            b.ewram,
            ewram_offset(src) + 4 * k,
        ) by {
            if k == 0 {
                let i = ewram_offset(dst);
                assert(e[i] == b1.ewram[i]);
                assert(e[i + 1] == b1.ewram[i + 1]);
                assert(e[i + 2] == b1.ewram[i + 2]);
                assert(e[i + 3] == b1.ewram[i + 3]);
            } else {
                assert(mem32(e, ewram_offset(d1) + 4 * (k - 1)) == mem32(b1.ewram, ewram_offset(s1) + 4 * (k - 1)));
                let j = ewram_offset(src) + 4 * k;
                assert(b1.ewram[j] == b.ewram[j]);
                assert(b1.ewram[j + 1] == b.ewram[j + 1]);
                assert(b1.ewram[j + 2] == b.ewram[j + 2]);
                assert(b1.ewram[j + 3] == b.ewram[j + 3]);
            }
        }
        assert forall|x: int|
            0 <= x < 0x40000 && (x < ewram_offset(dst) || x >= ewram_offset(dst) + 4 * n) implies #[trigger] e[x]
                == b.ewram[x] by {
            assert(e[x] == b1.ewram[x]);
        }
    }
}

/// After `n` DMA units of `w` bytes each, an address has moved by `n * w`
/// bytes up (control 0 or 3), down (control 1), or not at all (control 2, a
/// fixed address), modulo 2^32.
pub open spec fn dma_moved(a: u32, ctrl: u32, w: int, n: int) -> u32 {
    if ctrl == 2 {
        a
    } else if ctrl == 1 {
        wrap32(a - w * n)
    } else {
        wrap32(a + w * n)
    }
}

proof fn lemma_wrap32_shift(a: u32, d: int, e: int)
    ensures
        wrap32(wrap32(a + d) + e) == wrap32(a + d + e),
{
    vstd::arithmetic::div_mod::lemma_add_mod_noop(a + d, e, 0x1_0000_0000);
    vstd::arithmetic::div_mod::lemma_mod_twice(e, 0x1_0000_0000);
    vstd::arithmetic::div_mod::lemma_add_mod_noop(wrap32(a + d) as int, e, 0x1_0000_0000);
    vstd::arithmetic::div_mod::lemma_mod_twice(a + d, 0x1_0000_0000);
}

/// A DMA transfer of `n` units moves its source and its destination as their
/// address controls say, each independently of the other and of what is
/// copied: with a fixed source every unit reads the same address.
pub proof fn lemma_dma_addresses(b: BusView, src: u32, dst: u32, n: nat, is32: bool, sc: u32, dc: u32)
    ensures
        ({
            let w: int = if is32 { 4 } else { 2 };
            let t = dma_units(b, src, dst, n, is32, sc, dc);
            &&& t.1 == dma_moved(src, sc, w, n as int)
            &&& t.2 == dma_moved(dst, dc, w, n as int)
        }),
        n > 0 && sc == 2 ==> dma_units(b, src, dst, n, is32, sc, dc) == dma_units(
            dma_unit(b, src, dst, is32),
            src,
            dma_step(dst, dc, if is32 { 4 } else { 2 }),
            (n - 1) as nat,
            is32,
            sc,
            dc,
        ),
    decreases n,
{
    let w: u32 = if is32 { 4 } else { 2 };
    if n == 0 {
        lemma_moved_zero(src, sc, w as int);
        lemma_moved_zero(dst, dc, w as int);
    } else {
        let s1 = dma_step(src, sc, w);
        let d1 = dma_step(dst, dc, w);
        lemma_dma_addresses(dma_unit(b, src, dst, is32), s1, d1, (n - 1) as nat, is32, sc, dc);
        lemma_moved_step(src, sc, w, (n - 1) as int);
        lemma_moved_step(dst, dc, w, (n - 1) as int);
    }
}

proof fn lemma_moved_zero(a: u32, ctrl: u32, w: int)
    ensures
        dma_moved(a, ctrl, w, 0) == a,
{
    vstd::arithmetic::div_mod::lemma_small_mod(a as nat, 0x1_0000_0000);
}

proof fn lemma_moved_step(a: u32, ctrl: u32, w: u32, m: int)
    requires
        m >= 0,
    ensures
        dma_moved(dma_step(a, ctrl, w), ctrl, w as int, m) == dma_moved(a, ctrl, w as int, m + 1),
{
    if ctrl == 1 {
        lemma_wrap32_shift(a, -(w as int), -(w * m));
        assert(a - w - w * m == a - w * (m + 1)) by (nonlinear_arith);
    } else if ctrl != 2 {
        lemma_wrap32_shift(a, w as int, w * m);
        assert(a + w + w * m == a + w * (m + 1)) by (nonlinear_arith);
    }
}

/// A 32-bit DMA transfer of `n` words with a fixed source and a destination
/// counting up through on-board work RAM fills the destination with the one
/// source word (when that word lies outside the destination block), and
/// changes no other byte there.
pub proof fn lemma_dma_fills(b: BusView, src: u32, dst: u32, n: nat)
    requires
        b.ewram.len() == 0x40000,
        n > 0,
        region(src) == 0x02,
        region(dst) == 0x02,
        src & 3 == 0,
        dst & 3 == 0,
        ewram_offset(dst) + 4 * n <= 0x40000,
        ewram_offset(src) + 4 <= ewram_offset(dst) || ewram_offset(dst) + 4 * n <= ewram_offset(src),
    ensures
        ({
            let e = dma_units(b, src, dst, n, true, 2, 0).0.ewram;
            &&& e.len() == 0x40000
            &&& forall|k: int|
                0 <= k < n ==> #[trigger] mem32(e, ewram_offset(dst) + 4 * k) == mem32(b.ewram, ewram_offset(src))
            &&& forall|x: int|
                0 <= x < 0x40000 && (x < ewram_offset(dst) || x >= ewram_offset(dst) + 4 * n) ==> #[trigger] e[x]
                    == b.ewram[x]
        }),
    decreases n,
{
    lemma_aligned_offsets(src);
    lemma_aligned_offsets(dst);
    assert(src & !3u32 == src);
    assert(dst & !3u32 == dst);
    let v = read32_value(b, src);
    let b0 = read32_effect(b, src);
    assert(b0.ewram == b.ewram);
    assert(v == mem32(b.ewram, ewram_offset(src)));
    let b1 = dma_unit(b, src, dst, true);
    assert(data_wait_spec(b0, dst, 4).ewram == b.ewram);
    assert(b1.ewram == store32(b.ewram, ewram_offset(dst), v));
    lemma_le32_bytes(v);
    assert(mem32(b1.ewram, ewram_offset(dst)) == v);
    let j = ewram_offset(src);
    assert(b1.ewram[j] == b.ewram[j]);
    assert(b1.ewram[j + 1] == b.ewram[j + 1]);
    assert(b1.ewram[j + 2] == b.ewram[j + 2]);
    assert(b1.ewram[j + 3] == b.ewram[j + 3]);
    assert(mem32(b1.ewram, j) == mem32(b.ewram, j));
    if n == 1 {
        assert(dma_units(b, src, dst, n, true, 2, 0) == dma_units(b1, src, wrap32(dst + 4), 0, true, 2, 0));
        assert forall|k: int| 0 <= k < n implies #[trigger] mem32(b1.ewram, ewram_offset(dst) + 4 * k) == mem32(
            b.ewram,
            ewram_offset(src),
        ) by {
            assert(k == 0);
        }
    } else {
        lemma_word_step(dst);
        let d1 = wrap32(dst + 4);
        assert(d1 == (dst + 4) as u32);
        lemma_dma_fills(b1, src, d1, (n - 1) as nat);
        let e = dma_units(b1, src, d1, (n - 1) as nat, true, 2, 0).0.ewram;
        assert(dma_units(b, src, dst, n, true, 2, 0) == dma_units(b1, src, d1, (n - 1) as nat, true, 2, 0));
        assert forall|k: int| 0 <= k < n implies #[trigger] mem32(e, ewram_offset(dst) + 4 * k) == mem32(
            b.ewram,
            ewram_offset(src),
        ) by {
            if k == 0 {
                let i = ewram_offset(dst);
                assert(e[i] == b1.ewram[i]);
                assert(e[i + 1] == b1.ewram[i + 1]);
                assert(e[i + 2] == b1.ewram[i + 2]);
                assert(e[i + 3] == b1.ewram[i + 3]);
            } else {
                assert(mem32(e, ewram_offset(d1) + 4 * (k - 1)) == mem32(b1.ewram, ewram_offset(src)));
            }
        }
        assert forall|x: int|
            0 <= x < 0x40000 && (x < ewram_offset(dst) || x >= ewram_offset(dst) + 4 * n) implies #[trigger] e[x]
                == b.ewram[x] by {
            assert(e[x] == b1.ewram[x]);
        }
    }
}

/// A word read through the bus at `addr`: the word and the bus after.
#[verifier::opaque]
pub open spec fn bus_read32(b: BusView, addr: u32) -> (u32, BusView) {
    (read32_value(b, addr), read32_effect(b, addr))
}

/// A halfword read through the bus at `addr`: the halfword and the bus after.
#[verifier::opaque]
pub open spec fn bus_read16(b: BusView, addr: u32) -> (u16, BusView) {
    (read16_value(b, addr), read16_effect(b, addr))
}

/// The bus after a word write at `addr`.
#[verifier::opaque]
pub open spec fn bus_write32(b: BusView, addr: u32, v: u32) -> BusView {
    write32_spec(b, addr, v)
}

/// The bus after a halfword write at `addr`.
#[verifier::opaque]
pub open spec fn bus_write16(b: BusView, addr: u32, v: u16) -> BusView {
    write16_spec(b, addr, v)
}

/// The bus after units `i..n` of `v` are written from `dst` on, `width`
/// bytes apart (words when `width` is 4, halfwords otherwise).
pub open spec fn fill_units(b: BusView, dst: u32, v: u32, width: u32, i: nat, n: nat) -> BusView
    decreases n - i,
{
    if i >= n {
        b
    } else {
        let a = wrap32(dst + i * width);
        let b1 = if width == 4 { bus_write32(b, a, v) } else { bus_write16(b, a, v as u16) };
        fill_units(b1, dst, v, width, i + 1, n)
    }
}

/// The bus after units `i..n` are copied, one at a time, from `src` on to
/// `dst` on, `width` bytes apart.
pub open spec fn copy_units(b: BusView, src: u32, dst: u32, width: u32, i: nat, n: nat) -> BusView
    decreases n - i,
{
    if i >= n {
        b
    } else {
        let from = wrap32(src + i * width);
        let to = wrap32(dst + i * width);
        let b1 = if width == 4 {
            let r = bus_read32(b, from);
            bus_write32(r.1, to, r.0)
        } else {
            let r = bus_read16(b, from);
            bus_write16(r.1, to, r.0)
        };
        copy_units(b1, src, dst, width, i + 1, n)
    }
}

/// The BIOS CpuFastSet call: r2 holds the word count (rounded up to a multiple
/// of eight) and, in bit 24, whether the word at r0 fills the destination r1
/// or the words from r0 are copied; r0 and r1 end past what was moved, and r3
/// holds the last word read.
pub open spec fn fast_set_spec(s: CpuState, b: BusView) -> (CpuState, BusView) {
    let src = s.regs[0];
    let dst = s.regs[1];
    let count = (((s.regs[2] & 0x1F_FFFF) + 7) as u32) & !7u32;
    let fixed = s.regs[2] & 0x100_0000 != 0;
    let b1 = if fixed {
        let r = bus_read32(b, src);
        fill_units(r.1, dst, r.0, 4, 0, count as nat)
    } else {
        copy_units(b, src, dst, 4, 0, count as nat)
    };
    let s1 = s.with_reg(0, wrap32(src + if fixed { 0 } else { count * 4 })).with_reg(1, wrap32(dst + count * 4));
    let last = bus_read32(b1, wrap32(src + if fixed { 0 } else { (count - 1) * 4 }));
    (s1.with_reg(3, last.0), last.1)
}

/// The BIOS CpuSet call: r2 holds the unit count, in bit 24 whether the unit at
/// r0 fills the destination r1 or the units from r0 are copied, and in bit 26
/// whether the units are words or halfwords; r0 and r1 end past what was moved.
pub open spec fn cpu_set_spec(s: CpuState, b: BusView) -> (CpuState, BusView) {
    let src = s.regs[0];
    let dst = s.regs[1];
    let count = s.regs[2] & 0x1F_FFFF;
    let fixed = s.regs[2] & 0x100_0000 != 0;
    let width: u32 = if s.regs[2] & 0x400_0000 != 0 { 4 } else { 2 };
    let b1 = if fixed {
        if width == 4 {
            let r = bus_read32(b, src);
            fill_units(r.1, dst, r.0, 4, 0, count as nat)
        } else {
            let r = bus_read16(b, src);
            fill_units(r.1, dst, r.0 as u32, 2, 0, count as nat)
        }
    } else {
        copy_units(b, src, dst, width, 0, count as nat)
    };
    (
        s.with_reg(0, wrap32(src + if fixed { 0 } else { count * width })).with_reg(1, wrap32(dst + count * width)),
        b1,
    )
}

impl Bus {
    fn read32_op(&mut self, addr: u32) -> (r: u32)
        requires
            old(self)@.wf(),
        ensures
            (r, final(self)@) == bus_read32(old(self)@, addr),
            final(self)@.wf(),
    {
        reveal(bus_read32);
        self.read32(addr)
    }

    fn read16_op(&mut self, addr: u32) -> (r: u16)
        requires
            old(self)@.wf(),
        ensures
            (r, final(self)@) == bus_read16(old(self)@, addr),
            final(self)@.wf(),
    {
        reveal(bus_read16);
        self.read16(addr)
    }

    fn write_unit(&mut self, addr: u32, v: u32, width: u32)
        requires
            old(self)@.wf(),
        ensures
            final(self)@ == if width == 4 { bus_write32(old(self)@, addr, v) } else { bus_write16(old(self)@, addr, v as u16) },
            final(self)@.wf(),
    {
        reveal(bus_write32);
        reveal(bus_write16);
        if width == 4 {
            self.write32(addr, v);
        } else {
            self.write16(addr, v as u16);
        }
    }

    fn copy_unit(&mut self, from: u32, to: u32, width: u32)
        requires
            old(self)@.wf(),
        ensures
            final(self)@ == if width == 4 {
                let r = bus_read32(old(self)@, from);
                bus_write32(r.1, to, r.0)
            } else {
                let r = bus_read16(old(self)@, from);
                bus_write16(r.1, to, r.0)
            },
            final(self)@.wf(),
    {
        if width == 4 {
            let v = self.read32_op(from);
            self.write_unit(to, v, 4);
        } else {
            let v = self.read16_op(from);
            self.write_unit(to, v as u32, 2);
            assert((v as u32) as u16 == v);
        }
    }

    fn fill_loop(&mut self, dst: u32, v: u32, width: u32, count: u32)
        requires
            old(self)@.wf(),
            width == 2 || width == 4,
            count <= 0x20_0000,
        ensures
            final(self)@ == fill_units(old(self)@, dst, v, width, 0, count as nat),
            final(self)@.wf(),
    {
        let mut i: u32 = 0;
        while i < count
            invariant
                i <= count <= 0x20_0000,
                width == 2 || width == 4,
                self@.wf(),
                fill_units(self@, dst, v, width, i as nat, count as nat) == fill_units(
                    old(self)@,
                    dst,
                    v,
                    width,
                    0,
                    count as nat,
                ),
            decreases count - i,
        {
            self.write_unit(dst.wrapping_add(i * width), v, width);
            i += 1;
        }
    }

    fn copy_loop(&mut self, src: u32, dst: u32, width: u32, count: u32)
        requires
            old(self)@.wf(),
            width == 2 || width == 4,
            count <= 0x20_0000,
        ensures
            final(self)@ == copy_units(old(self)@, src, dst, width, 0, count as nat),
            final(self)@.wf(),
    {
        let mut i: u32 = 0;
        while i < count
            invariant
                i <= count <= 0x20_0000,
                width == 2 || width == 4,
                self@.wf(),
                copy_units(self@, src, dst, width, i as nat, count as nat) == copy_units(
                    old(self)@,
                    src,
                    dst,
                    width,
                    0,
                    count as nat,
                ),
            decreases count - i,
        {
            self.copy_unit(src.wrapping_add(i * width), dst.wrapping_add(i * width), width);
            i += 1;
        }
    }

    #[verifier::spinoff_prover]
    #[verifier::rlimit(40)]
    fn hle_cpu_fast_set(&mut self, cpu: &mut Cpu)
        requires
            old(self)@.wf(),
            old(cpu).regs[2] & 0x100_0000 != 0 || (((old(cpu).regs[2] & 0x1F_FFFF) + 7) as u32) & !7u32 != 0,
        ensures
            (final(cpu)@, final(self)@) == fast_set_spec(old(cpu)@, old(self)@),
            final(self)@.wf(),
    {
        let src = cpu.regs[0];
        let dst = cpu.regs[1];
        let len_mode = cpu.regs[2];
        let count = ((len_mode & 0x1FFFFF) + 7) & !7;
        proof {
            let x = len_mode & 0x1F_FFFF;
            assert(((x + 7) as u32) & !7u32 <= 0x20_0000) by (bit_vector)
                requires
                    x <= 0x1F_FFFF,
            ;
        }
        let fixed = len_mode & 0x0100_0000 != 0;
        if fixed {
            let val = self.read32_op(src);
            self.fill_loop(dst, val, 4, count);
        } else {
            self.copy_loop(src, dst, 4, count);
        }
        cpu.regs[0] = src.wrapping_add(if fixed { 0 } else { count * 4 });
        cpu.regs[1] = dst.wrapping_add(count * 4);
        cpu.regs[3] = self.read32_op(src.wrapping_add(if fixed { 0 } else { (count - 1) * 4 }));
    }

    #[verifier::spinoff_prover]
    #[verifier::rlimit(40)]
    fn hle_cpu_set(&mut self, cpu: &mut Cpu)
        requires
            old(self)@.wf(),
        ensures
            (final(cpu)@, final(self)@) == cpu_set_spec(old(cpu)@, old(self)@),
            final(self)@.wf(),
    {
        let src = cpu.regs[0];
        let dst = cpu.regs[1];
        let len_mode = cpu.regs[2];
        let count = len_mode & 0x1FFFFF;
        let fixed = len_mode & 0x0100_0000 != 0;
        let word_mode = len_mode & 0x0400_0000 != 0;
        if word_mode {
            if fixed {
                let val = self.read32_op(src);
                self.fill_loop(dst, val, 4, count);
            } else {
                self.copy_loop(src, dst, 4, count);
            }
            cpu.regs[0] = src.wrapping_add(if fixed { 0 } else { count * 4 });
            cpu.regs[1] = dst.wrapping_add(count * 4);
        } else {
            if fixed {
                let val = self.read16_op(src);
                self.fill_loop(dst, val as u32, 2, count);
            } else {
                self.copy_loop(src, dst, 2, count);
            }
            cpu.regs[0] = src.wrapping_add(if fixed { 0 } else { count * 2 });
            cpu.regs[1] = dst.wrapping_add(count * 2);
        }
    }
}

} // verus!
