use gba_emu::bus::Bus;
use gba_emu::cpu::Cpu;
use gba_emu::dma::{DmaController, DmaTrigger};
use gba_emu::ppu::{color_from_rgb5, Ppu};
use gba_emu::timer::Timers;
use gba_emu::Gba;

#[test]
fn new_bus_power_on_state() {
    let bus = Bus::new();
    assert_eq!(bus.keyinput, 0x03FF);
    assert_eq!(bus.current_scanline, 0);
    assert_eq!(bus.frame_count, 0);
    assert_eq!(bus.ws_n, [5, 5, 5]);
    assert_eq!(bus.ws_s, [3, 5, 9]);
    assert_eq!(bus.framebuffer.len(), 240 * 160);
    assert_eq!(bus.audio_output_buffer.len(), 65536);
}

#[test]
fn ram_write_read_round_trip() {
    let mut bus = Bus::new();
    bus.write32(0x0200_0000, 0x0102_0304);
    assert_eq!(bus.read32(0x0200_0000), 0x0102_0304);
    assert_eq!(bus.read8(0x0200_0001), 0x03);
    bus.write16(0x0300_7FFE, 0xBEEF);
    assert_eq!(bus.read16(0x0300_7FFE), 0xBEEF);
    bus.write8(0x0300_0003, 0x7A);
    assert_eq!(bus.read8(0x0300_0003), 0x7A);
    // A neighbouring byte is untouched.
    assert_eq!(bus.read8(0x0300_0002), 0);
}

#[test]
fn ram_mirrors_wrap_around() {
    let mut bus = Bus::new();
    bus.write32(0x0204_0000, 0x5555_AAAA);
    assert_eq!(bus.read32(0x0200_0000), 0x5555_AAAA);
    bus.write32(0x0300_8000, 7);
    assert_eq!(bus.read32(0x0300_0000), 7);
}

#[test]
fn palette_byte_write_fills_halfword() {
    let mut bus = Bus::new();
    bus.write8(0x0500_0001, 0xAB);
    assert_eq!(bus.read16(0x0500_0000), 0xABAB);
}

#[test]
fn vram_upper_mirror() {
    let mut bus = Bus::new();
    bus.write16(0x0601_8000, 0x1234);
    assert_eq!(bus.read16(0x0601_0000), 0x1234);
}

#[test]
fn rom_reads_and_open_end() {
    let mut bus = Bus::new();
    bus.load_rom(&[0x11, 0x22, 0x33, 0x44, 0x55]);
    assert_eq!(bus.read32(0x0800_0000), 0x4433_2211);
    assert_eq!(bus.read8(0x0800_0004), 0x55);
    assert_eq!(bus.rom.len(), 5);
    bus.load_rom(&[]);
    assert_eq!(bus.rom, vec![0u8]);
}

#[test]
fn display_registers_read_back() {
    let mut bus = Bus::new();
    bus.write16(0x0400_0000, 0x0403);
    assert_eq!(bus.read16(0x0400_0000), 0x0403);
    assert_eq!(bus.io_read16(0x000), 0x0403);
    bus.write16(0x0400_0008, 0x1F83);
    assert_eq!(bus.io_read16(0x008), 0x1F83);
}

#[test]
fn interrupt_flags_acknowledge() {
    let mut bus = Bus::new();
    bus.if_ = 0x5;
    bus.write16(0x0400_0202, 0x1);
    assert_eq!(bus.if_, 0x4);
    bus.write16(0x0400_0200, 0x3FFF);
    assert_eq!(bus.ie, 0x3FFF);
    bus.write16(0x0400_0208, 1);
    assert!(bus.ime);
}

#[test]
fn keys_are_active_low() {
    let mut bus = Bus::new();
    bus.set_keys(0x0001);
    assert_eq!(bus.read16(0x0400_0130), 0x03FE);
    assert_eq!(bus.io_read8(0x130), 0xFE);
}

#[test]
fn waitcnt_sets_wait_states_and_prefetch() {
    let mut bus = Bus::new();
    bus.write16(0x0400_0204, 0x4014);
    assert!(bus.prefetch);
    assert_eq!(bus.waitcnt, 0x4014);
    assert_eq!(bus.io_read16(0x204), 0x4014);
    assert_eq!(bus.ws_s[0], 2);
}

#[test]
fn haltcnt_halts() {
    let mut bus = Bus::new();
    bus.write8(0x0400_0301, 0);
    assert!(bus.halted);
}

#[test]
fn immediate_dma_copies_words() {
    let mut bus = Bus::new();
    for i in 0..4u32 {
        bus.write32(0x0200_0000 + 4 * i, 0x1000 + i);
    }
    bus.write32(0x0400_00D4, 0x0200_0000);
    bus.write32(0x0400_00D8, 0x0300_0000);
    bus.write16(0x0400_00DC, 4);
    bus.write16(0x0400_00DE, 0x8400);
    assert!(bus.dma_active());
    let cycles = bus.run_dma();
    assert_eq!(cycles, 8);
    assert!(!bus.dma_active());
    for i in 0..4u32 {
        assert_eq!(bus.read32(0x0300_0000 + 4 * i), 0x1000 + i);
    }
    // A non-repeating channel turns itself off.
    assert_eq!(bus.dma.channels[3].cnt & 0x8000, 0);
}

#[test]
fn dma_without_active_channel_costs_one_cycle() {
    let mut bus = Bus::new();
    assert!(!bus.dma_active());
    assert_eq!(bus.run_dma(), 1);
}

#[test]
fn dma_register_write_read_back() {
    let mut d = DmaController::new();
    d.write_reg(0x0DC, 0x0123);
    assert_eq!(d.read_reg(0x0DC), 0x0123);
    d.write_reg(0x0B0, 0xBEEF);
    assert_eq!(d.read_reg(0x0B0), 0xBEEF);
}

#[test]
fn vblank_dma_waits_for_its_trigger() {
    let mut d = DmaController::new();
    d.channels[1].cnt = 0x9000;
    d.channels[1].count = 0;
    d.trigger(DmaTrigger::HBlank);
    assert!(!d.any_active());
    d.trigger(DmaTrigger::VBlank);
    assert!(d.any_active());
    assert_eq!(d.channels[1].internal_count, 0x4000);
}

#[test]
fn timer_overflow_raises_interrupt() {
    let mut bus = Bus::new();
    let mut cpu = Cpu::new();
    bus.write16(0x0400_0100, 0xFFFF);
    bus.write16(0x0400_0102, 0x00C0);
    assert_eq!(bus.io_read16(0x100), 0xFFFF);
    bus.tick(1, &mut cpu);
    assert_eq!(bus.if_ & 0x08, 0x08);
    assert_eq!(bus.io_read16(0x100), 0xFFFF);
}

#[test]
fn timers_register_access() {
    let mut t = Timers::new();
    t.write_reload(2, 0x1234);
    t.write_control(2, 0x0081);
    assert_eq!(t.read_counter(2), 0x1234);
    assert_eq!(t.read_control(2), 0x0081);
    assert_eq!(t.timers[2].prescaler, 64);
}

#[test]
fn tick_advances_lines_and_sets_vblank() {
    let mut bus = Bus::new();
    let mut cpu = Cpu::new();
    bus.tick(1232, &mut cpu);
    assert_eq!(bus.current_scanline, 1);
    assert_eq!(bus.scanline_cycles, 0);
    bus.ppu.dispstat = 0x0008;
    bus.tick(159 * 1232, &mut cpu);
    assert_eq!(bus.current_scanline, 160);
    assert_eq!(bus.ppu.dispstat & 1, 1);
    assert_eq!(bus.if_ & 1, 1);
}

#[test]
fn tick_enters_hblank_late_in_line() {
    let mut bus = Bus::new();
    let mut cpu = Cpu::new();
    bus.ppu.dispstat = 0x0010;
    bus.tick(960, &mut cpu);
    assert_eq!(bus.ppu.dispstat & 2, 2);
    assert_eq!(bus.if_ & 2, 2);
    bus.tick(272, &mut cpu);
    assert_eq!(bus.ppu.dispstat & 2, 0);
}

#[test]
fn a_frame_is_228_lines() {
    let mut bus = Bus::new();
    let mut cpu = Cpu::new();
    bus.tick(228 * 1232 - 1, &mut cpu);
    assert_eq!(bus.frame_count, 0);
    bus.tick(1, &mut cpu);
    assert_eq!(bus.frame_count, 1);
    assert_eq!(bus.current_scanline, 0);
}

#[test]
fn audio_samples_accumulate() {
    let mut bus = Bus::new();
    let mut cpu = Cpu::new();
    bus.tick(512 * 3 + 100, &mut cpu);
    assert_eq!(bus.audio_samples_ready, 3);
    assert_eq!(bus.audio_cycles, 100);
}

#[test]
fn halted_wakes_on_enabled_interrupt() {
    let mut bus = Bus::new();
    let mut cpu = Cpu::new();
    bus.halted = true;
    bus.ie = 1;
    bus.if_ = 1;
    bus.tick(1, &mut cpu);
    assert!(!bus.halted);
}

#[test]
fn run_frame_runs_one_frame() {
    let mut gba = Gba { cpu: Cpu::new(), bus: Bus::new() };
    gba.cpu.reset(&gba.bus);
    gba.run_frame();
    assert_eq!(gba.bus.frame_count, 1);
    gba.run_frame();
    assert_eq!(gba.bus.frame_count, 2);
}

#[test]
fn forced_blank_draws_white() {
    let mut ppu = Ppu::new();
    let palette = vec![0u8; 0x400];
    let vram = vec![0u8; 0x18000];
    let oam = vec![0u8; 0x400];
    let mut fb = vec![0u32; 240 * 160];
    ppu.render_scanline(3, &palette, &vram, &oam, &mut fb);
    assert!(fb[3 * 240..4 * 240].iter().all(|&p| p == 0xFFFF_FFFF));
    assert!(fb[2 * 240..3 * 240].iter().all(|&p| p == 0));
}

#[test]
fn backdrop_colour_fills_empty_line() {
    let mut ppu = Ppu::new();
    ppu.dispcnt = 0;
    let mut palette = vec![0u8; 0x400];
    palette[0] = 0x1F;
    let vram = vec![0u8; 0x18000];
    let oam = vec![0u8; 0x400];
    let mut fb = vec![0u32; 240 * 160];
    ppu.render_scanline(0, &palette, &vram, &oam, &mut fb);
    assert!(fb[0..240].iter().all(|&p| p == 0xFF00_00FF));
}

#[test]
fn rgb5_colours() {
    assert_eq!(color_from_rgb5(0x7FFF), 0xFFFF_FFFF);
    assert_eq!(color_from_rgb5(0x001F), 0xFF00_00FF);
    assert_eq!(color_from_rgb5(0x03E0), 0xFF00_FF00);
    assert_eq!(color_from_rgb5(0x0000), 0xFF00_0000);
    assert_eq!(color_from_rgb5(0x0010), 0xFF00_0084);
}

#[test]
fn vblank_end_reloads_affine_reference() {
    let mut ppu = Ppu::new();
    ppu.bg_affine[0].ref_x = 0x0800_0000;
    ppu.bg_affine[0].internal_x = 5;
    ppu.bg_affine[1].ref_y = 0x100;
    ppu.on_vblank_end();
    assert_eq!(ppu.bg_affine[0].internal_x, -0x0800_0000);
    assert_eq!(ppu.bg_affine[1].internal_y, 0x100);
}

#[test]
fn dma_copies_within_ewram() {
    let mut bus = Bus::new();
    for i in 0..3u32 {
        bus.write32(0x0200_1000 + 4 * i, 0xA0 + i);
    }
    bus.write32(0x0200_2000 + 12, 0x77);
    bus.write32(0x0400_00B0, 0x0200_1000);
    bus.write32(0x0400_00B4, 0x0200_2000);
    bus.write16(0x0400_00B8, 3);
    bus.write16(0x0400_00BA, 0x8400);
    assert_eq!(bus.run_dma(), 6);
    for i in 0..3u32 {
        assert_eq!(bus.read32(0x0200_2000 + 4 * i), 0xA0 + i);
    }
    assert_eq!(bus.read32(0x0200_2000 + 12), 0x77);
}

#[test]
fn video_memory_write_read() {
    let mut bus = Bus::new();
    bus.write32(0x0600_0100, 0x1234_5678);
    assert_eq!(bus.read32(0x0600_0100), 0x1234_5678);
    bus.write16(0x0700_0002, 0xABCD);
    assert_eq!(bus.read16(0x0700_0002), 0xABCD);
    bus.write32(0x0500_0010, 0xCAFE_BABE);
    assert_eq!(bus.read32(0x0500_0010), 0xCAFE_BABE);
}

#[test]
fn interrupt_then_step_masks_nested_interrupts() {
    let mut bus = Bus::new();
    let mut cpu = Cpu::new();
    cpu.cpsr &= !0x80;
    cpu.regs[15] = 0x0300_0008;
    cpu.pipeline_valid = true;
    bus.ime = true;
    bus.ie = 1;
    bus.if_ = 1;
    assert_eq!(cpu.step(&mut bus), 3);
    assert_eq!(cpu.cpsr & 0x80, 0x80);
    assert_eq!(cpu.cpsr & 0x1F, 0x12);
}

#[test]
fn load_bios_pads_a_short_image() {
    let mut bus = Bus::new();
    bus.load_bios(&[1, 2, 3]);
    assert_eq!(bus.bios.len(), 0x4000);
    assert_eq!(&bus.bios[0..3], &[1, 2, 3]);
    assert!(bus.bios[3..].iter().all(|&b| b == 0));
    assert_eq!(bus.read8(0x0000_0001), 2);
}

#[test]
fn load_bios_keeps_the_first_16_kib() {
    let mut bus = Bus::new();
    let mut image = vec![0xABu8; 0x5000];
    image[0x3FFF] = 0x42;
    image[0x4000] = 0x99;
    bus.load_bios(&image);
    assert_eq!(bus.bios.len(), 0x4000);
    assert_eq!(bus.bios[0], 0xAB);
    assert_eq!(bus.bios[0x3FFF], 0x42);
}

#[test]
fn reset_clears_memories_in_place() {
    let mut bus = Bus::new();
    bus.load_bios(&[9, 8, 7]);
    bus.load_rom(&[1, 2, 3, 4]);
    bus.write32(0x0300_0010, 0xDEAD_BEEF);
    bus.ewram = vec![7u8; 10];
    bus.frame_count = 5;
    bus.reset();
    assert_eq!(bus.ewram, vec![0u8; 10]);
    assert_eq!(bus.iwram.len(), 0x8000);
    assert!(bus.iwram.iter().all(|&b| b == 0));
    assert_eq!(bus.rom, vec![1, 2, 3, 4]);
    assert_eq!(&bus.bios[0..3], &[9, 8, 7]);
    assert_eq!(bus.frame_count, 0);
    assert_eq!(bus.keyinput, 0x03FF);
}

#[test]
fn io_word_write_is_two_halfword_writes() {
    let mut word = Bus::new();
    let mut halves = Bus::new();
    word.write32(0x0400_0002, 0x0001_0403);
    halves.io_write16(0x000, 0x0403);
    halves.io_write16(0x002, 0x0001);
    assert_eq!(word.ppu.dispcnt, 0x0403);
    assert_eq!(word.ppu.green_swap, 0x0001);
    assert_eq!(word.ppu.dispcnt, halves.ppu.dispcnt);
    assert_eq!(word.ppu.green_swap, halves.ppu.green_swap);

    let mut word = Bus::new();
    let mut halves = Bus::new();
    word.if_ = 0x0007;
    halves.if_ = 0x0007;
    word.write32(0x0400_0200, 0x0005_2001);
    halves.io_write16(0x200, 0x2001);
    halves.io_write16(0x202, 0x0005);
    assert_eq!(word.ie, 0x2001);
    assert_eq!(word.if_, 0x0002);
    assert_eq!(word.ie, halves.ie);
    assert_eq!(word.if_, halves.if_);
}

#[test]
fn forced_blank_ignores_affine_state() {
    let mut ppu = Ppu::new();
    ppu.dispcnt = 0x80 | 0x400 | 2;
    ppu.bg_affine[0].internal_x = i32::MAX;
    ppu.bg_affine[0].pb = 0x100;
    let palette = vec![0u8; 0x400];
    let vram = vec![0u8; 0x18000];
    let oam = vec![0u8; 0x400];
    let mut fb = vec![0u32; 240 * 160];
    ppu.render_scanline(7, &palette, &vram, &oam, &mut fb);
    assert!(fb[7 * 240..8 * 240].iter().all(|&p| p == 0xFFFF_FFFF));
    assert_eq!(ppu.bg_affine[0].internal_x, i32::MAX);
}

#[test]
fn console_step_moves_time_on() {
    let mut gba = Gba { cpu: Cpu::new(), bus: Bus::new() };
    gba.cpu.reset(&gba.bus);
    let before = gba.bus.scanline_cycles;
    gba.step();
    assert!(gba.bus.scanline_cycles > before || gba.bus.current_scanline > 0);
}

#[test]
fn tick_counters_wrap_lines_and_frames() {
    let mut bus = Bus::new();
    let mut cpu = Cpu::new();
    bus.current_scanline = 227;
    bus.scanline_cycles = 1000;
    bus.tick(300, &mut cpu);
    assert_eq!(bus.scanline_cycles, (1000 + 300) % 1232);
    assert_eq!(bus.current_scanline, 0);
    assert_eq!(bus.frame_count, 1);
    assert_eq!(bus.ppu.dispstat & 2, 0);
    bus.tick(1232 * 3 + 900, &mut cpu);
    assert_eq!(bus.scanline_cycles, 968);
    assert_eq!(bus.current_scanline, 3);
    assert_eq!(bus.frame_count, 1);
    assert_eq!(bus.ppu.dispstat & 2, 2);
}
