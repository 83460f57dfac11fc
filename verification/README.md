# gba_emu

A Game Boy Advance emulator core whose behaviour is specified and proved with
Verus.

## Layout

- `src/` — the verified library.
  - `bits.rs` — bit fields, rotations, little-endian bytes, sign extension.
  - `cpu.rs` — the ARM7TDMI register file, banked registers and mode switches,
    the ALU flags, the barrel shifter, exceptions and the fetch/execute step.
  - `arm.rs`, `thumb.rs` — the two instruction sets, each instruction with its
    semantics as a spec function over the processor and bus state.
  - `bus.rs` — the memory map, I/O registers, wait states, DMA transfers and
    the video/audio timing that `Bus::tick` advances.
  - `ppu.rs`, `apu.rs`, `timer.rs`, `dma.rs` — display, sound, timers and DMA
    registers.
  - `ppm.rs`, `replay.rs` — frame dumps and key-replay files for the native
    harness.
  - `lib.rs` — the console (`Gba`) and its frame loop.
- `tests/` — tests on concrete inputs, run against the compiled library.
- `app/` — the WebAssembly C-ABI entry points and the native harness that runs
  a ROM and dumps frames. The BIOS image is not built in: the host page loads
  one through `emu_load_bios`, and the harness loads the file named by the
  `GBA_BIOS` environment variable (`Bus::load_bios` in the library).

Each data type has a mathematical view (`CpuState`, `BusView`) and a
well-formedness predicate; every public operation states its effect on the
view and keeps the predicate.
