# c64emu

A Commodore 64 emulator core whose behaviour is stated in contracts and
proved with Verus: the 6510 CPU, the memory bus with its ROM/RAM/I/O banking,
the VIC-II raster timing and line renderer, the SID voices, both CIAs, D64
disk-image parsing, and the machine loop that ties them together.

Layout:

- `src/` — the verified library. Each module states its model as spec
  functions (`spec_step` for one CPU step, `spec_cia_read`/`spec_tick_n` for
  the CIAs, `spec_vic_tick` for the raster, `rendered` for a drawn line,
  `spec_directory`/`file_walk` for disk images, `machine_step` for one turn of
  the main loop) and ends with its laws, proved as `law_*` proof functions.
- `tests/` — tests run against the compiled library.
- `app/` — the SDL2 frontend (window, audio queue, keyboard), reading ROM
  dumps and disk images from files, and the headless `--d64test` check.
