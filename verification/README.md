# myemu

A 32-bit machine emulator: CPU, memory bus with a two-level MMU and TLB,
a 2D blitter (DMA2D), keyboard, mouse, serial port, timer and block device,
plus a profiler and a PNG writer.

- `src/` is the verified library. `machine/` holds the machine state and its
  devices; every operation states its effect on `MachineState`, the
  mathematical model of the machine. `cli.rs`, `loader.rs`, `report.rs` and
  `control.rs` hold the command line, the program image format, the end of
  run report and the automation protocol's decisions.
- `app/` is the program: the window (minifb) and MIT-SHM scan-out, host
  input, the disk image file, the serial console, wall-clock pacing and the
  run loop that carries out what the library decides.
- `tests/` exercises the library through its public interface.
