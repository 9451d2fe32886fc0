# apple_silicon

Drivers for Apple Silicon machines, written in Verus. What a driver decides and
computes is verified; what it hands to the machine is recorded, and the
contracts speak of the record.

## Layout

- `src/` is the library.
  - `wire`, `bus`, `memory`, `sysreg`: registers, shared memory and system
    registers, each with a record of all accesses. `wire` makes single accesses;
    the compound ones of `bus` are proved to be made of them.
  - `ports`: what a driver asks of the rest of the kernel, with a record of the
    calls that no driver can write itself.
  - `arith`, `bytes`, `text`, `registry`, `platform`, `devicetree`: numbers,
    wire formats, names, device descriptions.
  - `asc`, `rtkit`, `afk`, `epic`: mailbox, boot protocol, ring buffers and
    services of the coprocessors.
  - `dart`: translation units and their page tables.
  - `dcp`, `dcp_probe`: display coprocessor and the internal panel.
  - `avd`: video decoder, its firmware and its clients.
  - `spi_hid`: keyboard and trackpad.
  - `atcphy`, `dwc3`, `cd321x`: USB.
  - `admac`, `nco`, `mca`, `tas5770l`, `i2c`: audio.
  - `pinctrl`, `efuse`, `wdt`: pins, fuses, watchdog.
  - `cpu`, `cpufreq`, `fiq`: processors and their fast interrupts.
- `tests/` runs the library against simulated hardware.
- `app/` connects the library to a kernel.

## How contracts are stated

A driver function takes the machine as an argument, such as `&mut Bus<M>`, and
its `ensures` says by which operations the record grew. Nothing is assumed of
what the hardware answers: a contract names the answer and says what follows
from it. Public proof functions state what holds across functions, such as that
a page that was mapped is found by the walk of the hardware.
