# corsair-top

A terminal monitor for Corsair AX1500i/AX1600i power supplies, reached through
the USB dongle's SMBus bridge on a serial device.

`src/` is the verified library:

- `linear11` — the PMBus LINEAR11 number format and the uptime counter.
- `frame` — the bridge's block-read and block-write frames, reply sizes and
  when a serial read stops.
- `text` — the model name: trailing NULs, lossy UTF-8, substring search.
- `protocol` — actions (transactions and pauses), register reads and page
  selections as steps, and the dongle's setup script.
- `readout` — the readout script as a state machine, what a finished readout
  reports as a function of the replies, and its laws (page order, fresh and
  kept 12V pages, progress).
- `psu` — one supply: its path and the 12V pages the next readout falls back on.
- `readings` — configuration and readout types (register values in LINEAR11).
- `monitor` — the monitor state: bounded histories, polling rate (250 ms to
  5 s), poll timing, keys.
- `layout` — integer parts of the display layout (12V section height, rail labels).

`app/` holds the program: the serial device (serialport), the transaction
loop, floating-point quantities, and the display (ratatui, crossterm).
