# pskursor

A verified core for a Linux input-device tool: it chooses which input
devices (as evdev reports them) are offered for selection, and computes the
texts that the terminal interface shows.

- `src/` — the library, verified with Verus:
  `device` (the device record), `pattern` (MAC-address and ACPI-name
  patterns, searched with the `regex` crate), `discovery` (device
  selection and its laws), `text` (decimal and hex renderings), `screens`
  and `tui` (what the interface shows and how keys move between tabs),
  `daemon`, `error`.
- `app/` — the program around it: device enumeration with `evdev`, the
  synchronisation file with `serde_json`, drawing with `ratatui`/`termion`,
  logging with `tracing`.
- `tests/` — tests of the library.
