# crest

A modular status bar for Windows: workspaces, focused window, clock, CPU,
memory, battery, network, volume, tray and custom shell-command modules,
configured in KDL, following the wiri window manager and the aurora
wallpaper swapper over named pipes.

## Layout

- `src/` — the verified library (Verus):
  - `config/` — the configuration types and the KDL reader, specified line
    by line (`parse_spec`) with laws on comments, properties and appended
    lines;
  - `module/` — the `Module` trait, the registry, the runtime that schedules
    ticks and routes clicks, and the built-in modules' logic (battery
    colours, clock intervals and formats, workspace labels and switching, title
    truncation, wallpaper names, network counters, custom output);
  - `wiri_ipc.rs`, `aurora_ipc.rs` — how decoded events change the shared
    window-manager and wallpaper state, and the reading of aurora's event
    lines;
  - `control_ipc.rs` — the answers on the control pipe and `crest-ctl`'s
    reports;
  - `bar.rs` — monitor choice, bar placement, colour parsing, paint order
    and the window procedure's decisions;
  - `text.rs` — characters, trimming, decimal and hexadecimal numbers.
- `app/` — the program around it: Win32 windows and Direct2D painting,
  the pipes, JSON, reading the machine (power, CPU, memory, network),
  running commands, and the floating-point readings.
- `tests/` — tests of the library.
