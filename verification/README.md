# snap_launch

SnapLaunch adds favourite programs to the Windows right-click menu of the
desktop and of empty folder areas. This crate is its library, verified with
Verus, and the Windows program around it.

## Layout

- `src/` — the verified library
  - `text.rs`: character-level string helpers (trimming, replacing, splitting,
    zero-padded numbers, UTF-16 for Win32 calls)
  - `i18n.rs`: the Korean and English string tables
  - `tools.rs`: the tool list: ids (`tool_NNN`), orders 1..N, stable sort by order
  - `registry.rs`: every registry value the menu install writes, the recovery
    batch file, reading the executable path back from the `Icon` value
  - `paths.rs`: how a tool path is checked (direct, or through `PATH`/`PATHEXT`),
    splitting a file name into stem and extension
  - `launcher.rs`: `launch <id>`: what to run, and the offer to remove a broken entry
  - `app_state.rs`: state of the management window and what each action does to it
- `tests/` — tests of the library
- `app/` — the program: command-line modes, the egui window, the registry,
  message boxes and the tools file (JSON)
