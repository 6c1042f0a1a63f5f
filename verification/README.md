# ScreenTune

A display-tuning tool for gamers (gamma, brightness, contrast, saturation and
colour temperature per monitor, profiles, global hotkeys, a tray menu, launch
at login, and automatic profile switching when a game starts).

The crate is written in Verus: the rules of the tool live in `src/` with
their contracts and are proved; `app/` is the program around them.

## Layout

- `src/text.rs` — character helpers and the std string operations used.
- `src/keyed.rs` — a table of values keyed by text, each key once.
- `src/hotkey.rs`, `src/hotkey/registry.rs` — the hotkey grammar
  (`Ctrl+Alt+1`), its canonical form, and which bindings a registration round
  accepts, refuses, and dispatches.
- `src/config.rs`, `src/common.rs` — configuration data and defaults.
- `src/detector.rs` — the game detection state machine.
- `src/profile.rs`, `src/profile/` — the profile list: built-in profiles,
  ordering by name, create / update / delete, import with renaming.
- `src/display/` — the gamma-ramp backup format, the display manager
  (baselines, crash recovery, rescans, restore at exit), and the in-memory
  monitors used where no real monitor can be reached. Calls on the platform
  and the backup files go through `src/display/devices.rs`, whose methods
  each make one call and record it, with its arguments and answer, in a
  ghost log that only they write; `src/profile/calls.rs` and
  `src/hotkey/calls.rs` do the same for the profile store and the hotkey
  platform. The managers' contracts speak of these logs.
- `src/startup.rs`, `src/tray.rs` — launch at login and the tray menu.
- `src/ui/` — interface events, page state, the two dictionaries, and the
  session (parameters remembered per monitor, last profile, profile in
  effect).
- `app/` — file and OS access, floating-point colour curves, the egui
  interface, and `main`.
- `tests/` — tests of the library.

Each module states what holds across its operations in `law_*` proof
functions.
