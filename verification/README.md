# JacqueWM

A keyboard-driven workspace manager for Windows virtual desktops:
nine workspaces on `Super`+`1`…`9`, a tiling layout, a top panel, an
app launcher, toasts, a tray menu and an installer.

## Layout

- `src/` — the library, written in Verus. Its functions carry
  `requires`/`ensures` contracts that Verus proves, except a handful of
  small trusted functions that call the standard library or
  `tracing-subscriber` (the clock, a channel, the log filter parser),
  whose contracts are stated in their doc comments. It covers the workspace engine,
  the window registry, the tiling tree and its layout, application
  rules, the hotkey dispatcher, the launcher's fuzzy matching, the
  notification queue, the subsystem registry, the configuration and
  its validation, the panel state, the installer's command line and
  the error messages. Fractional values (ratios, opacities) are carried
  as `f32` bit patterns; the platform (the Windows shell, window
  enumeration, drawing) is reached through traits the platform layer
  implements.
- `app/` — the executable around it: reading and writing the settings
  file, logging, threads and locks, floating-point smoothing and easing,
  and the installer's file and registry work.
- `tests/` — tests of the library's behaviour on concrete values.

Verify with Verus from the crate root (`src/lib.rs`).
