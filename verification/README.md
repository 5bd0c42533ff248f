# keytweak

Keyboard utilities for Windows — switching the input layout with Caps Lock,
text auto-replacement, key remapping and selection translation — with their
logic verified by Verus.

- `src/` is the verified library: the configuration and its migration, the
  keyboard hook's decisions for each key event (`state`), hotkey parsing and
  multi-press detection, auto-replacement, key remapping, program exceptions,
  sentence splitting, the translator's request handling and engine, the host
  side of the translator process (request ids, pending requests, restarts,
  the watchdog), start-up registry decisions and the tray menu.
- `tests/` runs the library on concrete cases.
- `app/` is the Windows program around it: Win32 calls, the clipboard, HTTP,
  the translator process's I/O, the Tauri windows and tray. Run with
  `--translator` it is the translator process.
