# Playa

A lyrics overlay: it follows the player and shows the line that is being sung.

- `src/` is the library, verified with Verus: the LRC format, the current line,
  the machine that follows the player, the overlay's reactions and settings.
- `tests/` runs it.
- `app/` is the desktop program around it: windows, files and the network. It is
  a Tauri program; `tauri` and `tauri-plugin-global-shortcut` are added to the
  dependencies where the desktop libraries are installed.
