# Quboid

A window manager for Windows: global shortcuts that place the active window on
halves, thirds, corners and other areas of its monitor, drag snapping at the
edges of a work area, and a settings window in Italian and English.

The decisions are a verified library under `src/`, proved with Verus:

- `geometry`: where each action puts a window inside a work area, and the gap
  around it;
- `snap`: which edge or corner a drag snaps to;
- `runtime`, `hotkeys`: the monitor a window is on, the work area a drag is
  over, and the plan that keeps the global shortcuts registered;
- `config`, `schema`, `document`, `json`, `members`: the settings, their rules,
  the JSON document they are stored in, and the migration of older documents;
- `storage`: where the document lives and what loading it gives;
- `ui`, `keys`, `capture`, `settings`: labels, key names, shortcut capture and
  the state of the settings window;
- `appearance`: the Windows theme and accent colour.

`app/` is the program around it: the Win32 runtime, the registry, the files on
disk, the tray icon and the egui settings window. It calls the library for
every decision and keeps only what talks to Windows, the disk or the screen.
