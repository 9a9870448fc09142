# etd_picker

A screen color picker for Windows, with its installer, whose logic is a
library verified with Verus.

- `src/` is the verified library:
  - `color`: colors and their `#RRGGBB`, `R, G, B`, `rgb(..)` and packed
    `0x00BBGGRR` forms, and reading a hex color back;
  - `text`: the string helpers that the readers rest on (trimming,
    splitting, decimal numbers, character widths);
  - `i18n`: the two languages, their codes and the window texts;
  - `config`: the settings, reading and writing the settings file, and the
    recent-colors list;
  - `settings`: the hotkey choices of the settings window;
  - `magnifier`: the loupe's key handling and placement;
  - `ui`: the main window's state, buttons, click tests and texts;
  - `installer`: the wizard's pages and commands, its texts, and what it
    writes (uninstall entry, shortcut script, first settings file).
- `app/` is the Windows program around it: windows, painting, tray icon,
  hotkey, clipboard, registry and files, and the color models computed in
  floating point. Started under a name holding `setup` or `install`, or with
  `--setup` or `--uninstall`, it runs the installer or uninstaller.
- `tests/` runs the library on concrete values.
