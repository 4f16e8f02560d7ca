# focusretro

FocusRetro brings the right Dofus Retro window to the front when one of your
characters is concerned by a game notification (turn, group invitation, trade,
private message), and lets you cycle through your accounts with global hotkeys
or a radial selector.

This crate is the verified core of the program, written in Verus:

- `src/` holds the logic with its contracts: the notification grammar and
  parser (`grammar`, `parser`, `formats`), the account bookkeeping and
  preferences (`state`, `bookkeeping`), the routing of game events
  (`autoswitch`), the hotkey decisions (`hotkeys`), the tray contents (`tray`),
  window-title and layout computations (`platform`), and the notification and
  taskbar bookkeeping of the Windows backend (`notifications`, `taskbar`).
  `formats` and `bookkeeping` state the laws of the library as proof functions.
- `tests/` runs the library on concrete values; `grammar_oracle` compares the
  verified grammar with regular expressions.
- `app/` is the desktop program around the library (Tauri windows, tray,
  hotkey hooks, notification listeners, configuration file). It is ordinary
  Rust and only calls the library.
