# hyprmwh

A terminal-styled window switcher and app launcher for Hyprland, with vim
keybinds, whose logic is a Verus-verified library.

- `src/` is the library, verified by Verus:
  - `app.rs`: the switcher's state, its messages and the effects it asks
    for; `update` is specified by the transition `step`.
  - `data.rs`: desktop entries (`parse_desktop_file`, `clean_exec`), the app
    list order, the window list taken from `hyprctl clients -j`, the data
    directories, the active workspace id.
  - `daemon.rs`: the socket path and the command words of the daemon protocol.
  - `cli.rs`: the command line and what the program does with it.
  - `render.rs`: the texts that are drawn (line numbers, labels, title, status line).
  - `text.rs`, `order.rs`: characters, whitespace, decimal numbers, the order of
    text and the stable sort.
  - `laws.rs`: properties across functions (the daemon protocol, the
    consistency of the state under every step, the escape/tab/count/command
    behaviour, the order of the lists, idempotence of trimming and of
    cleaning command lines).
- `app/` is the iced / layer-shell program around the library: I/O, the
  socket, the widgets and colours.
- `tests/` runs the library on concrete values.
