# sieg

A small terminal multiplexer: a background server that owns real PTY-backed
panes, a command-line client (`sieg spawn|list|send|read|kill`) and a terminal
front end, all talking over a Unix socket.

- `src/` is the library, verified with Verus: the scrollback interpreter for
  raw PTY output (`pty_text`), the pane registry and request handling of the
  server (`server`), argument parsing and table printing of the CLI (`cli`),
  the front end's state machine and layout helpers (`ui`), the protocol types,
  the palette and small text utilities.
- `app/` is the program around it: the socket, the pseudo-terminals and
  processes, JSON encoding, and drawing with ratatui/crossterm. It performs
  the actions that the library decides on and hands the results back.
- `tests/` exercises the library on concrete values.
