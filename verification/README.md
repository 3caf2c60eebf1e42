# minimux

Terminal session persistence: a daemon holds a shell in a pseudo-terminal,
records its output, and replays it to each client that (re)attaches over a
named pipe.

- `src/` is the verified library:
  - `protocol` — the client/daemon messages, their length-prefixed frames,
    and the buffer that reassembles frames from the bytes received;
  - `scrollback` — the replay buffer that keeps the last `--scrollback`
    lines of output (at most 1 MiB), beside a vt100 parser of the visible
    screen;
  - `session` — the daemon's decisions on PTY output, client connections and
    client messages;
  - `keys`, `client` — key events to PTY bytes, Ctrl+D and the Ctrl+B prefix keys, what
    reaches the client's terminal, and the connection retry policy;
  - `text`, `shell`, `control` — decimal numbers, PATH lookup names, the
    default shell, the daemon's command line, its session file (start time
    and shell) and the status and kill messages.
- `app/` is the `mm` program: argument parsing, the PTY, the pipe, the
  terminal and bincode serialization around the library.
- `tests/` runs the library on concrete cases.
