# atuin

The decisions of a shell history client that runs inside the shell's own process, verified with
Verus: how the bytes of a terminal become key presses, mouse reports and pastes, what a search
asks for, what a session counts, and in which order it shuts down.

- `src/` is the verified library. It does no I/O: the caller reads, waits and runs requests, and
  asks the library what comes next.
  - `bytes`, `text`: byte strings, and text out of bytes. `text` holds what is trusted of the
    standard library.
  - `event`, `parser`, `input`: events, the terminal protocol, and reading events from a terminal.
  - `search`, `session`: the options of a search, and the session that runs searches and records
    commands.
  - `parser_laws`, `reports`, `input_laws`, `stream_laws`, `reading_laws`, `session_laws`,
    `call_laws`: what holds of these over all inputs and over many calls.
- `tests/` runs the library on concrete values.
- `app/` is the system side: the terminal device, the background workers and the stores.
