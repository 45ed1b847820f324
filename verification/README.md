# expectrl

A library for automating interactive terminal programs: spawn a program on a
pseudo terminal, wait for patterns in what it prints, and send it input.

- `src/` is the library, verified with Verus: the needles that search the output
  (`needle.rs`, `regex_engine.rs`), the captures of a match (`captures.rs`), the
  decisions of `expect`, `check` and `is_matched` on the bytes read from a process
  (`session.rs`), the buffer and the logging of a session's stream (`stream/`),
  the decisions of the interaction loop (`interact/`), repl sessions (`repl.rs`),
  control codes (`control_code.rs`), command line splitting (`process.rs`) and the
  error type (`error.rs`).
- `app/` is the operating-system side: spawning on a pseudo terminal, the IO
  loops of a session and of an interaction, STDIN in raw mode.
- `tests/` runs the library on concrete values.
