# mapache

The rules behind the commands of the mapache backup program: what the command
line and the configuration file mean, which snapshots are forgotten, what a
bundle holds, what a command does next and what it comes to. They are written in
Rust and proved with Verus.

- `src/` is the library. Every function states what it returns, and the laws that
  hold between functions stand beside them as proof functions named `law_…`.
- `app/` runs the commands: it reads and writes, asks and waits, and asks the library
  what to do next. What it needs from the rest of the program (storage,
  repositories, the archiver, the terminal) is behind the traits in
  `app/services.rs`.
- `tests/` runs the library on concrete values.

Paths are texts, floating-point numbers are held by their bits, and values that
the program fixes elsewhere are handed in as `Defaults`.
