# alpha_tui

A runtime for programs in alpha notation, a small assembly-like language used
in teaching: accumulators, a gamma accumulator, memory cells, index memory
cells, a stack, jumps, calls and returns.

The library in `src/` is written in Verus and verified:

- `instructions`: the instructions, how a line is read (`parsing`), how an
  instruction is written (`notation`) and what it does (`semantics`).
- `runtime`: memory, control flow, the runtime that runs a program step by
  step, and the builder that checks a program against the memory layout and
  the limits on allowed instructions.
- `interface`: the decisions of the terminal interface: what a key does,
  which keybinding hints are shown, running to a breakpoint, running an
  instruction the user enters, and laying the program out in columns.
- `utils`, `text`, `ui`, `cli`, `base`: comments, whitelists, the history of
  entered instructions, text helpers, argument checks.
- `laws`: properties that span several functions, stated and proved.

`app/` holds the program around the library: argument parsing, file I/O,
configuration files and the terminal drawing. The tests are under `tests/`.
