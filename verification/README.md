# rusty_games

A collection of small Rust games and exercises, with their logic verified by
Verus.

- `src/` is the verified library: the guessing game, hide and seek, tic tac
  toe, minigrep, the tetrimino shapes, a ray caster's map and controls, the
  Wolfenstein 3D asset loader (ROLF3D) and the DOOM WAD reader (RusTooM),
  each with its contracts and laws.
- `app/` is the program around it: it reads files and the keyboard, draws in
  an SDL window, and keeps what is floating point.
- `tests/` runs the library on concrete values.

Run the program with the name of a demo as its first argument: `hello`,
`guess`, `hide-and-seek`, `minigrep`, `tictactoe`, `test-bench`, `tetrust`,
`raycasting`, `rolf3d` or `rustoom`.
