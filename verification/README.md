# Parking Escape

A sliding-block parking puzzle: slide the cars, boats or wagons along their
lanes until the player's vehicle reaches the exit.

- `src/` is the game's logic as a library verified with Verus: the board and
  its moves, undo and reset; the breadth-first solver; level packs and star
  ratings; locale tags and translated texts; themes, sprites, the texture
  files they are drawn from, and sounds.
- `app/` is the program around it: the macroquad window, input, drawing,
  the floating-point drag and coasting physics, sound playback and reading
  the level files (JSON, via serde) from the `assets/` directory.
- `tests/` exercises the library on concrete boards, levels and locales.
