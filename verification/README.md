# tinyraycaster

The logic of a small grid raycaster game, verified with Verus.

- `src/` is the library: tile, enemy and weapon kinds and their names; the
  grid map and the registry of tiles and enemies (`GameState`), read from the
  lines of a map file; the fields of the state file; the player's per-frame
  control decisions; and drawing into macroquad images (pixels, rectangles,
  image copies, PPM text). Grid maps are rustc-hash `FxHashMap`s.
- `app/` is the program: the window and frame loop, file reading, and what
  computes in floating point (player motion, ray casting, rendering).
- `tests/` runs the library on concrete maps, lines and images.
