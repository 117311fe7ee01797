# emergence_lib

The decision logic of the structure-selection hex menu and of ant hatching,
verified with Verus.

- `src/hex_grid.rs`: axial hex coordinates, hex distance, and the spiral of
  rings (computed by `hexx`) that the menu is laid out on.
- `src/hex_menu.rs`: sorting structure ids, laying them out on the spiral,
  and the menu's contents (held in bevy's `HashMap`).
- `src/selection.rs`: what lies under the cursor, and what a selection does.
- `src/reproduction.rs`: which structures hatch an ant, and on which tile
  (picked with `rand`).
- `app/`: the Bevy plugins and systems that read input, spawn entities and
  draw, around the library.
