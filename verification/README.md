# hexciv

The rules of a hex-map strategy game for several players, written in Verus
and proved against their contracts, with the game program around them.

- `src/` is the library. Every function there is verified:
  - `hex`: positions of a map whose odd rows are shifted to the right, axial
    coordinates, neighbors and distances.
  - `terrain`: climate zones, base terrain and features of tiles, and the
    conversion of shallow ocean into coast.
  - `river`: where rivers leave their source tiles, the river edges of a map,
    and the river texture of each tile.
  - `unit`, `selection`, `movement`, `board`: units and their states,
    selecting and cycling through them, moving them along paths found with
    A*, and which unit each tile shows as units spawn and move.
  - `player`, `peer`, `turn`, `start`, `game_setup`: players, the multiplayer
    protocol between the host and the other players, turns, the first units,
    and session identifiers.
  - `random`, `id_set`: the calls into `fastrand` and `indexmap`, with the
    contracts they are trusted to meet. The library holds the state of a
    `fastrand` generator as an integer, so that every draw, and the map
    drawn from a seed, is a function of that state.
- `tests/` runs the library on concrete values.
- `app/` is the game program: the window, input, drawing with
  `bevy_ecs_tilemap`, the network, and the floating-point elevations of the
  terrain generator.
