# wolkenwelten

The game logic of a voxel sandbox, written in Verus with its behaviour
stated as contracts and proved.

`src/` is the verified library:

- `chunk/` — blocks, fluids and light of a 32³ chunk; light is seeded by
  sunlight, spread with a two-pass blur (each cell ends with the brightest light that
  reaches it, one level lost per cell) and halved inside blocks.
- `meshgen`, `plane`, `block_mesh`, `vertex` — the block mesh of a chunk: the
  visible faces of each side, slice by slice, greedily merged into
  rectangles (proved to cover every visible face exactly once) and packed
  into vertices; which index ranges to draw for the sides facing the viewer.
- `text`, `ui/` — the interface mesh: glyphs, hearts, the health bar, the
  inventory bar, the game log, the death overlay.
- `icons` — isometric inventory icons drawn from the block texture atlas.
- `character`, `health`, `experience`, `item`, `block_mining`, `input` — the
  player's state, inventory and controls.
- `reactor`, `worldgen`, `queue` — when message handlers run, the level by
  level search for world generation outlines, and the sets of chunk
  requests.

`app/` holds what the library leaves out: the reactor's table of handler
closures (the table and how it runs them; which handlers a game registers is
up to the game), the world generator's table of generator closures,
thread-local state, serialisable copies of library types, conversions to
`glam` and `rgb`, and floating-point helpers (movement speed, steering,
level progress, mesh positions). The physics of a character's movement
through the world is in neither part; its fall damage is
`Character::take_fall_damage`.

`tests/` runs the library on concrete values.
