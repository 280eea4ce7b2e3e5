# short_flight

The game logic of a small top-down action game, written in Verus: every function of
the library carries a contract that Verus proves.

- `src/` is the verified library: animation state and spritesheet layout, the loading
  sequence, collision tracking, NPC stats and AI decisions, rigidbody contact sets, the
  tile editor, tile mesh layouts and the grid of LDtk levels. Public proof functions
  state the laws that hold across calls.
- `tests/` runs the library on concrete values.
- `app/` is the bevy game around it: rendering, input, asset loading and the float
  geometry (positions, slopes, overlap tests), which hands plain values to the library
  and applies what it returns.
