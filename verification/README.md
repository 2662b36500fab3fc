# ship_designer

The shared core of a multiplayer voxel ship designer, verified with Verus.

Players build ships out of parts: boxes of voxels, each voxel empty or made of
a material. Client and server exchange messages in packets; parts are kept in
a store that shares them through counted handles and copies a shared part the
first time it is changed.

## Layout

- `src/` — the library, proved by Verus; every public function has a contract:
  - `packet`, `codec`: packets with a read cursor, the byte layout of every
    value, and the proof that each value reads back as written.
  - `ids`, `materials`, `grid`, `transform`, `channels`: the values carried in
    messages (floats travel as their bits).
  - `messages`, `dispatch`: the messages, their packets, and what a client
    does with each report of its connection.
  - `part`, `store`, `predefined`: parts, the part store and its handles, the
    built-in parts.
  - `colliders`, `mesh`: the boxes a part's colliders are made of, and the
    layout of its mesh.
  - `building`, `controls`, `fixed_input`: what a click asks for, which way
    the keys move the player, which camera comes next, and when input seen by
    fixed steps is cleared.
- `tests/` — tests of the library on concrete values.
- `app/` — a headless client: the connection, the bevy world, physics and the
  floating-point geometry around the library.
