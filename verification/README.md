# mini_rts

The rules of a small real-time strategy game server, written in Verus: every function in
`src/` carries a `requires`/`ensures` contract that Verus proves, and the laws of the game
(what one operation undoes, what every step keeps) are public proof functions.

## Layout

`src/` is the verified library:

- `navgrid`, `pathfind`, `nearest`, `route`: the 64 x 64 navigation grid, 8-directional A*
  search (proved to find a route exactly when one exists, and a cheapest one), the
  nearest-walkable-cell fallback and line-of-sight string pulling.
- `economy`, `kinds`: minerals and supply per side, prices, training and build orders.
- `matchmaker`, `lobby`, `session`: rooms, the 1v1 queue, solo and private matches, room
  codes, leaving and disconnecting.
- `map`, `spawner`: the point-symmetric map (obstacles, bases, mineral fields) and the
  opening layout of a match.
- `combat`, `mining`, `movement`, `abilities`, `orders`, `rules`: per-tick decisions of
  soldiers, tanks, turrets and workers, waypoint and patrol rules, siege mode, players'
  orders, match winners and solo waves.
- `http`: routing of status requests and the documents the server answers them with.
- `faction`, `components`, `text`: shared types and the string helpers that call `std`.

`app/` is the dedicated server around the library, in ordinary Rust: the WebSocket edge
(Tokio), the 30 Hz main loop, the store of entities, world-space geometry and timers in
floating point, unit statistics and the wire protocol (serde and bincode). It measures
distances and times and hands the library plain values.

`tests/` runs the library on concrete inputs.

## Checking

Verus verifies `src/`; `cargo test` runs `tests/`.
