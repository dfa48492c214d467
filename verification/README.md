# protos

The rules of a small real-time prototype, as a verified library: the grids
that units walk on, the ground's material tiles and navigation costs, path
search and smoothing, the carving of buildings into the navigation grid, the
utility-AI actions, and the state machines of the editing tools and of
selection. Every function in `src/` carries a `requires` / `ensures`
contract that Verus proves; the `law_*` proof functions state the properties
that span several calls.

- `src/ai/sparse_grid.rs`, `src/grid.rs`, `src/sparse_grid.rs`: the grids.
- `src/ai/ground.rs`, `src/slow_unit.rs`: ground tiles, navigation costs and
  the drawing of the ground texture.
- `src/ai/pathfind.rs`: successors, the distance estimate, the cheapest-path
  search (through `pathfinding::prelude::astar`, behind one trusted wrapper)
  and path smoothing.
- `src/ai/slow_unit.rs`: carving a building into the navigation grid and
  restoring it.
- `src/ai/velocity.rs`, `src/ai/fast_unit.rs`: where stuck units escape to,
  where units spawn.
- `src/ai.rs`, `src/ai/add_cube.rs`, `src/ai/platform.rs`, `src/ui/`: AI
  actions, tool state machines, selection and panel modes.
- `tests/`: tests of the library.
- `app/`: the Bevy program around the library (rendering, input, physics,
  floating-point steering); it is not verified.
