# shade_octree

The integer core of a sparse voxel octree renderer, verified with Verus.

- `src/vec3.rs`: unsigned and signed grid vectors.
- `src/layout.rs`: the model of a level-by-level octree (`8^k` cells in level
  `k`, geometric sums) and the lemmas about it.
- `src/basics.rs`: child positions, cell indices within a level, the offset of
  a level in the flat buffer, and the laws that the buffer layout is a
  bijection between all cells of all levels and the slots `0..1+8+...+8^i`.
- `src/compute.rs`: buffer and dispatch sizes for a given depth.
- `src/octree.rs`: grid positions and the occupancy test of a cell.
- `src/shaders.rs`: the buffer records.
- `src/js_reader.rs`: paths of asset metadata files.
- `app/`: the float ray marcher and the command-line PPM renderer around the
  library.

The GPU side of the original program (bevy plugins, render-graph nodes and the
browser asset reader) is not part of this crate: bevy, with the rendering
features it needs, is too large a dependency to build with it, and the asset
reader's JavaScript imports need a cargo build of the wasm target.
