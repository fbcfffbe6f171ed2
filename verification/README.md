# wilds

The data-handling core of a small game engine, written in Verus. The
functions in `src/` carry contracts that Verus proves; the few that call into
std, `byteorder`, `url` or `gltf` are marked `#[verifier::external_body]`, and
their contracts, stated in their doc comments, are trusted.

## Layout

- `src/` — the verified library.
  - `broker.rs` — an event broker whose readers take events out one by one.
  - `fps_counter.rs` — frame-time samples over a sliding time window.
  - `bytes.rs` — fixed-width integers read from byte slices with a stride.
  - `gltf.rs` — glTF parsing of a document's sources, accessors: bounds
    checks, index and joint decoding.
  - `gltf_layout.rs` — the structure of a glTF document: primitive ranges,
    node children and meshes, scenes.
  - `textures.rs`, `images.rs` — glTF samplers, material textures and image
    descriptions.
  - `mesh.rs`, `vertex.rs` — mesh building, draw counts, vertex input layouts.
  - `terrain.rs` — the triangle grid of height-map terrain.
  - `descriptor.rs`, `sparse.rs`, `bitset.rs` — descriptor pool sizing and
    descriptor index allocation.
  - `sbt.rs` — shader binding table layout and handle copying.
  - `camera.rs`, `engine.rs`, `physics.rs`, `skeleton.rs`, `assets.rs`,
    `pipeline.rs`, `scene.rs` — camera key handling, task polling decisions,
    collision groups, skeletons, asset keys and formats.
- `tests/` — tests of the library on concrete values.
- `app/` — glue that reads configuration files, turns glTF documents into the
  plain descriptions the library takes, and drives the library's poll
  decisions from async executors.

## Checking

Run Verus on `src/lib.rs`; the tests build against the library like any
other crate.
