# vger

The bookkeeping core of a GPU vector renderer, verified with Verus.

`src/` records what a frame draws: three scenes used in turn (so the GPU can
still read the two previous frames), each with per-layer primitives, path
control vertices, transforms and paints; the transform stack with
save/restore; and the path pen and segments. Geometry, transforms, paints and
points are generic values that the core carries without reading them, so
every contract is exact about what is stored where and which index names
what. `src/laws.rs` holds the properties that span operations.

`app/` holds what needs floating point, text layout or the GPU: primitive
geometry, text bounds and glyph positions (fontdue), the 3D camera and
projection matrices (euclid), and the uniform types (bytemuck, wgpu).
