use vstd::prelude::*;

verus! {

/// Most transforms, and most paints, that one frame can record.
pub const MAX_PRIMS: usize = 65536;

/// Number of primitive layers in a scene.
pub const MAX_LAYERS: usize = 4;

/// Number of scenes the renderer rotates through, so that the GPU can still
/// read the scenes of the two previous frames while a new one is recorded.
pub const SCENE_COUNT: usize = 3;

} // verus!
