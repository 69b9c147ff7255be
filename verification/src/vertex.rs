//! The quad primitive every point is rendered as: four corners drawn as
//! a triangle strip, plus the byte-layout constants of the per-vertex
//! stream.

use crate::fixed::SCALE;
use crate::vec3::FxVec3;
use vstd::prelude::*;

verus! {

/// Vertices in the quad strip; the draw call uses this as its vertex
/// count and the instance count equals the point count.
pub const SQUARE_VERTEX_COUNT: u32 = 4;

/// Byte stride of one vertex record: three position floats and three
/// color floats.
pub const VERTEX_STRIDE: u64 = 24;

/// Byte offset of the position attribute inside a vertex record.
pub const VERTEX_POSITION_OFFSET: u64 = 0;

/// The unit square in the x-y plane, strip order.
pub open spec fn spec_square() -> Seq<FxVec3> {
    seq![
        FxVec3 { x: 0, y: 0, z: 0 },
        FxVec3 { x: SCALE, y: 0, z: 0 },
        FxVec3 { x: 0, y: SCALE, z: 0 },
        FxVec3 { x: SCALE, y: SCALE, z: 0 },
    ]
}

/// The quad corners handed to the vertex buffer.
pub fn square_vertices() -> (v: Vec<FxVec3>)
    ensures
        v@ == spec_square(),
        v@.len() == SQUARE_VERTEX_COUNT,
{
    let mut v: Vec<FxVec3> = Vec::new();
    v.push(FxVec3 { x: 0, y: 0, z: 0 });
    v.push(FxVec3 { x: SCALE, y: 0, z: 0 });
    v.push(FxVec3 { x: 0, y: SCALE, z: 0 });
    v.push(FxVec3 { x: SCALE, y: SCALE, z: 0 });
    proof {
        assert(v@ =~= spec_square());
    }
    v
}

} // verus!
