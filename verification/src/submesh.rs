//! Plain data of the mesh layer that the core shares with its loaders
//! and renderers: vertex indices of a face, and the morph-target kinds.

use vstd::prelude::*;

verus! {

/// The index type of mesh vertices.
pub type CalIndex = i32;

/// How a morph target composes with others on the same mesh.
#[derive(Clone, Copy, Debug, PartialEq, Eq, Structural)]
pub enum CalMorphTargetType {
    CalMorphTargetTypeNull,
    CalMorphTargetTypeAdditive,
    CalMorphTargetTypeClamped,
    CalMorphTargetTypeAverage,
    CalMorphTargetTypeExclusive,
}

/// One triangle of a submesh: three vertex indices.
#[derive(Clone, Copy, Debug)]
pub struct Face {
    pub vertexId: [CalIndex; 3],
}

impl Face {
    pub fn new(vertexId: [CalIndex; 3]) -> (r: Face)
        ensures
            r.vertexId == vertexId,
    {
        Face { vertexId }
    }
}

} // verus!
