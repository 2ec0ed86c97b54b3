//! The finished mesh: the deduplicated vertex pool and the triangle index
//! list, ready to hand to an upload step.

use vstd::prelude::*;

use crate::builder::MeshVertex;

verus! {

/// The finished output pair: vertex pool in first-use order, and 32-bit
/// indices, three per triangle.
#[derive(Debug)]
pub struct Mesh {
    pub vertex_buffer: Vec<MeshVertex>,
    pub indices_buffer: Vec<u32>,
}

impl Mesh {
    /// Wrap the two finished buffers.
    pub fn new(vertex_buffer: Vec<MeshVertex>, indices_buffer: Vec<u32>) -> (m: Mesh)
        ensures
            m.vertex_buffer@ == vertex_buffer@,
            m.indices_buffer@ == indices_buffer@,
    {
        Mesh { vertex_buffer, indices_buffer }
    }
}

} // verus!
