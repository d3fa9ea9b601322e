//! Turning NDS primitive groups into standard geometry buffers.

pub mod index_builder;
pub mod joint_builder;
pub mod topology;

use vstd::prelude::*;
use std::ops::Range;

verus! {

/// Info about the result of a draw call, ie. the result of drawing a mesh (a
/// set of GPU commands) while in a particular GPU state (matrix stack, bound
/// material, etc.).
#[derive(Debug)]
pub struct DrawCall {
    /// Executing a draw call for a mesh (a set of GPU commands) results in
    /// pushing a set of vertices and indices onto those buffers. This is the
    /// range of the vertices that this call produced.
    pub vertex_range: Range<u16>,
    /// The range of the indices that this call produced.
    pub index_range: Range<usize>,
    /// The index of the material that was bound when the draw call ran.
    pub mat_id: u8,
    /// The index of the mesh that was drawn.
    pub mesh_id: u8,
}

/// How the indices of a set of primitives group into faces.
#[derive(Debug, Copy, Clone, PartialEq, Eq, Structural)]
pub enum PolyType {
    /// Every three indices are a triangle.
    Tris,
    /// Every four indices are a quad, or a triangle when the fourth is
    /// `0xffff`.
    TrisAndQuads,
}

/// The faces of a model: its index buffer, how it groups into faces, and the
/// draw calls that produced its parts.
#[derive(Debug)]
pub struct Primitives {
    pub poly_type: PolyType,
    pub indices: Vec<u16>,
    pub draw_calls: Vec<DrawCall>,
}

} // verus!
