//! The kinds of nodes in the joint tree of a skinned model.

use vstd::prelude::*;

verus! {

/// Indicates what kind of matrix (local-to-parent) each node represents.
#[derive(Debug, Copy, Clone, PartialEq, Eq, Structural)]
pub enum Transform {
    /// A dummy root. We insert this to ensure the graph is a tree and not
    /// just a forest.
    Root,
    /// The objects matrix with the given index. We're computing the bind
    /// pose, so the value of these is what is given in the MDL file.
    Object(u8),
    /// The blend matrix in the MDL file with the given index.
    Blend(u8),
    /// An unassigned stack slot. We treat it as having the identity as its
    /// value. If this shows up, there's probably a bug.
    UnknownStackSlot(u8),
}

/// What a node of the joint tree stands for: the root, an object's matrix,
/// or a matrix stack slot nothing was stored to.
#[derive(Debug, Copy, Clone, PartialEq, Eq, Structural)]
pub enum Kind {
    Root,
    Object(u8),
    UndefinedStackSlot(u8),
}

} // verus!
