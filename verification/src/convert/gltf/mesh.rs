//! The integer side of a glTF mesh: the index buffer, one index range per
//! draw call, and the joint and weight influences packed in sets of four.
//!
//! Positions, texture coordinates, colours, normals and weights are
//! floating point values; the document writer packs those.

use vstd::prelude::*;
use crate::geometry::DrawCall;
use super::gltf::{le16, ByteVec};

verus! {

/// The little-endian bytes of the indices `s`.
pub open spec fn index_bytes_of(s: Seq<u16>) -> Seq<u8>
    decreases s.len(),
{
    if s.len() == 0 {
        Seq::empty()
    } else {
        index_bytes_of(s.drop_last()) + le16(s.last())
    }
}

/// The index buffer's bytes: each index as a little-endian `u16`.
pub fn index_bytes(indices: &Vec<u16>) -> (r: Vec<u8>)
    requires
        2 * indices@.len() <= usize::MAX,
    ensures
        r@ == index_bytes_of(indices@),
        r@.len() == 2 * indices@.len(),
{
    let mut out: Vec<u8> = Vec::new();
    let mut i: usize = 0;
    while i < indices.len()
        invariant
            i <= indices@.len(),
            out@ == index_bytes_of(indices@.take(i as int)),
            out@.len() == 2 * i,
        decreases indices@.len() - i,
    {
        out.push_u16(indices[i]);
        assert(indices@.take(i + 1).drop_last() =~= indices@.take(i as int));
        i += 1;
    }
    assert(indices@.take(i as int) =~= indices@);
    out
}

/// The indices a draw call reads from the index buffer: where they start
/// in bytes, and how many there are.
pub fn call_index_accessor(call: &DrawCall) -> (r: (usize, usize))
    requires
        call.index_range.start <= call.index_range.end,
        2 * call.index_range.start <= usize::MAX,
    ensures
        r.0 == 2 * call.index_range.start,
        r.1 == call.index_range.end - call.index_range.start,
{
    (2 * call.index_range.start, call.index_range.end - call.index_range.start)
}

/// How many sets of four influences `max_influences` influences take.
pub fn num_influence_sets(max_influences: usize) -> (r: usize)
    requires
        max_influences + 3 <= usize::MAX,
    ensures
        r == (max_influences + 3) / 4,
        4 * r >= max_influences,
{
    (max_influences + 3) / 4
}

/// The `4 * num_sets` bytes of one vertex: its values in order, then zeros.
pub open spec fn padded_set(v: Seq<u8>, num_sets: nat) -> Seq<u8> {
    Seq::new(4 * num_sets, |i: int| if i < v.len() { v[i] } else { 0u8 })
}

/// The bytes of the first `k` vertices, each padded to `4 * num_sets`.
pub open spec fn packed_sets(vs: Seq<Seq<u8>>, num_sets: nat) -> Seq<u8>
    decreases vs.len(),
{
    if vs.len() == 0 {
        Seq::empty()
    } else {
        packed_sets(vs.drop_last(), num_sets) + padded_set(vs.last(), num_sets)
    }
}

/// Packs the per-vertex influence values (joints, or weights already made
/// bytes) in sets of four: each vertex gets `4 * num_sets` bytes, its values
/// in order and then zeros. Set `s` is then read at byte `4 * s` with a
/// stride of `4 * num_sets`.
pub fn pack_influence_sets(per_vertex: &Vec<Vec<u8>>, num_sets: usize) -> (r: Vec<u8>)
    requires
        4 * num_sets <= usize::MAX,
        4 * num_sets * per_vertex@.len() <= usize::MAX,
    ensures
        r@ == packed_sets(per_vertex@.map_values(|v: Vec<u8>| v@), num_sets as nat),
        r@.len() == 4 * num_sets * per_vertex@.len(),
{
    let ghost vs = per_vertex@.map_values(|v: Vec<u8>| v@);
    let width = 4 * num_sets;
    let mut out: Vec<u8> = Vec::new();
    let mut k: usize = 0;
    while k < per_vertex.len()
        invariant
            k <= per_vertex@.len(),
            width == 4 * num_sets,
            width * per_vertex@.len() <= usize::MAX,
            vs == per_vertex@.map_values(|v: Vec<u8>| v@),
            out@ == packed_sets(vs.take(k as int), num_sets as nat),
            out@.len() == width * k,
        decreases per_vertex@.len() - k,
    {
        let v = &per_vertex[k];
        assert(vs[k as int] == v@);
        let ghost start = out@;
        let mut i: usize = 0;
        while i < width
            invariant
                i <= width,
                out@ == start + padded_set(v@, num_sets as nat).take(i as int),
                width == 4 * num_sets,
            decreases width - i,
        {
            if i < v.len() {
                out.push(v[i]);
            } else {
                out.push(0);
            }
            assert(padded_set(v@, num_sets as nat).take(i + 1)
                =~= padded_set(v@, num_sets as nat).take(i as int).push(padded_set(v@, num_sets as nat)[i as int]));
            i += 1;
        }
        assert(padded_set(v@, num_sets as nat).take(i as int) =~= padded_set(v@, num_sets as nat));
        assert(vs.take(k + 1).drop_last() =~= vs.take(k as int));
        assert(width * (k + 1) <= width * per_vertex@.len()) by (nonlinear_arith)
            requires k + 1 <= per_vertex@.len();
        assert(width * (k + 1) == width * k + width) by (nonlinear_arith);
        k += 1;
    }
    assert(vs.take(k as int) =~= vs);
    assert(width * per_vertex@.len() == 4 * num_sets * per_vertex@.len());
    out
}

} // verus!
