//! Encoding polygons for glTF.
//!
//! glTF only knows triangles. The FB_ngon_encoding extension lets a reader
//! put polygons back together: the triangles of one polygon all start with
//! the same index, and two polygons in a row never do.

use vstd::prelude::*;
use crate::geometry::{DrawCall, PolyType, Primitives};

verus! {

/// The index every triangle of face `f` starts with, when the face before it
/// started with `last`: the face's first index, or its third when the first
/// is `last`.
pub open spec fn face_lead(f: Seq<u16>, last: u16) -> u16 {
    if last != f[0] { f[0] } else { f[2] }
}

/// The triangles face `f` (four indices, the last `0xffff` for a triangle)
/// becomes, when the face before it started with `last`.
pub open spec fn encode_face(f: Seq<u16>, last: u16) -> Seq<u16> {
    if last != f[0] {
        seq![f[0], f[1], f[2]] + if f[3] != 0xffff { seq![f[0], f[2], f[3]] } else { Seq::empty() }
    } else {
        seq![f[2], f[0], f[1]] + if f[3] != 0xffff { seq![f[2], f[3], f[0]] } else { Seq::empty() }
    }
}

/// The triangles the faces in `s` (four indices each; a shorter tail is
/// ignored) become, when the face before them started with `last`.
pub open spec fn encode_faces(s: Seq<u16>, last: u16) -> Seq<u16>
    decreases s.len(),
{
    if s.len() < 4 {
        Seq::empty()
    } else {
        encode_face(s.take(4), last) + encode_faces(s.skip(4), face_lead(s.take(4), last))
    }
}

/// The triangles of the faces of draw call `call`.
pub open spec fn encode_call(indices: Seq<u16>, call: DrawCall) -> Seq<u16> {
    encode_faces(indices.subrange(call.index_range.start as int, call.index_range.end as int), 0xffff)
}

/// The triangles of the first `k` draw calls, one after another.
pub open spec fn encode_calls(indices: Seq<u16>, calls: Seq<DrawCall>, k: nat) -> Seq<u16>
    decreases k,
{
    if k == 0 || k > calls.len() {
        Seq::empty()
    } else {
        encode_calls(indices, calls, (k - 1) as nat) + encode_call(indices, calls[k - 1])
    }
}

/// Every draw call's index range lies in the index buffer.
pub open spec fn calls_in_bounds(p: Primitives) -> bool {
    forall|k: int| #![trigger p.draw_calls@[k]] 0 <= k < p.draw_calls@.len() ==>
        p.draw_calls@[k].index_range.start <= p.draw_calls@[k].index_range.end
        && p.draw_calls@[k].index_range.end <= p.indices@.len()
}

/// Appends the triangles of the faces in `indices[start..end]`.
fn push_face_triangles(indices: &Vec<u16>, start: usize, end: usize, tris: &mut Vec<u16>)
    requires
        start <= end <= indices@.len(),
    ensures
        final(tris)@ == old(tris)@ + encode_faces(indices@.subrange(start as int, end as int), 0xffff),
{
    let ghost faces = indices@.subrange(start as int, end as int);
    let ghost initial = tris@;
    // Pick an index in each face and emit a triangulation of the face with
    // that index as the first index of each tri. Don't pick the same index
    // for two subsequent faces.
    let mut last_face_index: u16 = 0xffff;
    let mut j: usize = start;
    while end - j >= 4
        invariant
            start <= j <= end <= indices@.len(),
            faces == indices@.subrange(start as int, end as int),
            tris@.len() >= initial.len(),
            tris@.take(initial.len() as int) == initial,
            tris@.skip(initial.len() as int) + encode_faces(indices@.subrange(j as int, end as int), last_face_index)
                == encode_faces(faces, 0xffff),
        decreases end - j,
    {
        let ghost before = tris@;
        let ghost rest = indices@.subrange(j as int, end as int);
        let ghost old_last = last_face_index;
        let f0 = indices[j];
        let f1 = indices[j + 1];
        let f2 = indices[j + 2];
        let f3 = indices[j + 3];
        if last_face_index != f0 {
            last_face_index = f0;
            tris.push(f0);
            tris.push(f1);
            tris.push(f2);
            if f3 != 0xffff {
                tris.push(f0);
                tris.push(f2);
                tris.push(f3);
            }
        } else {
            last_face_index = f2;
            tris.push(f2);
            tris.push(f0);
            tris.push(f1);
            if f3 != 0xffff {
                tris.push(f2);
                tris.push(f3);
                tris.push(f0);
            }
        }
        j += 4;
        proof {
            let f = rest.take(4);
            assert(f =~= seq![f0, f1, f2, f3]);
            assert(rest.skip(4) =~= indices@.subrange(j as int, end as int));
            assert(last_face_index == face_lead(f, old_last));
            assert(tris@ =~= before + encode_face(f, old_last));
            assert(encode_faces(rest, old_last) == encode_face(f, old_last) + encode_faces(rest.skip(4), last_face_index));
            assert(tris@.take(initial.len() as int) =~= before.take(initial.len() as int));
            assert(tris@.skip(initial.len() as int) =~= before.skip(initial.len() as int) + encode_face(f, old_last));
            assert(tris@.skip(initial.len() as int) + encode_faces(rest.skip(4), last_face_index)
                =~= before.skip(initial.len() as int) + encode_faces(rest, old_last));
        }
    }
    proof {
        assert(encode_faces(indices@.subrange(j as int, end as int), last_face_index) =~= Seq::<u16>::empty());
        assert(tris@ =~= tris@.take(initial.len() as int) + tris@.skip(initial.len() as int));
    }
}

/// What `encode_ngons` makes of the draw call `old_call` at position `k`.
pub open spec fn encoded_call_is(indices: Seq<u16>, calls: Seq<DrawCall>, k: int, call: DrawCall) -> bool {
    let old_call = calls[k];
    &&& call.index_range.start == encode_calls(indices, calls, k as nat).len()
    &&& call.index_range.end == encode_calls(indices, calls, (k + 1) as nat).len()
    &&& call.vertex_range == old_call.vertex_range
    &&& call.mat_id == old_call.mat_id
    &&& call.mesh_id == old_call.mesh_id
}

/// `r` is what `encode_ngons` makes of `prims`: triangles only, the faces
/// of each draw call encoded in turn, and the draw calls kept in order with
/// their new index ranges.
pub open spec fn ngons_encoded(prims: Primitives, r: Primitives) -> bool {
    &&& r.poly_type == PolyType::Tris
    &&& r.indices@ == encode_calls(prims.indices@, prims.draw_calls@, prims.draw_calls@.len())
    &&& r.draw_calls@.len() == prims.draw_calls@.len()
    &&& forall|k: int| 0 <= k < r.draw_calls@.len() ==>
            #[trigger] encoded_call_is(prims.indices@, prims.draw_calls@, k, r.draw_calls@[k])
}

/// Triangulates the quads in a Primitive in the correct way for
/// FB_ngon_encoding to reconstruct them.
pub fn encode_ngons(prims: Primitives) -> (r: Primitives)
    requires
        prims.poly_type == PolyType::TrisAndQuads,
        calls_in_bounds(prims),
    ensures
        ngons_encoded(prims, r),
{
    let indices = &prims.indices;
    let calls = &prims.draw_calls;
    let mut tris = Vec::<u16>::with_capacity(indices.len());
    let mut new_calls = Vec::<DrawCall>::with_capacity(calls.len());
    let mut k: usize = 0;
    while k < calls.len()
        invariant
            0 <= k <= calls@.len(),
            calls_in_bounds(prims),
            indices@ == prims.indices@,
            calls@ == prims.draw_calls@,
            tris@ == encode_calls(indices@, calls@, k as nat),
            new_calls@.len() == k,
            forall|i: int| 0 <= i < k ==> #[trigger] encoded_call_is(indices@, calls@, i, new_calls@[i]),
        decreases calls@.len() - k,
    {
        let call = &calls[k];
        assert(call.index_range.start <= call.index_range.end <= indices@.len()) by {
            assert(prims.draw_calls@[k as int] == *call);
        }
        let tris_start = tris.len();
        push_face_triangles(indices, call.index_range.start, call.index_range.end, &mut tris);
        let tris_end = tris.len();
        let new_call = DrawCall {
            vertex_range: call.vertex_range.start..call.vertex_range.end,
            index_range: tris_start..tris_end,
            mat_id: call.mat_id,
            mesh_id: call.mesh_id,
        };
        assert(encoded_call_is(indices@, calls@, k as int, new_call));
        let ghost prev = new_calls@;
        new_calls.push(new_call);
        k += 1;
        assert forall|i: int| 0 <= i < k implies #[trigger] encoded_call_is(indices@, calls@, i, new_calls@[i]) by {
            if i < k - 1 {
                assert(new_calls@[i] == prev[i]);
            }
        }
    }
    Primitives { poly_type: PolyType::Tris, indices: tris, draw_calls: new_calls }
}

/// A face becomes one triangle, or two for a quad, and each of its triangles
/// starts with the face's lead index. Unless the face is degenerate (its
/// first and third index equal), that lead differs from the lead of the face
/// before it, which is how a reader tells the faces apart.
pub proof fn lemma_face_triangles(f: Seq<u16>, last: u16)
    requires
        f.len() == 4,
    ensures
        f[3] == 0xffff ==> encode_face(f, last).len() == 3,
        f[3] != 0xffff ==> encode_face(f, last).len() == 6,
        encode_face(f, last)[0] == face_lead(f, last),
        f[3] != 0xffff ==> encode_face(f, last)[3] == face_lead(f, last),
        forall|i: int| 0 <= i < encode_face(f, last).len() ==> f.contains(#[trigger] encode_face(f, last)[i]),
        f[0] != f[2] ==> face_lead(f, last) != last,
{
    assert(f.contains(f[0]) && f.contains(f[1]) && f.contains(f[2]) && f.contains(f[3])) by {
        assert(f[0] == f[0] && f[1] == f[1] && f[2] == f[2] && f[3] == f[3]);
    }
}

/// The faces of a draw call become whole triangles: three indices each.
pub proof fn lemma_encoded_faces_whole_triangles(s: Seq<u16>, last: u16)
    ensures
        encode_faces(s, last).len() % 3 == 0,
    decreases s.len(),
{
    if s.len() >= 4 {
        lemma_face_triangles(s.take(4), last);
        lemma_encoded_faces_whole_triangles(s.skip(4), face_lead(s.take(4), last));
    }
}

/// The whole index buffer `encode_ngons` makes is made of whole triangles,
/// and each draw call's range in it starts on a triangle boundary.
pub proof fn lemma_encoded_calls_whole_triangles(indices: Seq<u16>, calls: Seq<DrawCall>, k: nat)
    ensures
        encode_calls(indices, calls, k).len() % 3 == 0,
    decreases k,
{
    if k > 0 && k <= calls.len() {
        lemma_encoded_calls_whole_triangles(indices, calls, (k - 1) as nat);
        let c = calls[k - 1];
        lemma_encoded_faces_whole_triangles(
            indices.subrange(c.index_range.start as int, c.index_range.end as int), 0xffff);
    }
}

/// Face `i` of the faces `s`: its four indices.
pub open spec fn face_at(s: Seq<u16>, i: int) -> Seq<u16> {
    s.subrange(4 * i, 4 * i + 4)
}

/// How many indices face `f` becomes: three for a triangle, six for a quad.
pub open spec fn face_len(f: Seq<u16>) -> int {
    if f[3] == 0xffff { 3 } else { 6 }
}

/// Where the triangles of face `i` of `s` start in their encoding.
pub open spec fn face_start(s: Seq<u16>, i: nat) -> int
    decreases i,
{
    if i == 0 { 0 } else { face_len(s.take(4)) + face_start(s.skip(4), (i - 1) as nat) }
}

/// The lead index of face `i` of `s` when the face before `s` led with `last`.
pub open spec fn lead_of(s: Seq<u16>, last: u16, i: nat) -> u16
    decreases i,
{
    if i == 0 {
        face_lead(s.take(4), last)
    } else {
        lead_of(s.skip(4), face_lead(s.take(4), last), (i - 1) as nat)
    }
}

/// The lead index of the face before face `i`.
pub open spec fn prev_lead(s: Seq<u16>, last: u16, i: nat) -> u16 {
    if i == 0 { last } else { lead_of(s, last, (i - 1) as nat) }
}

/// Face `i`'s triangles sit at `face_start` in the encoding of `s`.
proof fn lemma_face_in_encoding(s: Seq<u16>, last: u16, i: nat)
    requires
        4 * i + 4 <= s.len(),
    ensures
        0 <= face_start(s, i),
        face_start(s, i) + face_len(face_at(s, i as int)) <= encode_faces(s, last).len(),
        encode_faces(s, last).subrange(face_start(s, i), face_start(s, i) + face_len(face_at(s, i as int)))
            == encode_face(face_at(s, i as int), prev_lead(s, last, i)),
        lead_of(s, last, i) == face_lead(face_at(s, i as int), prev_lead(s, last, i)),
    decreases i,
{
    let f0 = s.take(4);
    let l0 = face_lead(f0, last);
    let e0 = encode_face(f0, last);
    let rest = encode_faces(s.skip(4), l0);
    lemma_face_triangles(f0, last);
    assert(encode_faces(s, last) == e0 + rest);
    if i == 0 {
        assert(face_at(s, 0) =~= f0);
        assert((e0 + rest).subrange(0, e0.len() as int) =~= e0);
    } else {
        lemma_face_in_encoding(s.skip(4), l0, (i - 1) as nat);
        assert(face_at(s.skip(4), i - 1) =~= face_at(s, i as int));
        assert(prev_lead(s, last, i) == prev_lead(s.skip(4), l0, (i - 1) as nat));
        let st = face_start(s.skip(4), (i - 1) as nat);
        let n = face_len(face_at(s, i as int));
        assert((e0 + rest).subrange(e0.len() + st, e0.len() + st + n) =~= rest.subrange(st, st + n));
    }
}

/// The encodings of the faces of `s` follow one another and fill the whole
/// encoding.
proof fn lemma_faces_tile(s: Seq<u16>, last: u16)
    ensures
        encode_faces(s, last).len() == face_start(s, s.len() / 4),
    decreases s.len(),
{
    if s.len() >= 4 {
        lemma_face_triangles(s.take(4), last);
        lemma_faces_tile(s.skip(4), face_lead(s.take(4), last));
        assert(s.skip(4).len() / 4 == s.len() / 4 - 1);
    }
}

/// The encoding of the first `n` draw calls starts with that of the first `k`.
proof fn lemma_encode_calls_prefix(indices: Seq<u16>, calls: Seq<DrawCall>, k: nat, n: nat)
    requires
        k <= n <= calls.len(),
    ensures
        encode_calls(indices, calls, k).len() <= encode_calls(indices, calls, n).len(),
        encode_calls(indices, calls, n).take(encode_calls(indices, calls, k).len() as int)
            == encode_calls(indices, calls, k),
    decreases n - k,
{
    if k < n {
        lemma_encode_calls_prefix(indices, calls, k, (n - 1) as nat);
        let a = encode_calls(indices, calls, (n - 1) as nat);
        let b = encode_calls(indices, calls, n);
        assert(b == a + encode_call(indices, calls[n - 1]));
        assert(b.take(encode_calls(indices, calls, k).len() as int)
            =~= a.take(encode_calls(indices, calls, k).len() as int));
    } else {
        assert(encode_calls(indices, calls, n).take(encode_calls(indices, calls, n).len() as int)
            =~= encode_calls(indices, calls, n));
    }
}

/// The indices of draw call `k` of `prims`, four per face.
pub open spec fn call_faces(prims: Primitives, k: int) -> Seq<u16> {
    prims.indices@.subrange(prims.draw_calls@[k].index_range.start as int,
        prims.draw_calls@[k].index_range.end as int)
}

/// Face `i` of draw call `k` of `prims` as `r` holds it: the new range of
/// the call is filled by the encodings of the old call's faces in order;
/// face `i` becomes three indices, or six for a quad, all of them indices of
/// the face; its triangles all start with the face's lead index; and unless
/// the face is degenerate (its first and third index equal) that lead
/// differs from the lead of the face before it in the call, the first
/// face's from `0xffff`.
pub open spec fn face_encoded_at(prims: Primitives, r: Primitives, k: int, i: nat) -> bool {
    let s = call_faces(prims, k);
    let f = face_at(s, i as int);
    let base = r.draw_calls@[k].index_range.start as int;
    let st = base + face_start(s, i);
    let lead = lead_of(s, 0xffff, i);
    &&& r.draw_calls@[k].index_range.end - base == face_start(s, s.len() / 4)
    &&& st + face_len(f) <= r.draw_calls@[k].index_range.end
    &&& r.draw_calls@[k].index_range.end <= r.indices@.len()
    &&& forall|j: int| st <= j < st + face_len(f) ==> f.contains(#[trigger] r.indices@[j])
    &&& r.indices@[st] == lead
    &&& f[3] != 0xffff ==> r.indices@[st + 3] == lead
    &&& f[0] != f[2] ==> lead != prev_lead(s, 0xffff, i)
}

/// `encode_ngons` encodes face `i` of draw call `k` as `face_encoded_at` says.
proof fn lemma_encode_ngons_faces(prims: Primitives, r: Primitives, k: int, i: nat)
    requires
        calls_in_bounds(prims),
        ngons_encoded(prims, r),
        0 <= k < prims.draw_calls@.len(),
        4 * i + 4 <= call_faces(prims, k).len(),
    ensures
        face_encoded_at(prims, r, k, i),
{
    let calls = prims.draw_calls@;
    let n = calls.len();
    let s = call_faces(prims, k);
    let f = face_at(s, i as int);
    let c = calls[k];
    assert(c.index_range.start <= c.index_range.end <= prims.indices@.len());
    assert(encoded_call_is(prims.indices@, calls, k, r.draw_calls@[k]));
    let pre = encode_calls(prims.indices@, calls, k as nat);
    let upto = encode_calls(prims.indices@, calls, (k + 1) as nat);
    let enc = encode_faces(s, 0xffff);
    assert(upto == pre + enc);
    lemma_encode_calls_prefix(prims.indices@, calls, (k + 1) as nat, n);
    lemma_faces_tile(s, 0xffff);
    lemma_face_in_encoding(s, 0xffff, i);
    lemma_face_triangles(f, prev_lead(s, 0xffff, i));
    let base = pre.len() as int;
    let st = face_start(s, i);
    let e = encode_face(f, prev_lead(s, 0xffff, i));
    assert forall|j: int| 0 <= j < enc.len() implies #[trigger] r.indices@[base + j] == enc[j] by {
        assert(r.indices@.take(upto.len() as int)[base + j] == upto[base + j]);
    }
    assert forall|j: int| 0 <= j < e.len() implies r.indices@[base + st + j] == e[j] by {
        assert(enc.subrange(st, st + face_len(f))[j] == enc[st + j]);
        assert(r.indices@[base + (st + j)] == enc[st + j]);
    }
    assert forall|j: int| base + st <= j < base + st + face_len(f) implies f.contains(#[trigger] r.indices@[j]) by {
        assert(r.indices@[base + st + (j - base - st)] == e[j - base - st]);
    }
    assert(r.indices@[base + st + 0] == e[0]);
    if f[3] != 0xffff {
        assert(r.indices@[base + st + 3] == e[3]);
    }
}

/// What `encode_ngons` makes of the draw calls and faces of `prims`, as one
/// law: triangles only; the draw calls keep their order, vertex ranges,
/// materials and meshes; their new index ranges tile the whole index buffer
/// in order; and within each call every face is encoded as
/// `face_encoded_at` says (three or six indices from the face, all its
/// triangles led by one index, which differs from the previous face's lead
/// unless the face is degenerate); in particular the first index of a
/// non-degenerate face's triangles differs from the first index of the
/// previous face's in the same call.
pub proof fn lemma_encode_ngons_law(prims: Primitives, r: Primitives)
    requires
        calls_in_bounds(prims),
        ngons_encoded(prims, r),
    ensures
        r.poly_type == PolyType::Tris,
        r.draw_calls@.len() == prims.draw_calls@.len(),
        r.draw_calls@.len() == 0 ==> r.indices@.len() == 0,
        r.draw_calls@.len() > 0 ==> r.draw_calls@[0].index_range.start == 0,
        r.draw_calls@.len() > 0 ==> r.draw_calls@.last().index_range.end == r.indices@.len(),
        forall|k: int| 0 <= k < r.draw_calls@.len() - 1 ==>
            (#[trigger] r.draw_calls@[k]).index_range.end == r.draw_calls@[k + 1].index_range.start,
        forall|k: int| 0 <= k < r.draw_calls@.len() ==> {
            &&& (#[trigger] r.draw_calls@[k]).index_range.start <= r.draw_calls@[k].index_range.end
            &&& r.draw_calls@[k].vertex_range == prims.draw_calls@[k].vertex_range
            &&& r.draw_calls@[k].mat_id == prims.draw_calls@[k].mat_id
            &&& r.draw_calls@[k].mesh_id == prims.draw_calls@[k].mesh_id
        },
        forall|k: int, i: nat| 0 <= k < prims.draw_calls@.len() && 4 * i + 4 <= call_faces(prims, k).len()
            ==> #[trigger] face_encoded_at(prims, r, k, i),
        forall|k: int, i: nat|
            #![trigger face_at(call_faces(prims, k), i as int), r.draw_calls@[k]]
            0 <= k < prims.draw_calls@.len() && 1 <= i && 4 * i + 4 <= call_faces(prims, k).len()
            && face_at(call_faces(prims, k), i as int)[0] != face_at(call_faces(prims, k), i as int)[2] ==>
            r.indices@[r.draw_calls@[k].index_range.start + face_start(call_faces(prims, k), i)]
                != r.indices@[r.draw_calls@[k].index_range.start + face_start(call_faces(prims, k), (i - 1) as nat)],
{
    let calls = prims.draw_calls@;
    let n = calls.len();
    if n == 0 {
        assert(r.indices@.len() == 0);
    } else {
        assert(encoded_call_is(prims.indices@, calls, 0, r.draw_calls@[0]));
        assert(encoded_call_is(prims.indices@, calls, n - 1, r.draw_calls@[n - 1]));
    }
    assert forall|k: int| 0 <= k < r.draw_calls@.len() - 1 implies
        (#[trigger] r.draw_calls@[k]).index_range.end == r.draw_calls@[k + 1].index_range.start by {
        assert(encoded_call_is(prims.indices@, calls, k, r.draw_calls@[k]));
        assert(encoded_call_is(prims.indices@, calls, k + 1, r.draw_calls@[k + 1]));
    }
    assert forall|k: int| 0 <= k < r.draw_calls@.len() implies {
        &&& (#[trigger] r.draw_calls@[k]).index_range.start <= r.draw_calls@[k].index_range.end
        &&& r.draw_calls@[k].vertex_range == prims.draw_calls@[k].vertex_range
        &&& r.draw_calls@[k].mat_id == prims.draw_calls@[k].mat_id
        &&& r.draw_calls@[k].mesh_id == prims.draw_calls@[k].mesh_id
    } by {
        assert(encoded_call_is(prims.indices@, calls, k, r.draw_calls@[k]));
        assert(encode_calls(prims.indices@, calls, (k + 1) as nat)
            == encode_calls(prims.indices@, calls, k as nat) + encode_call(prims.indices@, calls[k]));
    }
    assert forall|k: int, i: nat| 0 <= k < prims.draw_calls@.len() && 4 * i + 4 <= call_faces(prims, k).len()
        implies #[trigger] face_encoded_at(prims, r, k, i) by {
        lemma_encode_ngons_faces(prims, r, k, i);
    }
    assert forall|k: int, i: nat|
        #![trigger face_at(call_faces(prims, k), i as int), r.draw_calls@[k]]
        0 <= k < prims.draw_calls@.len() && 1 <= i && 4 * i + 4 <= call_faces(prims, k).len()
        && face_at(call_faces(prims, k), i as int)[0] != face_at(call_faces(prims, k), i as int)[2] implies
        r.indices@[r.draw_calls@[k].index_range.start + face_start(call_faces(prims, k), i)]
            != r.indices@[r.draw_calls@[k].index_range.start + face_start(call_faces(prims, k), (i - 1) as nat)] by {
        lemma_encode_ngons_faces(prims, r, k, i);
        lemma_encode_ngons_faces(prims, r, k, (i - 1) as nat);
    }
}

} // verus!
