//! Builder for a triangle index buffer.

use vstd::prelude::*;
use std::ops::Range;

verus! {

/// Number of indices each primitive of type `ty` becomes: one triangle for
/// triangles and triangle strips (0, 2), two for quads and quad strips (1, 3).
pub open spec fn per_prim(ty: u32) -> nat {
    if ty == 0 || ty == 2 { 3 } else { 6 }
}

/// Number of primitives in a group of `len` vertices of type `ty`.
pub open spec fn prim_count(ty: u32, len: nat) -> nat {
    if ty == 0 {
        len / 3
    } else if ty == 1 {
        len / 4
    } else if ty == 2 {
        if len == 0 { 0 } else { (len - 2) as nat }
    } else {
        if len == 0 { 0 } else { ((len - 2) / 2) as nat }
    }
}

/// Whether `len` vertices form whole primitives of type `ty`: triangles take
/// multiples of 3, quads multiples of 4, a triangle strip none or at least 3,
/// a quad strip none or an even number of at least 4.
pub open spec fn valid_prim_group(ty: u32, len: nat) -> bool {
    if ty == 0 {
        len % 3 == 0
    } else if ty == 1 {
        len % 4 == 0
    } else if ty == 2 {
        len == 0 || len >= 3
    } else if ty == 3 {
        len == 0 || (len >= 4 && len % 2 == 0)
    } else {
        false
    }
}

/// Index `j` of the triangles emitted for primitive `t` of a group of type
/// `ty` whose first vertex is `s`.
///
/// * Separate triangles: `(v, v+1, v+2)` with `v = s + 3t`.
/// * Separate quads `v..v+4` with `v = s + 4t`: `(v, v+1, v+2), (v+2, v+3, v)`.
/// * Triangle strip: `(s, s+1, s+2)`, then for each further vertex `i`
///   (`t = i - s - 2`) `(i, i-1, i-2)` when `t` is odd and `(i, i-2, i-1)` when
///   it is even, keeping a consistent winding.
/// * Quad strip: `(s, s+1, s+2), (s+2, s+1, s+3)`, then for each further pair
///   ending at `i+1` (`i = s + 2 + 2t`) `(i-2, i-1, i), (i, i-1, i+1)`.
pub open spec fn prim_elem(ty: u32, s: int, t: int, j: int) -> int {
    if ty == 0 {
        s + 3 * t + j
    } else if ty == 1 {
        let v = s + 4 * t;
        if j == 0 { v } else if j == 1 { v + 1 } else if j == 2 { v + 2 }
        else if j == 3 { v + 2 } else if j == 4 { v + 3 } else { v }
    } else if ty == 2 {
        if t == 0 {
            s + j
        } else {
            let i = s + 2 + t;
            if t % 2 == 1 {
                i - j
            } else {
                if j == 0 { i } else if j == 1 { i - 2 } else { i - 1 }
            }
        }
    } else {
        if t == 0 {
            if j == 0 { s } else if j == 1 { s + 1 } else if j == 2 { s + 2 }
            else if j == 3 { s + 2 } else if j == 4 { s + 1 } else { s + 3 }
        } else {
            let i = s + 2 + 2 * t;
            if j == 0 { i - 2 } else if j == 1 { i - 1 } else if j == 2 { i }
            else if j == 3 { i } else if j == 4 { i - 1 } else { i + 1 }
        }
    }
}

/// The indices of the first `t` primitives of a group.
pub open spec fn prims_prefix(ty: u32, s: int, t: nat) -> Seq<u16> {
    Seq::new(per_prim(ty) * t, |k: int| prim_elem(ty, s, k / per_prim(ty) as int, k % per_prim(ty) as int) as u16)
}

/// The triangle indices for a whole group of type `ty` over vertices `s..e`.
pub open spec fn prim_indices(ty: u32, s: int, e: int) -> Seq<u16> {
    prims_prefix(ty, s, prim_count(ty, (e - s) as nat))
}

/// Adding one primitive appends its indices.
proof fn lemma_prims_step(ty: u32, s: int, t: nat)
    ensures
        prims_prefix(ty, s, t + 1) == prims_prefix(ty, s, t) + Seq::new(per_prim(ty),
            |j: int| prim_elem(ty, s, t as int, j) as u16),
{
    let p = per_prim(ty);
    let a = prims_prefix(ty, s, t + 1);
    let b = prims_prefix(ty, s, t) + Seq::new(p, |j: int| prim_elem(ty, s, t as int, j) as u16);
    assert(p * (t + 1) == p * t + p) by (nonlinear_arith);
    assert forall|k: int| 0 <= k < a.len() implies a[k] == b[k] by {
        if k < p * t {
            assert(b[k] == prims_prefix(ty, s, t)[k]);
        } else {
            let j = k - p * t;
            assert(k == p * t + j);
            vstd::arithmetic::div_mod::lemma_fundamental_div_mod_converse(k, p as int, t as int, j);
        }
    }
    assert(a =~= b);
}

/// A primitive group of whole primitives becomes a list of whole triangles
/// (a length divisible by 3), each index naming a vertex of the group.
pub proof fn lemma_prim_indices_are_triangles_of_group(ty: u32, s: int, e: int)
    requires
        0 <= s <= e <= u16::MAX,
        valid_prim_group(ty, (e - s) as nat),
    ensures
        prim_indices(ty, s, e).len() % 3 == 0,
        forall|k: int| 0 <= k < prim_indices(ty, s, e).len() ==>
            s <= #[trigger] prim_indices(ty, s, e)[k] < e,
{
    let p = per_prim(ty);
    let n = prim_count(ty, (e - s) as nat);
    let len = e - s;
    assert((p * n) % 3 == 0) by (nonlinear_arith)
        requires p == 3 || p == 6;
    assert forall|k: int| 0 <= k < prim_indices(ty, s, e).len() implies
        s <= #[trigger] prim_indices(ty, s, e)[k] < e by {
        let t = k / p as int;
        let j = k % p as int;
        vstd::arithmetic::div_mod::lemma_fundamental_div_mod(k, p as int);
        assert(0 <= t < n) by (nonlinear_arith)
            requires k == p * t + j, 0 <= j < p, 0 <= k < p * n, p > 0;
        let v = prim_elem(ty, s, t, j);
        if ty == 0 {
            assert(3 * t + 3 <= len);
        } else if ty == 1 {
            assert(4 * t + 4 <= len);
        } else if ty == 2 {
            assert(t + 3 <= len);
        } else {
            assert(2 * t + 4 <= len);
        }
        assert(s <= v < e);
        assert(0 <= v <= u16::MAX);
    }
}

/// Consumes NDS primitive groups and produces a list of triangle indices
/// (suitable for GL_TRIANGLES). The builder is only concerned with the
/// topology, not with the vertices themselves.
#[derive(Debug)]
pub struct IndexBuilder {
    pub indices: Vec<u16>,
    pub cur_prim_type: u32,
    pub cur_prim_range: Range<u16>,
    /// Whether a group was begun and not yet ended.
    pub group_open: bool,
}

impl IndexBuilder {
    /// The type of the current primitive group (0 triangles, 1 quads,
    /// 2 triangle strip, 3 quad strip).
    pub open spec fn prim_type(&self) -> u32 {
        self.cur_prim_type
    }

    /// The first vertex of the current primitive group.
    pub open spec fn prim_start(&self) -> int {
        self.cur_prim_range.start as int
    }

    /// One past the last vertex of the current primitive group.
    pub open spec fn prim_end(&self) -> int {
        self.cur_prim_range.end as int
    }

    /// Whether the current group was begun and has not been ended yet.
    pub open spec fn is_open(&self) -> bool {
        self.group_open
    }

    /// The current group can be flushed: its vertices form whole primitives.
    pub open spec fn group_flushable(&self) -> bool {
        &&& self.prim_start() <= self.prim_end()
        &&& valid_prim_group(self.prim_type(), (self.prim_end() - self.prim_start()) as nat)
    }

    /// The indices that flushing the current group appends.
    pub open spec fn group_indices(&self) -> Seq<u16> {
        prim_indices(self.prim_type(), self.prim_start(), self.prim_end())
    }

    pub fn new() -> (b: IndexBuilder)
        ensures
            b.indices@ == Seq::<u16>::empty(),
            b.prim_type() == 0,
            b.prim_start() == 0,
            b.prim_end() == 0,
            !b.is_open(),
    {
        IndexBuilder {
            indices: Vec::new(),
            cur_prim_type: 0,
            cur_prim_range: Range { start: 0, end: 0 },
            group_open: false,
        }
    }

    /// Begin a new primitive group, starting after the vertices seen so far.
    /// A group that was begun and not ended is closed first: its indices are
    /// flushed as `end` does.
    pub fn begin(&mut self, prim_type: u32)
        requires
            old(self).is_open() ==> old(self).group_flushable(),
        ensures
            final(self).indices@ == old(self).indices@ + (if old(self).is_open() {
                old(self).group_indices()
            } else {
                Seq::<u16>::empty()
            }),
            final(self).prim_type() == prim_type,
            final(self).prim_start() == old(self).prim_end(),
            final(self).prim_end() == old(self).prim_end(),
            final(self).is_open(),
    {
        if self.group_open {
            self.end();
        }
        assert(self.indices@ == old(self).indices@ + (if old(self).is_open() {
            old(self).group_indices()
        } else {
            Seq::<u16>::empty()
        }));
        self.cur_prim_type = prim_type;
        let end = self.cur_prim_range.end;
        self.cur_prim_range = Range { start: end, end: end };
        self.group_open = true;
    }

    /// End the current primitive group and flush its indices to `indices`.
    pub fn end(&mut self)
        requires
            old(self).group_flushable(),
        ensures
            final(self).indices@ == old(self).indices@ + old(self).group_indices(),
            final(self).prim_type() == old(self).prim_type(),
            final(self).prim_start() == old(self).prim_start(),
            final(self).prim_end() == old(self).prim_end(),
            !final(self).is_open(),
    {
        self.group_open = false;
        let start = self.cur_prim_range.start;
        let end = self.cur_prim_range.end;
        let ty = self.cur_prim_type;
        let ghost base = self.indices@;
        proof {
            assert(prims_prefix(ty, start as int, 0) =~= Seq::<u16>::empty());
        }
        match self.cur_prim_type {
            0 => {
                // Separate triangles
                let mut i = start;
                while i != end
                    invariant
                        start <= i <= end,
                        ty == 0,
                        self.cur_prim_type == ty,
                        self.cur_prim_range.start == start,
                        self.cur_prim_range.end == end,
                        !self.group_open,
                        (i - start) % 3 == 0,
                        (end - start) % 3 == 0,
                        self.indices@ == base + prims_prefix(ty, start as int, ((i - start) / 3) as nat),
                    decreases end - i,
                {
                    proof { lemma_prims_step(ty, start as int, ((i - start) / 3) as nat); }
                    self.indices.extend_from_slice(&[i, i + 1, i + 2]);
                    i += 3;
                    assert(self.indices@ =~= base + prims_prefix(ty, start as int, ((i - start) / 3) as nat));
                }
            },
            1 => {
                // Separate quads
                let mut i = start;
                while i != end
                    invariant
                        start <= i <= end,
                        ty == 1,
                        self.cur_prim_type == ty,
                        self.cur_prim_range.start == start,
                        self.cur_prim_range.end == end,
                        !self.group_open,
                        (i - start) % 4 == 0,
                        (end - start) % 4 == 0,
                        self.indices@ == base + prims_prefix(ty, start as int, ((i - start) / 4) as nat),
                    decreases end - i,
                {
                    proof { lemma_prims_step(ty, start as int, ((i - start) / 4) as nat); }
                    self.indices.extend_from_slice(&[i, i + 1, i + 2, i + 2, i + 3, i]);
                    i += 4;
                    assert(self.indices@ =~= base + prims_prefix(ty, start as int, ((i - start) / 4) as nat));
                }
            },
            2 => {
                // Triangle strip
                let mut i = start;
                if i != end {
                    proof { lemma_prims_step(ty, start as int, 0); }
                    self.indices.extend_from_slice(&[i, i + 1, i + 2]);
                    i += 3;
                    assert(self.indices@ =~= base + prims_prefix(ty, start as int, 1));
                }
                while i != end
                    invariant
                        start <= end,
                        ty == 2,
                        self.cur_prim_type == ty,
                        self.cur_prim_range.start == start,
                        self.cur_prim_range.end == end,
                        !self.group_open,
                        end - start >= 3 || i == start,
                        i == start ==> end == start,
                        i != start ==> start + 3 <= i <= end && ((i - start) % 2 == 1 || i == end),
                        self.indices@ == base + prims_prefix(ty, start as int,
                            if i == start { 0 } else { (i - start - 2) as nat }),
                    ensures
                        i == end,
                    decreases end - i,
                {
                    proof { lemma_prims_step(ty, start as int, (i - start - 2) as nat); }
                    self.indices.extend_from_slice(&[i, i - 1, i - 2]);
                    i += 1;
                    assert(self.indices@ =~= base + prims_prefix(ty, start as int, (i - start - 2) as nat));
                    if i == end {
                        break;
                    }
                    proof { lemma_prims_step(ty, start as int, (i - start - 2) as nat); }
                    self.indices.extend_from_slice(&[i, i - 2, i - 1]);
                    i += 1;
                    assert(self.indices@ =~= base + prims_prefix(ty, start as int, (i - start - 2) as nat));
                }
            },
            3 => {
                // Quad strip
                let mut i = start;
                if i != end {
                    proof { lemma_prims_step(ty, start as int, 0); }
                    self.indices.extend_from_slice(&[i, i + 1, i + 2, i + 2, i + 1, i + 3]);
                    i += 4;
                    assert(self.indices@ =~= base + prims_prefix(ty, start as int, 1));
                }
                while i != end
                    invariant
                        start <= end,
                        ty == 3,
                        self.cur_prim_type == ty,
                        self.cur_prim_range.start == start,
                        self.cur_prim_range.end == end,
                        !self.group_open,
                        i == start ==> end == start,
                        i != start ==> start + 4 <= i <= end && (i - start) % 2 == 0 && (end - start) % 2 == 0,
                        self.indices@ == base + prims_prefix(ty, start as int,
                            if i == start { 0 } else { ((i - start - 2) / 2) as nat }),
                    decreases end - i,
                {
                    proof { lemma_prims_step(ty, start as int, ((i - start - 2) / 2) as nat); }
                    self.indices.extend_from_slice(&[i - 2, i - 1, i, i, i - 1, i + 1]);
                    i += 2;
                    assert(self.indices@ =~= base + prims_prefix(ty, start as int, ((i - start - 2) / 2) as nat));
                }
            },
            _ => {},
        }
    }

    /// Indicate that a new vertex was added to the primitive group.
    pub fn vertex(&mut self)
        requires
            old(self).prim_end() < u16::MAX,
        ensures
            final(self).indices@ == old(self).indices@,
            final(self).prim_type() == old(self).prim_type(),
            final(self).prim_start() == old(self).prim_start(),
            final(self).prim_end() == old(self).prim_end() + 1,
            final(self).is_open() == old(self).is_open(),
    {
        self.cur_prim_range.end += 1;
    }
}

} // verus!
