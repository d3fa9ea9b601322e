//! The `<polylist>` elements of a COLLADA mesh: one per draw call, giving
//! the vertex count of each face and the faces' vertex indices.

use vstd::prelude::*;
use crate::geometry::{DrawCall, Primitives};
use crate::convert::gltf::primitive::calls_in_bounds;
use crate::util::fmt::dec_str;
use super::xml::Xml;
use super::nl_after;
use super::effects::{line, open_tag, close_tag, text_elem, close_line};

verus! {

/// The vertex counts of the first `n` faces of `s` (four indices each, the
/// last `0xffff` for a triangle), each followed by a space.
pub open spec fn vcount_text(s: Seq<u16>, n: nat) -> Seq<char>
    decreases n,
{
    if n == 0 {
        Seq::empty()
    } else {
        vcount_text(s, (n - 1) as nat) + if s[4 * n - 1] == 0xffff { "3 "@ } else { "4 "@ }
    }
}

/// The first `n` indices of `s`, each followed by a space, leaving out the
/// `0xffff` that marks a triangle.
pub open spec fn p_text(s: Seq<u16>, n: nat) -> Seq<char>
    decreases n,
{
    if n == 0 {
        Seq::empty()
    } else {
        p_text(s, (n - 1) as nat) + if s[n - 1] != 0xffff { dec_str(s[n - 1] as nat) + " "@ } else { Seq::empty() }
    }
}

/// The indices of draw call `call`.
pub open spec fn call_indices(indices: Seq<u16>, call: DrawCall) -> Seq<u16> {
    indices.subrange(call.index_range.start as int, call.index_range.end as int)
}

/// `t` followed by the `<polylist>` element of draw call `call` at depth `k`:
/// it uses the material of the call and counts its faces, then lists the
/// vertex count of each face and the faces' indices.
pub open spec fn with_polylist(t: Seq<char>, indices: Seq<u16>, call: DrawCall, k: nat) -> Seq<char> {
    let s = call_indices(indices, call);
    let b1 = t + open_tag("polylist material=\"material"@ + dec_str(call.mat_id as nat) + "\" count=\""@
        + dec_str(s.len() / 4) + "\""@);
    let b2 = line(b1, k + 1, "<"@ + "input semantic=\"VERTEX\" source=\"#vertices\" offset=\"0\""@ + "/>"@);
    let b3 = line(b2, k + 1, text_elem("vcount"@, vcount_text(s, s.len() / 4)));
    let b4 = line(b3, k + 1, text_elem("p"@, p_text(s, s.len())));
    line(b4, k, close_tag("polylist"@))
}

/// `t` followed by the `<polylist>` elements of the first `n` draw calls at
/// depth `k`, each followed by a line break.
pub open spec fn with_polylists(t: Seq<char>, indices: Seq<u16>, calls: Seq<DrawCall>, n: nat, k: nat) -> Seq<char>
    decreases n,
{
    if n == 0 || n > calls.len() {
        t
    } else {
        nl_after(with_polylist(with_polylists(t, indices, calls, (n - 1) as nat, k), indices, calls[n - 1], k), k)
    }
}

/// Every draw call covers whole faces: a multiple of four indices.
pub open spec fn calls_whole_faces(p: Primitives) -> bool {
    forall|k: int| 0 <= k < p.draw_calls@.len() ==>
        (#[trigger] p.draw_calls@[k]).index_range.end - p.draw_calls@[k].index_range.start >= 0
        && (p.draw_calls@[k].index_range.end - p.draw_calls@[k].index_range.start) % 4 == 0
}

/// Writes the `<vcount>` element of the faces `indices[start..end]`.
fn write_vcount(xml: &mut Xml, indices: &Vec<u16>, start: usize, end: usize, Ghost(b): Ghost<Seq<char>>)
    requires
        old(xml).text() == nl_after(b, old(xml).indent()),
        old(xml).indent() < u32::MAX,
        start <= end <= indices@.len(),
        (end - start) % 4 == 0,
    ensures
        final(xml).indent() == old(xml).indent(),
        final(xml).text() == nl_after(line(b, old(xml).indent(), text_elem("vcount"@,
            vcount_text(indices@.subrange(start as int, end as int), ((end - start) / 4) as nat))),
            final(xml).indent()),
{
    let ghost k = xml.indent();
    let ghost s = indices@.subrange(start as int, end as int);
    let num_polys = (end - start) / 4;
    xml.start_open_tag();
    xml.push_str("vcount");
    xml.end_tag();
    let ghost pre = nl_after(b, k) + "<"@ + "vcount"@ + ">"@;
    let mut f: usize = 0;
    while f < num_polys
        invariant
            f <= num_polys,
            num_polys == s.len() / 4,
            s.len() % 4 == 0,
            s == indices@.subrange(start as int, end as int),
            start <= end <= indices@.len(),
            xml.indent() == k + 1,
            xml.text() == pre + vcount_text(s, f as nat),
        decreases num_polys - f,
    {
        let last = indices[start + 4 * f + 3];
        assert(last == s[4 * (f + 1) - 1]);
        if last == 0xffff {
            xml.push_str("3 ");
        } else {
            xml.push_str("4 ");
        }
        f += 1;
    }
    xml.start_close_tag();
    xml.push_str("vcount");
    xml.end_tag();
    xml.nl();
}

/// Writes the `<p>` element of the faces `indices[start..end]`.
fn write_p(xml: &mut Xml, indices: &Vec<u16>, start: usize, end: usize, Ghost(b): Ghost<Seq<char>>)
    requires
        old(xml).text() == nl_after(b, old(xml).indent()),
        old(xml).indent() < u32::MAX,
        start <= end <= indices@.len(),
    ensures
        final(xml).indent() == old(xml).indent(),
        final(xml).text() == nl_after(line(b, old(xml).indent(), text_elem("p"@,
            p_text(indices@.subrange(start as int, end as int), (end - start) as nat))), final(xml).indent()),
{
    let ghost k = xml.indent();
    let ghost s = indices@.subrange(start as int, end as int);
    xml.start_open_tag();
    xml.push_str("p");
    xml.end_tag();
    let ghost pre = nl_after(b, k) + "<"@ + "p"@ + ">"@;
    let mut j: usize = start;
    while j < end
        invariant
            start <= j <= end <= indices@.len(),
            s == indices@.subrange(start as int, end as int),
            xml.indent() == k + 1,
            xml.text() == pre + p_text(s, (j - start) as nat),
        decreases end - j,
    {
        let ind = indices[j];
        assert(ind == s[(j + 1 - start) - 1]);
        if ind != 0xffff {
            xml.push_dec(ind as u64);
            xml.push_str(" ");
        }
        j += 1;
        assert(xml.text() =~= pre + p_text(s, (j - start) as nat));
    }
    xml.start_close_tag();
    xml.push_str("p");
    xml.end_tag();
    xml.nl();
}

/// Writes the `<polylist>` element of one draw call.
fn write_polylist(xml: &mut Xml, indices: &Vec<u16>, call: &DrawCall)
    requires
        old(xml).indent() + 3 <= u32::MAX,
        call.index_range.start <= call.index_range.end <= indices@.len(),
        (call.index_range.end - call.index_range.start) % 4 == 0,
    ensures
        final(xml).indent() == old(xml).indent(),
        final(xml).text() == nl_after(with_polylist(old(xml).text(), indices@, *call, old(xml).indent()),
            final(xml).indent()),
{
    let ghost k = xml.indent();
    let ghost t = xml.text();
    let ghost s = call_indices(indices@, *call);
    let start = call.index_range.start;
    let end = call.index_range.end;
    let num_polys = (end - start) / 4;
    xml.start_open_tag();
    xml.push_str("polylist material=\"material");
    xml.push_dec(call.mat_id as u64);
    xml.push_str("\" count=\"");
    xml.push_dec(num_polys as u64);
    xml.push_str("\"");
    xml.end_tag();
    xml.nl();
    let ghost b1 = t + open_tag("polylist material=\"material"@ + dec_str(call.mat_id as nat) + "\" count=\""@
        + dec_str(s.len() / 4) + "\""@);
    assert(xml.text() == nl_after(b1, k + 1));
    xml.start_open_tag();
    xml.push_str("input semantic=\"VERTEX\" source=\"#vertices\" offset=\"0\"");
    xml.end_empty_tag();
    xml.nl();
    let ghost b2 = line(b1, k + 1, "<"@ + "input semantic=\"VERTEX\" source=\"#vertices\" offset=\"0\""@ + "/>"@);
    assert(xml.text() == nl_after(b2, k + 1));
    write_vcount(xml, indices, start, end, Ghost(b2));
    let ghost b3 = line(b2, k + 1, text_elem("vcount"@, vcount_text(s, s.len() / 4)));
    write_p(xml, indices, start, end, Ghost(b3));
    let ghost b4 = line(b3, k + 1, text_elem("p"@, p_text(s, s.len())));
    close_line(xml, "polylist", Ghost(b4));
}

/// Writes one `<polylist>` element for each draw call of `prims`, whose
/// indices come in faces of four (`[a, b, c, 0xffff]` a triangle,
/// `[a, b, c, d]` a quad), each followed by a line break.
pub fn polylists(xml: &mut Xml, prims: &Primitives)
    requires
        old(xml).indent() + 3 <= u32::MAX,
        calls_in_bounds(*prims),
        calls_whole_faces(*prims),
    ensures
        final(xml).indent() == old(xml).indent(),
        final(xml).text() == with_polylists(old(xml).text(), prims.indices@, prims.draw_calls@,
            prims.draw_calls@.len(), old(xml).indent()),
{
    let ghost k = xml.indent();
    let ghost t = xml.text();
    let mut i: usize = 0;
    while i < prims.draw_calls.len()
        invariant
            i <= prims.draw_calls@.len(),
            calls_in_bounds(*prims),
            calls_whole_faces(*prims),
            xml.indent() == k,
            k + 3 <= u32::MAX,
            xml.text() == with_polylists(t, prims.indices@, prims.draw_calls@, i as nat, k),
        decreases prims.draw_calls@.len() - i,
    {
        let call = &prims.draw_calls[i];
        assert(prims.draw_calls@[i as int] == *call);
        write_polylist(xml, &prims.indices, call);
        i += 1;
    }
}

} // verus!
