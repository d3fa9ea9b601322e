//! The skin of a COLLADA controller: the joints' names, the table of
//! distinct weights, and for each vertex its joints with indices into that
//! table.
//!
//! Weights are given as fixed-point codes (the weight times 4096); turning
//! the floating point weights into codes and back is left to the caller.

use vstd::prelude::*;
use crate::util::fmt::dec_str;
use crate::convert::gltf::materials::{with_entry, entry_index, lemma_with_entry, lemma_with_entry_keeps};
use super::xml::Xml;
use super::nl_after;
use super::effects::{line, open_tag, close_tag, text_elem, close_line};

verus! {

/// The influences of the vertices, each a list of (joint, weight code).
pub open spec fn influences_view(infl: Seq<Vec<(u16, u32)>>) -> Seq<Seq<(u16, u32)>> {
    infl.map_values(|v: Vec<(u16, u32)>| v@)
}

/// The influences of all the vertices, one after another.
pub open spec fn flat_influences(vs: Seq<Seq<(u16, u32)>>) -> Seq<(u16, u32)>
    decreases vs.len(),
{
    if vs.len() == 0 {
        Seq::empty()
    } else {
        flat_influences(vs.drop_last()) + vs.last()
    }
}

/// The distinct weight codes of the influences `fl`, in the order they first
/// occur.
pub open spec fn weight_lut(fl: Seq<(u16, u32)>) -> Seq<u32>
    decreases fl.len(),
{
    if fl.len() == 0 {
        Seq::empty()
    } else {
        with_entry(weight_lut(fl.drop_last()), fl.last().1)
    }
}

/// Each influence as its joint and the index of its weight in `lut`.
pub open spec fn lut_entries(fl: Seq<(u16, u32)>, lut: Seq<u32>) -> Seq<(u16, usize)> {
    fl.map_values(|e: (u16, u32)| (e.0, entry_index(lut, e.1) as usize))
}

/// The weight table holds every code once, and holds every code of `fl`.
proof fn lemma_weight_lut(fl: Seq<(u16, u32)>)
    ensures
        weight_lut(fl).no_duplicates(),
        weight_lut(fl).len() <= fl.len(),
        forall|i: int| 0 <= i < fl.len() ==> weight_lut(fl).contains(#[trigger] fl[i].1),
    decreases fl.len(),
{
    if fl.len() > 0 {
        let prev = fl.drop_last();
        lemma_weight_lut(prev);
        let x = fl.last().1;
        lemma_with_entry(weight_lut(prev), x);
        lemma_with_entry_keeps(weight_lut(prev), x);
        assert forall|i: int| 0 <= i < fl.len() implies weight_lut(fl).contains(#[trigger] fl[i].1) by {
            if i < prev.len() {
                assert(prev[i] == fl[i]);
                let k = choose|k: int| 0 <= k < weight_lut(prev).len() && weight_lut(prev)[k] == prev[i].1;
                assert(weight_lut(fl)[k] == fl[i].1);
            } else {
                assert(weight_lut(fl)[entry_index(weight_lut(prev), x)] == x);
            }
        }
    }
}

/// Finds `x` in `v`, adding it at the end if it is not there.
fn code_slot(v: &mut Vec<u32>, x: u32)
    requires
        old(v)@.no_duplicates(),
    ensures
        final(v)@ == with_entry(old(v)@, x),
{
    let mut i: usize = 0;
    while i < v.len()
        invariant
            v@ == old(v)@,
            i <= v@.len(),
            forall|j: int| 0 <= j < i ==> v@[j] != x,
        decreases v@.len() - i,
    {
        if v[i] == x {
            assert(v@.contains(x));
            return;
        }
        i += 1;
    }
    v.push(x);
}

/// The index of `x`, which `v` holds, in `v`.
fn code_index(v: &Vec<u32>, x: u32) -> (r: usize)
    requires
        v@.no_duplicates(),
        v@.contains(x),
    ensures
        r == entry_index(v@, x),
{
    proof { lemma_with_entry(v@, x); }
    let mut i: usize = 0;
    while i < v.len()
        invariant
            i <= v@.len(),
            v@.contains(x),
            v@.no_duplicates(),
            forall|j: int| 0 <= j < i ==> v@[j] != x,
        decreases v@.len() - i,
    {
        if v[i] == x {
            proof { lemma_with_entry(v@, x); }
            return i;
        }
        i += 1;
    }
    assert(false);
    0
}

/// The skin weights of the vertices with influences `influences`: the table
/// of distinct weight codes (in the order they first occur), the number of
/// influences of each vertex, and every influence, vertex after vertex, as
/// its joint and the index of its weight in the table.
pub fn skin_weights(influences: &Vec<Vec<(u16, u32)>>) -> (r: (Vec<u32>, Vec<usize>, Vec<(u16, usize)>))
    ensures
        ({
            let fl = flat_influences(influences_view(influences@));
            &&& r.0@ == weight_lut(fl)
            &&& r.0@.no_duplicates()
            &&& r.1@ == influences@.map_values(|v: Vec<(u16, u32)>| v@.len() as usize)
            &&& r.2@ == lut_entries(fl, r.0@)
            &&& forall|i: int| 0 <= i < fl.len() ==>
                (#[trigger] r.2@[i]).1 < r.0@.len() && r.0@[r.2@[i].1 as int] == fl[i].1 && r.2@[i].0 == fl[i].0
        }),
{
    let ghost vs = influences_view(influences@);
    let mut lut: Vec<u32> = Vec::new();
    let mut v: usize = 0;
    while v < influences.len()
        invariant
            v <= influences@.len(),
            vs == influences_view(influences@),
            lut@ == weight_lut(flat_influences(vs.take(v as int))),
            lut@.no_duplicates(),
        decreases influences@.len() - v,
    {
        let infl = &influences[v];
        let ghost before = flat_influences(vs.take(v as int));
        assert(vs[v as int] == infl@);
        let mut i: usize = 0;
        while i < infl.len()
            invariant
                i <= infl@.len(),
                lut@ == weight_lut(before + infl@.take(i as int)),
                lut@.no_duplicates(),
            decreases infl@.len() - i,
        {
            let ghost s = before + infl@.take(i as int);
            proof { lemma_weight_lut(s); }
            code_slot(&mut lut, infl[i].1);
            assert((before + infl@.take(i + 1)).drop_last() =~= s);
            proof { lemma_weight_lut(before + infl@.take(i + 1)); }
            i += 1;
        }
        assert(vs.take(v + 1).drop_last() =~= vs.take(v as int));
        assert(infl@.take(i as int) =~= infl@);
        v += 1;
    }
    assert(vs.take(v as int) =~= vs);
    let ghost fl = flat_influences(vs);
    proof { lemma_weight_lut(fl); }

    let mut counts: Vec<usize> = Vec::new();
    let mut entries: Vec<(u16, usize)> = Vec::new();
    let mut v: usize = 0;
    while v < influences.len()
        invariant
            v <= influences@.len(),
            vs == influences_view(influences@),
            fl == flat_influences(vs),
            lut@ == weight_lut(fl),
            lut@.no_duplicates(),
            forall|i: int| 0 <= i < fl.len() ==> lut@.contains(#[trigger] fl[i].1),
            counts@ == influences@.take(v as int).map_values(|w: Vec<(u16, u32)>| w@.len() as usize),
            entries@ == lut_entries(flat_influences(vs.take(v as int)), lut@),
            flat_influences(vs.take(v as int)).len() <= fl.len(),
            fl.take(flat_influences(vs.take(v as int)).len() as int) == flat_influences(vs.take(v as int)),
        decreases influences@.len() - v,
    {
        let infl = &influences[v];
        assert(vs[v as int] == infl@);
        let ghost before = flat_influences(vs.take(v as int));
        let ghost next = flat_influences(vs.take(v + 1));
        assert(vs.take(v + 1).drop_last() =~= vs.take(v as int));
        assert(next == before + infl@);
        proof { lemma_flat_prefix(vs, v + 1); }
        let mut i: usize = 0;
        while i < infl.len()
            invariant
                i <= infl@.len(),
                lut@ == weight_lut(fl),
                lut@.no_duplicates(),
                forall|k: int| 0 <= k < fl.len() ==> lut@.contains(#[trigger] fl[k].1),
                next == before + infl@,
                next.len() <= fl.len(),
                fl.take(next.len() as int) == next,
                entries@ == lut_entries(before + infl@.take(i as int), lut@),
            decreases infl@.len() - i,
        {
            let (j, c) = infl[i];
            assert(fl[before.len() + i] == next[before.len() + i]);
            assert(next[before.len() + i] == infl@[i as int]);
            let w = code_index(&lut, c);
            entries.push((j, w));
            assert(before + infl@.take(i + 1) =~= (before + infl@.take(i as int)).push(infl@[i as int]));
            assert(entries@ =~= lut_entries(before + infl@.take(i + 1), lut@));
            i += 1;
        }
        assert(infl@.take(i as int) =~= infl@);
        counts.push(infl.len());
        assert(influences@.take(v + 1) =~= influences@.take(v as int).push(influences@[v as int]));
        assert(counts@ =~= influences@.take(v + 1).map_values(|w: Vec<(u16, u32)>| w@.len() as usize));
        v += 1;
    }
    assert(influences@.take(v as int) =~= influences@);
    assert(vs.take(v as int) =~= vs);
    assert(lut@.len() == lut.len());
    proof {
        lemma_with_entry_all(fl, lut@);
    }
    (lut, counts, entries)
}

/// The influences of the first `k` vertices are the start of the influences
/// of all of them.
proof fn lemma_flat_prefix(vs: Seq<Seq<(u16, u32)>>, k: int)
    requires
        0 <= k <= vs.len(),
    ensures
        flat_influences(vs.take(k)).len() <= flat_influences(vs).len(),
        flat_influences(vs).take(flat_influences(vs.take(k)).len() as int) == flat_influences(vs.take(k)),
    decreases vs.len() - k,
{
    if k < vs.len() {
        lemma_flat_prefix(vs, k + 1);
        assert(vs.take(k + 1).drop_last() =~= vs.take(k));
        let a = flat_influences(vs.take(k));
        let b = flat_influences(vs.take(k + 1));
        assert(b == a + vs[k]);
        assert(flat_influences(vs).take(a.len() as int) =~= b.take(a.len() as int));
        assert(b.take(a.len() as int) =~= a);
    } else {
        assert(vs.take(k) =~= vs);
        assert(flat_influences(vs).take(flat_influences(vs).len() as int) =~= flat_influences(vs));
    }
}

/// Every influence's index points at its weight in the table.
proof fn lemma_with_entry_all(fl: Seq<(u16, u32)>, lut: Seq<u32>)
    requires
        lut.no_duplicates(),
        forall|i: int| 0 <= i < fl.len() ==> lut.contains(#[trigger] fl[i].1),
        lut.len() <= usize::MAX,
    ensures
        forall|i: int| 0 <= i < fl.len() ==>
            (#[trigger] lut_entries(fl, lut)[i]).1 < lut.len() && lut[lut_entries(fl, lut)[i].1 as int] == fl[i].1
            && lut_entries(fl, lut)[i].0 == fl[i].0,
{
    assert forall|i: int| 0 <= i < fl.len() implies
        (#[trigger] lut_entries(fl, lut)[i]).1 < lut.len() && lut[lut_entries(fl, lut)[i].1 as int] == fl[i].1
        && lut_entries(fl, lut)[i].0 == fl[i].0 by {
        assert(lut.contains(fl[i].1));
        lemma_with_entry(lut, fl[i].1);
        let e = entry_index(lut, fl[i].1);
        assert(e as usize as int == e);
    }
}

/// The influence counts, each followed by a space.
pub open spec fn counts_text(counts: Seq<usize>) -> Seq<char>
    decreases counts.len(),
{
    if counts.len() == 0 {
        Seq::empty()
    } else {
        counts_text(counts.drop_last()) + dec_str(counts.last() as nat) + " "@
    }
}

/// Each influence's joint and weight index, each followed by a space.
pub open spec fn v_text(entries: Seq<(u16, usize)>) -> Seq<char>
    decreases entries.len(),
{
    if entries.len() == 0 {
        Seq::empty()
    } else {
        v_text(entries.drop_last()) + dec_str(entries.last().0 as nat) + " "@ + dec_str(entries.last().1 as nat)
            + " "@
    }
}

/// The ids of the first `n` joints, `joint0`, `joint1`, ..., each followed
/// by a space.
pub open spec fn joint_names_text(n: nat) -> Seq<char>
    decreases n,
{
    if n == 0 {
        Seq::empty()
    } else {
        joint_names_text((n - 1) as nat) + "joint"@ + dec_str((n - 1) as nat) + " "@
    }
}

/// `t` followed by the `<vertex_weights>` element at depth `k`: the number
/// of vertices, the two inputs (joint and weight), the influence count of
/// each vertex and each influence's joint and weight index.
pub open spec fn with_vertex_weights(t: Seq<char>, counts: Seq<usize>, entries: Seq<(u16, usize)>, k: nat)
    -> Seq<char> {
    let b1 = t + open_tag("vertex_weights count=\""@ + dec_str(counts.len()) + "\""@);
    let b2 = line(b1, k + 1, "<"@ + "input semantic=\"JOINT\" source=\"#controller-joints\" offset=\"0\""@ + "/>"@);
    let b3 = line(b2, k + 1, "<"@ + "input semantic=\"WEIGHT\" source=\"#controller-weights\" offset=\"1\""@ + "/>"@);
    let b4 = line(b3, k + 1, text_elem("vcount"@, counts_text(counts)));
    let b5 = line(b4, k + 1, text_elem("v"@, v_text(entries)));
    line(b5, k, close_tag("vertex_weights"@))
}

/// `t` followed by the array of the ids of `n` joints.
pub open spec fn with_joint_names(t: Seq<char>, n: nat) -> Seq<char> {
    t + open_tag("Name_array id=\"controller-joints-array\" count=\""@ + dec_str(n) + "\""@)
        + joint_names_text(n) + close_tag("Name_array"@)
}

/// Writes the array of the ids of `num_joints` joints and starts a new line.
pub fn joint_names(xml: &mut Xml, num_joints: usize)
    requires
        old(xml).indent() < u32::MAX,
    ensures
        final(xml).indent() == old(xml).indent(),
        final(xml).text() == nl_after(with_joint_names(old(xml).text(), num_joints as nat), final(xml).indent()),
{
    let ghost k = xml.indent();
    xml.start_open_tag();
    xml.push_str("Name_array id=\"controller-joints-array\" count=\"");
    xml.push_dec(num_joints as u64);
    xml.push_str("\"");
    xml.end_tag();
    let ghost pre = xml.text();
    let mut j: usize = 0;
    while j < num_joints
        invariant
            j <= num_joints,
            xml.indent() == k + 1,
            xml.text() == pre + joint_names_text(j as nat),
        decreases num_joints - j,
    {
        xml.push_str("joint");
        xml.push_dec(j as u64);
        xml.push_str(" ");
        j += 1;
    }
    xml.start_close_tag();
    xml.push_str("Name_array");
    xml.end_tag();
    xml.nl();
}

/// Writes the `<vcount>` element of the influence counts.
fn write_counts(xml: &mut Xml, counts: &Vec<usize>, Ghost(b): Ghost<Seq<char>>)
    requires
        old(xml).text() == nl_after(b, old(xml).indent()),
        old(xml).indent() < u32::MAX,
    ensures
        final(xml).indent() == old(xml).indent(),
        final(xml).text() == nl_after(line(b, old(xml).indent(), text_elem("vcount"@, counts_text(counts@))),
            final(xml).indent()),
{
    let ghost k = xml.indent();
    xml.start_open_tag();
    xml.push_str("vcount");
    xml.end_tag();
    let ghost pre = xml.text();
    let mut i: usize = 0;
    while i < counts.len()
        invariant
            i <= counts@.len(),
            xml.indent() == k + 1,
            xml.text() == pre + counts_text(counts@.take(i as int)),
        decreases counts@.len() - i,
    {
        xml.push_dec(counts[i] as u64);
        xml.push_str(" ");
        assert(counts@.take(i + 1).drop_last() =~= counts@.take(i as int));
        i += 1;
    }
    assert(counts@.take(i as int) =~= counts@);
    xml.start_close_tag();
    xml.push_str("vcount");
    xml.end_tag();
    xml.nl();
}

/// Writes the `<v>` element of the influences.
fn write_entries(xml: &mut Xml, entries: &Vec<(u16, usize)>, Ghost(b): Ghost<Seq<char>>)
    requires
        old(xml).text() == nl_after(b, old(xml).indent()),
        old(xml).indent() < u32::MAX,
    ensures
        final(xml).indent() == old(xml).indent(),
        final(xml).text() == nl_after(line(b, old(xml).indent(), text_elem("v"@, v_text(entries@))),
            final(xml).indent()),
{
    let ghost k = xml.indent();
    xml.start_open_tag();
    xml.push_str("v");
    xml.end_tag();
    let ghost pre = xml.text();
    let mut i: usize = 0;
    while i < entries.len()
        invariant
            i <= entries@.len(),
            xml.indent() == k + 1,
            xml.text() == pre + v_text(entries@.take(i as int)),
        decreases entries@.len() - i,
    {
        let (j, w) = entries[i];
        xml.push_dec(j as u64);
        xml.push_str(" ");
        xml.push_dec(w as u64);
        xml.push_str(" ");
        assert(entries@.take(i + 1).drop_last() =~= entries@.take(i as int));
        assert(entries@.take(i + 1).last() == (j, w));
        i += 1;
    }
    assert(entries@.take(i as int) =~= entries@);
    xml.start_close_tag();
    xml.push_str("v");
    xml.end_tag();
    xml.nl();
}

/// Writes the `<vertex_weights>` element: for each vertex its influence
/// count, then every influence as its joint and the index of its weight.
pub fn vertex_weights(xml: &mut Xml, counts: &Vec<usize>, entries: &Vec<(u16, usize)>)
    requires
        old(xml).indent() + 2 <= u32::MAX,
    ensures
        final(xml).indent() == old(xml).indent(),
        final(xml).text() == nl_after(with_vertex_weights(old(xml).text(), counts@, entries@, old(xml).indent()),
            final(xml).indent()),
{
    let ghost k = xml.indent();
    let ghost t = xml.text();
    xml.start_open_tag();
    xml.push_str("vertex_weights count=\"");
    xml.push_dec(counts.len() as u64);
    xml.push_str("\"");
    xml.end_tag();
    xml.nl();
    let ghost b1 = t + open_tag("vertex_weights count=\""@ + dec_str(counts@.len()) + "\""@);
    assert(xml.text() == nl_after(b1, k + 1));
    xml.start_open_tag();
    xml.push_str("input semantic=\"JOINT\" source=\"#controller-joints\" offset=\"0\"");
    xml.end_empty_tag();
    xml.nl();
    let ghost b2 = line(b1, k + 1, "<"@ + "input semantic=\"JOINT\" source=\"#controller-joints\" offset=\"0\""@ + "/>"@);
    assert(xml.text() == nl_after(b2, k + 1));
    xml.start_open_tag();
    xml.push_str("input semantic=\"WEIGHT\" source=\"#controller-weights\" offset=\"1\"");
    xml.end_empty_tag();
    xml.nl();
    let ghost b3 = line(b2, k + 1, "<"@ + "input semantic=\"WEIGHT\" source=\"#controller-weights\" offset=\"1\""@ + "/>"@);
    assert(xml.text() == nl_after(b3, k + 1));
    write_counts(xml, counts, Ghost(b3));
    let ghost b4 = line(b3, k + 1, text_elem("vcount"@, counts_text(counts@)));
    write_entries(xml, entries, Ghost(b4));
    let ghost b5 = line(b4, k + 1, text_elem("v"@, v_text(entries@)));
    close_line(xml, "vertex_weights", Ghost(b5));
}

} // verus!
