//! Planning the animations of a glTF document: which nodes get a channel
//! for which of their translation, rotation and scale curves, the sampler
//! each channel reads, and the timelines (keyframe times) the samplers
//! share, each stored once.
//!
//! The sample values and times themselves are floating point values; the
//! document writer fills them in from this plan.

use vstd::prelude::*;
use crate::nitro::{Curve, Material, Name};
use crate::util::fmt::{dec_str, push_dec};
use super::curve::CurveDomain;
use super::materials::{with_entry, entry_index, lemma_with_entry, lemma_with_entry_keeps};

verus! {

/// Which part of an object's transform a curve animates.
#[derive(Debug, Copy, Clone, PartialEq, Eq, Structural)]
pub enum TrsPath {
    Translation,
    Rotation,
    Scale,
}

/// The keyframe times of a sampled curve: every `sampling_rate` frames from
/// `start_frame` up to `end_frame`.
#[derive(Debug, Copy, Clone, PartialEq, Eq, Structural)]
pub struct TimelineDesc {
    pub start_frame: u16,
    pub end_frame: u16,
    pub sampling_rate: u16,
}

/// For one object, the timeline of each of its translation, rotation and
/// scale curves that is sampled (`None` for a curve that is not).
#[derive(Debug, Copy, Clone)]
pub struct ObjectTimelines {
    pub translation: Option<TimelineDesc>,
    pub rotation: Option<TimelineDesc>,
    pub scale: Option<TimelineDesc>,
}

/// What a sampler holds: one TRS curve of one object.
#[derive(Debug, Copy, Clone, PartialEq, Eq, Structural)]
pub struct SamplerDesc {
    pub object_idx: u8,
    pub path: TrsPath,
}

/// A sampler: one TRS curve of one object, with the index of its timeline.
#[derive(Debug, Copy, Clone, PartialEq, Eq, Structural)]
pub struct SamplerPlan {
    pub object_idx: u8,
    pub path: TrsPath,
    pub timeline: usize,
}

/// A channel: it animates part `path` of node `node` with sampler `sampler`.
#[derive(Debug, Copy, Clone, PartialEq, Eq, Structural)]
pub struct ChannelPlan {
    pub node: usize,
    pub path: TrsPath,
    pub sampler: usize,
}

/// The timeline of the curve of `ot` for `p`, if that curve is sampled.
pub open spec fn path_timeline(ot: ObjectTimelines, p: TrsPath) -> Option<TimelineDesc> {
    match p {
        TrsPath::Translation => ot.translation,
        TrsPath::Rotation => ot.rotation,
        TrsPath::Scale => ot.scale,
    }
}

/// The timeline of a sampled curve: its domain.
pub open spec fn spec_sampled_timeline<T>(c: Curve<T>) -> Option<TimelineDesc> {
    match c {
        Curve::Samples { .. } => match c.spec_domain() {
            CurveDomain::Sampled { start_frame, end_frame, sampling_rate } =>
                Some(TimelineDesc { start_frame, end_frame, sampling_rate }),
            CurveDomain::Empty => None,
        },
        _ => None,
    }
}

/// The timeline of a curve if it is a sampled one (empty and constant
/// curves get no channel).
pub fn sampled_timeline<T>(c: &Curve<T>) -> (r: Option<TimelineDesc>)
    requires
        c.has_domain(),
    ensures
        r == spec_sampled_timeline(*c),
{
    match c {
        Curve::Samples { .. } => match c.domain() {
            CurveDomain::Sampled { start_frame, end_frame, sampling_rate } =>
                Some(TimelineDesc { start_frame, end_frame, sampling_rate }),
            CurveDomain::Empty => None,
        },
        _ => None,
    }
}

/// The samplers (each once, in first-use order) and the channels so far.
pub struct ChannelsState {
    pub samplers: Seq<SamplerDesc>,
    pub channels: Seq<ChannelPlan>,
}

/// After node `n`, showing object `o` with timelines `ot`: a channel for
/// part `p` if that curve is sampled, reading the sampler of that curve,
/// added unless already there.
pub open spec fn add_path(st: ChannelsState, n: int, o: u8, ot: ObjectTimelines, p: TrsPath) -> ChannelsState {
    match path_timeline(ot, p) {
        None => st,
        Some(_) => {
            let sd = SamplerDesc { object_idx: o, path: p };
            ChannelsState {
                samplers: with_entry(st.samplers, sd),
                channels: st.channels.push(ChannelPlan { node: n as usize, path: p,
                    sampler: entry_index(st.samplers, sd) as usize }),
            }
        },
    }
}

/// After node `n`: a node that shows an object gets channels for its
/// translation, rotation and scale, in that order; other nodes get none.
pub open spec fn add_node(st: ChannelsState, n: int, nodes: Seq<Option<u8>>, objs: Seq<ObjectTimelines>)
    -> ChannelsState {
    match nodes[n] {
        None => st,
        Some(o) => {
            let ot = objs[o as int];
            add_path(add_path(add_path(st, n, o, ot, TrsPath::Translation), n, o, ot, TrsPath::Rotation),
                n, o, ot, TrsPath::Scale)
        },
    }
}

/// The samplers and channels of the first `k` nodes.
pub open spec fn plan_channels(nodes: Seq<Option<u8>>, objs: Seq<ObjectTimelines>, k: nat) -> ChannelsState
    decreases k,
{
    if k == 0 || k > nodes.len() {
        ChannelsState { samplers: Seq::empty(), channels: Seq::empty() }
    } else {
        add_node(plan_channels(nodes, objs, (k - 1) as nat), k - 1, nodes, objs)
    }
}

/// The plans of the first `k` samplers of `sds`, and the timelines after
/// adding theirs (each once, in first-use order) to `tls`.
pub open spec fn plan_samplers(sds: Seq<SamplerDesc>, objs: Seq<ObjectTimelines>, tls: Seq<TimelineDesc>, k: nat)
    -> (Seq<SamplerPlan>, Seq<TimelineDesc>)
    decreases k,
{
    if k == 0 || k > sds.len() {
        (Seq::empty(), tls)
    } else {
        let (sps, t) = plan_samplers(sds, objs, tls, (k - 1) as nat);
        let sd = sds[k - 1];
        let td = path_timeline(objs[sd.object_idx as int], sd.path)->0;
        (
            sps.push(SamplerPlan { object_idx: sd.object_idx, path: sd.path, timeline: entry_index(t, td) as usize }),
            with_entry(t, td),
        )
    }
}

/// Every node's object is one of `objs`.
pub open spec fn nodes_fit(nodes: Seq<Option<u8>>, objs: Seq<ObjectTimelines>) -> bool {
    forall|n: int| 0 <= n < nodes.len() ==> (#[trigger] nodes[n] matches Some(o) ==> o < objs.len())
}

/// Every sampler reads a sampled curve of one of `objs`.
pub open spec fn samplers_fit(sds: Seq<SamplerDesc>, objs: Seq<ObjectTimelines>) -> bool {
    forall|i: int| 0 <= i < sds.len() ==> (#[trigger] sds[i]).object_idx < objs.len()
        && path_timeline(objs[sds[i].object_idx as int], sds[i].path) is Some
}

/// The timeline of the curve of `ot` for `p`.
fn timeline_of(ot: &ObjectTimelines, p: TrsPath) -> (r: Option<TimelineDesc>)
    ensures
        r == path_timeline(*ot, p),
{
    match p {
        TrsPath::Translation => ot.translation,
        TrsPath::Rotation => ot.rotation,
        TrsPath::Scale => ot.scale,
    }
}

/// Finds `x` in `v`, adding it at the end if it is not there; returns its
/// index.
fn sampler_desc_slot(v: &mut Vec<SamplerDesc>, x: SamplerDesc) -> (r: usize)
    requires
        old(v)@.no_duplicates(),
    ensures
        final(v)@ == with_entry(old(v)@, x),
        r == entry_index(old(v)@, x),
{
    proof { lemma_with_entry(v@, x); }
    let mut i: usize = 0;
    while i < v.len()
        invariant
            v@ == old(v)@,
            v@.no_duplicates(),
            i <= v@.len(),
            forall|j: int| 0 <= j < i ==> v@[j] != x,
        decreases v@.len() - i,
    {
        if v[i] == x {
            proof { lemma_with_entry(v@, x); assert(v@.contains(x)); }
            return i;
        }
        i += 1;
    }
    v.push(x);
    i
}

/// Finds `x` in `v`, adding it at the end if it is not there; returns its
/// index.
fn timeline_slot(v: &mut Vec<TimelineDesc>, x: TimelineDesc) -> (r: usize)
    requires
        old(v)@.no_duplicates(),
    ensures
        final(v)@.no_duplicates(),
        final(v)@ == with_entry(old(v)@, x),
        r == entry_index(old(v)@, x),
{
    proof { lemma_with_entry(v@, x); }
    let mut i: usize = 0;
    while i < v.len()
        invariant
            v@ == old(v)@,
            v@.no_duplicates(),
            i <= v@.len(),
            forall|j: int| 0 <= j < i ==> v@[j] != x,
        decreases v@.len() - i,
    {
        if v[i] == x {
            proof { lemma_with_entry(v@, x); assert(v@.contains(x)); }
            return i;
        }
        i += 1;
    }
    v.push(x);
    i
}

/// Adds the channel for part `p` of node `n`, showing object `o`.
fn add_path_exec(samplers: &mut Vec<SamplerDesc>, channels: &mut Vec<ChannelPlan>, n: usize, o: u8,
    ot: &ObjectTimelines, p: TrsPath)
    requires
        old(samplers)@.no_duplicates(),
    ensures
        final(samplers)@.no_duplicates(),
        (ChannelsState { samplers: final(samplers)@, channels: final(channels)@ }) == add_path(
            ChannelsState { samplers: old(samplers)@, channels: old(channels)@ }, n as int, o, *ot, p),
{
    match timeline_of(ot, p) {
        None => {},
        Some(_) => {
            let sd = SamplerDesc { object_idx: o, path: p };
            proof { lemma_with_entry(samplers@, sd); }
            let sampler = sampler_desc_slot(samplers, sd);
            channels.push(ChannelPlan { node: n, path: p, sampler });
        },
    }
}

/// Adding the channel of a sampled curve keeps every sampler reading a
/// sampled curve.
proof fn lemma_path_keeps_fit(st: ChannelsState, n: int, o: u8, objs: Seq<ObjectTimelines>, p: TrsPath)
    requires
        samplers_fit(st.samplers, objs),
        o < objs.len(),
    ensures
        samplers_fit(add_path(st, n, o, objs[o as int], p).samplers, objs),
{
    let sd = SamplerDesc { object_idx: o, path: p };
    lemma_with_entry_keeps(st.samplers, sd);
    let t = add_path(st, n, o, objs[o as int], p).samplers;
    assert forall|i: int| 0 <= i < t.len() implies (#[trigger] t[i]).object_idx < objs.len()
        && path_timeline(objs[t[i].object_idx as int], t[i].path) is Some by {
        if i < st.samplers.len() {
            assert(t[i] == st.samplers[i]);
        }
    }
}

/// Plans the animation of the objects of a skeleton: one channel for each
/// sampled translation, rotation and scale curve of the object each node
/// shows (nodes in order), reading a sampler per object curve (shared when
/// two nodes show the same object), and each sampler's timeline added to
/// `timelines` unless an equal one is there.
pub fn plan_object_animation(node_objects: &Vec<Option<u8>>, objects: &Vec<ObjectTimelines>,
    timelines: &mut Vec<TimelineDesc>) -> (r: (Vec<SamplerPlan>, Vec<ChannelPlan>))
    requires
        nodes_fit(node_objects@, objects@),
        old(timelines)@.no_duplicates(),
    ensures
        final(timelines)@.no_duplicates(),
        ({
            let st = plan_channels(node_objects@, objects@, node_objects@.len());
            &&& r.1@ == st.channels
            &&& (r.0@, final(timelines)@) == plan_samplers(st.samplers, objects@, old(timelines)@, st.samplers.len())
        }),
{
    let mut sds: Vec<SamplerDesc> = Vec::new();
    let mut channels: Vec<ChannelPlan> = Vec::new();
    let mut n: usize = 0;
    while n < node_objects.len()
        invariant
            n <= node_objects@.len(),
            nodes_fit(node_objects@, objects@),
            sds@.no_duplicates(),
            samplers_fit(sds@, objects@),
            (ChannelsState { samplers: sds@, channels: channels@ }) == plan_channels(node_objects@, objects@, n as nat),
        decreases node_objects@.len() - n,
    {
        let ghost before = ChannelsState { samplers: sds@, channels: channels@ };
        match node_objects[n] {
            None => {},
            Some(o) => {
                assert(node_objects@[n as int] == Some(o));
                let ot = &objects[o as usize];
                add_path_exec(&mut sds, &mut channels, n, o, ot, TrsPath::Translation);
                add_path_exec(&mut sds, &mut channels, n, o, ot, TrsPath::Rotation);
                add_path_exec(&mut sds, &mut channels, n, o, ot, TrsPath::Scale);
                proof {
                    let s1 = add_path(before, n as int, o, *ot, TrsPath::Translation);
                    let s2 = add_path(s1, n as int, o, *ot, TrsPath::Rotation);
                    lemma_path_keeps_fit(before, n as int, o, objects@, TrsPath::Translation);
                    lemma_path_keeps_fit(s1, n as int, o, objects@, TrsPath::Rotation);
                    lemma_path_keeps_fit(s2, n as int, o, objects@, TrsPath::Scale);
                }
            },
        }
        n += 1;
    }

    let ghost sds0 = sds@;
    let ghost tls0 = timelines@;
    let mut plans: Vec<SamplerPlan> = Vec::new();
    let mut k: usize = 0;
    while k < sds.len()
        invariant
            k <= sds@.len(),
            sds@ == sds0,
            samplers_fit(sds0, objects@),
            tls0 == old(timelines)@,
            timelines@.no_duplicates(),
            (plans@, timelines@) == plan_samplers(sds0, objects@, tls0, k as nat),
        decreases sds@.len() - k,
    {
        let sd = sds[k];
        assert(sds0[k as int] == sd);
        let td = timeline_of(&objects[sd.object_idx as usize], sd.path).unwrap();
        let timeline = timeline_slot(timelines, td);
        plans.push(SamplerPlan { object_idx: sd.object_idx, path: sd.path, timeline });
        k += 1;
    }
    (plans, channels)
}

/// Every channel so far belongs to a node that shows an object and reads
/// the sampler of that object's curve; the samplers are each held once.
proof fn lemma_plan_channels_consistent(nodes: Seq<Option<u8>>, objs: Seq<ObjectTimelines>, k: nat)
    requires
        k <= nodes.len(),
        3 * nodes.len() <= usize::MAX,
    ensures
        ({
            let st = plan_channels(nodes, objs, k);
            &&& st.channels.len() <= 3 * k
            &&& channels_consistent(st, nodes, k as int)
            &&& st.samplers.no_duplicates()
            &&& forall|c: int| 0 <= c < st.channels.len() ==> {
                let ch = #[trigger] st.channels[c];
                &&& ch.node < k
                &&& nodes[ch.node as int] is Some
                &&& ch.sampler < st.samplers.len()
                &&& st.samplers[ch.sampler as int] == (SamplerDesc { object_idx: nodes[ch.node as int]->0, path: ch.path })
            }
        }),
    decreases k,
{
    if k > 0 {
        let m = (k - 1) as nat;
        lemma_plan_channels_consistent(nodes, objs, m);
        let st0 = plan_channels(nodes, objs, m);
        if let Some(o) = nodes[m as int] {
            let ot = objs[o as int];
            let s1 = add_path(st0, m as int, o, ot, TrsPath::Translation);
            let s2 = add_path(s1, m as int, o, ot, TrsPath::Rotation);
            assert(channels_consistent(st0, nodes, (m + 1) as int));
            lemma_add_path_consistent(st0, nodes, m as int, o, ot, TrsPath::Translation);
            lemma_add_path_consistent(s1, nodes, m as int, o, ot, TrsPath::Rotation);
            lemma_add_path_consistent(s2, nodes, m as int, o, ot, TrsPath::Scale);
        }
    }
}

/// The consistency of `lemma_plan_channels_consistent`, for channels of
/// nodes before `bound`.
pub open spec fn channels_consistent(st: ChannelsState, nodes: Seq<Option<u8>>, bound: int) -> bool {
    &&& st.samplers.len() <= st.channels.len()
    &&& st.samplers.no_duplicates()
    &&& forall|c: int| 0 <= c < st.channels.len() ==> {
        let ch = #[trigger] st.channels[c];
        &&& ch.node < bound
        &&& nodes[ch.node as int] is Some
        &&& ch.sampler < st.samplers.len()
        &&& st.samplers[ch.sampler as int] == (SamplerDesc { object_idx: nodes[ch.node as int]->0, path: ch.path })
    }
}

/// Adding a channel for node `n` keeps the plan consistent.
proof fn lemma_add_path_consistent(st: ChannelsState, nodes: Seq<Option<u8>>, n: int, o: u8, ot: ObjectTimelines,
    p: TrsPath)
    requires
        channels_consistent(st, nodes, n + 1),
        st.channels.len() + 1 <= usize::MAX,
        nodes.len() <= usize::MAX,
        0 <= n < nodes.len(),
        nodes[n] == Some(o),
    ensures
        channels_consistent(add_path(st, n, o, ot, p), nodes, n + 1),
        add_path(st, n, o, ot, p).channels.len() <= st.channels.len() + 1,
{
    let sd = SamplerDesc { object_idx: o, path: p };
    lemma_with_entry(st.samplers, sd);
    lemma_with_entry_keeps(st.samplers, sd);
    let t = add_path(st, n, o, ot, p);
    assert forall|c: int| 0 <= c < t.channels.len() implies {
        let ch = #[trigger] t.channels[c];
        &&& ch.node < n + 1
        &&& nodes[ch.node as int] is Some
        &&& ch.sampler < t.samplers.len()
        &&& t.samplers[ch.sampler as int] == (SamplerDesc { object_idx: nodes[ch.node as int]->0, path: ch.path })
    } by {
        if c < st.channels.len() {
            assert(t.channels[c] == st.channels[c]);
        } else if path_timeline(ot, p) is Some {
            let e = entry_index(st.samplers, sd);
            assert(0 <= e <= st.samplers.len());
            assert(e as usize as int == e);
            assert(n as usize as int == n);
            assert(t.channels[c].sampler == e as usize);
        }
    }
}

/// The sampler plans follow the samplers one for one, and each names the
/// recorded timeline of its curve; the timelines stay each held once.
proof fn lemma_plan_samplers_consistent(sds: Seq<SamplerDesc>, objs: Seq<ObjectTimelines>, tls: Seq<TimelineDesc>,
    k: nat)
    requires
        k <= sds.len(),
        tls.no_duplicates(),
        tls.len() + sds.len() <= usize::MAX,
    ensures
        ({
            let (plans, t) = plan_samplers(sds, objs, tls, k);
            &&& t.no_duplicates()
            &&& plans.len() == k
            &&& tls.len() <= t.len() <= tls.len() + k
            &&& forall|i: int| 0 <= i < tls.len() ==> t[i] == tls[i]
            &&& forall|i: int| 0 <= i < k ==> {
                let sp = #[trigger] plans[i];
                &&& sp.object_idx == sds[i].object_idx
                &&& sp.path == sds[i].path
                &&& sp.timeline < t.len()
                &&& t[sp.timeline as int] == path_timeline(objs[sds[i].object_idx as int], sds[i].path)->0
            }
        }),
    decreases k,
{
    if k > 0 {
        let m = (k - 1) as nat;
        lemma_plan_samplers_consistent(sds, objs, tls, m);
        let (plans0, t0) = plan_samplers(sds, objs, tls, m);
        let sd = sds[m as int];
        let td = path_timeline(objs[sd.object_idx as int], sd.path)->0;
        lemma_with_entry(t0, td);
        lemma_with_entry_keeps(t0, td);
        let (plans, t) = plan_samplers(sds, objs, tls, k);
        assert forall|i: int| 0 <= i < k implies {
            let sp = #[trigger] plans[i];
            &&& sp.object_idx == sds[i].object_idx
            &&& sp.path == sds[i].path
            &&& sp.timeline < t.len()
            &&& t[sp.timeline as int] == path_timeline(objs[sds[i].object_idx as int], sds[i].path)->0
        } by {
            if i < m {
                assert(plans[i] == plans0[i]);
            } else {
                let e = entry_index(t0, td);
                assert(0 <= e <= t0.len());
                assert(e as usize as int == e);
            }
        }
    }
}

/// The animation plan is consistent: each channel animates a node that
/// shows an object, through the sampler of that object's curve for the
/// channel's path; each sampler names the timeline of its curve; samplers
/// and timelines are each held once, and the timelines recorded before stay
/// in place.
pub proof fn lemma_object_animation_plan(nodes: Seq<Option<u8>>, objs: Seq<ObjectTimelines>,
    tls: Seq<TimelineDesc>)
    requires
        tls.no_duplicates(),
        3 * nodes.len() <= usize::MAX,
        tls.len() + 3 * nodes.len() <= usize::MAX,
    ensures
        ({
            let st = plan_channels(nodes, objs, nodes.len());
            let (plans, t) = plan_samplers(st.samplers, objs, tls, st.samplers.len());
            &&& st.samplers.no_duplicates()
            &&& t.no_duplicates()
            &&& forall|i: int| 0 <= i < tls.len() ==> t[i] == tls[i]
            &&& forall|c: int| 0 <= c < st.channels.len() ==> {
                let ch = #[trigger] st.channels[c];
                &&& ch.node < nodes.len()
                &&& nodes[ch.node as int] is Some
                &&& ch.sampler < plans.len()
                &&& plans[ch.sampler as int].object_idx == nodes[ch.node as int]->0
                &&& plans[ch.sampler as int].path == ch.path
            }
            &&& forall|i: int| 0 <= i < plans.len() ==> {
                &&& (#[trigger] plans[i]).timeline < t.len()
                &&& t[plans[i].timeline as int] == path_timeline(objs[plans[i].object_idx as int], plans[i].path)->0
            }
        }),
{
    lemma_plan_channels_consistent(nodes, objs, nodes.len());
    let st = plan_channels(nodes, objs, nodes.len());
    lemma_plan_samplers_consistent(st.samplers, objs, tls, st.samplers.len());
    let (plans, t) = plan_samplers(st.samplers, objs, tls, st.samplers.len());
    assert forall|c: int| 0 <= c < st.channels.len() implies {
        let ch = #[trigger] st.channels[c];
        &&& ch.node < nodes.len()
        &&& nodes[ch.node as int] is Some
        &&& ch.sampler < plans.len()
        &&& plans[ch.sampler as int].object_idx == nodes[ch.node as int]->0
        &&& plans[ch.sampler as int].path == ch.path
    } by {
        let ch = st.channels[c];
        assert(plans[ch.sampler as int].object_idx == st.samplers[ch.sampler as int].object_idx);
    }
    assert forall|i: int| 0 <= i < plans.len() implies {
        &&& (#[trigger] plans[i]).timeline < t.len()
        &&& t[plans[i].timeline as int] == path_timeline(objs[plans[i].object_idx as int], plans[i].path)->0
    } by {
        assert(plans[i].object_idx == st.samplers[i].object_idx);
    }
}

/// Plans the sampler of a material track whose texture offsets are curves
/// with domains `u` and `v`: nothing when both are empty; otherwise the
/// index of the timeline of their common domain (added to `timelines` unless
/// an equal one is there) and the number of samples on it.
pub fn plan_material_track(u: CurveDomain, v: CurveDomain, timelines: &mut Vec<TimelineDesc>)
    -> (r: Option<(usize, u16)>)
    requires
        old(timelines)@.no_duplicates(),
        u.spec_union(v) matches CurveDomain::Sampled { start_frame, end_frame, sampling_rate }
            ==> start_frame <= end_frame && sampling_rate > 0,
    ensures
        final(timelines)@.no_duplicates(),
        match u.spec_union(v) {
            CurveDomain::Empty => r is None && final(timelines)@ == old(timelines)@,
            CurveDomain::Sampled { start_frame, end_frame, sampling_rate } => {
                let td = TimelineDesc { start_frame, end_frame, sampling_rate };
                &&& final(timelines)@ == with_entry(old(timelines)@, td)
                &&& r == Some((entry_index(old(timelines)@, td) as usize,
                    ((end_frame - start_frame) / (sampling_rate as int)) as u16))
            },
        },
{
    match u.union(v) {
        CurveDomain::Empty => None,
        CurveDomain::Sampled { start_frame, end_frame, sampling_rate } => {
            let td = TimelineDesc { start_frame, end_frame, sampling_rate };
            let timeline = timeline_slot(timelines, td);
            let num_samples = (end_frame - start_frame) / sampling_rate;
            Some((timeline, num_samples))
        },
    }
}

/// The index of the first material named `name`.
pub fn material_index_by_name(materials: &Vec<Material>, name: &Name) -> (r: Option<usize>)
    ensures
        match r {
            Some(i) => i < materials@.len() && materials@[i as int].name == *name
                && forall|j: int| 0 <= j < i ==> (#[trigger] materials@[j]).name != *name,
            None => forall|j: int| 0 <= j < materials@.len() ==> (#[trigger] materials@[j]).name != *name,
        },
{
    let mut i: usize = 0;
    while i < materials.len()
        invariant
            i <= materials@.len(),
            forall|j: int| 0 <= j < i ==> (#[trigger] materials@[j]).name != *name,
        decreases materials@.len() - i,
    {
        if materials[i].name.eq_name(name) {
            return Some(i);
        }
        i += 1;
    }
    None
}

/// The property a material track animates: the texture offset of material
/// `material_idx`.
pub open spec fn spec_texture_offset_target(material_idx: nat) -> Seq<char> {
    "/materials/"@ + dec_str(material_idx)
        + "/pbrMetallicRoughness/baseColorTexture/extensions/KHR_texture_transform/offset"@
}

/// The property a material track animates: the texture offset of material
/// `material_idx`.
pub fn texture_offset_target(material_idx: usize) -> (s: String)
    ensures
        s@ == spec_texture_offset_target(material_idx as nat),
{
    let mut s = String::from_str("/materials/");
    push_dec(&mut s, material_idx as u64);
    s.append("/pbrMetallicRoughness/baseColorTexture/extensions/KHR_texture_transform/offset");
    s
}

} // verus!
