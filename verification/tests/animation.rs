use apicula::convert::gltf::mesh::{call_index_accessor, index_bytes, num_influence_sets, pack_influence_sets};
use apicula::geometry::DrawCall;
use apicula::convert::collada::skin::{joint_names, skin_weights, vertex_weights};
use apicula::convert::collada::xml::Xml;
use apicula::convert::gltf::animation::{
    material_index_by_name, plan_material_track, plan_object_animation, sampled_timeline, texture_offset_target,
    ChannelPlan, ObjectTimelines, SamplerPlan, TimelineDesc, TrsPath,
};
use apicula::convert::gltf::curve::CurveDomain;
use apicula::nds::TextureParams;
use apicula::nitro::{Curve, Material, Name};

fn tl(start_frame: u16, end_frame: u16, sampling_rate: u16) -> TimelineDesc {
    TimelineDesc { start_frame, end_frame, sampling_rate }
}

#[test]
fn object_animation_shares_samplers_and_timelines() {
    let a = tl(0, 10, 1);
    let b = tl(0, 10, 2);
    let c = tl(5, 10, 1);
    let nodes = vec![None, Some(0), Some(1), Some(0)];
    let objects = vec![
        ObjectTimelines { translation: Some(a), rotation: None, scale: Some(b) },
        ObjectTimelines { translation: Some(a), rotation: Some(c), scale: None },
    ];
    let mut timelines = vec![b];
    let (samplers, channels) = plan_object_animation(&nodes, &objects, &mut timelines);
    let ch = |node, path, sampler| ChannelPlan { node, path, sampler };
    assert_eq!(
        channels,
        vec![
            ch(1, TrsPath::Translation, 0),
            ch(1, TrsPath::Scale, 1),
            ch(2, TrsPath::Translation, 2),
            ch(2, TrsPath::Rotation, 3),
            ch(3, TrsPath::Translation, 0),
            ch(3, TrsPath::Scale, 1),
        ]
    );
    let sp = |object_idx, path, timeline| SamplerPlan { object_idx, path, timeline };
    assert_eq!(
        samplers,
        vec![
            sp(0, TrsPath::Translation, 1),
            sp(0, TrsPath::Scale, 0),
            sp(1, TrsPath::Translation, 1),
            sp(1, TrsPath::Rotation, 2),
        ]
    );
    assert_eq!(timelines, vec![b, a, c]);
}

#[test]
fn material_tracks_use_the_common_domain() {
    let mut timelines = vec![tl(0, 10, 1)];
    let u = CurveDomain::Sampled { start_frame: 0, end_frame: 8, sampling_rate: 2 };
    let v = CurveDomain::Sampled { start_frame: 2, end_frame: 10, sampling_rate: 1 };
    assert_eq!(plan_material_track(u, CurveDomain::Empty, &mut timelines), Some((1, 4)));
    assert_eq!(plan_material_track(u, v, &mut timelines), Some((0, 10)));
    assert_eq!(plan_material_track(CurveDomain::Empty, CurveDomain::Empty, &mut timelines), None);
    assert_eq!(timelines, vec![tl(0, 10, 1), tl(0, 8, 2)]);
}

#[test]
fn sampled_curves_have_timelines() {
    let c: Curve<u32> = Curve::Samples { start_frame: 0, end_frame: 10, values: vec![0; 5] };
    assert_eq!(sampled_timeline(&c), Some(tl(0, 10, 2)));
    assert_eq!(sampled_timeline(&Curve::Constant(3u32)), None);
    assert_eq!(sampled_timeline(&Curve::<u32>::Empty), None);
}

fn name(s: &[u8]) -> Name {
    let mut n = [0u8; 16];
    n[..s.len()].copy_from_slice(s);
    Name(n)
}

#[test]
fn material_tracks_find_their_material() {
    let mat = |s: &[u8]| Material { name: name(s), texture_name: None, palette_name: None, params: TextureParams(0) };
    let mats = vec![mat(b"a"), mat(b"b"), mat(b"b")];
    assert_eq!(material_index_by_name(&mats, &name(b"b")), Some(1));
    assert_eq!(material_index_by_name(&mats, &name(b"c")), None);
    assert_eq!(
        texture_offset_target(2),
        "/materials/2/pbrMetallicRoughness/baseColorTexture/extensions/KHR_texture_transform/offset"
    );
}

#[test]
fn skin_weights_are_tabled_once() {
    let influences = vec![vec![(0, 4096), (1, 0)], vec![(1, 2048), (2, 2048)], vec![]];
    let (lut, counts, entries) = skin_weights(&influences);
    assert_eq!(lut, vec![4096, 0, 2048]);
    assert_eq!(counts, vec![2, 2, 0]);
    assert_eq!(entries, vec![(0, 0), (1, 1), (1, 2), (2, 2)]);

    let mut xml = Xml::with_capacity(0);
    vertex_weights(&mut xml, &counts, &entries);
    let expected = [
        "<vertex_weights count=\"3\">",
        "  <input semantic=\"JOINT\" source=\"#controller-joints\" offset=\"0\"/>",
        "  <input semantic=\"WEIGHT\" source=\"#controller-weights\" offset=\"1\"/>",
        "  <vcount>2 2 0 </vcount>",
        "  <v>0 0 1 1 1 2 2 2 </v>",
        "</vertex_weights>",
    ];
    assert_eq!(xml.string(), expected.join("\n") + "\n");

    let mut xml = Xml::with_capacity(0);
    joint_names(&mut xml, 3);
    assert_eq!(xml.string(), "<Name_array id=\"controller-joints-array\" count=\"3\">joint0 joint1 joint2 </Name_array>\n");
}

#[test]
fn mesh_index_and_influence_bytes() {
    assert_eq!(index_bytes(&vec![1, 0x0203, 0xffff]), vec![1, 0, 3, 2, 0xff, 0xff]);
    let call = DrawCall { vertex_range: 0..3, index_range: 6..15, mat_id: 0, mesh_id: 0 };
    assert_eq!(call_index_accessor(&call), (12, 9));
    assert_eq!(num_influence_sets(0), 0);
    assert_eq!(num_influence_sets(4), 1);
    assert_eq!(num_influence_sets(5), 2);
    let packed = pack_influence_sets(&vec![vec![1, 2, 3, 4, 5], vec![7]], 2);
    assert_eq!(packed, vec![1, 2, 3, 4, 5, 0, 0, 0, 7, 0, 0, 0, 0, 0, 0, 0]);
}
