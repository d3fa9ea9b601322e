use apicula::convert::gltf::primitive::encode_ngons;
use apicula::geometry::{DrawCall, PolyType, Primitives};

fn call(index_range: std::ops::Range<usize>) -> DrawCall {
    DrawCall { vertex_range: 0..8, index_range, mat_id: 1, mesh_id: 2 }
}

#[test]
fn quads_become_two_triangles_with_alternating_leads() {
    let prims = Primitives {
        poly_type: PolyType::TrisAndQuads,
        indices: vec![0, 1, 2, 3, 3, 4, 5, 0xffff, 3, 5, 6, 7],
        draw_calls: vec![call(0..12)],
    };
    let out = encode_ngons(prims);
    assert_eq!(out.poly_type, PolyType::Tris);
    assert_eq!(out.indices, vec![0, 1, 2, 0, 2, 3, 3, 4, 5, 6, 3, 5, 6, 7, 3]);
    assert_eq!(out.draw_calls.len(), 1);
    assert_eq!(out.draw_calls[0].index_range, 0..15);
    assert_eq!(out.draw_calls[0].vertex_range, 0..8);
    assert_eq!(out.draw_calls[0].mat_id, 1);
    assert_eq!(out.draw_calls[0].mesh_id, 2);
    assert_eq!(out.indices.len() % 3, 0);
}

#[test]
fn each_draw_call_starts_afresh() {
    let prims = Primitives {
        poly_type: PolyType::TrisAndQuads,
        indices: vec![0, 1, 2, 3, 3, 4, 5, 0xffff, 3, 5, 6, 7],
        draw_calls: vec![call(0..4), call(4..12)],
    };
    let out = encode_ngons(prims);
    assert_eq!(out.indices, vec![0, 1, 2, 0, 2, 3, 3, 4, 5, 6, 3, 5, 6, 7, 3]);
    assert_eq!(out.draw_calls[0].index_range, 0..6);
    assert_eq!(out.draw_calls[1].index_range, 6..15);
}

#[test]
fn incomplete_faces_are_ignored() {
    let prims = Primitives {
        poly_type: PolyType::TrisAndQuads,
        indices: vec![0, 1, 2, 0xffff, 4, 5],
        draw_calls: vec![call(0..6), call(6..6)],
    };
    let out = encode_ngons(prims);
    assert_eq!(out.indices, vec![0, 1, 2]);
    assert_eq!(out.draw_calls[0].index_range, 0..3);
    assert_eq!(out.draw_calls[1].index_range, 3..3);
}
