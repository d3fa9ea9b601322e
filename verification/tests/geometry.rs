use apicula::geometry::topology::TopologyBuilder;
use apicula::geometry::index_builder::IndexBuilder;

fn group(b: &mut IndexBuilder, ty: u32, n: usize) {
    b.begin(ty);
    for _ in 0..n {
        b.vertex();
    }
    b.end();
}

#[test]
fn separate_triangles_and_quads() {
    let mut b = IndexBuilder::new();
    group(&mut b, 0, 6);
    assert_eq!(b.indices, vec![0, 1, 2, 3, 4, 5]);
    group(&mut b, 1, 4);
    assert_eq!(&b.indices[6..], &[6, 7, 8, 8, 9, 6]);
}

#[test]
fn triangle_strip() {
    let mut b = IndexBuilder::new();
    group(&mut b, 2, 5);
    assert_eq!(b.indices, vec![0, 1, 2, 3, 2, 1, 4, 2, 3]);
}

#[test]
fn quad_strip() {
    let mut b = IndexBuilder::new();
    group(&mut b, 3, 6);
    assert_eq!(b.indices, vec![0, 1, 2, 2, 1, 3, 2, 3, 4, 4, 3, 5]);
}

#[test]
fn empty_groups_and_offsets() {
    let mut b = IndexBuilder::new();
    group(&mut b, 2, 0);
    group(&mut b, 3, 0);
    assert!(b.indices.is_empty());
    group(&mut b, 0, 3);
    group(&mut b, 2, 3);
    assert_eq!(b.indices, vec![0, 1, 2, 3, 4, 5]);
}

#[test]
fn begin_closes_an_open_group() {
    let mut b = IndexBuilder::new();
    b.begin(0);
    b.vertex();
    b.vertex();
    b.vertex();
    b.begin(0);
    b.vertex();
    b.vertex();
    b.vertex();
    b.end();
    assert_eq!(b.indices, vec![0, 1, 2, 3, 4, 5]);
}

#[test]
fn begin_after_end_flushes_nothing_twice() {
    let mut b = IndexBuilder::new();
    group(&mut b, 1, 4);
    b.begin(0);
    b.end();
    assert_eq!(b.indices, vec![0, 1, 2, 2, 3, 0]);
}

#[test]
fn draw_calls_record_their_vertices_and_indices() {
    let triangle = [
        0x40, 0x28, 0x28, 0x28, // BEGIN_VTXS, VTX_DIFF x3
        0, 0, 0, 0, // separate triangles
        0, 0, 0, 0,
        0, 0, 0, 0,
        0, 0, 0, 0,
        0x41, 0x00, 0x00, 0x00, // END_VTXS, NOP x3
    ];
    let mut b = TopologyBuilder::new();
    b.draw(0, 2, &triangle).unwrap();
    b.draw(1, 3, &triangle).unwrap();
    assert_eq!(b.ind_builder.indices, vec![0, 1, 2, 3, 4, 5]);
    assert_eq!(b.draw_calls.len(), 2);
    assert_eq!(b.draw_calls[0].vertex_range, 0..3);
    assert_eq!(b.draw_calls[0].index_range, 0..3);
    assert_eq!((b.draw_calls[0].mesh_id, b.draw_calls[0].mat_id), (0, 2));
    assert_eq!(b.draw_calls[1].vertex_range, 3..6);
    assert_eq!(b.draw_calls[1].index_range, 3..6);
    assert_eq!((b.draw_calls[1].mesh_id, b.draw_calls[1].mat_id), (1, 3));

    // A parse error stops the draw call before it is recorded.
    let e = b.draw(2, 0, &[0x40, 0x00, 0x00, 0x00]).err().unwrap();
    assert_eq!(e.msg, "buffer too short for GPU opcode parameters");
    assert_eq!(b.draw_calls.len(), 2);
}

#[test]
fn commands_are_checked_before_drawing() {
    let b = TopologyBuilder::new();
    let triangle = [
        0x40, 0x28, 0x28, 0x28, // BEGIN_VTXS, VTX_DIFF x3
        0, 0, 0, 0,
        0, 0, 0, 0,
        0, 0, 0, 0,
        0, 0, 0, 0,
        0x41, 0x00, 0x00, 0x00, // END_VTXS, NOP x3
    ];
    assert!(b.cmds_checked(&triangle));
    let two_vertices = [
        0x40, 0x28, 0x28, 0x41, // BEGIN_VTXS, VTX_DIFF x2, END_VTXS
        0, 0, 0, 0, // separate triangles
        0, 0, 0, 0,
        0, 0, 0, 0,
    ];
    assert!(!b.cmds_checked(&two_vertices));
    // A parse error is not a topology problem: it is reported by the run.
    assert!(b.cmds_checked(&[0x40, 0x00, 0x00, 0x00]));
}
