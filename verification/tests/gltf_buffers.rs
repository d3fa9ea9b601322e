use apicula::convert::gltf::gltf::{buffer_layout, glb_bytes, joined_buffer, Buffer, BufferEntry, BufferView, GlTF, ByteVec, VecExt};

fn buffers() -> Vec<Buffer> {
    vec![
        Buffer { bytes: vec![1, 2, 3], alignment: 1 },
        Buffer { bytes: vec![4, 5, 6, 7], alignment: 4 },
        Buffer { bytes: vec![8, 9], alignment: 2 },
    ]
}

#[test]
fn buffers_are_laid_out_at_their_alignment() {
    let (offsets, len) = buffer_layout(&buffers());
    assert_eq!(offsets, vec![0, 4, 8]);
    assert_eq!(len, 12);
    assert_eq!(joined_buffer(&buffers()), vec![1, 2, 3, 0, 4, 5, 6, 7, 8, 9, 0, 0]);
}

#[test]
fn no_buffers() {
    let (offsets, len) = buffer_layout(&vec![]);
    assert!(offsets.is_empty());
    assert_eq!(len, 0);
    assert!(joined_buffer(&vec![]).is_empty());
}

#[test]
fn glb_file_layout() {
    let glb = glb_bytes(b"{}", &buffers());
    let mut expected = vec![];
    expected.extend_from_slice(b"glTF");
    expected.extend_from_slice(&2u32.to_le_bytes());
    expected.extend_from_slice(&44u32.to_le_bytes());
    expected.extend_from_slice(&4u32.to_le_bytes());
    expected.extend_from_slice(b"JSON");
    expected.extend_from_slice(b"{}  ");
    expected.extend_from_slice(&12u32.to_le_bytes());
    expected.extend_from_slice(b"BIN\0");
    expected.extend_from_slice(&[1, 2, 3, 0, 4, 5, 6, 7, 8, 9, 0, 0]);
    assert_eq!(glb, expected);
    assert_eq!(glb.len(), 44);
}

#[test]
fn little_endian_pushes() {
    let mut v: Vec<u8> = vec![];
    v.push_u16(0x1234);
    v.push_u32(0xdeadbeef);
    assert_eq!(v, vec![0x34, 0x12, 0xef, 0xbe, 0xad, 0xde]);
}

#[test]
fn add_returns_the_index() {
    let mut v: Vec<&str> = vec!["a"];
    assert_eq!(v.add("b"), 1);
    assert_eq!(v.add("c"), 2);
    assert_eq!(v, vec!["a", "b", "c"]);
}

#[test]
fn buffer_views_point_into_the_joined_buffer() {
    let mut gltf = GlTF::new();
    gltf.buffers = buffers();
    gltf.buffer_views = vec![
        BufferView { buffer: 1, byte_offset: None },
        BufferView { buffer: 2, byte_offset: Some(1) },
        BufferView { buffer: 0, byte_offset: Some(2) },
    ];
    gltf.buffer_entries = vec![BufferEntry { byte_length: 3 }, BufferEntry { byte_length: 4 }];
    let len = gltf.update_buffer_views();
    assert_eq!(len, 12);
    let got: Vec<(usize, Option<usize>)> = gltf.buffer_views.iter().map(|v| (v.buffer, v.byte_offset)).collect();
    assert_eq!(got, vec![(0, Some(4)), (0, Some(9)), (0, Some(2))]);
    assert_eq!(gltf.buffer_entries, vec![BufferEntry { byte_length: 12 }]);
    assert_eq!(gltf.write_buffer().len(), 12);
}
