use apicula::nds::gpu_cmds::{CmdParser, GpuCmd};

fn all_commands(bytes: &[u8]) -> Vec<Result<GpuCmd, String>> {
    let mut p = CmdParser::new(bytes);
    let mut out = vec![];
    while let Some(r) = p.next() {
        out.push(r.map_err(|e| e.msg));
        assert!(out.len() < 100);
    }
    // Once finished, the parser stays finished.
    assert!(p.next().is_none());
    out
}

#[test]
fn parses_a_vertex_list() {
    let bytes = [
        0x40, 0x23, 0x28, 0x41, // BEGIN_VTXS, VTX_16, VTX_DIFF, END_VTXS
        1, 0, 0, 0, // quads
        0x00, 0x10, 0x00, 0xf0, // x = 1.0, y = -1.0
        0x00, 0x08, 0, 0, // z = 0.5
        0x01, 0xfc, 0x0f, 0x00, // dx = +1, dy = -1, dz = 0 (units of 2^-12)
    ];
    let cmds = all_commands(&bytes);
    assert_eq!(
        cmds,
        vec![
            Ok(GpuCmd::Begin { prim_type: 1 }),
            Ok(GpuCmd::Vertex { position: (4096, -4096, 2048) }),
            Ok(GpuCmd::Vertex { position: (4097, -4097, 2048) }),
            Ok(GpuCmd::End),
        ]
    );
}

#[test]
fn parses_attribute_commands() {
    let bytes = [
        0x20, 0x21, 0x22, 0x14, // COLOR, NORMAL, TEXCOORD, MTX_RESTORE
        0x1f, 0x40, 0, 0, // r = 31, b = 16
        0x00, 0x06, 0xf0, 0x1f, // normal (-512, 1, 511)
        0x10, 0x00, 0xf0, 0xff, // texcoord (16, -16)
        37, 0, 0, 0, // slot 37 & 31 = 5
        0x1b, 0x24, 0x25, 0x00, // MTX_SCALE, VTX_10, VTX_XY, NOP
        0x00, 0x10, 0, 0, // sx = 1.0
        0x00, 0xf0, 0xff, 0xff, // sy = -1.0
        0, 0, 0, 0, // sz = 0
        0x01, 0xfc, 0x0f, 0x00, // VTX_10: x = +1, y = -1 (1.3.6)
        0x00, 0x20, 0x00, 0x30, // VTX_XY: x = 2.0, y = 3.0, z kept
    ];
    let cmds = all_commands(&bytes);
    assert_eq!(
        cmds,
        vec![
            Ok(GpuCmd::Color { color: (31, 0, 16) }),
            Ok(GpuCmd::Normal { normal: (-512, 1, 511) }),
            Ok(GpuCmd::TexCoord { texcoord: (16, -16) }),
            Ok(GpuCmd::Restore { idx: 5 }),
            Ok(GpuCmd::Scale { scale: (4096, -4096, 0) }),
            Ok(GpuCmd::Vertex { position: (64, -64, 0) }),
            Ok(GpuCmd::Vertex { position: (0x2000, 0x3000, 0) }),
            Ok(GpuCmd::Nop),
        ]
    );
}

#[test]
fn relative_vertex_commands_keep_other_coordinates() {
    let bytes = [
        0x23, 0x26, 0x27, 0x00, // VTX_16, VTX_XZ, VTX_YZ, NOP
        0x01, 0x00, 0x02, 0x00, 0x03, 0x00, 0x00, 0x00, // (1, 2, 3)
        0x05, 0x00, 0x06, 0x00, // x = 5, z = 6
        0x07, 0x00, 0x08, 0x00, // y = 7, z = 8
    ];
    let cmds = all_commands(&bytes);
    assert_eq!(
        cmds,
        vec![
            Ok(GpuCmd::Vertex { position: (1, 2, 3) }),
            Ok(GpuCmd::Vertex { position: (5, 2, 6) }),
            Ok(GpuCmd::Vertex { position: (5, 7, 8) }),
            Ok(GpuCmd::Nop),
        ]
    );
}

#[test]
fn empty_buffer_has_no_commands() {
    assert!(all_commands(&[]).is_empty());
}

#[test]
fn too_few_opcodes() {
    assert_eq!(all_commands(&[0, 0]), vec![Err("GPU has too few opcodes".to_string())]);
}

#[test]
fn unknown_opcode() {
    assert_eq!(all_commands(&[0x01, 0, 0, 0]), vec![Err("unknown GPU opcode: 0x1".to_string())]);
    assert_eq!(all_commands(&[0x50, 0, 0, 0]), vec![Err("unknown GPU opcode: 0x50".to_string())]);
}

#[test]
fn missing_parameters() {
    assert_eq!(
        all_commands(&[0x23, 0, 0, 0, 1, 2, 3, 4]),
        vec![Err("buffer too short for GPU opcode parameters".to_string())]
    );
}

#[test]
fn opcode_without_meaning_stops_parsing() {
    // MTX_MODE has a parameter but no meaning here; nothing after it is read.
    assert_eq!(
        all_commands(&[0x10, 0x41, 0, 0, 0, 0, 0, 0]),
        vec![Err("unimplented GPU ocpode: 0x10".to_string())]
    );
}
