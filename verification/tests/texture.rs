use apicula::convert::images::rgba_png;
use apicula::nds::decode_texture::RGBABuf;
use apicula::nds::texture_formats::{Alpha, AlphaDesc};
use apicula::nds::{decode_texture, TextureFormat, TextureParams};
use apicula::nitro::{Name, Palette, Texture};

fn name(s: &str) -> Name {
    let mut n = [0u8; 16];
    n[..s.len()].copy_from_slice(s.as_bytes());
    Name(n)
}

#[test]
fn texture_params_fields() {
    // offset 0x1234, repeat s, mirror t, 32x16, format 3, color0 transparent, mode 2
    let p = TextureParams(0x1234 | (1 << 16) | (1 << 19) | (2 << 20) | (1 << 23) | (3 << 26) | (1 << 29) | (2 << 30));
    assert_eq!(p.offset(), 0x1234 * 8);
    assert!(p.repeat_s());
    assert!(!p.repeat_t());
    assert!(!p.mirror_s());
    assert!(p.mirror_t());
    assert_eq!(p.width(), 32);
    assert_eq!(p.height(), 16);
    assert_eq!(p.dim(), (32, 16));
    assert_eq!(p.format().0, 3);
    assert!(p.is_color0_transparent());
    assert_eq!(p.texcoord_transform_mode(), 2);
}

#[test]
fn texture_params_largest_dims() {
    let p = TextureParams((7 << 20) | (7 << 23));
    assert_eq!(p.dim(), (1024, 1024));
    assert_eq!(p.offset(), 0);
    assert_eq!(p.format().0, 0);
}

#[test]
fn texture_format_descs() {
    let names = [
        "None",
        "A3I5 Translucent Texture",
        "4-Color Palette Texture",
        "16-Color Palette Texture",
        "256-Color Palette Texture",
        "Block-Compressed Texture",
        "A5I3 Translucent Texture",
        "Direct RGBA Texture",
    ];
    let bpps = [0, 8, 2, 4, 8, 2, 8, 16];
    for f in 0..8u8 {
        let d = TextureFormat(f).desc();
        assert_eq!(d.name, names[f as usize]);
        assert_eq!(d.bpp, bpps[f as usize]);
        assert_eq!(d.requires_palette, f != 0 && f != 7);
    }
    assert!(matches!(TextureFormat(5).desc().alpha_desc, AlphaDesc::Transparent));
    assert!(matches!(TextureFormat(2).desc().alpha_desc, AlphaDesc::TransparentDependingOnParams));
}

#[test]
fn texture_format_byte_len() {
    assert_eq!(TextureFormat(2).byte_len((8, 8)), 16);
    assert_eq!(TextureFormat(3).byte_len((16, 8)), 64);
    assert_eq!(TextureFormat(7).byte_len((8, 8)), 128);
    assert_eq!(TextureFormat(0).byte_len((8, 8)), 0);
}

#[test]
fn texture_format_alpha_type() {
    let c0 = TextureParams(1 << 29);
    let no_c0 = TextureParams(0);
    assert!(matches!(TextureFormat(4).alpha_type(c0), Alpha::Transparent));
    assert!(matches!(TextureFormat(4).alpha_type(no_c0), Alpha::Opaque));
    assert!(matches!(TextureFormat(1).alpha_type(no_c0), Alpha::Translucent));
    assert!(matches!(TextureFormat(7).alpha_type(no_c0), Alpha::Transparent));
    assert!(matches!(TextureFormat(0).alpha_type(c0), Alpha::Opaque));
}

fn texture(params: u32, data1: Vec<u8>, data2: Vec<u8>) -> Texture {
    Texture { name: name("tex"), params: TextureParams(params), data1, data2 }
}

fn palette(colors: &[u16], off: u32) -> Palette {
    let mut pal_block = vec![0u8; off as usize];
    for c in colors {
        pal_block.extend_from_slice(&c.to_le_bytes());
    }
    Palette { name: name("pal"), off, pal_block }
}

#[test]
fn decode_direct_color() {
    // 8x8 format 7: first texel pure red opaque, second pure blue transparent
    let mut data = vec![0u8; 128];
    data[0..2].copy_from_slice(&(0x801fu16).to_le_bytes());
    data[2..4].copy_from_slice(&(0x7c00u16).to_le_bytes());
    let tex = texture(7 << 26, data, vec![]);
    let buf = decode_texture(&tex, None).unwrap();
    assert_eq!(buf.0.len(), 4 * 64);
    assert_eq!(&buf.0[0..4], &[255, 0, 0, 255]);
    assert_eq!(&buf.0[4..8], &[0, 0, 255, 0]);
    assert_eq!(&buf.0[8..12], &[0, 0, 0, 0]);
}

#[test]
fn decode_four_color_palette() {
    // 8x8 format 2 with color 0 transparent; byte 0b11_10_01_00 gives indices 0,1,2,3
    let mut data = vec![0u8; 16];
    data[0] = 0b11_10_01_00;
    let tex = texture((2 << 26) | (1 << 29), data, vec![]);
    let pal = palette(&[0x7fff, 0x001f, 0x03e0, 0x7c00], 2);
    let buf = decode_texture(&tex, Some(&pal)).unwrap();
    assert_eq!(buf.0.len(), 256);
    assert_eq!(&buf.0[0..4], &[255, 255, 255, 0]);
    assert_eq!(&buf.0[4..8], &[255, 0, 0, 255]);
    assert_eq!(&buf.0[8..12], &[0, 255, 0, 255]);
    assert_eq!(&buf.0[12..16], &[0, 0, 255, 255]);
    // the rest are index 0 again
    assert_eq!(&buf.0[16..20], &[255, 255, 255, 0]);
}

#[test]
fn decode_a3i5_and_missing_colors() {
    // index 1 with alpha 7 (opaque), index 31 (past the palette, black) with alpha 0
    let mut data = vec![0u8; 64];
    data[0] = (7 << 5) | 1;
    data[1] = 31;
    let tex = texture(1 << 26, data, vec![]);
    let pal = palette(&[0, 0x03e0], 0);
    let buf = decode_texture(&tex, Some(&pal)).unwrap();
    assert_eq!(&buf.0[0..4], &[0, 255, 0, 255]);
    assert_eq!(&buf.0[4..8], &[0, 0, 0, 0]);
}

#[test]
fn decode_sixteen_and_256_color() {
    let mut data3 = vec![0u8; 32];
    data3[0] = 0x21; // indices 1 then 2
    let pal = palette(&[0, 0x001f, 0x03e0], 0);
    let buf = decode_texture(&texture(3 << 26, data3, vec![]), Some(&pal)).unwrap();
    assert_eq!(&buf.0[0..8], &[255, 0, 0, 255, 0, 255, 0, 255]);
    // color 0 opaque when not marked transparent
    assert_eq!(&buf.0[8..12], &[0, 0, 0, 255]);

    let mut data4 = vec![0u8; 64];
    data4[0] = 2;
    let buf = decode_texture(&texture(4 << 26, data4, vec![]), Some(&pal)).unwrap();
    assert_eq!(&buf.0[0..4], &[0, 255, 0, 255]);
}

#[test]
fn decode_block_compressed() {
    // 8x8: 4 blocks. Block 0 texels 0,1,2,3 on its first row, mode 1 at palette address 0.
    let mut data1 = vec![0u8; 16];
    data1[0] = 0b11_10_01_00;
    let mut data2 = vec![0u8; 8];
    data2[0..2].copy_from_slice(&(1u16 << 14).to_le_bytes());
    let tex = texture(5 << 26, data1, data2);
    let pal = palette(&[0x001f, 0x7c00], 0);
    let buf = decode_texture(&tex, Some(&pal)).unwrap();
    assert_eq!(buf.0.len(), 256);
    assert_eq!(&buf.0[0..4], &[255, 0, 0, 255]);
    assert_eq!(&buf.0[4..8], &[0, 0, 255, 255]);
    assert_eq!(&buf.0[8..12], &[127, 0, 127, 255]);
    assert_eq!(&buf.0[12..16], &[0, 0, 0, 0]);
    // (4, 0) lies in block 1: mode 0, texel 0, palette address 0
    assert_eq!(&buf.0[16..20], &[255, 0, 0, 255]);
}

#[test]
fn decode_errors() {
    let tex = texture(2 << 26, vec![0; 16], vec![]);
    let e = decode_texture(&tex, None).err().unwrap();
    assert_eq!(e.msg, "texture required a palette");
    let tex0 = texture(0, vec![], vec![]);
    let e = decode_texture(&tex0, None).err().unwrap();
    assert_eq!(e.msg, "texture had format 0");
}

#[test]
fn texture_data_length_checks() {
    // 8x8 direct color needs 128 bytes.
    assert!(apicula::nds::decode_texture::has_enough_data(&texture(7 << 26, vec![0; 128], vec![])));
    assert!(!apicula::nds::decode_texture::has_enough_data(&texture(7 << 26, vec![0; 127], vec![])));
    // 8x8 block compressed needs 16 bytes of blocks and 8 of palette info.
    assert!(apicula::nds::decode_texture::has_enough_data(&texture(5 << 26, vec![0; 16], vec![0; 8])));
    assert!(!apicula::nds::decode_texture::has_enough_data(&texture(5 << 26, vec![0; 16], vec![0; 7])));
    // Format 0 has no texels.
    assert!(apicula::nds::decode_texture::has_enough_data(&texture(0, vec![], vec![])));
}

#[test]
fn decode_a5i3_reads_a_five_bit_alpha() {
    // index 1 with alpha 31, index 2 with alpha 16, index 0 with alpha 1
    let mut data = vec![0u8; 64];
    data[0] = (31 << 3) | 1;
    data[1] = (16 << 3) | 2;
    data[2] = 1 << 3;
    let tex = texture(6 << 26, data, vec![]);
    let pal = palette(&[0x7c00, 0x001f, 0x03e0], 0);
    let buf = decode_texture(&tex, Some(&pal)).unwrap();
    assert_eq!(&buf.0[0..4], &[255, 0, 0, 255]);
    assert_eq!(&buf.0[4..8], &[0, 255, 0, 132]);
    assert_eq!(&buf.0[8..12], &[0, 0, 255, 8]);
}

#[test]
fn decode_errors_come_before_reading_texels() {
    // No texel data at all: the missing palette and format 0 are still reported.
    let tex = texture(3 << 26, vec![], vec![]);
    let e = decode_texture(&tex, None).err().unwrap();
    assert_eq!(e.msg, "texture required a palette");
    let tex0 = texture(0, vec![], vec![]);
    let e = decode_texture(&tex0, Some(&palette(&[0], 0))).err().unwrap();
    assert_eq!(e.msg, "texture had format 0");
}

#[test]
fn opaque_textures_decode_with_full_alpha() {
    // 8x8 256-color texture without a transparent color 0, index 0 everywhere but one texel
    let mut data = vec![0u8; 64];
    data[5] = 1;
    let tex = texture(4 << 26, data, vec![]);
    assert!(matches!(TextureFormat(4).alpha_type(tex.params), Alpha::Opaque));
    let pal = palette(&[0x1234, 0x7fff], 0);
    let buf = decode_texture(&tex, Some(&pal)).unwrap();
    for k in 0..64 {
        assert_eq!(buf.0[4 * k + 3], 255);
    }
}

#[test]
fn decoded_images_become_png_files() {
    let px = RGBABuf(vec![255, 0, 0, 255, 0, 255, 0, 128]);
    let png = rgba_png(&px, (2, 1)).ok().unwrap();
    assert_eq!(&png[..8], &[137, 80, 78, 71, 13, 10, 26, 10]);
    assert!(png.len() > 8 + px.0.len());
    assert!(rgba_png(&px, (1, 1)).is_err());
    assert!(rgba_png(&RGBABuf(vec![]), (0, 1)).is_err());
}
