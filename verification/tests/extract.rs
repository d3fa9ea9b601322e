use apicula::extract::{
    file_extension, find_next_compression_start_byte, find_next_stamp, guess_container_name, ExtractOutput,
};
use apicula::nds::TextureParams;
use apicula::nitro::{Container, Name, Texture};

fn name(s: &[u8]) -> Name {
    let mut n = [0u8; 16];
    n[..s.len()].copy_from_slice(s);
    Name(n)
}

fn container(stamp: &[u8; 4]) -> Container {
    Container {
        stamp: *stamp,
        file_size: 0,
        models: vec![],
        textures: vec![],
        palettes: vec![],
        animations: vec![],
        patterns: vec![],
    }
}

#[test]
fn finds_stamps() {
    assert_eq!(find_next_stamp(b"xxBTX0yyBMD0"), Some(2));
    assert_eq!(find_next_stamp(b"BXY0BCA0"), Some(4));
    assert_eq!(find_next_stamp(b"BTP0"), Some(0));
    assert_eq!(find_next_stamp(b"BMD"), None);
    assert_eq!(find_next_stamp(b"BMDx0"), None);
    assert_eq!(find_next_stamp(b""), None);
}

#[test]
fn finds_compression_start_bytes() {
    assert_eq!(find_next_compression_start_byte(&[1, 2, 0x11, 0x10]), Some(2));
    assert_eq!(find_next_compression_start_byte(&[0x10]), Some(0));
    assert_eq!(find_next_compression_start_byte(&[1, 2, 3]), None);
    assert_eq!(find_next_compression_start_byte(&[]), None);
}

#[test]
fn names_containers() {
    let mut c = container(b"BTX0");
    c.textures.push(Texture { name: name(b"stone"), params: TextureParams(0), data1: vec![], data2: vec![] });
    assert_eq!(guess_container_name(&c), "stone");
    assert_eq!(guess_container_name(&container(b"BMD0")), "empty_model_file");
    assert_eq!(guess_container_name(&container(b"BTP0")), "empty_pattern_file");
    assert_eq!(guess_container_name(&container(b"XXXX")), "empty_unknown_file");
}

#[test]
fn extensions() {
    assert_eq!(file_extension(b"BMD0"), "nsbmd");
    assert_eq!(file_extension(b"BTX0"), "nsbtx");
    assert_eq!(file_extension(b"BCA0"), "nsbca");
    assert_eq!(file_extension(b"BTP0"), "nsbtp");
    assert_eq!(file_extension(b"ABCD"), "nsbxx");
}

#[test]
fn picks_distinct_save_paths_and_reports() {
    let mut out = ExtractOutput::new();
    let stone = "stone".to_string();
    assert_eq!(out.pick_save_path(&stone, b"BTX0"), "stone.nsbtx");
    assert_eq!(out.pick_save_path(&stone, b"BTX0"), "stone.001.nsbtx");
    assert_eq!(out.pick_save_path(&stone, b"BTX0"), "stone.002.nsbtx");
    assert_eq!(out.pick_save_path(&stone, b"BMD0"), "stone.nsbmd");
    out.count_saved(b"BTX0");
    out.count_saved(b"BCA0");
    out.count_saved(b"BCA0");
    out.count_saved(b"ZZZZ");
    assert_eq!(out.report(), "Found 0 BMDs, 1 BTX, 2 BCAs, 0 BTPs.");
}
