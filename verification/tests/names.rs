use apicula::convert::image_names::build_image_names;
use apicula::nds::TextureParams;
use apicula::nitro::{append_pl, Material, Model, Name};
use apicula::util::namers::{find_free_name, UniqueNamer};

fn name(s: &[u8]) -> Name {
    let mut n = [0u8; 16];
    n[..s.len()].copy_from_slice(s);
    Name(n)
}

#[test]
fn print_safe_replaces_unsafe_bytes_and_drops_trailing_nuls() {
    assert_eq!(name(b"wood_01").print_safe(), "wood_01");
    assert_eq!(name(b"ab c/d\x01").print_safe(), "ab_c_d_");
    assert_eq!(name(b"a\0b").print_safe(), "a_b");
    assert_eq!(name(b"").print_safe(), "");
    assert_eq!(name(b"x-y.z").print_safe(), "x-y.z");
}

#[test]
fn append_pl_fills_in_after_the_name() {
    assert_eq!(append_pl(&name(b"tex")).0, name(b"tex_pl").0);
    assert_eq!(append_pl(&name(b"abcdefghijklmn")).0, *b"abcdefghijklmn_p");
    assert_eq!(append_pl(&name(b"abcdefghijklmnop")).0, *b"abcdefghijklmnop");
    assert_eq!(append_pl(&name(b"")).0, name(b"_pl").0);
    assert_eq!(append_pl(&name(b"tex")).print_safe(), "tex_pl");
}

#[test]
fn find_free_name_appends_numbers() {
    let mut taken = vec![];
    assert_eq!(find_free_name(&mut taken, "a".to_string()), "a");
    assert_eq!(find_free_name(&mut taken, "a".to_string()), "a1");
    assert_eq!(find_free_name(&mut taken, "a".to_string()), "a2");
    assert_eq!(find_free_name(&mut taken, "a1".to_string()), "a11");
    assert_eq!(taken, vec!["a", "a1", "a2", "a11"]);
}

#[test]
fn find_free_name_skips_taken_numbers() {
    let mut taken: Vec<String> = ["b", "b1", "b2", "b3", "b4", "b5", "b6", "b7", "b8", "b9"]
        .iter().map(|s| s.to_string()).collect();
    assert_eq!(find_free_name(&mut taken, "b".to_string()), "b10");
}

#[test]
fn unique_namer_never_repeats() {
    let mut namer = UniqueNamer::new();
    let names: Vec<String> = (0..12).map(|_| namer.get_fresh_name("m".to_string())).collect();
    assert_eq!(names[0], "m");
    assert_eq!(names[1], "m1");
    assert_eq!(names[11], "m11");
    for i in 0..names.len() {
        for j in 0..i {
            assert_ne!(names[i], names[j]);
        }
    }
}

fn material(tex: Option<&[u8]>, pal: Option<&[u8]>) -> Material {
    Material {
        name: name(b"mat"),
        texture_name: tex.map(name),
        palette_name: pal.map(name),
        params: TextureParams(0),
    }
}

#[test]
fn image_names_for_a_model() {
    let model = Model {
        name: name(b"model"),
        materials: vec![
            material(Some(b"wood"), Some(b"wood_pl")),
            material(Some(b"wood"), None),
            material(None, None),
            material(Some(b"wood"), Some(b"wood_pl")),
        ],
        objects: vec![],
    };
    let names = build_image_names(&model);
    assert_eq!(names.len(), 2);
    assert_eq!(names[0].0.texture_name.0, name(b"wood").0);
    assert_eq!(names[0].0.palette_name.map(|n| n.0), Some(name(b"wood_pl").0));
    // A texture/palette pair used again keeps the name it got first.
    assert_eq!(names[0].1, "wood");
    assert!(names[1].0.palette_name.is_none());
    assert_eq!(names[1].1, "wood1");
}
