use apicula::convert::image_namer::check_keyframes;
use apicula::convert::collada::library_images;
use apicula::convert::collada::effects::{library_effects, EffectColors};
use apicula::convert::gltf::materials::{material_descriptors, wrap, AlphaMode, SamplerDescriptor, TextureDescriptor, WrapMode};
use apicula::convert::collada::xml::Xml;
use apicula::connection::{Connection, ConnectionOptions, MaterialConnection, Match};
use apicula::convert::image_namer::ImageNamer;
use apicula::db::Database;
use apicula::info::{cull_description, palette_note_text, texture_note_text};
use apicula::nds::TextureParams;
use apicula::nitro::{
    Animation, Container, Material, MaterialTrack, Model, Name, Object, Palette, Pattern, PatternKeyframe, Texture,
};

fn name(s: &[u8]) -> Name {
    let mut n = [0u8; 16];
    n[..s.len()].copy_from_slice(s);
    Name(n)
}

fn material(tex: Option<&[u8]>, pal: Option<&[u8]>) -> Material {
    Material { name: name(b"mat"), texture_name: tex.map(name), palette_name: pal.map(name), params: TextureParams(0) }
}

fn texture(n: &[u8], format: u32) -> Texture {
    Texture { name: name(n), params: TextureParams(format << 26), data1: vec![], data2: vec![] }
}

fn palette(n: &[u8]) -> Palette {
    Palette { name: name(n), off: 0, pal_block: vec![] }
}

fn database() -> Database {
    let cont = Container {
        stamp: *b"BMD0",
        file_size: 0,
        models: vec![Model {
            name: name(b"model"),
            materials: vec![
                material(Some(b"wood"), Some(b"wood_pl")),
                material(Some(b"grass"), None),
                material(Some(b"missing"), None),
                material(None, None),
                material(Some(b"grass"), Some(b"nope")),
            ],
            objects: vec![Object { name: name(b"root") }, Object { name: name(b"arm") }],
        }],
        textures: vec![texture(b"wood", 3), texture(b"grass", 7), texture(b"rock", 7), texture(b"leaf", 2)],
        palettes: vec![palette(b"wood_pl"), palette(b"leaf_pl")],
        animations: vec![
            Animation { name: name(b"walk"), num_frames: 10, num_objects_curves: 2 },
            Animation { name: name(b"fly"), num_frames: 5, num_objects_curves: 3 },
        ],
        patterns: vec![Pattern {
            name: name(b"blink"),
            num_frames: 4,
            texture_names: vec![name(b"wood"), name(b"gone")],
            palette_names: vec![name(b"leaf_pl")],
            material_tracks: vec![MaterialTrack {
                name: name(b"mat"),
                keyframes: vec![
                    PatternKeyframe { frame: 0, texture_idx: 0, palette_idx: 0 },
                    PatternKeyframe { frame: 2, texture_idx: 1, palette_idx: 0 },
                ],
            }],
        }],
    };
    let mut db = Database::new();
    db.file_paths.push("model.nsbmd".to_string());
    db.add_container(0, cont);
    db.build_by_name_maps();
    db
}

#[test]
fn materials_resolve_by_name() {
    let db = database();
    let conn = Connection::build(&db, ConnectionOptions { all_animations: false });
    let mats = &conn.models[0].materials;
    assert!(matches!(
        mats[0],
        MaterialConnection::TextureOkPaletteOk {
            texture: Match { id: 0, best: true },
            palette: Match { id: 0, best: true },
        }
    ));
    assert!(matches!(mats[1], MaterialConnection::TextureOkNoPalette { texture: Match { id: 1, best: true } }));
    assert!(matches!(mats[2], MaterialConnection::TextureMissing));
    assert!(matches!(mats[3], MaterialConnection::NoTexture));
    // A palette is named, but the texture "grass" does not use one.
    assert!(matches!(mats[4], MaterialConnection::TextureMissing));

    assert_eq!(mats[0].image_id().unwrap(), Some((0, Some(0))));
    assert_eq!(mats[1].image_id().unwrap(), Some((1, None)));
    assert_eq!(mats[2].image_id().unwrap_err().msg, "texture missing");
    assert_eq!(mats[3].image_id().unwrap(), None);
}

#[test]
fn animations_apply_by_object_count() {
    let db = database();
    let conn = Connection::build(&db, ConnectionOptions { all_animations: false });
    assert_eq!(conn.models[0].animations, vec![0]);
    let conn = Connection::build(&db, ConnectionOptions { all_animations: true });
    assert_eq!(conn.models[0].animations, vec![0, 1]);
}

#[test]
fn patterns_resolve_their_names() {
    let db = database();
    let conn = Connection::build(&db, ConnectionOptions { all_animations: false });
    let pats = &conn.models[0].patterns;
    assert_eq!(pats.len(), 1);
    assert_eq!(pats[0].pattern_id, 0);
    assert_eq!(pats[0].texture_ids, vec![Some(0), None]);
    assert_eq!(pats[0].palette_ids, vec![Some(1)]);
}

#[test]
fn image_namer_names_used_images() {
    let db = database();
    let conn = Connection::build(&db, ConnectionOptions { all_animations: false });
    let namer = ImageNamer::build(&db, &conn);
    let names: Vec<((usize, Option<usize>), String)> = namer.names.clone();
    assert_eq!(
        names,
        vec![((0, Some(0)), "wood".to_string()), ((1, None), "grass".to_string()), ((0, Some(1)), "wood1".to_string())]
    );
    assert_eq!(namer.used_texture_ids, vec![true, true, false, false]);
}

#[test]
fn image_namer_guesses_more_images() {
    let db = database();
    let conn = Connection::build(&db, ConnectionOptions { all_animations: false });
    let mut namer = ImageNamer::build(&db, &conn);
    namer.add_more_images(&db);
    let names: Vec<((usize, Option<usize>), String)> = namer.names.clone();
    assert_eq!(names[3], ((2, None), "rock".to_string()));
    // "leaf" needs a palette; "leaf_pl" is guessed.
    assert_eq!(names[4], ((3, Some(1)), "leaf".to_string()));
    assert_eq!(names.len(), 5);
    assert_eq!(namer.used_texture_ids, vec![true, true, true, true]);
}

#[test]
fn info_notes() {
    let db = database();
    let conn = Connection::build(&db, ConnectionOptions { all_animations: false });
    let mats = &conn.models[0].materials;
    assert_eq!(texture_note_text(&mats[0]), "(matched texture 0)");
    assert_eq!(palette_note_text(&mats[0]), "(matched palette 0)");
    assert_eq!(texture_note_text(&mats[2]), "(not found)");
    assert_eq!(palette_note_text(&mats[4]), "(skipped; texture missing)");
    let tentative = MaterialConnection::TextureOkPaletteOk {
        texture: Match { id: 12, best: false },
        palette: Match { id: 3, best: false },
    };
    assert_eq!(texture_note_text(&tentative), "(matched texture 12, but tentatively)");
    assert_eq!(palette_note_text(&tentative), "(matched palette 3, but tentatively)");
    assert_eq!(palette_note_text(&MaterialConnection::NoTexture), "(palette but no texture!?)");
    let missing_pal = MaterialConnection::TextureOkPaletteMissing { texture: Match { id: 0, best: true } };
    assert_eq!(palette_note_text(&missing_pal), "(not found)");
    assert_eq!(cull_description(true, false), "Backfacing");
    assert_eq!(cull_description(true, true), "All (y tho?)");
    assert_eq!(cull_description(false, false), "None");
}

#[test]
fn database_status_line() {
    let db = database();
    assert_eq!(db.status_line(), "Got 1 model, 4 textures, 2 palettes, 2 animations, 1 pattern animation.");
    assert_eq!(Database::new().status_line(), "Got 0 models, 0 textures, 0 palettes, 0 animations, 0 pattern animations.");
}

#[test]
fn collada_library_images() {
    let db = database();
    let conn = Connection::build(&db, ConnectionOptions { all_animations: false });
    let namer = ImageNamer::build(&db, &conn);
    let mut xml = Xml::with_capacity(0);
    library_images(&mut xml, &conn.models[0].materials, &namer);
    assert_eq!(
        xml.string(),
        "<library_images>\n  <image id=\"image-wood\">\n    <init_from>wood.png</init_from>\n  </image>\n  <image id=\"image-grass\">\n    <init_from>grass.png</init_from>\n  </image>\n</library_images>\n"
    );
}

#[test]
fn keyframe_checks() {
    let mut db = database();
    assert!(check_keyframes(&db));
    db.patterns[0].material_tracks[0].keyframes.push(PatternKeyframe { frame: 3, texture_idx: 2, palette_idx: 0 });
    assert!(!check_keyframes(&db));
}

#[test]
fn inserting_an_image_again_keeps_its_name() {
    let db = database();
    let conn = Connection::build(&db, ConnectionOptions { all_animations: false });
    let mut namer = ImageNamer::build(&db, &conn);
    let before = namer.names.clone();
    namer.insert_image_id(&db, (0, Some(0)));
    assert_eq!(namer.names, before);
    namer.insert_image_id(&db, (2, None));
    namer.insert_image_id(&db, (2, None));
    assert_eq!(namer.names.len(), before.len() + 1);
    assert_eq!(namer.names[3], ((2, None), "rock".to_string()));
    assert_eq!(namer.used_texture_ids, vec![true, true, true, false]);
}

#[test]
fn a_new_image_gets_a_name_no_other_image_has() {
    let db = database();
    let conn = Connection::build(&db, ConnectionOptions { all_animations: false });
    let mut namer = ImageNamer::build(&db, &conn);
    let before = namer.names.clone();
    // The texture "grass" with a palette is another image than "grass" alone.
    namer.insert_image_id(&db, (1, Some(0)));
    assert_eq!(namer.names.len(), before.len() + 1);
    let (id, name) = namer.names.last().unwrap().clone();
    assert_eq!(id, (1, Some(0)));
    assert_eq!(name, "grass1");
    assert!(before.iter().all(|(_, n)| *n != name));
}

fn colors(diffuse: &str, transparency: Option<&str>) -> EffectColors {
    EffectColors {
        emission: "0 0 0".to_string(),
        ambient: "0.5 0.5 0.5".to_string(),
        diffuse: diffuse.to_string(),
        specular: "0 0 0".to_string(),
        transparency: transparency.map(|s| s.to_string()),
    }
}

#[test]
fn collada_library_effects() {
    let db = database();
    let conn = Connection::build(&db, ConnectionOptions { all_animations: false });
    let namer = ImageNamer::build(&db, &conn);
    let mats = vec![material(Some(b"grass"), None), material(None, None)];
    let conns = vec![
        MaterialConnection::TextureOkNoPalette { texture: Match { id: 1, best: true } },
        MaterialConnection::NoTexture,
    ];
    let cols = vec![colors("1 1 1 1", None), colors("0.2 0.4 0.6 0.5", Some("0.5"))];
    let mut xml = Xml::with_capacity(0);
    library_effects(&mut xml, &mats, &cols, &conns, &db, &namer);
    let expected = [
        "<library_effects>",
        "  <effect id=\"effect0\" name=\"mat\">",
        "    <profile_COMMON>",
        "      <newparam sid=\"Image-surface\">",
        "        <surface type=\"2D\">",
        "          <init_from>image-grass</init_from>",
        "          <format>A8R8G8B8</format>",
        "        </surface>",
        "      </newparam>",
        "      <newparam sid=\"Image-sampler\">",
        "        <sampler2D>",
        "          <source>Image-surface</source>",
        "          <wrap_s>CLAMP</wrap_s>",
        "          <wrap_t>CLAMP</wrap_t>",
        "          <minfilter>NEAREST</minfilter>",
        "          <magfilter>NEAREST</magfilter>",
        "          <mipfilter>NEAREST</mipfilter>",
        "        </sampler2D>",
        "      </newparam>",
        "      <technique sid=\"common\">",
        "        <phong>",
        "          <emission>",
        "            <color>0 0 0 1</color>",
        "          </emission>",
        "          <ambient>",
        "            <color>0.5 0.5 0.5 1</color>",
        "          </ambient>",
        "          <diffuse>",
        "            <texture texture=\"Image-sampler\" texcoord=\"tc\"/>",
        "          </diffuse>",
        "          <specular>",
        "            <color>0 0 0 1</color>",
        "          </specular>",
        "          <transparent>",
        "            <texture texture=\"Image-sampler\" texcoord=\"tc\"/>",
        "          </transparent>",
        "        </phong>",
        "      </technique>",
        "    </profile_COMMON>",
        "  </effect>",
        "  <effect id=\"effect1\" name=\"mat\">",
        "    <profile_COMMON>",
        "      <technique sid=\"common\">",
        "        <phong>",
        "          <emission>",
        "            <color>0 0 0 1</color>",
        "          </emission>",
        "          <ambient>",
        "            <color>0.5 0.5 0.5 1</color>",
        "          </ambient>",
        "          <diffuse>",
        "            <color>0.2 0.4 0.6 0.5</color>",
        "          </diffuse>",
        "          <specular>",
        "            <color>0 0 0 1</color>",
        "          </specular>",
        "          <transparency>",
        "            <float>0.5</float>",
        "          </transparency>",
        "        </phong>",
        "      </technique>",
        "    </profile_COMMON>",
        "  </effect>",
        "</library_effects>",
    ];
    assert_eq!(xml.string(), expected.join("\n") + "\n");
}

#[test]
fn gltf_material_descriptors_share_samplers_images_and_textures() {
    let db = database();
    let conn = Connection::build(&db, ConnectionOptions { all_animations: false });
    let namer = ImageNamer::build(&db, &conn);
    let mut mirrored = material(Some(b"wood"), Some(b"wood_pl"));
    mirrored.params = TextureParams((1 << 16) | (1 << 18));
    let mats = vec![material(Some(b"wood"), Some(b"wood_pl")), material(Some(b"grass"), None), mirrored, material(None, None)];
    let wood = || MaterialConnection::TextureOkPaletteOk {
        texture: Match { id: 0, best: true },
        palette: Match { id: 0, best: true },
    };
    let conns = vec![
        wood(),
        MaterialConnection::TextureOkNoPalette { texture: Match { id: 1, best: true } },
        wood(),
        MaterialConnection::NoTexture,
    ];
    let d = material_descriptors(&mats, &conns, &db, &namer);
    let m: Vec<(Option<usize>, AlphaMode)> = d.materials.iter().map(|m| (m.texture, m.alpha_mode)).collect();
    assert_eq!(
        m,
        vec![(Some(0), AlphaMode::Opaque), (Some(1), AlphaMode::Mask), (Some(2), AlphaMode::Opaque), (None, AlphaMode::Opaque)]
    );
    assert_eq!(
        d.samplers,
        vec![
            SamplerDescriptor { wrap_s: WrapMode::Clamp, wrap_t: WrapMode::Clamp },
            SamplerDescriptor { wrap_s: WrapMode::MirroredRepeat, wrap_t: WrapMode::Clamp },
        ]
    );
    assert_eq!(d.images, vec!["wood".to_string(), "grass".to_string()]);
    assert_eq!(
        d.textures,
        vec![
            TextureDescriptor { sampler: 0, image: 0 },
            TextureDescriptor { sampler: 0, image: 1 },
            TextureDescriptor { sampler: 1, image: 0 },
        ]
    );
    assert_eq!(WrapMode::Clamp.gl_code(), 33071);
    assert_eq!(WrapMode::MirroredRepeat.gl_code(), 33648);
    assert_eq!(WrapMode::Repeat.gl_code(), 10497);
    assert_eq!(wrap(true, false), WrapMode::Repeat);
}
