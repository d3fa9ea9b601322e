use apicula::convert::collada::polylists::polylists;
use apicula::geometry::{DrawCall, PolyType, Primitives};
use apicula::convert::model_file_names;
use apicula::nitro::Model;
use apicula::convert::collada::library_materials;
use apicula::nds::TextureParams;
use apicula::nitro::{Material, Name};
use apicula::convert::collada::xml::Xml;
use apicula::convert::convert_report;
use apicula::convert::gltf::curve::CurveDomain;
use apicula::logger::{max_log_level, LogLevel};
use apicula::nitro::Curve;

#[test]
fn report_line() {
    assert_eq!(convert_report(1, "dae", 2), "Wrote 1 DAE, 2 PNGs.");
    assert_eq!(convert_report(0, "gltf", 1), "Wrote 0 glTFs, 1 PNG.");
    assert_eq!(convert_report(3, "glb", 0), "Wrote 3 GLBs, 0 PNGs.");
}

#[test]
fn log_levels() {
    assert_eq!(max_log_level(0), LogLevel::Info);
    assert_eq!(max_log_level(1), LogLevel::Debug);
    assert_eq!(max_log_level(2), LogLevel::Trace);
    assert_eq!(max_log_level(100), LogLevel::Trace);
}

fn sampled(d: CurveDomain) -> (u16, u16, u16) {
    match d {
        CurveDomain::Sampled { start_frame, end_frame, sampling_rate } => (start_frame, end_frame, sampling_rate),
        CurveDomain::Empty => panic!("expected a sampled domain"),
    }
}

#[test]
fn curve_domains() {
    let c: Curve<u32> = Curve::Samples { start_frame: 0, end_frame: 10, values: vec![0; 5] };
    assert_eq!(sampled(c.domain()), (0, 10, 2));
    let c: Curve<u32> = Curve::Constant(7);
    assert_eq!(sampled(c.domain()), (0, 1, 1));
    let c: Curve<u32> = Curve::Empty;
    assert!(matches!(c.domain(), CurveDomain::Empty));
}

#[test]
fn curve_domain_union() {
    let a = CurveDomain::Sampled { start_frame: 0, end_frame: 10, sampling_rate: 2 };
    let b = CurveDomain::Sampled { start_frame: 5, end_frame: 20, sampling_rate: 1 };
    assert_eq!(sampled(a.union(b)), (0, 20, 1));
    assert_eq!(sampled(b.union(a)), (0, 20, 1));
    assert_eq!(sampled(a.union(CurveDomain::Empty)), (0, 10, 2));
    assert_eq!(sampled(CurveDomain::Empty.union(b)), (5, 20, 1));
    assert!(matches!(CurveDomain::Empty.union(CurveDomain::Empty), CurveDomain::Empty));
}

#[test]
fn xml_nesting() {
    let mut x = Xml::with_capacity(16);
    x.start_open_tag();
    x.push_str("a");
    x.end_tag();
    x.nl();
    x.push_text(&5);
    x.nl();
    x.deindent_and_start_close_tag();
    x.push_str("a");
    x.end_tag();
    x.nl();
    x.start_open_tag();
    x.push_str("b");
    x.end_empty_tag();
    assert_eq!(x.string(), "<a>\n  5\n</a>\n<b/>");
}

#[test]
fn collada_library_materials() {
    let name = |s: &[u8]| {
        let mut n = [0u8; 16];
        n[..s.len()].copy_from_slice(s);
        Name(n)
    };
    let mats = vec![
        Material { name: name(b"wood"), texture_name: None, palette_name: None, params: TextureParams(0) },
        Material { name: name(b"a/b"), texture_name: None, palette_name: None, params: TextureParams(0) },
    ];
    let mut xml = Xml::with_capacity(0);
    library_materials(&mut xml, &mats);
    assert_eq!(
        xml.string(),
        "<library_materials>\n  <material id=\"material0\" name=\"wood\">\n    <instance_effect url=\"#effect0\"/>\n  </material>\n  <material id=\"material1\" name=\"a_b\">\n    <instance_effect url=\"#effect1\"/>\n  </material>\n</library_materials>\n"
    );
    let mut xml = Xml::with_capacity(0);
    library_materials(&mut xml, &vec![]);
    assert_eq!(xml.string(), "<library_materials>\n</library_materials>\n");
}

#[test]
fn curve_domain_union_is_associative() {
    let a = CurveDomain::Sampled { start_frame: 3, end_frame: 10, sampling_rate: 2 };
    let b = CurveDomain::Sampled { start_frame: 0, end_frame: 7, sampling_rate: 3 };
    let c = CurveDomain::Sampled { start_frame: 5, end_frame: 30, sampling_rate: 1 };
    assert_eq!(sampled(a.union(b).union(c)), sampled(a.union(b.union(c))));
    assert_eq!(sampled(a.union(b).union(c)), (0, 30, 1));
    assert_eq!(sampled(a.union(a)), (3, 10, 2));
}

#[test]
fn model_files_get_distinct_names() {
    let name = |s: &[u8]| {
        let mut n = [0u8; 16];
        n[..s.len()].copy_from_slice(s);
        Name(n)
    };
    let model = |s: &[u8]| Model { name: name(s), materials: vec![], objects: vec![] };
    let models = vec![model(b"body"), model(b"head"), model(b"body"), model(b"bo/dy")];
    assert_eq!(model_file_names(&models), vec!["body", "head", "body1", "bo_dy"]);
}

#[test]
fn collada_polylists() {
    let call = |r: std::ops::Range<usize>, mat_id: u8| DrawCall { vertex_range: 0..6, index_range: r, mat_id, mesh_id: 0 };
    let prims = Primitives {
        poly_type: PolyType::TrisAndQuads,
        indices: vec![0, 1, 2, 0xffff, 2, 3, 4, 5],
        draw_calls: vec![call(0..8, 1), call(8..8, 0)],
    };
    let mut xml = Xml::with_capacity(0);
    xml.nl();
    polylists(&mut xml, &prims);
    let expected = [
        "",
        "<polylist material=\"material1\" count=\"2\">",
        "  <input semantic=\"VERTEX\" source=\"#vertices\" offset=\"0\"/>",
        "  <vcount>3 4 </vcount>",
        "  <p>0 1 2 2 3 4 5 </p>",
        "</polylist>",
        "<polylist material=\"material0\" count=\"0\">",
        "  <input semantic=\"VERTEX\" source=\"#vertices\" offset=\"0\"/>",
        "  <vcount></vcount>",
        "  <p></p>",
        "</polylist>",
    ];
    assert_eq!(xml.string(), expected.join("\n") + "\n");
}
