//! The `<library_effects>` element of a COLLADA document: how each material
//! is shaded, with its texture's sampler and whether it blends.
//!
//! Material colours are floating point values; the caller hands them over
//! already written out as text.

use vstd::prelude::*;
use crate::db::Database;
use crate::nitro::{Material, print_safe_text};
use crate::connection::MaterialConnection;
use crate::convert::image_namer::{ImageId, ImageNamer, names_view};
use crate::nds::texture_formats::spec_alpha_type;
use crate::nds::{Alpha, TextureParams};
use crate::util::bits::bit_field;
use crate::util::fmt::dec_str;
use super::xml::Xml;
use super::{nl_after, image_name_of, find_image_name};

verus! {

/// The colours of a material's effect, written out: emission, ambient and
/// specular as `"r g b"`, diffuse as `"r g b a"`, and the material's alpha
/// when it is not 1.
pub struct EffectColors {
    pub emission: String,
    pub ambient: String,
    pub diffuse: String,
    pub specular: String,
    pub transparency: Option<String>,
}

/// `b` followed by a line break at depth `k` and `piece`.
pub open spec fn line(b: Seq<char>, k: nat, piece: Seq<char>) -> Seq<char> {
    nl_after(b, k) + piece
}

/// An opening tag with the tag name and attributes `head`.
pub open spec fn open_tag(head: Seq<char>) -> Seq<char> {
    "<"@ + head + ">"@
}

/// A closing tag.
pub open spec fn close_tag(tag: Seq<char>) -> Seq<char> {
    "</"@ + tag + ">"@
}

/// An element holding the text `body`.
pub open spec fn text_elem(tag: Seq<char>, body: Seq<char>) -> Seq<char> {
    open_tag(tag) + body + close_tag(tag)
}

/// The empty element that points at the effect's texture sampler.
pub open spec fn sampler_texture() -> Seq<char> {
    "<"@ + "texture texture=\"Image-sampler\" texcoord=\"tc\""@ + "/>"@
}

/// The COLLADA name of the wrapping of a texture that repeats (or not),
/// mirrored (or not).
pub open spec fn spec_wrap_name(repeat: bool, mirror: bool) -> Seq<char> {
    if !repeat {
        "CLAMP"@
    } else if !mirror {
        "WRAP"@
    } else {
        "MIRROR"@
    }
}

/// `b` followed by the surface and sampler parameters for image `name`,
/// drawn with the wrapping of `params`, at depth `k`.
#[verifier::opaque]
pub open spec fn with_image_params(b: Seq<char>, name: Seq<char>, params: TextureParams, k: nat) -> Seq<char> {
    let b1 = line(b, k, open_tag("newparam sid=\"Image-surface\""@));
    let b2 = line(b1, k + 1, open_tag("surface type=\"2D\""@));
    let b3 = line(b2, k + 2, text_elem("init_from"@, "image-"@ + name));
    let b4 = line(b3, k + 2, text_elem("format"@, "A8R8G8B8"@));
    let b5 = line(b4, k + 1, close_tag("surface"@));
    let b6 = line(b5, k, close_tag("newparam"@));
    let b7 = line(b6, k, open_tag("newparam sid=\"Image-sampler\""@));
    let b8 = line(b7, k + 1, open_tag("sampler2D"@));
    let b9 = line(b8, k + 2, text_elem("source"@, "Image-surface"@));
    let b10 = line(b9, k + 2, text_elem("wrap_s"@, spec_wrap_name(bit_field(params.0 as nat, 16, 17) != 0,
        bit_field(params.0 as nat, 18, 19) != 0)));
    let b11 = line(b10, k + 2, text_elem("wrap_t"@, spec_wrap_name(bit_field(params.0 as nat, 17, 18) != 0,
        bit_field(params.0 as nat, 19, 20) != 0)));
    let b12 = line(b11, k + 2, text_elem("minfilter"@, "NEAREST"@));
    let b13 = line(b12, k + 2, text_elem("magfilter"@, "NEAREST"@));
    let b14 = line(b13, k + 2, text_elem("mipfilter"@, "NEAREST"@));
    let b15 = line(b14, k + 1, close_tag("sampler2D"@));
    line(b15, k, close_tag("newparam"@))
}

/// `b` followed by the element `tag` at depth `k` holding the one line `inner`.
pub open spec fn with_wrapped(b: Seq<char>, k: nat, tag: Seq<char>, inner: Seq<char>) -> Seq<char> {
    line(line(line(b, k, open_tag(tag)), k + 1, inner), k, close_tag(tag))
}

/// `b` followed by the `<technique>` element at depth `k`: a phong shading
/// with the colours `c`, the diffuse colour taken from the texture when the
/// material has one, and the texture's alpha used when it is transparent.
#[verifier::opaque]
pub open spec fn with_technique(b: Seq<char>, k: nat, c: EffectColors, textured: bool, transparent: bool)
    -> Seq<char> {
    let b1 = line(b, k, open_tag("technique sid=\"common\""@));
    let b2 = line(b1, k + 1, open_tag("phong"@));
    let b3 = with_wrapped(b2, k + 2, "emission"@, text_elem("color"@, c.emission@ + " 1"@));
    let b4 = with_wrapped(b3, k + 2, "ambient"@, text_elem("color"@, c.ambient@ + " 1"@));
    let b5 = with_wrapped(b4, k + 2, "diffuse"@,
        if textured { sampler_texture() } else { text_elem("color"@, c.diffuse@) });
    let b6 = with_wrapped(b5, k + 2, "specular"@, text_elem("color"@, c.specular@ + " 1"@));
    let b7 = if transparent { with_wrapped(b6, k + 2, "transparent"@, sampler_texture()) } else { b6 };
    let b8 = match c.transparency {
        Some(a) => with_wrapped(b7, k + 2, "transparency"@, text_elem("float"@, a@)),
        None => b7,
    };
    let b9 = line(b8, k + 1, close_tag("phong"@));
    line(b9, k, close_tag("technique"@))
}

/// The name of the image a material connected by `conn` uses, if it has one.
pub open spec fn effect_image_name(conn: MaterialConnection, names: Seq<(ImageId, Seq<char>)>)
    -> Option<Seq<char>> {
    match conn.spec_image_id() {
        Some(id) => image_name_of(names, id),
        None => None,
    }
}

/// Whether the texture of a material connected by `conn` has transparent or
/// translucent texels.
pub open spec fn effect_transparent(db: &Database, conn: MaterialConnection) -> bool {
    match conn.spec_image_id() {
        Some(id) => {
            let params = db.textures@[id.0 as int].params;
            spec_alpha_type(params.spec_format(), params) != 0
        },
        None => false,
    }
}

/// `b` followed by the `<effect>` element of material `i` at depth `k`.
#[verifier::opaque]
pub open spec fn with_effect_element(b: Seq<char>, i: nat, mat: Material, c: EffectColors,
    image_name: Option<Seq<char>>, transparent: bool, k: nat) -> Seq<char> {
    let b1 = line(b, k, open_tag("effect id=\"effect"@ + dec_str(i) + "\" name=\""@ + print_safe_text(mat.name.0@)
        + "\""@));
    let b2 = line(b1, k + 1, open_tag("profile_COMMON"@));
    let b3 = match image_name {
        Some(n) => with_image_params(b2, n, mat.params, k + 2),
        None => b2,
    };
    let b4 = with_technique(b3, k + 2, c, image_name is Some, transparent);
    let b5 = line(b4, k + 1, close_tag("profile_COMMON"@));
    line(b5, k, close_tag("effect"@))
}

/// `b` followed by the `<effect>` elements of the first `n` materials at
/// depth `k`.
pub open spec fn with_effect_elements(b: Seq<char>, mats: Seq<Material>, colors: Seq<EffectColors>,
    conns: Seq<MaterialConnection>, db: &Database, names: Seq<(ImageId, Seq<char>)>, n: nat, k: nat)
    -> Seq<char>
    decreases n,
{
    if n == 0 || n > mats.len() {
        b
    } else {
        let i = (n - 1) as nat;
        with_effect_element(with_effect_elements(b, mats, colors, conns, db, names, i, k), i, mats[i as int],
            colors[i as int], effect_image_name(conns[i as int], names), effect_transparent(db, conns[i as int]), k)
    }
}

/// The texture of every material with an image lies in the database.
pub open spec fn material_textures_in_db(db: &Database, conns: Seq<MaterialConnection>) -> bool {
    forall|i: int| 0 <= i < conns.len() ==> match (#[trigger] conns[i]).spec_image_id() {
        Some(id) => id.0 < db.textures@.len(),
        None => true,
    }
}

/// Removing the last indentation step of a line break at depth `k + 1`
/// leaves the line break at depth `k`.
proof fn lemma_nl_shallower(b: Seq<char>, k: nat)
    ensures
        nl_after(b, k + 1).take(nl_after(b, k + 1).len() - 2) == nl_after(b, k),
{
    assert(nl_after(b, k + 1).take(nl_after(b, k + 1).len() - 2) =~= nl_after(b, k));
}

/// Writes the opening tag `<head>` and starts a line one level deeper.
pub(crate) fn open_line(xml: &mut Xml, head: &str, Ghost(b): Ghost<Seq<char>>)
    requires
        old(xml).text() == nl_after(b, old(xml).indent()),
        old(xml).indent() < u32::MAX,
    ensures
        final(xml).indent() == old(xml).indent() + 1,
        final(xml).text() == nl_after(line(b, old(xml).indent(), open_tag(head@)), final(xml).indent()),
{
    xml.start_open_tag();
    xml.push_str(head);
    xml.end_tag();
    xml.nl();
}

/// Writes the element `<tag>{body1}{body2}</tag>` and starts a new line.
pub(crate) fn text_line(xml: &mut Xml, tag: &str, body1: &str, body2: &str, Ghost(b): Ghost<Seq<char>>)
    requires
        old(xml).text() == nl_after(b, old(xml).indent()),
        old(xml).indent() < u32::MAX,
    ensures
        final(xml).indent() == old(xml).indent(),
        final(xml).text() == nl_after(line(b, old(xml).indent(), text_elem(tag@, body1@ + body2@)),
            final(xml).indent()),
{
    xml.start_open_tag();
    xml.push_str(tag);
    xml.end_tag();
    xml.push_str(body1);
    xml.push_str(body2);
    xml.start_close_tag();
    xml.push_str(tag);
    xml.end_tag();
    xml.nl();
}

/// Writes the element pointing at the texture sampler and starts a new line.
fn sampler_texture_line(xml: &mut Xml, Ghost(b): Ghost<Seq<char>>)
    requires
        old(xml).text() == nl_after(b, old(xml).indent()),
        old(xml).indent() < u32::MAX,
    ensures
        final(xml).indent() == old(xml).indent(),
        final(xml).text() == nl_after(line(b, old(xml).indent(), sampler_texture()), final(xml).indent()),
{
    xml.start_open_tag();
    xml.push_str("texture texture=\"Image-sampler\" texcoord=\"tc\"");
    xml.end_empty_tag();
    xml.nl();
}

/// Closes the element `tag` on a line one level shallower and starts a new
/// line there.
pub(crate) fn close_line(xml: &mut Xml, tag: &str, Ghost(b): Ghost<Seq<char>>)
    requires
        old(xml).text() == nl_after(b, old(xml).indent()),
        old(xml).indent() > 0,
    ensures
        final(xml).indent() == old(xml).indent() - 1,
        final(xml).text() == nl_after(line(b, final(xml).indent(), close_tag(tag@)), final(xml).indent()),
{
    let ghost k: nat = (xml.indent() - 1) as nat;
    proof { lemma_nl_shallower(b, k); }
    xml.deindent_and_start_close_tag();
    xml.push_str(tag);
    xml.end_tag();
    xml.nl();
}

/// Writes the element `tag` holding one line, written by `text_line` with
/// the given body.
fn wrapped_text(xml: &mut Xml, tag: &str, inner: &str, body1: &str, body2: &str, Ghost(b): Ghost<Seq<char>>)
    requires
        old(xml).text() == nl_after(b, old(xml).indent()),
        old(xml).indent() + 2 <= u32::MAX,
    ensures
        final(xml).indent() == old(xml).indent(),
        final(xml).text() == nl_after(with_wrapped(b, old(xml).indent(), tag@,
            text_elem(inner@, body1@ + body2@)), final(xml).indent()),
{
    let ghost k = xml.indent();
    open_line(xml, tag, Ghost(b));
    let ghost b1 = line(b, k, open_tag(tag@));
    text_line(xml, inner, body1, body2, Ghost(b1));
    let ghost b2 = line(b1, k + 1, text_elem(inner@, body1@ + body2@));
    close_line(xml, tag, Ghost(b2));
}

/// Writes the element `tag` holding the element that points at the texture
/// sampler.
fn wrapped_sampler_texture(xml: &mut Xml, tag: &str, Ghost(b): Ghost<Seq<char>>)
    requires
        old(xml).text() == nl_after(b, old(xml).indent()),
        old(xml).indent() + 2 <= u32::MAX,
    ensures
        final(xml).indent() == old(xml).indent(),
        final(xml).text() == nl_after(with_wrapped(b, old(xml).indent(), tag@, sampler_texture()),
            final(xml).indent()),
{
    let ghost k = xml.indent();
    open_line(xml, tag, Ghost(b));
    let ghost b1 = line(b, k, open_tag(tag@));
    sampler_texture_line(xml, Ghost(b1));
    let ghost b2 = line(b1, k + 1, sampler_texture());
    close_line(xml, tag, Ghost(b2));
}

/// The COLLADA name of the wrapping of a texture that repeats (or not),
/// mirrored (or not).
fn wrap_name(repeat: bool, mirror: bool) -> (r: &'static str)
    ensures
        r@ == spec_wrap_name(repeat, mirror),
{
    match (repeat, mirror) {
        (false, _) => "CLAMP",
        (true, false) => "WRAP",
        (true, true) => "MIRROR",
    }
}

/// Writes the surface and sampler parameters for image `name`.
fn write_image_params(xml: &mut Xml, name: &String, params: TextureParams, Ghost(b): Ghost<Seq<char>>)
    requires
        old(xml).text() == nl_after(b, old(xml).indent()),
        old(xml).indent() + 3 <= u32::MAX,
    ensures
        final(xml).indent() == old(xml).indent(),
        final(xml).text() == nl_after(with_image_params(b, name@, params, old(xml).indent()), final(xml).indent()),
{
    reveal(with_image_params);
    proof { reveal_strlit(""); }
    let ghost k = xml.indent();
    open_line(xml, "newparam sid=\"Image-surface\"", Ghost(b));
    let ghost b1 = line(b, k, open_tag("newparam sid=\"Image-surface\""@));
    open_line(xml, "surface type=\"2D\"", Ghost(b1));
    let ghost b2 = line(b1, k + 1, open_tag("surface type=\"2D\""@));
    text_line(xml, "init_from", "image-", name.as_str(), Ghost(b2));
    let ghost b3 = line(b2, k + 2, text_elem("init_from"@, "image-"@ + name@));
    text_line(xml, "format", "A8R8G8B8", "", Ghost(b3));
    assert("A8R8G8B8"@ + ""@ =~= "A8R8G8B8"@);
    let ghost b4 = line(b3, k + 2, text_elem("format"@, "A8R8G8B8"@));
    close_line(xml, "surface", Ghost(b4));
    let ghost b5 = line(b4, k + 1, close_tag("surface"@));
    close_line(xml, "newparam", Ghost(b5));
    let ghost b6 = line(b5, k, close_tag("newparam"@));
    open_line(xml, "newparam sid=\"Image-sampler\"", Ghost(b6));
    let ghost b7 = line(b6, k, open_tag("newparam sid=\"Image-sampler\""@));
    open_line(xml, "sampler2D", Ghost(b7));
    let ghost b8 = line(b7, k + 1, open_tag("sampler2D"@));
    text_line(xml, "source", "Image-surface", "", Ghost(b8));
    assert("Image-surface"@ + ""@ =~= "Image-surface"@);
    let ghost b9 = line(b8, k + 2, text_elem("source"@, "Image-surface"@));
    let ws = wrap_name(params.repeat_s(), params.mirror_s());
    text_line(xml, "wrap_s", ws, "", Ghost(b9));
    assert(ws@ + ""@ =~= ws@);
    let ghost b10 = line(b9, k + 2, text_elem("wrap_s"@, ws@));
    let wt = wrap_name(params.repeat_t(), params.mirror_t());
    text_line(xml, "wrap_t", wt, "", Ghost(b10));
    assert(wt@ + ""@ =~= wt@);
    let ghost b11 = line(b10, k + 2, text_elem("wrap_t"@, wt@));
    assert("NEAREST"@ + ""@ =~= "NEAREST"@);
    text_line(xml, "minfilter", "NEAREST", "", Ghost(b11));
    let ghost b12 = line(b11, k + 2, text_elem("minfilter"@, "NEAREST"@));
    text_line(xml, "magfilter", "NEAREST", "", Ghost(b12));
    let ghost b13 = line(b12, k + 2, text_elem("magfilter"@, "NEAREST"@));
    text_line(xml, "mipfilter", "NEAREST", "", Ghost(b13));
    let ghost b14 = line(b13, k + 2, text_elem("mipfilter"@, "NEAREST"@));
    close_line(xml, "sampler2D", Ghost(b14));
    let ghost b15 = line(b14, k + 1, close_tag("sampler2D"@));
    close_line(xml, "newparam", Ghost(b15));
}

/// Writes the `<technique>` element.
fn write_technique(xml: &mut Xml, c: &EffectColors, textured: bool, transparent: bool, Ghost(b): Ghost<Seq<char>>)
    requires
        old(xml).text() == nl_after(b, old(xml).indent()),
        old(xml).indent() + 5 <= u32::MAX,
    ensures
        final(xml).indent() == old(xml).indent(),
        final(xml).text() == nl_after(with_technique(b, old(xml).indent(), *c, textured, transparent),
            final(xml).indent()),
{
    reveal(with_technique);
    proof { reveal_strlit(""); }
    let ghost k = xml.indent();
    open_line(xml, "technique sid=\"common\"", Ghost(b));
    let ghost b1 = line(b, k, open_tag("technique sid=\"common\""@));
    open_line(xml, "phong", Ghost(b1));
    let ghost b2 = line(b1, k + 1, open_tag("phong"@));
    wrapped_text(xml, "emission", "color", c.emission.as_str(), " 1", Ghost(b2));
    let ghost b3 = with_wrapped(b2, k + 2, "emission"@, text_elem("color"@, c.emission@ + " 1"@));
    wrapped_text(xml, "ambient", "color", c.ambient.as_str(), " 1", Ghost(b3));
    let ghost b4 = with_wrapped(b3, k + 2, "ambient"@, text_elem("color"@, c.ambient@ + " 1"@));
    if textured {
        wrapped_sampler_texture(xml, "diffuse", Ghost(b4));
    } else {
        wrapped_text(xml, "diffuse", "color", c.diffuse.as_str(), "", Ghost(b4));
        assert(c.diffuse@ + ""@ =~= c.diffuse@);
    }
    let ghost b5 = with_wrapped(b4, k + 2, "diffuse"@,
        if textured { sampler_texture() } else { text_elem("color"@, c.diffuse@) });
    wrapped_text(xml, "specular", "color", c.specular.as_str(), " 1", Ghost(b5));
    let ghost b6 = with_wrapped(b5, k + 2, "specular"@, text_elem("color"@, c.specular@ + " 1"@));
    if transparent {
        wrapped_sampler_texture(xml, "transparent", Ghost(b6));
    }
    let ghost b7 = if transparent { with_wrapped(b6, k + 2, "transparent"@, sampler_texture()) } else { b6 };
    match &c.transparency {
        Some(a) => {
            wrapped_text(xml, "transparency", "float", a.as_str(), "", Ghost(b7));
            assert(a@ + ""@ =~= a@);
        },
        None => {},
    }
    let ghost b8 = if c.transparency is Some {
        with_wrapped(b7, k + 2, "transparency"@, text_elem("float"@, c.transparency->0@))
    } else {
        b7
    };
    close_line(xml, "phong", Ghost(b8));
    let ghost b9 = line(b8, k + 1, close_tag("phong"@));
    close_line(xml, "technique", Ghost(b9));
}

/// Whether a texture with parameters `params` has transparent or
/// translucent texels.
fn has_transparency(params: TextureParams) -> (r: bool)
    ensures
        r == (spec_alpha_type(params.spec_format(), params) != 0),
{
    match params.format().alpha_type(params) {
        Alpha::Opaque => false,
        Alpha::Transparent | Alpha::Translucent => true,
    }
}

/// Writes the `<effect>` element of material `i`.
fn write_effect(xml: &mut Xml, i: usize, mat: &Material, c: &EffectColors, image_name: Option<&String>,
    transparent: bool, Ghost(b): Ghost<Seq<char>>)
    requires
        old(xml).text() == nl_after(b, old(xml).indent()),
        old(xml).indent() + 7 <= u32::MAX,
    ensures
        final(xml).indent() == old(xml).indent(),
        final(xml).text() == nl_after(with_effect_element(b, i as nat, *mat, *c,
            match image_name { Some(n) => Some(n@), None => None }, transparent, old(xml).indent()),
            final(xml).indent()),
{
    reveal(with_effect_element);
    let ghost k = xml.indent();
    let ghost name_view = match image_name { Some(n) => Some(n@), None => None };
    let ghost head = "effect id=\"effect"@ + dec_str(i as nat) + "\" name=\""@ + print_safe_text(mat.name.0@)
        + "\""@;
    xml.start_open_tag();
    xml.push_str("effect id=\"effect");
    xml.push_dec(i as u64);
    xml.push_str("\" name=\"");
    let name = mat.name.print_safe();
    xml.push_str(name.as_str());
    xml.push_str("\"");
    xml.end_tag();
    xml.nl();
    let ghost b1 = line(b, k, open_tag(head));
    assert(xml.text() == nl_after(b1, k + 1));
    open_line(xml, "profile_COMMON", Ghost(b1));
    let ghost b2 = line(b1, k + 1, open_tag("profile_COMMON"@));
    match image_name {
        Some(n) => write_image_params(xml, n, mat.params, Ghost(b2)),
        None => {},
    }
    let ghost b3 = match name_view {
        Some(n) => with_image_params(b2, n, mat.params, k + 2),
        None => b2,
    };
    write_technique(xml, c, image_name.is_some(), transparent, Ghost(b3));
    let ghost b4 = with_technique(b3, k + 2, *c, name_view is Some, transparent);
    close_line(xml, "profile_COMMON", Ghost(b4));
    let ghost b5 = line(b4, k + 1, close_tag("profile_COMMON"@));
    close_line(xml, "effect", Ghost(b5));
}

/// Writes the `<library_effects>` element: an `<effect>` for each of the
/// model's materials, textured with its image when it has one (sampled with
/// the material's wrapping), and using the texture's alpha when the texture
/// has transparent or translucent texels.
pub fn library_effects(xml: &mut Xml, materials: &Vec<Material>, colors: &Vec<EffectColors>,
    mat_conns: &Vec<MaterialConnection>, db: &Database, image_namer: &ImageNamer)
    requires
        old(xml).indent() + 8 <= u32::MAX,
        mat_conns@.len() == materials@.len(),
        colors@.len() == materials@.len(),
        material_textures_in_db(db, mat_conns@),
    ensures
        final(xml).indent() == old(xml).indent(),
        final(xml).text() == nl_after(line(with_effect_elements(old(xml).text() + open_tag("library_effects"@),
            materials@, colors@, mat_conns@, db, names_view(image_namer.names@), materials@.len(),
            old(xml).indent() + 1), old(xml).indent(), close_tag("library_effects"@)), old(xml).indent()),
{
    let ghost d: nat = xml.indent();
    let ghost k: nat = d + 1;
    let ghost names = names_view(image_namer.names@);
    let ghost b0 = xml.text() + open_tag("library_effects"@);
    xml.start_open_tag();
    xml.push_str("library_effects");
    xml.end_tag();
    xml.nl();
    let mut i: usize = 0;
    while i < materials.len()
        invariant
            i <= materials@.len(),
            mat_conns@.len() == materials@.len(),
            colors@.len() == materials@.len(),
            material_textures_in_db(db, mat_conns@),
            names == names_view(image_namer.names@),
            xml.indent() == k,
            k == d + 1,
            d + 8 <= u32::MAX,
            xml.text() == nl_after(with_effect_elements(b0, materials@, colors@, mat_conns@, db, names, i as nat, k),
                k),
        decreases materials@.len() - i,
    {
        let ghost b = with_effect_elements(b0, materials@, colors@, mat_conns@, db, names, i as nat, k);
        let mat_conn = &mat_conns[i];
        assert(material_textures_in_db(db, mat_conns@));
        let (image_name, transparent) = match mat_conn.image_id() {
            Ok(Some(image_id)) => {
                assert(mat_conns@[i as int].spec_image_id() == Some(image_id));
                (find_image_name(&image_namer.names, image_id), has_transparency(db.textures[image_id.0].params))
            },
            _ => {
                assert(mat_conns@[i as int].spec_image_id() is None);
                (None, false)
            },
        };
        write_effect(xml, i, &materials[i], &colors[i], image_name, transparent, Ghost(b));
        i += 1;
    }
    let ghost b = with_effect_elements(b0, materials@, colors@, mat_conns@, db, names, i as nat, k);
    close_line(xml, "library_effects", Ghost(b));
}

} // verus!
