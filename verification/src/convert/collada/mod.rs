//! Writing COLLADA documents.

pub mod xml;
pub mod effects;
pub mod polylists;
pub mod skin;

use vstd::prelude::*;
use crate::nitro::{Material, print_safe_text};
use crate::connection::MaterialConnection;
use crate::convert::image_namer::{ImageId, ImageNamer, names_view, has_image};
use crate::util::fmt::dec_str;
use self::xml::{Xml, INDENT_SIZE};

verus! {

/// `t` followed by a line break and the indentation of depth `k`.
pub open spec fn nl_after(t: Seq<char>, k: nat) -> Seq<char> {
    t + "\n"@ + Seq::new((INDENT_SIZE * k) as nat, |_i: int| ' ')
}

/// `t` followed by the `<material>` element of material `i` written at
/// depth `k`: its id is `material{i}`, its name the material's printed name,
/// and it uses the effect `effect{i}`.
pub open spec fn with_material_element(t: Seq<char>, i: nat, mat: Material, k: nat) -> Seq<char> {
    nl_after(
        nl_after(t + "<"@ + "material id=\"material"@ + dec_str(i) + "\" name=\""@ + print_safe_text(mat.name.0@)
            + "\""@ + ">"@, k + 1) + "<"@ + "instance_effect url=\"#effect"@ + dec_str(i) + "\""@ + "/>"@,
        k,
    ) + "</"@ + "material"@ + ">"@
}

/// `t` followed by the `<material>` elements of the first `n` materials,
/// each on a line of its own at depth `k`.
pub open spec fn with_material_elements(t: Seq<char>, mats: Seq<Material>, n: nat, k: nat) -> Seq<char>
    decreases n,
{
    if n == 0 || n > mats.len() {
        t
    } else {
        with_material_element(nl_after(with_material_elements(t, mats, (n - 1) as nat, k), k), (n - 1) as nat,
            mats[n - 1], k)
    }
}

/// Removing the last indentation step of a line break at depth `k + 1`
/// leaves the line break at depth `k`.
proof fn lemma_nl_deindent(t: Seq<char>, k: nat)
    ensures
        nl_after(t, k + 1).take(nl_after(t, k + 1).len() - 2) == nl_after(t, k),
{
    assert(nl_after(t, k + 1).take(nl_after(t, k + 1).len() - 2) =~= nl_after(t, k));
}

/// Writes the `<material>` element of material `i` and a line break at the
/// current depth.
fn write_material_element(xml: &mut Xml, i: usize, mat: &Material)
    requires
        old(xml).indent() + 2 <= u32::MAX,
    ensures
        final(xml).indent() == old(xml).indent(),
        final(xml).text() == nl_after(with_material_element(old(xml).text(), i as nat, *mat, old(xml).indent()),
            old(xml).indent()),
{
    let ghost k: nat = xml.indent();
    xml.start_open_tag();
    xml.push_str("material id=\"material");
    xml.push_dec(i as u64);
    xml.push_str("\" name=\"");
    let name = mat.name.print_safe();
    xml.push_str(name.as_str());
    xml.push_str("\"");
    xml.end_tag();
    xml.nl();
    xml.start_open_tag();
    xml.push_str("instance_effect url=\"#effect");
    xml.push_dec(i as u64);
    xml.push_str("\"");
    xml.end_empty_tag();
    let ghost b = xml.text();
    xml.nl();
    proof {
        lemma_nl_deindent(b, k);
    }
    xml.deindent_and_start_close_tag();
    xml.push_str("material");
    xml.end_tag();
    xml.nl();
}

/// Writes the `<library_materials>` element: one `<material>` for each of
/// the model's materials, each with the effect of the same number.
pub fn library_materials(xml: &mut Xml, materials: &Vec<Material>)
    requires
        old(xml).indent() + 3 <= u32::MAX,
    ensures
        final(xml).indent() == old(xml).indent(),
        final(xml).text() == nl_after(nl_after(with_material_elements(
            old(xml).text() + "<"@ + "library_materials"@ + ">"@, materials@, materials@.len(), old(xml).indent() + 1),
            old(xml).indent()) + "</"@ + "library_materials"@ + ">"@, old(xml).indent()),
{
    let ghost d: nat = xml.indent();
    let ghost k: nat = d + 1;
    let ghost open = xml.text() + "<"@ + "library_materials"@ + ">"@;
    xml.start_open_tag();
    xml.push_str("library_materials");
    xml.end_tag();
    xml.nl();
    let mut i: usize = 0;
    while i < materials.len()
        invariant
            i <= materials@.len(),
            xml.indent() == k,
            k == d + 1,
            d + 3 <= u32::MAX,
            xml.text() == nl_after(with_material_elements(open, materials@, i as nat, k), k),
        decreases materials@.len() - i,
    {
        write_material_element(xml, i, &materials[i]);
        i += 1;
    }
    proof {
        lemma_nl_deindent(with_material_elements(open, materials@, i as nat, k), d);
    }
    xml.deindent_and_start_close_tag();
    xml.push_str("library_materials");
    xml.end_tag();
    xml.nl();
}

/// The name filed for image `id` in `names` (the first entry for it).
pub open spec fn image_name_of(names: Seq<(ImageId, Seq<char>)>, id: ImageId) -> Option<Seq<char>>
    decreases names.len(),
{
    if names.len() == 0 {
        None
    } else if names[0].0 == id {
        Some(names[0].1)
    } else {
        image_name_of(names.skip(1), id)
    }
}

/// The names of the images the first `n` materials use, each once, in the
/// order the materials first use them.
pub open spec fn material_image_names(mats: Seq<MaterialConnection>, names: Seq<(ImageId, Seq<char>)>, n: nat)
    -> Seq<Seq<char>>
    decreases n,
{
    if n == 0 || n > mats.len() {
        Seq::empty()
    } else {
        let prev = material_image_names(mats, names, (n - 1) as nat);
        match mats[n - 1].spec_image_id() {
            Some(id) => match image_name_of(names, id) {
                Some(name) => if prev.contains(name) { prev } else { prev.push(name) },
                None => prev,
            },
            None => prev,
        }
    }
}

/// `t` followed by the `<image>` element for image `name`, at depth `k`:
/// its id is `image-{name}` and its file `{name}.png`.
pub open spec fn with_image_element(t: Seq<char>, name: Seq<char>, k: nat) -> Seq<char> {
    nl_after(
        nl_after(t + "<"@ + "image id=\"image-"@ + name + "\""@ + ">"@, k + 1) + "<"@ + "init_from"@ + ">"@
            + name + ".png"@ + "</"@ + "init_from"@ + ">"@,
        k,
    ) + "</"@ + "image"@ + ">"@
}

/// `t` followed by the `<image>` elements of the first `n` names, each on a
/// line of its own at depth `k`.
pub open spec fn with_image_elements(t: Seq<char>, names: Seq<Seq<char>>, n: nat, k: nat) -> Seq<char>
    decreases n,
{
    if n == 0 || n > names.len() {
        t
    } else {
        with_image_element(nl_after(with_image_elements(t, names, (n - 1) as nat, k), k), names[n - 1], k)
    }
}

/// An image that has an entry has a name.
pub proof fn lemma_image_name_of_has_image(names: Seq<(ImageId, Seq<char>)>, id: ImageId)
    requires
        has_image(names, id),
    ensures
        image_name_of(names, id) is Some,
    decreases names.len(),
{
    if names[0].0 != id {
        let i = choose|i: int| 0 <= i < names.len() && (#[trigger] names[i]).0 == id;
        assert(names.skip(1)[i - 1] == names[i]);
        lemma_image_name_of_has_image(names.skip(1), id);
    }
}

/// The name filed for image `id`.
pub(crate) fn find_image_name<'a>(names: &'a Vec<(ImageId, String)>, id: ImageId) -> (r: Option<&'a String>)
    ensures
        match r {
            Some(s) => image_name_of(names_view(names@), id) == Some(s@),
            None => image_name_of(names_view(names@), id) is None,
        },
{
    let ghost v = names_view(names@);
    let mut i: usize = 0;
    assert(v.skip(0) =~= v);
    while i < names.len()
        invariant
            v == names_view(names@),
            i <= names@.len(),
            image_name_of(v, id) == image_name_of(v.skip(i as int), id),
        decreases names@.len() - i,
    {
        assert(v.skip(i as int).skip(1) =~= v.skip(i + 1));
        assert(v.skip(i as int)[0] == v[i as int]);
        let (t, p) = names[i].0;
        let same = t == id.0 && match (p, id.1) {
            (None, None) => true,
            (Some(x), Some(y)) => x == y,
            _ => false,
        };
        if same {
            return Some(&names[i].1);
        }
        i += 1;
    }
    assert(v.skip(i as int).len() == 0);
    None
}

/// Whether `name` is one of `names`.
fn contains_name(names: &Vec<&String>, name: &String) -> (r: bool)
    ensures
        r == names@.map_values(|s: &String| s@).contains(name@),
{
    let ghost v = names@.map_values(|s: &String| s@);
    let mut i: usize = 0;
    while i < names.len()
        invariant
            v == names@.map_values(|s: &String| s@),
            i <= names@.len(),
            forall|j: int| 0 <= j < i ==> v[j] != name@,
        decreases names@.len() - i,
    {
        if *names[i] == *name {
            assert(v[i as int] == name@);
            return true;
        }
        i += 1;
    }
    false
}

/// Writes the `<library_images>` element: an `<image>` for each image the
/// model's materials use, pointing at its PNG file.
pub fn library_images(xml: &mut Xml, mat_conns: &Vec<MaterialConnection>, image_namer: &ImageNamer)
    requires
        old(xml).indent() + 3 <= u32::MAX,
    ensures
        final(xml).indent() == old(xml).indent(),
        ({
            let names = material_image_names(mat_conns@, names_view(image_namer.names@), mat_conns@.len());
            final(xml).text() == nl_after(nl_after(with_image_elements(
                old(xml).text() + "<"@ + "library_images"@ + ">"@, names, names.len(), old(xml).indent() + 1),
                old(xml).indent()) + "</"@ + "library_images"@ + ">"@, old(xml).indent())
        }),
{
    // Find the names for all the images this model uses
    let ghost nv = names_view(image_namer.names@);
    let mut image_names: Vec<&String> = Vec::new();
    let mut m: usize = 0;
    while m < mat_conns.len()
        invariant
            m <= mat_conns@.len(),
            nv == names_view(image_namer.names@),
            image_names@.map_values(|s: &String| s@) == material_image_names(mat_conns@, nv, m as nat),
        decreases mat_conns@.len() - m,
    {
        let ghost prev = image_names@.map_values(|s: &String| s@);
        match mat_conns[m].image_id() {
            Ok(Some(image_id)) => match find_image_name(&image_namer.names, image_id) {
                Some(name) => {
                    if !contains_name(&image_names, name) {
                        image_names.push(name);
                        assert(image_names@.map_values(|s: &String| s@) =~= prev.push(name@));
                    }
                },
                None => {},
            },
            _ => {},
        }
        m += 1;
    }
    let ghost names = image_names@.map_values(|s: &String| s@);

    let ghost d: nat = xml.indent();
    let ghost k: nat = d + 1;
    let ghost open = xml.text() + "<"@ + "library_images"@ + ">"@;
    xml.start_open_tag();
    xml.push_str("library_images");
    xml.end_tag();
    xml.nl();
    let mut i: usize = 0;
    while i < image_names.len()
        invariant
            i <= image_names@.len(),
            names == image_names@.map_values(|s: &String| s@),
            xml.indent() == k,
            k == d + 1,
            d + 3 <= u32::MAX,
            xml.text() == nl_after(with_image_elements(open, names, i as nat, k), k),
        decreases image_names@.len() - i,
    {
        write_image_element(xml, image_names[i]);
        i += 1;
    }
    proof {
        lemma_nl_deindent(with_image_elements(open, names, i as nat, k), d);
    }
    xml.deindent_and_start_close_tag();
    xml.push_str("library_images");
    xml.end_tag();
    xml.nl();
}

/// Writes the `<image>` element for image `name` and a line break at the
/// current depth.
fn write_image_element(xml: &mut Xml, name: &String)
    requires
        old(xml).indent() + 2 <= u32::MAX,
    ensures
        final(xml).indent() == old(xml).indent(),
        final(xml).text() == nl_after(with_image_element(old(xml).text(), name@, old(xml).indent()),
            old(xml).indent()),
{
    let ghost k: nat = xml.indent();
    xml.start_open_tag();
    xml.push_str("image id=\"image-");
    xml.push_str(name.as_str());
    xml.push_str("\"");
    xml.end_tag();
    xml.nl();
    xml.start_open_tag();
    xml.push_str("init_from");
    xml.end_tag();
    xml.push_str(name.as_str());
    xml.push_str(".png");
    xml.start_close_tag();
    xml.push_str("init_from");
    xml.end_tag();
    let ghost b = xml.text();
    xml.nl();
    proof {
        lemma_nl_deindent(b, k);
    }
    xml.deindent_and_start_close_tag();
    xml.push_str("image");
    xml.end_tag();
    xml.nl();
}

} // verus!
