//! Names for the images (texture/palette pairs) a model's materials use.

use vstd::prelude::*;
use crate::nitro::{Model, Material, Name, print_safe_text};
use crate::util::namers::{find_free_name, free_name, names_view};

verus! {

/// A texture name, with the name of the palette it is drawn with if it
/// needs one.
#[derive(Debug, Copy, Clone)]
pub struct TexturePalettePair {
    pub texture_name: Name,
    pub palette_name: Option<Name>,
}

/// The image names so far: for each pair, the name picked for it when it was
/// first met, and the names taken.
pub struct ImageNamesState {
    pub names: Map<TexturePalettePair, Seq<char>>,
    pub taken: Seq<Seq<char>>,
}

/// The names after naming the images of the materials `mats`, in order.
pub open spec fn name_materials(st: ImageNamesState, mats: Seq<Material>) -> ImageNamesState
    decreases mats.len(),
{
    if mats.len() == 0 {
        st
    } else {
        let st1 = name_materials(st, mats.drop_last());
        let mat = mats.last();
        match mat.texture_name {
            None => st1,
            Some(texture_name) => {
                let pair = TexturePalettePair { texture_name, palette_name: mat.palette_name };
                if st1.names.contains_key(pair) {
                    st1
                } else {
                    let name = free_name(print_safe_text(texture_name.0@), st1.taken);
                    ImageNamesState { names: st1.names.insert(pair, name), taken: st1.taken.push(name) }
                }
            },
        }
    }
}

/// The map from image to name, as pairs, each image once.
pub open spec fn pairs_map(v: Seq<(TexturePalettePair, String)>) -> Map<TexturePalettePair, Seq<char>>
    decreases v.len(),
{
    if v.len() == 0 {
        Map::empty()
    } else {
        pairs_map(v.drop_last()).insert(v.last().0, v.last().1@)
    }
}

/// No image occurs twice.
pub open spec fn keys_distinct(v: Seq<(TexturePalettePair, String)>) -> bool {
    forall|i: int, j: int| 0 <= i < v.len() && 0 <= j < v.len() && i != j ==> (#[trigger] v[i]).0 != (#[trigger] v[j]).0
}

proof fn lemma_pairs_map_keys(v: Seq<(TexturePalettePair, String)>, k: TexturePalettePair)
    ensures
        pairs_map(v).contains_key(k) <==> exists|i: int| 0 <= i < v.len() && (#[trigger] v[i]).0 == k,
    decreases v.len(),
{
    if v.len() > 0 {
        lemma_pairs_map_keys(v.drop_last(), k);
        if pairs_map(v.drop_last()).contains_key(k) {
            let i = choose|i: int| 0 <= i < v.drop_last().len() && (#[trigger] v.drop_last()[i]).0 == k;
            assert(v[i].0 == k);
        }
        if exists|i: int| 0 <= i < v.len() && (#[trigger] v[i]).0 == k {
            let i = choose|i: int| 0 <= i < v.len() && (#[trigger] v[i]).0 == k;
            if i < v.len() - 1 {
                assert(v.drop_last()[i].0 == k);
            }
        }
    }
}

fn same_name(a: &Name, b: &Name) -> (r: bool)
    ensures
        r == (*a == *b),
{
    a.eq_name(b)
}

fn same_pair(a: &TexturePalettePair, b: &TexturePalettePair) -> (r: bool)
    ensures
        r == (*a == *b),
{
    same_name(&a.texture_name, &b.texture_name) && match (&a.palette_name, &b.palette_name) {
        (None, None) => true,
        (Some(x), Some(y)) => same_name(x, y),
        _ => false,
    }
}

/// Whether `pair` already has a name.
fn has_pair(names: &Vec<(TexturePalettePair, String)>, pair: &TexturePalettePair) -> (r: bool)
    ensures
        r == pairs_map(names@).contains_key(*pair),
{
    proof { lemma_pairs_map_keys(names@, *pair); }
    let mut i: usize = 0;
    while i < names.len()
        invariant
            i <= names@.len(),
            forall|j: int| 0 <= j < i ==> (#[trigger] names@[j]).0 != *pair,
        decreases names@.len() - i,
    {
        if same_pair(&names[i].0, pair) {
            proof {
                assert(names@[i as int].0 == *pair);
                lemma_pairs_map_keys(names@, *pair);
            }
            return true;
        }
        i += 1;
    }
    false
}

/// Build a mapping from images (texture/palette pairs) to readable names.
///
/// We try to name every image by its texture name, but these can collide.
/// This function picks a unique name for every image by appending numbers
/// to disambiguate collisions. An image that several materials use keeps
/// the name it got first.
pub fn build_image_names(model: &Model) -> (image_names: Vec<(TexturePalettePair, String)>)
    ensures
        keys_distinct(image_names@),
        pairs_map(image_names@) == name_materials(
            ImageNamesState { names: Map::empty(), taken: Seq::empty() }, model.materials@).names,
{
    let mut image_names: Vec<(TexturePalettePair, String)> = Vec::new();
    let mut taken_names: Vec<String> = Vec::new();
    let ghost st0 = ImageNamesState { names: Map::empty(), taken: Seq::empty() };
    assert(names_view(taken_names@) =~= Seq::<Seq<char>>::empty());
    assert(pairs_map(image_names@) =~= Map::<TexturePalettePair, Seq<char>>::empty());
    let mut k: usize = 0;
    while k < model.materials.len()
        invariant
            k <= model.materials@.len(),
            keys_distinct(image_names@),
            ({
                let st = name_materials(st0, model.materials@.take(k as int));
                &&& pairs_map(image_names@) == st.names
                &&& names_view(taken_names@) == st.taken
            }),
        decreases model.materials@.len() - k,
    {
        let mat = &model.materials[k];
        assert(model.materials@.take(k + 1).drop_last() =~= model.materials@.take(k as int));
        match mat.texture_name {
            None => {},
            Some(texture_name) => {
                let pair = TexturePalettePair { texture_name, palette_name: mat.palette_name };
                if !has_pair(&image_names, &pair) {
                    let desired_name = texture_name.print_safe();
                    let name = find_free_name(&mut taken_names, desired_name);
                    let ghost v0 = image_names@;
                    image_names.push((pair, name));
                    proof {
                        let v1 = image_names@;
                        assert(v1.drop_last() =~= v0);
                        lemma_pairs_map_keys(v0, pair);
                        assert(keys_distinct(v1)) by {
                            assert forall|x: int, y: int| 0 <= x < v1.len() && 0 <= y < v1.len() && x != y
                                implies (#[trigger] v1[x]).0 != (#[trigger] v1[y]).0 by {
                                if x < v0.len() && y < v0.len() {
                                    assert(v1[x] == v0[x] && v1[y] == v0[y]);
                                } else if x < v0.len() {
                                    assert(v1[x] == v0[x]);
                                } else {
                                    assert(v1[y] == v0[y]);
                                }
                            }
                        }
                    }
                }
            },
        }
        k += 1;
    }
    assert(model.materials@.take(k as int) =~= model.materials@);
    image_names
}

} // verus!
