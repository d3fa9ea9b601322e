//! The material side of a glTF document: which sampler, image and texture
//! each material uses, with the samplers, images and textures shared between
//! materials, and how each material's texture blends.
//!
//! The colour factors and the overrides that come from a material's own
//! alpha are floating point values; the document writer adds them.

use vstd::prelude::*;
use crate::db::Database;
use crate::nitro::Material;
use crate::connection::MaterialConnection;
use crate::convert::image_namer::{ImageNamer, ImageId, names_view, has_image};
use crate::convert::collada::{image_name_of, find_image_name, lemma_image_name_of_has_image};
use crate::nds::texture_formats::spec_alpha_type;
use crate::nds::{Alpha, TextureParams};
use crate::util::bits::bit_field;

verus! {

/// How a texture coordinate outside `[0, 1]` is wrapped.
#[derive(Debug, Copy, Clone, PartialEq, Eq, Structural)]
pub enum WrapMode {
    Clamp,
    MirroredRepeat,
    Repeat,
}

/// The wrapping of a texture that repeats (or not), mirrored (or not).
pub open spec fn spec_wrap(repeat: bool, mirror: bool) -> WrapMode {
    if !repeat {
        WrapMode::Clamp
    } else if !mirror {
        WrapMode::Repeat
    } else {
        WrapMode::MirroredRepeat
    }
}

/// The wrapping of a texture that repeats (or not), mirrored (or not).
pub fn wrap(repeat: bool, mirror: bool) -> (w: WrapMode)
    ensures
        w == spec_wrap(repeat, mirror),
{
    match (repeat, mirror) {
        (false, _) => WrapMode::Clamp,
        (true, false) => WrapMode::Repeat,
        (true, true) => WrapMode::MirroredRepeat,
    }
}

impl WrapMode {
    /// The glTF (OpenGL) code of the wrapping mode.
    pub fn gl_code(self) -> (c: u32)
        ensures
            self == WrapMode::Clamp ==> c == 33071,
            self == WrapMode::MirroredRepeat ==> c == 33648,
            self == WrapMode::Repeat ==> c == 10497,
    {
        match self {
            WrapMode::Clamp => 33071,
            WrapMode::MirroredRepeat => 33648,
            WrapMode::Repeat => 10497,
        }
    }
}

/// The wrapping in both directions of a sampler.
#[derive(Debug, Copy, Clone, PartialEq, Eq, Structural)]
pub struct SamplerDescriptor {
    pub wrap_s: WrapMode,
    pub wrap_t: WrapMode,
}

/// A texture: the sampler and the image it uses, by index.
#[derive(Debug, Copy, Clone, PartialEq, Eq, Structural)]
pub struct TextureDescriptor {
    pub sampler: usize,
    pub image: usize,
}

/// How a material's texture blends with what lies behind it.
#[derive(Debug, Copy, Clone, PartialEq, Eq, Structural)]
pub enum AlphaMode {
    /// No blending.
    Opaque,
    /// Each texel is drawn or not.
    Mask,
    /// Texels blend.
    Blend,
}

/// The texture a material uses, by index, and the alpha mode its texture
/// asks for.
#[derive(Debug, Copy, Clone, PartialEq, Eq, Structural)]
pub struct MaterialDesc {
    pub texture: Option<usize>,
    pub alpha_mode: AlphaMode,
}

/// The material table of a glTF document, without colours: a descriptor for
/// each material, and the samplers, images (by name) and textures they use,
/// each once, in the order the materials first use them.
pub struct MaterialDescs {
    pub materials: Vec<MaterialDesc>,
    pub samplers: Vec<SamplerDescriptor>,
    pub images: Vec<String>,
    pub textures: Vec<TextureDescriptor>,
}

/// The descriptors so far.
pub struct DescsState {
    pub materials: Seq<MaterialDesc>,
    pub samplers: Seq<SamplerDescriptor>,
    pub images: Seq<Seq<char>>,
    pub textures: Seq<TextureDescriptor>,
}

impl MaterialDescs {
    pub open spec fn state(&self) -> DescsState {
        DescsState {
            materials: self.materials@,
            samplers: self.samplers@,
            images: self.images@.map_values(|s: String| s@),
            textures: self.textures@,
        }
    }
}

/// `s` with `x` added unless it is already there.
pub open spec fn with_entry<T>(s: Seq<T>, x: T) -> Seq<T> {
    if s.contains(x) { s } else { s.push(x) }
}

/// Where `x` sits in `with_entry(s, x)`.
pub open spec fn entry_index<T>(s: Seq<T>, x: T) -> int {
    if s.contains(x) { s.index_of(x) } else { s.len() as int }
}

/// The alpha mode of a texture with parameters `params`: `MASK` for a
/// texture with transparent texels, `BLEND` for a translucent one.
pub open spec fn spec_alpha_mode(params: TextureParams) -> AlphaMode {
    let a = spec_alpha_type(params.spec_format(), params);
    if a == 0 {
        AlphaMode::Opaque
    } else if a == 1 {
        AlphaMode::Mask
    } else {
        AlphaMode::Blend
    }
}

/// The sampler a material with parameters `params` uses.
pub open spec fn spec_sampler(params: TextureParams) -> SamplerDescriptor {
    SamplerDescriptor {
        wrap_s: spec_wrap(bit_field(params.0 as nat, 16, 17) != 0, bit_field(params.0 as nat, 18, 19) != 0),
        wrap_t: spec_wrap(bit_field(params.0 as nat, 17, 18) != 0, bit_field(params.0 as nat, 19, 20) != 0),
    }
}

/// The descriptors after adding material `mat`, connected by `conn`. A
/// material with an image gets its sampler, its image (named in `names`) and
/// the texture made of the two, each added unless already there.
pub open spec fn add_material(db: &Database, names: Seq<(ImageId, Seq<char>)>, st: DescsState, mat: Material,
    conn: MaterialConnection) -> DescsState {
    match conn.spec_image_id() {
        None => DescsState {
            materials: st.materials.push(MaterialDesc { texture: None, alpha_mode: AlphaMode::Opaque }),
            ..st
        },
        Some(id) => {
            let sd = spec_sampler(mat.params);
            let name = image_name_of(names, id)->0;
            let td = TextureDescriptor {
                sampler: entry_index(st.samplers, sd) as usize,
                image: entry_index(st.images, name) as usize,
            };
            let md = MaterialDesc {
                texture: Some(entry_index(st.textures, td) as usize),
                alpha_mode: spec_alpha_mode(db.textures@[id.0 as int].params),
            };
            DescsState {
                materials: st.materials.push(md),
                samplers: with_entry(st.samplers, sd),
                images: with_entry(st.images, name),
                textures: with_entry(st.textures, td),
            }
        },
    }
}

/// The descriptors of the first `n` materials.
pub open spec fn spec_material_descs(db: &Database, names: Seq<(ImageId, Seq<char>)>, mats: Seq<Material>,
    conns: Seq<MaterialConnection>, n: nat) -> DescsState
    decreases n,
{
    if n == 0 || n > mats.len() {
        DescsState { materials: Seq::empty(), samplers: Seq::empty(), images: Seq::empty(), textures: Seq::empty() }
    } else {
        add_material(db, names, spec_material_descs(db, names, mats, conns, (n - 1) as nat), mats[n - 1],
            conns[n - 1])
    }
}

/// The image of every material lies in the database and has a name.
pub open spec fn material_images_named(db: &Database, mat_conns: Seq<MaterialConnection>,
    names: Seq<(ImageId, Seq<char>)>) -> bool {
    forall|i: int| 0 <= i < mat_conns.len() ==> match (#[trigger] mat_conns[i]).spec_image_id() {
        Some(id) => id.0 < db.textures@.len() && has_image(names, id),
        None => true,
    }
}

/// Adding `x` to `s` keeps it free of duplicates, and `x` then sits at
/// `entry_index(s, x)`.
pub proof fn lemma_with_entry<T>(s: Seq<T>, x: T)
    requires
        s.no_duplicates(),
    ensures
        with_entry(s, x).no_duplicates(),
        0 <= entry_index(s, x) < with_entry(s, x).len(),
        with_entry(s, x)[entry_index(s, x)] == x,
        forall|i: int| 0 <= i < s.len() && s[i] == x ==> i == entry_index(s, x),
{
    if s.contains(x) {
        let k = s.index_of(x);
        assert(0 <= k < s.len() && s[k] == x);
    } else {
        let t = s.push(x);
        assert forall|i: int, j: int| 0 <= i < t.len() && 0 <= j < t.len() && i != j implies t[i] != t[j] by {
            if i < s.len() && j < s.len() {
            } else if i < s.len() {
                assert(s.contains(s[i]));
            } else {
                assert(s.contains(s[j]));
            }
        }
    }
}

/// `with_entry` keeps what was there, in place.
pub proof fn lemma_with_entry_keeps<T>(s: Seq<T>, x: T)
    ensures
        with_entry(s, x).len() >= s.len(),
        forall|i: int| 0 <= i < s.len() ==> with_entry(s, x)[i] == s[i],
{
}

/// The material table is consistent: the shared tables hold each entry
/// once, every material has a descriptor, exactly the materials with an
/// image have a texture, and every index points into its table.
pub proof fn lemma_material_descs_consistent(db: &Database, names: Seq<(ImageId, Seq<char>)>,
    mats: Seq<Material>, conns: Seq<MaterialConnection>, n: nat)
    requires
        n <= mats.len(),
        n <= conns.len(),
    ensures
        ({
            let st = spec_material_descs(db, names, mats, conns, n);
            &&& st.samplers.no_duplicates()
            &&& st.images.no_duplicates()
            &&& st.textures.no_duplicates()
            &&& st.materials.len() == n
            &&& forall|i: int| 0 <= i < n ==>
                ((#[trigger] st.materials[i]).texture is Some <==> conns[i].spec_image_id() is Some)
            &&& forall|i: int| 0 <= i < n && (#[trigger] st.materials[i]).texture is Some ==>
                st.materials[i].texture->0 < st.textures.len()
            &&& forall|j: int| 0 <= j < st.textures.len() ==>
                (#[trigger] st.textures[j]).sampler < st.samplers.len() && st.textures[j].image < st.images.len()
        }),
    decreases n,
{
    if n > 0 {
        let m = (n - 1) as nat;
        lemma_material_descs_consistent(db, names, mats, conns, m);
        let prev = spec_material_descs(db, names, mats, conns, m);
        let st = spec_material_descs(db, names, mats, conns, n);
        assert(st == add_material(db, names, prev, mats[m as int], conns[m as int]));
        match conns[m as int].spec_image_id() {
            None => {
                assert forall|i: int| 0 <= i < m implies st.materials[i] == prev.materials[i] by {}
            },
            Some(id) => {
                let sd = spec_sampler(mats[m as int].params);
                let name = image_name_of(names, id)->0;
                lemma_with_entry(prev.samplers, sd);
                lemma_with_entry(prev.images, name);
                lemma_with_entry_keeps(prev.samplers, sd);
                lemma_with_entry_keeps(prev.images, name);
                let td = TextureDescriptor {
                    sampler: entry_index(prev.samplers, sd) as usize,
                    image: entry_index(prev.images, name) as usize,
                };
                lemma_with_entry(prev.textures, td);
                lemma_with_entry_keeps(prev.textures, td);
                assert forall|i: int| 0 <= i < m implies st.materials[i] == prev.materials[i] by {}
                assert forall|j: int| 0 <= j < st.textures.len() implies
                    (#[trigger] st.textures[j]).sampler < st.samplers.len() && st.textures[j].image < st.images.len() by {
                    if j < prev.textures.len() {
                        assert(st.textures[j] == prev.textures[j]);
                    } else {
                        assert(st.textures[j] == td);
                    }
                }
            },
        }
    }
}

/// Finds `x` in `v`, adding it at the end if it is not there; returns its
/// index.
fn sampler_slot(v: &mut Vec<SamplerDescriptor>, x: SamplerDescriptor) -> (r: usize)
    requires
        old(v)@.no_duplicates(),
    ensures
        final(v)@ == with_entry(old(v)@, x),
        r == entry_index(old(v)@, x),
{
    proof { lemma_with_entry(v@, x); }
    let mut i: usize = 0;
    while i < v.len()
        invariant
            v@ == old(v)@,
            v@.no_duplicates(),
            i <= v@.len(),
            forall|j: int| 0 <= j < i ==> v@[j] != x,
        decreases v@.len() - i,
    {
        if v[i] == x {
            proof { lemma_with_entry(v@, x); assert(v@.contains(x)); }
            return i;
        }
        i += 1;
    }
    v.push(x);
    i
}

/// Finds `x` in `v`, adding it at the end if it is not there; returns its
/// index.
fn texture_slot(v: &mut Vec<TextureDescriptor>, x: TextureDescriptor) -> (r: usize)
    requires
        old(v)@.no_duplicates(),
    ensures
        final(v)@ == with_entry(old(v)@, x),
        r == entry_index(old(v)@, x),
{
    proof { lemma_with_entry(v@, x); }
    let mut i: usize = 0;
    while i < v.len()
        invariant
            v@ == old(v)@,
            v@.no_duplicates(),
            i <= v@.len(),
            forall|j: int| 0 <= j < i ==> v@[j] != x,
        decreases v@.len() - i,
    {
        if v[i] == x {
            proof { lemma_with_entry(v@, x); assert(v@.contains(x)); }
            return i;
        }
        i += 1;
    }
    v.push(x);
    i
}

/// Finds `x` in `v`, adding a copy at the end if it is not there; returns
/// its index.
fn image_slot(v: &mut Vec<String>, x: &String) -> (r: usize)
    requires
        old(v)@.map_values(|s: String| s@).no_duplicates(),
    ensures
        final(v)@.map_values(|s: String| s@) == with_entry(old(v)@.map_values(|s: String| s@), x@),
        r == entry_index(old(v)@.map_values(|s: String| s@), x@),
{
    let ghost w = v@.map_values(|s: String| s@);
    proof { lemma_with_entry(w, x@); }
    let mut i: usize = 0;
    while i < v.len()
        invariant
            v@ == old(v)@,
            w == v@.map_values(|s: String| s@),
            w.no_duplicates(),
            i <= v@.len(),
            forall|j: int| 0 <= j < i ==> w[j] != x@,
        decreases v@.len() - i,
    {
        if v[i] == *x {
            proof {
                lemma_with_entry(w, x@);
                assert(w[i as int] == x@);
                assert(w.contains(x@));
            }
            return i;
        }
        i += 1;
    }
    v.push(x.clone());
    assert(v@.map_values(|s: String| s@) =~= w.push(x@));
    i
}

/// The alpha mode a texture with parameters `params` asks for.
fn alpha_mode(params: TextureParams) -> (m: AlphaMode)
    ensures
        m == spec_alpha_mode(params),
{
    match params.format().alpha_type(params) {
        Alpha::Opaque => AlphaMode::Opaque,
        Alpha::Transparent => AlphaMode::Mask,
        Alpha::Translucent => AlphaMode::Blend,
    }
}

/// The material table of a glTF document: for each material the texture it
/// uses and the alpha mode that texture asks for, with the samplers, images
/// and textures the materials share, each once, in first-use order.
pub fn material_descriptors(materials: &Vec<Material>, mat_conns: &Vec<MaterialConnection>, db: &Database,
    image_namer: &ImageNamer) -> (r: MaterialDescs)
    requires
        mat_conns@.len() == materials@.len(),
        material_images_named(db, mat_conns@, names_view(image_namer.names@)),
    ensures
        r.state() == spec_material_descs(db, names_view(image_namer.names@), materials@, mat_conns@,
            materials@.len()),
{
    let ghost names = names_view(image_namer.names@);
    let mut r = MaterialDescs { materials: Vec::new(), samplers: Vec::new(), images: Vec::new(), textures: Vec::new() };
    assert(r.state().images =~= Seq::<Seq<char>>::empty());
    let mut k: usize = 0;
    while k < materials.len()
        invariant
            k <= materials@.len(),
            mat_conns@.len() == materials@.len(),
            names == names_view(image_namer.names@),
            material_images_named(db, mat_conns@, names),
            r.state() == spec_material_descs(db, names, materials@, mat_conns@, k as nat),
            r.samplers@.no_duplicates(),
            r.state().images.no_duplicates(),
            r.textures@.no_duplicates(),
        decreases materials@.len() - k,
    {
        let mat = &materials[k];
        let conn = &mat_conns[k];
        let ghost before = r.state();
        assert(material_images_named(db, mat_conns@, names));
        match conn.image_id() {
            Ok(Some(image_id)) => {
                assert(mat_conns@[k as int].spec_image_id() == Some(image_id));
                let params = db.textures[image_id.0].params;
                let alpha = alpha_mode(params);
                let sd = SamplerDescriptor {
                    wrap_s: wrap(mat.params.repeat_s(), mat.params.mirror_s()),
                    wrap_t: wrap(mat.params.repeat_t(), mat.params.mirror_t()),
                };
                let sampler = sampler_slot(&mut r.samplers, sd);
                proof { lemma_image_name_of_has_image(names, image_id); }
                let name = find_image_name(&image_namer.names, image_id).unwrap();
                proof { lemma_with_entry(before.images, name@); lemma_with_entry(before.samplers, sd); }
                let image = image_slot(&mut r.images, name);
                let td = TextureDescriptor { sampler, image };
                proof { lemma_with_entry(before.textures, td); }
                let texture = texture_slot(&mut r.textures, td);
                r.materials.push(MaterialDesc { texture: Some(texture), alpha_mode: alpha });
            },
            _ => {
                assert(mat_conns@[k as int].spec_image_id() is None);
                r.materials.push(MaterialDesc { texture: None, alpha_mode: AlphaMode::Opaque });
            },
        }
        k += 1;
    }
    r
}

} // verus!
