//! Model connection to textures, animations, etc.
//!
//! Nothing in the Nitro files says which animation applies to which model,
//! or which texture a material that names a texture means. This module holds
//! the heuristics that decide it.

use vstd::prelude::*;
use crate::db::{Database, NameMap, AnimationId, TextureId, PaletteId, ModelId, PatternId, FileId,
    ids_named, texture_names, palette_names, lemma_ids_named};
use crate::errors::ErrorMsg;
use crate::nitro::Name;
use crate::nds::texture_formats::spec_requires_palette;

verus! {

/// A Connection records how all the other resources relate to the models.
pub struct Connection {
    pub models: Vec<ModelConnection>,
}

/// Records for a model (1) what texture/palette each material should use,
/// and (2) which animations and patterns can be applied to it.
pub struct ModelConnection {
    pub materials: Vec<MaterialConnection>,
    /// List of animations that can be applied to the model.
    pub animations: Vec<AnimationId>,
    /// List of patterns that can be applied to the model (and how to apply
    /// them).
    pub patterns: Vec<PatternConnection>,
}

/// Result of resolving which texture/palette a material should use.
pub enum MaterialConnection {
    NoTexture,
    TextureMissing,
    TextureOkNoPalette { texture: Match<TextureId> },
    TextureOkPaletteMissing { texture: Match<TextureId> },
    TextureOkPaletteOk { texture: Match<TextureId>, palette: Match<PaletteId> },
}

/// Result of resolving a texture/palette name to a matching ID.
#[derive(Copy, Clone)]
pub struct Match<T: Copy> {
    pub id: T,
    /// True if the match was the only candidate (high confidence we picked
    /// the correct one).
    pub best: bool,
}

#[derive(Copy, Clone)]
pub struct ConnectionOptions {
    /// Apply all animations to every model.
    pub all_animations: bool,
}

/// Indicates that a model can have the specified pattern applied to it, and
/// what the texture/palette names in that pattern resolve to.
pub struct PatternConnection {
    pub pattern_id: PatternId,
    pub texture_ids: Vec<Option<TextureId>>,
    pub palette_ids: Vec<Option<PaletteId>>,
}

impl MaterialConnection {
    pub open spec fn spec_texture(&self) -> Option<Match<TextureId>> {
        match *self {
            MaterialConnection::NoTexture | MaterialConnection::TextureMissing => None,
            MaterialConnection::TextureOkNoPalette { texture } => Some(texture),
            MaterialConnection::TextureOkPaletteMissing { texture } => Some(texture),
            MaterialConnection::TextureOkPaletteOk { texture, .. } => Some(texture),
        }
    }

    pub fn texture(&self) -> (r: Option<Match<TextureId>>)
        ensures
            r == self.spec_texture(),
    {
        match *self {
            MaterialConnection::NoTexture | MaterialConnection::TextureMissing => None,
            MaterialConnection::TextureOkNoPalette { texture } => Some(texture),
            MaterialConnection::TextureOkPaletteMissing { texture } => Some(texture),
            MaterialConnection::TextureOkPaletteOk { texture, .. } => Some(texture),
        }
    }

    /// Whether resolving the material failed (a texture or palette it names
    /// could not be found).
    pub open spec fn is_unresolved(&self) -> bool {
        self is TextureMissing || self is TextureOkPaletteMissing
    }

    /// The texture/palette pair the material resolved to, if it has one.
    pub open spec fn spec_image_id(&self) -> Option<(TextureId, Option<PaletteId>)> {
        match *self {
            MaterialConnection::TextureOkNoPalette { texture } => Some((texture.id, None)),
            MaterialConnection::TextureOkPaletteOk { texture, palette } => Some((texture.id, Some(palette.id))),
            _ => None,
        }
    }

    /// Produces None if there was no texture, the texture/palette if there
    /// was and everything resolved sucessfully, or an Err if there was any
    /// resolving error.
    pub fn image_id(&self) -> (r: Result<Option<(TextureId, Option<PaletteId>)>, ErrorMsg>)
        ensures
            match r {
                Ok(ids) => !self.is_unresolved() && ids == self.spec_image_id(),
                Err(e) => self.is_unresolved() && e.msg@ == if self is TextureMissing {
                    "texture missing"@
                } else {
                    "palette missing"@
                },
            },
    {
        match *self {
            MaterialConnection::NoTexture => Ok(None),
            MaterialConnection::TextureMissing => Err(ErrorMsg { msg: String::from_str("texture missing") }),
            MaterialConnection::TextureOkNoPalette { texture } => Ok(Some((texture.id, None))),
            MaterialConnection::TextureOkPaletteMissing { .. } => Err(ErrorMsg { msg: String::from_str("palette missing") }),
            MaterialConnection::TextureOkPaletteOk { texture, palette } => Ok(Some((texture.id, Some(palette.id)))),
        }
    }
}

/// The ids filed under `n` (none if the name is not in the table).
pub open spec fn lookup_or_empty(m: NameMap, n: Name) -> Seq<usize> {
    match m.lookup(n) {
        Some(ids) => ids,
        None => Seq::empty(),
    }
}

/// `s` restricted to the elements satisfying `p`, if any does; else `s`.
pub open spec fn prefer(s: Seq<usize>, p: spec_fn(usize) -> bool) -> Seq<usize> {
    if exists|i: int| 0 <= i < s.len() && p(s[i]) { s.filter(p) } else { s }
}

/// Textures whose format does (or does not) require a palette.
pub open spec fn palette_use_is(db: &Database, has_palette: bool) -> spec_fn(usize) -> bool {
    |id: usize| spec_requires_palette(db.textures@[id as int].params.spec_format()) == has_palette
}

/// Resources found in file `file`, given where each one was found.
pub open spec fn found_in_file(found_in: Seq<FileId>, file: FileId) -> spec_fn(usize) -> bool {
    |id: usize| found_in[id as int] == file
}

/// Candidate textures for a material of model `model_id` naming texture
/// `name`: the textures with that name, restricted to those that need a
/// palette when the material names one (and conversely), and then to those
/// from the model's own file if there are any.
pub open spec fn texture_candidates(db: &Database, model_id: ModelId, name: Name, has_palette: bool) -> Seq<usize> {
    prefer(lookup_or_empty(db.textures_by_name, name).filter(palette_use_is(db, has_palette)),
        found_in_file(db.textures_found_in@, db.models_found_in@[model_id as int]))
}

/// Candidate palettes named `name` for texture `tex_id`: those with that
/// name, restricted to the texture's own file if there are any there.
pub open spec fn palette_candidates(db: &Database, tex_id: TextureId, name: Name) -> Seq<usize> {
    prefer(lookup_or_empty(db.palettes_by_name, name),
        found_in_file(db.palettes_found_in@, db.textures_found_in@[tex_id as int]))
}

/// The first of the candidates, marked best when it was the only one.
pub open spec fn first_match(c: Seq<usize>) -> Match<usize> {
    Match { id: c[0], best: c.len() == 1 }
}

/// How material `material_idx` of model `model_id` resolves.
pub open spec fn spec_resolve_material(db: &Database, model_id: ModelId, material_idx: usize) -> MaterialConnection {
    let material = db.models@[model_id as int].materials@[material_idx as int];
    match material.texture_name {
        None => MaterialConnection::NoTexture,
        Some(texture_name) => {
            let has_palette = material.palette_name is Some;
            let tc = texture_candidates(db, model_id, texture_name, has_palette);
            if tc.len() == 0 {
                MaterialConnection::TextureMissing
            } else if !has_palette {
                MaterialConnection::TextureOkNoPalette { texture: first_match(tc) }
            } else {
                let pc = palette_candidates(db, tc[0], material.palette_name.unwrap());
                if pc.len() == 0 {
                    MaterialConnection::TextureOkPaletteMissing { texture: first_match(tc) }
                } else {
                    MaterialConnection::TextureOkPaletteOk { texture: first_match(tc), palette: first_match(pc) }
                }
            }
        },
    }
}

/// The first preferred candidate is a candidate, and it has the preferred
/// property whenever some candidate has it.
proof fn lemma_prefer_first(s: Seq<usize>, p: spec_fn(usize) -> bool)
    requires
        prefer(s, p).len() > 0,
    ensures
        s.contains(prefer(s, p)[0]),
        (exists|i: int| 0 <= i < s.len() && p(s[i])) ==> p(prefer(s, p)[0]),
{
    broadcast use vstd::seq_lib::group_filter_ensures;
    if exists|i: int| 0 <= i < s.len() && p(s[i]) {
        let f = s.filter(p);
        assert(f.contains(f[0]));
        s.lemma_filter_contains_rev(p, f[0]);
    } else {
        assert(s[0] == prefer(s, p)[0]);
    }
}

/// What a material resolves to, in terms of the database: its texture has
/// the material's texture name and needs a palette exactly when the material
/// names one, and comes from the model's own file whenever such a texture
/// exists there; its palette has the material's palette name, and comes
/// from the texture's own file whenever a palette of that name was found
/// there (the others are passed over).
pub proof fn lemma_resolved_material(db: &Database, model_id: ModelId, material_idx: usize)
    ensures
        ({
            let mat = db.models@[model_id as int].materials@[material_idx as int];
            let r = spec_resolve_material(db, model_id, material_idx);
            &&& r.spec_texture() matches Some(t) ==> {
                let named = lookup_or_empty(db.textures_by_name, mat.texture_name->0);
                &&& mat.texture_name is Some
                &&& named.contains(t.id)
                &&& spec_requires_palette(db.textures@[t.id as int].params.spec_format()) == (mat.palette_name is Some)
                &&& (exists|j: int| 0 <= j < named.len()
                        && spec_requires_palette(db.textures@[named[j] as int].params.spec_format())
                            == (mat.palette_name is Some)
                        && db.textures_found_in@[named[j] as int] == db.models_found_in@[model_id as int])
                    ==> db.textures_found_in@[t.id as int] == db.models_found_in@[model_id as int]
            }
            &&& r matches MaterialConnection::TextureOkPaletteOk { texture, palette } ==> {
                let named = lookup_or_empty(db.palettes_by_name, mat.palette_name->0);
                &&& mat.palette_name is Some
                &&& named.contains(palette.id)
                &&& (exists|j: int| 0 <= j < named.len()
                        && db.palettes_found_in@[named[j] as int] == db.textures_found_in@[texture.id as int])
                    ==> db.palettes_found_in@[palette.id as int] == db.textures_found_in@[texture.id as int]
            }
        }),
{
    broadcast use vstd::seq_lib::group_filter_ensures;
    let mat = db.models@[model_id as int].materials@[material_idx as int];
    if let Some(texture_name) = mat.texture_name {
        let has_palette = mat.palette_name is Some;
        let named = lookup_or_empty(db.textures_by_name, texture_name);
        let pu = palette_use_is(db, has_palette);
        let fitting = named.filter(pu);
        let pf = found_in_file(db.textures_found_in@, db.models_found_in@[model_id as int]);
        let tc = texture_candidates(db, model_id, texture_name, has_palette);
        if tc.len() > 0 {
            lemma_prefer_first(fitting, pf);
            assert(fitting.contains(tc[0]));
            named.lemma_filter_contains_rev(pu, tc[0]);
            if exists|j: int| 0 <= j < named.len() && pu(named[j]) && pf(named[j]) {
                let j = choose|j: int| 0 <= j < named.len() && pu(named[j]) && pf(named[j]);
                assert(fitting.contains(named[j]));
                let i = choose|i: int| 0 <= i < fitting.len() && fitting[i] == named[j];
                assert(pf(fitting[i]));
            }
            if has_palette {
                let pname = mat.palette_name->0;
                let pnamed = lookup_or_empty(db.palettes_by_name, pname);
                let pc = palette_candidates(db, tc[0], pname);
                if pc.len() > 0 {
                    lemma_prefer_first(pnamed, found_in_file(db.palettes_found_in@, db.textures_found_in@[tc[0] as int]));
                }
            }
        }
    }
}

/// Whether `model_id` and `material_idx` name a material of the database.
pub open spec fn valid_material(db: &Database, model_id: ModelId, material_idx: usize) -> bool {
    model_id < db.models@.len() && material_idx < db.models@[model_id as int].materials@.len()
}

/// The ids filed in a well-formed table all index its resources.
proof fn lemma_table_ids(m: NameMap, names: Seq<Name>, n: Name)
    requires
        names.len() <= usize::MAX,
        forall|x: Name| #[trigger] m.lookup(x) == crate::db::appended_lookup(None, ids_named(names, x)),
    ensures
        forall|k: int| 0 <= k < lookup_or_empty(m, n).len() ==> (#[trigger] lookup_or_empty(m, n)[k]) < names.len(),
        m.lookup(n) matches Some(ids) ==> ids.len() > 0,
{
    lemma_ids_named(names, n);
    assert(m.lookup(n) == crate::db::appended_lookup(None, ids_named(names, n)));
}

/// The candidates among `cands` whose format's use of a palette matches.
fn keep_palette_use(db: &Database, cands: &Vec<usize>, has_palette: bool) -> (r: Vec<usize>)
    requires
        forall|k: int| 0 <= k < cands@.len() ==> #[trigger] cands@[k] < db.textures@.len(),
    ensures
        r@ == cands@.filter(palette_use_is(db, has_palette)),
        forall|k: int| 0 <= k < r@.len() ==> #[trigger] r@[k] < db.textures@.len(),
{
    broadcast use vstd::seq_lib::group_filter_ensures;
    let mut r: Vec<usize> = Vec::new();
    for i in 0..cands.len()
        invariant
            forall|k: int| 0 <= k < cands@.len() ==> #[trigger] cands@[k] < db.textures@.len(),
            r@ == cands@.take(i as int).filter(palette_use_is(db, has_palette)),
    {
        let tex_id = cands[i];
        let requires_palette = db.textures[tex_id].params.format().desc().requires_palette;
        proof {
            cands@.take(i as int).lemma_filter_push(tex_id, palette_use_is(db, has_palette));
            assert(cands@.take(i + 1) =~= cands@.take(i as int).push(tex_id));
        }
        if requires_palette == has_palette {
            r.push(tex_id);
        }
    }
    assert(cands@.take(cands@.len() as int) =~= cands@);
    proof {
        assert forall|k: int| 0 <= k < r@.len() implies #[trigger] r@[k] < db.textures@.len() by {
            assert(r@.contains(r@[k]));
            cands@.lemma_filter_contains_rev(palette_use_is(db, has_palette), r@[k]);
        }
    }
    r
}

/// `prefer(cands, found in file)`, for ids indexing `found_in`.
fn prefer_in_file(cands: Vec<usize>, found_in: &Vec<FileId>, file: FileId) -> (r: Vec<usize>)
    requires
        forall|k: int| 0 <= k < cands@.len() ==> #[trigger] cands@[k] < found_in@.len(),
    ensures
        r@ == prefer(cands@, found_in_file(found_in@, file)),
        forall|k: int| 0 <= k < r@.len() ==> #[trigger] r@[k] < found_in@.len(),
{
    broadcast use vstd::seq_lib::group_filter_ensures;
    let ghost p = found_in_file(found_in@, file);
    let mut any = false;
    for i in 0..cands.len()
        invariant
            forall|k: int| 0 <= k < cands@.len() ==> #[trigger] cands@[k] < found_in@.len(),
            p == found_in_file(found_in@, file),
            any == exists|k: int| 0 <= k < i && p(cands@[k]),
    {
        if found_in[cands[i]] == file {
            any = true;
        }
    }
    if !any {
        return cands;
    }
    let mut r: Vec<usize> = Vec::new();
    for i in 0..cands.len()
        invariant
            forall|k: int| 0 <= k < cands@.len() ==> #[trigger] cands@[k] < found_in@.len(),
            p == found_in_file(found_in@, file),
            r@ == cands@.take(i as int).filter(p),
    {
        let id = cands[i];
        proof {
            cands@.take(i as int).lemma_filter_push(id, p);
            assert(cands@.take(i + 1) =~= cands@.take(i as int).push(id));
        }
        if found_in[id] == file {
            r.push(id);
        }
    }
    assert(cands@.take(cands@.len() as int) =~= cands@);
    proof {
        assert forall|k: int| 0 <= k < r@.len() implies #[trigger] r@[k] < found_in@.len() by {
            assert(r@.contains(r@[k]));
            cands@.lemma_filter_contains_rev(p, r@[k]);
        }
    }
    r
}

/// A copy of the ids filed under `n`, or none.
fn lookup_ids(m: &NameMap, n: &Name) -> (r: Vec<usize>)
    requires
        m.wf(),
    ensures
        r@ == lookup_or_empty(*m, *n),
{
    match m.get(n) {
        Some(ids) => ids.clone(),
        None => Vec::new(),
    }
}

/// To resolve a material's texture: the model stores the texture name, so
/// the candidates are the textures with that name. If the material names a
/// palette, textures that don't use one are discarded, and conversely. Then
/// if some candidates are in the same file as the model, only those are
/// kept, and the first one is taken (noting whether it was the only one).
/// Palettes are resolved the same way, preferring those in the texture's
/// file.
fn resolve_material(db: &Database, model_id: ModelId, material_idx: usize) -> (r: MaterialConnection)
    requires
        db.wf(),
        valid_material(db, model_id, material_idx),
    ensures
        r == spec_resolve_material(db, model_id, material_idx),
{
    let material = &db.models[model_id].materials[material_idx];

    let texture_name = match material.texture_name {
        None => return MaterialConnection::NoTexture,
        Some(ref name) => name,
    };
    let has_palette = material.palette_name.is_some();

    // Resolve the texture name. Start with all textures with the right name.
    proof { lemma_table_ids(db.textures_by_name, texture_names(db.textures@), *texture_name); }
    let candidates = lookup_ids(&db.textures_by_name, texture_name);

    // If the material specifies a palette, discard candidates that don't use
    // one, and conversely.
    let candidates = keep_palette_use(db, &candidates, has_palette);

    // If there are candidates in the same file as the model we prefer them.
    let candidates = prefer_in_file(candidates, &db.textures_found_in, db.models_found_in[model_id]);

    if candidates.len() == 0 {
        return MaterialConnection::TextureMissing;
    }
    let texture_match = Match { id: candidates[0], best: candidates.len() == 1 };

    // If there was no palette, we're done!
    if !has_palette {
        return MaterialConnection::TextureOkNoPalette { texture: texture_match };
    }

    // Otherwise, resolve the palette. Start with candidates that have the
    // right name.
    let palette_name = match material.palette_name {
        Some(ref name) => name,
        None => return MaterialConnection::TextureOkNoPalette { texture: texture_match },
    };
    proof { lemma_table_ids(db.palettes_by_name, palette_names(db.palettes@), *palette_name); }
    let candidates_pal = lookup_ids(&db.palettes_by_name, palette_name);

    // If there are candidates in the same file as the texture we prefer them.
    let texture_file = db.textures_found_in[texture_match.id];
    let candidates_pal = prefer_in_file(candidates_pal, &db.palettes_found_in, texture_file);

    if candidates_pal.len() == 0 {
        return MaterialConnection::TextureOkPaletteMissing { texture: texture_match };
    }
    let palette_match = Match { id: candidates_pal[0], best: candidates_pal.len() == 1 };

    MaterialConnection::TextureOkPaletteOk { texture: texture_match, palette: palette_match }
}

/// The ids `0..n` in order.
pub open spec fn id_range(n: nat) -> Seq<usize> {
    Seq::new(n, |i: int| i as usize)
}

/// Animations applying to a model with `num_objects` objects: those with
/// curves for exactly that many objects.
pub open spec fn same_object_count(db: &Database, num_objects: nat) -> spec_fn(usize) -> bool {
    |id: usize| db.animations@[id as int].num_objects_curves == num_objects
}

/// The animations that apply to model `model_id`: all of them if the
/// options say so, otherwise those that animate as many objects as the
/// model has.
pub open spec fn spec_applicable_animations(db: &Database, model_id: ModelId, options: ConnectionOptions) -> Seq<usize> {
    if options.all_animations {
        id_range(db.animations@.len())
    } else {
        id_range(db.animations@.len()).filter(same_object_count(db, db.models@[model_id as int].objects@.len()))
    }
}

/// To determine which animations apply: an animation varies the model's
/// object matrices, so it applies to a model if it animates as many objects
/// as the model has. This gives false positives (models with the same
/// number of objects share animations) and some false negatives, so the user
/// can instead apply every animation to every model.
fn find_applicable_animations(db: &Database, model_id: ModelId, options: ConnectionOptions) -> (r: Vec<AnimationId>)
    requires
        model_id < db.models@.len(),
    ensures
        r@ == spec_applicable_animations(db, model_id, options),
{
    broadcast use vstd::seq_lib::group_filter_ensures;
    let mut r: Vec<AnimationId> = Vec::new();
    let n = db.animations.len();
    if options.all_animations {
        for i in 0..n
            invariant
                n == db.animations@.len(),
                r@ == id_range(i as nat),
        {
            r.push(i);
            assert(r@ =~= id_range((i + 1) as nat));
        }
        return r;
    }

    // Only animations with the same number of objects apply.
    let num_model_objs = db.models[model_id].objects.len();
    let ghost p = same_object_count(db, num_model_objs as nat);
    for anim_id in 0..n
        invariant
            n == db.animations@.len(),
            p == same_object_count(db, num_model_objs as nat),
            r@ == id_range(n as nat).take(anim_id as int).filter(p),
    {
        proof {
            id_range(n as nat).take(anim_id as int).lemma_filter_push(anim_id, p);
            assert(id_range(n as nat).take(anim_id + 1) =~= id_range(n as nat).take(anim_id as int).push(anim_id));
        }
        let num_anim_objs = db.animations[anim_id].num_objects_curves;
        if num_anim_objs == num_model_objs {
            r.push(anim_id);
        }
    }
    assert(id_range(n as nat).take(n as int) =~= id_range(n as nat));
    r
}

/// The first id filed under a name, if any.
pub open spec fn first_id(o: Option<Seq<usize>>) -> Option<usize> {
    match o {
        Some(ids) => Some(ids[0]),
        None => None,
    }
}

/// For each name, the first id filed under it in `m`.
pub open spec fn first_ids(m: NameMap, names: Seq<Name>) -> Seq<Option<usize>> {
    names.map_values(|n: Name| first_id(m.lookup(n)))
}

/// Whether `pc` says pattern `pattern_id` applies, with each of its texture
/// and palette names resolved to the first texture (palette) of that name.
pub open spec fn is_pattern_connection(db: &Database, pattern_id: PatternId, pc: PatternConnection) -> bool {
    &&& pc.pattern_id == pattern_id
    &&& pc.texture_ids@ == first_ids(db.textures_by_name, db.patterns@[pattern_id as int].texture_names@)
    &&& pc.palette_ids@ == first_ids(db.palettes_by_name, db.patterns@[pattern_id as int].palette_names@)
}

/// The first id filed under each name.
fn resolve_names(m: &NameMap, names: &Vec<Name>) -> (r: Vec<Option<usize>>)
    requires
        m.wf(),
        forall|n: Name| #[trigger] m.lookup(n) matches Some(ids) ==> ids.len() > 0,
    ensures
        r@ == first_ids(*m, names@),
{
    let mut r: Vec<Option<usize>> = Vec::new();
    for i in 0..names.len()
        invariant
            m.wf(),
            forall|n: Name| #[trigger] m.lookup(n) matches Some(ids) ==> ids.len() > 0,
            r@ == first_ids(*m, names@.take(i as int)),
    {
        let ghost n = names@[i as int];
        let id = match m.get(&names[i]) {
            Some(ids) => {
                assert(m.lookup(n) matches Some(x) && x.len() > 0);
                Some(ids[0])
            },
            None => None,
        };
        r.push(id);
        assert(r@ =~= first_ids(*m, names@.take(i + 1)));
    }
    assert(names@.take(names@.len() as int) =~= names@);
    r
}

/// To determine which patterns apply: currently all of them apply to every
/// model, their names resolved to the first texture or palette with that
/// name.
fn find_applicable_patterns(db: &Database, model_id: ModelId) -> (r: Vec<PatternConnection>)
    requires
        db.wf(),
    ensures
        r@.len() == db.patterns@.len(),
        forall|i: int| 0 <= i < r@.len() ==> is_pattern_connection(db, i as usize, #[trigger] r@[i]),
{
    proof { lemma_db_tables_nonempty(db); }
    let mut r: Vec<PatternConnection> = Vec::new();
    for pattern_id in 0..db.patterns.len()
        invariant
            db.wf(),
            forall|n: Name| #[trigger] db.textures_by_name.lookup(n) matches Some(ids) ==> ids.len() > 0,
            forall|n: Name| #[trigger] db.palettes_by_name.lookup(n) matches Some(ids) ==> ids.len() > 0,
            r@.len() == pattern_id,
            forall|i: int| 0 <= i < r@.len() ==> is_pattern_connection(db, i as usize, #[trigger] r@[i]),
    {
        let pattern = &db.patterns[pattern_id];
        let texture_ids = resolve_names(&db.textures_by_name, &pattern.texture_names);
        let palette_ids = resolve_names(&db.palettes_by_name, &pattern.palette_names);
        r.push(PatternConnection { pattern_id, texture_ids, palette_ids });
    }
    r
}

/// Every name filed in the database's tables has at least one id.
pub(crate) proof fn lemma_db_tables_nonempty(db: &Database)
    requires
        db.wf(),
    ensures
        forall|n: Name| #[trigger] db.textures_by_name.lookup(n) matches Some(ids) ==> ids.len() > 0,
        forall|n: Name| #[trigger] db.palettes_by_name.lookup(n) matches Some(ids) ==> ids.len() > 0,
{
    assert forall|n: Name| #[trigger] db.textures_by_name.lookup(n) matches Some(ids) ==> ids.len() > 0 by {
        assert(db.textures_by_name.lookup(n) == crate::db::appended_lookup(None,
            ids_named(texture_names(db.textures@), n)));
    }
    assert forall|n: Name| #[trigger] db.palettes_by_name.lookup(n) matches Some(ids) ==> ids.len() > 0 by {
        assert(db.palettes_by_name.lookup(n) == crate::db::appended_lookup(None,
            ids_named(palette_names(db.palettes@), n)));
    }
}

/// Whether `mc` is how model `model_id` connects: each material resolved,
/// the applicable animations and every pattern.
pub open spec fn is_model_connection(db: &Database, model_id: ModelId, options: ConnectionOptions,
    mc: ModelConnection) -> bool {
    &&& mc.materials@.len() == db.models@[model_id as int].materials@.len()
    &&& forall|j: int| 0 <= j < mc.materials@.len() ==>
        #[trigger] mc.materials@[j] == spec_resolve_material(db, model_id, j as usize)
    &&& mc.animations@ == spec_applicable_animations(db, model_id, options)
    &&& mc.patterns@.len() == db.patterns@.len()
    &&& forall|i: int| 0 <= i < mc.patterns@.len() ==> is_pattern_connection(db, i as usize, #[trigger] mc.patterns@[i])
}

impl Connection {
    /// Connects every model of the database to its textures, animations and
    /// patterns.
    pub fn build(db: &Database, options: ConnectionOptions) -> (c: Connection)
        requires
            db.wf(),
        ensures
            c.models@.len() == db.models@.len(),
            forall|m: int| 0 <= m < c.models@.len() ==> is_model_connection(db, m as usize, options,
                #[trigger] c.models@[m]),
    {
        let mut models: Vec<ModelConnection> = Vec::new();
        for model_id in 0..db.models.len()
            invariant
                db.wf(),
                models@.len() == model_id,
                forall|m: int| 0 <= m < models@.len() ==> is_model_connection(db, m as usize, options,
                    #[trigger] models@[m]),
        {
            let num_materials = db.models[model_id].materials.len();
            let mut materials: Vec<MaterialConnection> = Vec::new();
            for material_id in 0..num_materials
                invariant
                    db.wf(),
                    model_id < db.models@.len(),
                    num_materials == db.models@[model_id as int].materials@.len(),
                    materials@.len() == material_id,
                    forall|j: int| 0 <= j < materials@.len() ==>
                        #[trigger] materials@[j] == spec_resolve_material(db, model_id, j as usize),
            {
                let mat_conn = resolve_material(db, model_id, material_id);
                materials.push(mat_conn);
            }

            let animations = find_applicable_animations(db, model_id, options);
            let patterns = find_applicable_patterns(db, model_id);
            models.push(ModelConnection { materials, animations, patterns });
        }
        Connection { models }
    }
}

/// A material resolves, if at all, to a texture (and palette) of the
/// database.
pub proof fn lemma_resolved_image_in_range(db: &Database, model_id: ModelId, material_idx: usize)
    requires
        db.wf(),
        valid_material(db, model_id, material_idx),
    ensures
        spec_resolve_material(db, model_id, material_idx).spec_image_id() matches Some(id)
            ==> id.0 < db.textures@.len(),
{
    broadcast use vstd::seq_lib::group_filter_ensures;
    let material = db.models@[model_id as int].materials@[material_idx as int];
    if let Some(name) = material.texture_name {
        let has_palette = material.palette_name is Some;
        let all = lookup_or_empty(db.textures_by_name, name);
        let kept = all.filter(palette_use_is(db, has_palette));
        let tc = texture_candidates(db, model_id, name, has_palette);
        if tc.len() > 0 {
            lemma_table_ids(db.textures_by_name, texture_names(db.textures@), name);
            let x = tc[0];
            assert(tc.contains(x));
            let q = found_in_file(db.textures_found_in@, db.models_found_in@[model_id as int]);
            if exists|i: int| 0 <= i < kept.len() && q(kept[i]) {
                assert(kept.filter(q).contains(x));
                kept.lemma_filter_contains_rev(q, x);
            }
            assert(kept.contains(x));
            all.lemma_filter_contains_rev(palette_use_is(db, has_palette), x);
            assert(all.contains(x));
            let k = choose|k: int| 0 <= k < all.len() && all[k] == x;
            assert(all[k] < db.textures@.len());
        }
    }
}

/// The first id filed under each of the names of a well-formed table
/// indexes an item of the table.
pub proof fn lemma_first_ids_in_range(m: NameMap, items: Seq<Name>, names: Seq<Name>)
    requires
        items.len() <= usize::MAX,
        forall|x: Name| #[trigger] m.lookup(x) == crate::db::appended_lookup(None, ids_named(items, x)),
    ensures
        forall|i: int| 0 <= i < names.len() ==>
            (#[trigger] first_ids(m, names)[i] matches Some(id) ==> id < items.len()),
{
    assert forall|i: int| 0 <= i < names.len() implies
        (#[trigger] first_ids(m, names)[i] matches Some(id) ==> id < items.len()) by {
        lemma_table_ids(m, items, names[i]);
        if let Some(ids) = m.lookup(names[i]) {
            assert(lookup_or_empty(m, names[i]) == ids);
            assert(ids[0] == lookup_or_empty(m, names[i])[0]);
        }
    }
}

} // verus!
