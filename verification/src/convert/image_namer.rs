//! Discovers images in a Connection and assigns them names. We use these for
//! image filenames so that models know what the path to a specific image it
//! uses will be.

use vstd::prelude::*;
use crate::db::{Database, TextureId, PaletteId};
use crate::connection::{Connection, ConnectionOptions, ModelConnection, MaterialConnection, PatternConnection,
    is_model_connection, lemma_resolved_image_in_range, lemma_first_ids_in_range};
use crate::db::{texture_names, palette_names, ids_named};
use crate::nitro::{PatternKeyframe, MaterialTrack, append_pl, appended_pl, print_safe_text, Name};
use crate::nds::texture_formats::spec_requires_palette;
use crate::util::namers::{UniqueNamer, free_name, lemma_free_name, lemma_picked_names_distinct};

verus! {

/// A texture, with the palette it is drawn with if it needs one.
pub type ImageId = (TextureId, Option<PaletteId>);

/// The names picked so far, what the namer has handed out, and which
/// textures have an image.
pub struct NamerState {
    pub names: Seq<(ImageId, Seq<char>)>,
    pub taken: Seq<Seq<char>>,
    pub used: Seq<bool>,
}

/// Whether `names` has an entry for `id`.
pub open spec fn has_image(names: Seq<(ImageId, Seq<char>)>, id: ImageId) -> bool {
    exists|i: int| 0 <= i < names.len() && (#[trigger] names[i]).0 == id
}

/// The state after adding the image `id`: a new image is named after its
/// texture, made unique; an image already named keeps its name. Either way
/// its texture counts as used.
pub open spec fn insert_one(db: &Database, st: NamerState, id: ImageId) -> NamerState {
    let used = st.used.update(id.0 as int, true);
    if has_image(st.names, id) {
        NamerState { used, ..st }
    } else {
        let name = free_name(print_safe_text(db.textures@[id.0 as int].name.0@), st.taken);
        NamerState { names: st.names.push((id, name)), taken: st.taken.push(name), used }
    }
}

/// The state after adding the images of the materials `mats`, in order.
pub open spec fn add_materials(db: &Database, st: NamerState, mats: Seq<MaterialConnection>) -> NamerState
    decreases mats.len(),
{
    if mats.len() == 0 {
        st
    } else {
        let st1 = add_materials(db, st, mats.drop_last());
        match mats.last().spec_image_id() {
            Some(id) => insert_one(db, st1, id),
            None => st1,
        }
    }
}

/// The state after adding the images of the materials of the models `mdls`.
pub open spec fn add_model_materials(db: &Database, st: NamerState, mdls: Seq<ModelConnection>) -> NamerState
    decreases mdls.len(),
{
    if mdls.len() == 0 {
        st
    } else {
        add_materials(db, add_model_materials(db, st, mdls.drop_last()), mdls.last().materials@)
    }
}

/// The image a pattern keyframe shows, if both its texture and its palette
/// resolved.
pub open spec fn keyframe_image(pc: PatternConnection, kf: PatternKeyframe) -> Option<ImageId> {
    match (pc.texture_ids@[kf.texture_idx as int], pc.palette_ids@[kf.palette_idx as int]) {
        (Some(t), Some(p)) => Some((t, Some(p))),
        _ => None,
    }
}

pub open spec fn add_keyframes(db: &Database, st: NamerState, pc: PatternConnection, kfs: Seq<PatternKeyframe>)
    -> NamerState
    decreases kfs.len(),
{
    if kfs.len() == 0 {
        st
    } else {
        let st1 = add_keyframes(db, st, pc, kfs.drop_last());
        match keyframe_image(pc, kfs.last()) {
            Some(id) => insert_one(db, st1, id),
            None => st1,
        }
    }
}

pub open spec fn add_tracks(db: &Database, st: NamerState, pc: PatternConnection, tracks: Seq<MaterialTrack>)
    -> NamerState
    decreases tracks.len(),
{
    if tracks.len() == 0 {
        st
    } else {
        add_keyframes(db, add_tracks(db, st, pc, tracks.drop_last()), pc, tracks.last().keyframes@)
    }
}

pub open spec fn add_patterns(db: &Database, st: NamerState, pcs: Seq<PatternConnection>) -> NamerState
    decreases pcs.len(),
{
    if pcs.len() == 0 {
        st
    } else {
        let pc = pcs.last();
        add_tracks(db, add_patterns(db, st, pcs.drop_last()), pc, db.patterns@[pc.pattern_id as int].material_tracks@)
    }
}

/// The state after adding the images the pattern animations of the models
/// `mdls` show.
pub open spec fn add_model_patterns(db: &Database, st: NamerState, mdls: Seq<ModelConnection>) -> NamerState
    decreases mdls.len(),
{
    if mdls.len() == 0 {
        st
    } else {
        add_patterns(db, add_model_patterns(db, st, mdls.drop_last()), mdls.last().patterns@)
    }
}

/// A pattern connection can be followed into the database: its pattern
/// exists, each keyframe's indices pick one of the resolved names, and each
/// resolved texture exists.
pub open spec fn pattern_fits(db: &Database, pc: PatternConnection) -> bool {
    &&& pc.pattern_id < db.patterns@.len()
    &&& forall|t: int| 0 <= t < pc.texture_ids@.len() ==>
        (#[trigger] pc.texture_ids@[t] matches Some(id) ==> id < db.textures@.len())
    &&& forall|t: int, k: int|
        #![trigger db.patterns@[pc.pattern_id as int].material_tracks@[t].keyframes@[k]]
        0 <= t < db.patterns@[pc.pattern_id as int].material_tracks@.len()
        && 0 <= k < db.patterns@[pc.pattern_id as int].material_tracks@[t].keyframes@.len() ==> {
            let kf = db.patterns@[pc.pattern_id as int].material_tracks@[t].keyframes@[k];
            &&& (kf.texture_idx as int) < pc.texture_ids@.len()
            &&& (kf.palette_idx as int) < pc.palette_ids@.len()
        }
}

/// Every image a connection names can be looked up in the database.
pub open spec fn conn_fits(db: &Database, conn: &Connection) -> bool {
    &&& forall|m: int, k: int| #![trigger conn.models@[m].materials@[k]]
        0 <= m < conn.models@.len() && 0 <= k < conn.models@[m].materials@.len() ==>
        (conn.models@[m].materials@[k].spec_image_id() matches Some(id) ==> id.0 < db.textures@.len())
    &&& forall|m: int, p: int| #![trigger conn.models@[m].patterns@[p]]
        0 <= m < conn.models@.len() && 0 <= p < conn.models@[m].patterns@.len() ==>
        pattern_fits(db, conn.models@[m].patterns@[p])
}

/// The names of the images of `names`.
pub open spec fn names_view(names: Seq<(ImageId, String)>) -> Seq<(ImageId, Seq<char>)> {
    names.map_values(|e: (ImageId, String)| (e.0, e.1@))
}

pub struct ImageNamer {
    pub namer: UniqueNamer,
    pub names: Vec<(ImageId, String)>,
    pub used_texture_ids: Vec<bool>,
}

impl ImageNamer {
    /// The namer's state.
    pub open spec fn state(&self) -> NamerState {
        NamerState { names: names_view(self.names@), taken: self.namer.taken(), used: self.used_texture_ids@ }
    }

    pub fn build(db: &Database, conn: &Connection) -> (image_namer: ImageNamer)
        requires
            conn_fits(db, conn),
        ensures
            image_namer.state() == add_model_patterns(db,
                add_model_materials(db, initial_state(db), conn.models@), conn.models@),
            names_unique(image_namer.state()),
    {
        proof { lemma_build_names_unique(db, conn); }
        let mut image_namer = ImageNamer {
            namer: UniqueNamer::new(),
            names: Vec::new(),
            used_texture_ids: vec_of_false(db.textures.len()),
        };
        assert(image_namer.state().names =~= initial_state(db).names);

        // Discover images from model materials
        let mut m: usize = 0;
        while m < conn.models.len()
            invariant
                conn_fits(db, conn),
                m <= conn.models@.len(),
                image_namer.used_texture_ids@.len() == db.textures@.len(),
                image_namer.state() == add_model_materials(db, initial_state(db), conn.models@.take(m as int)),
            decreases conn.models@.len() - m,
        {
            let mdl_conn = &conn.models[m];
            let ghost st0 = image_namer.state();
            let mut k: usize = 0;
            while k < mdl_conn.materials.len()
                invariant
                    conn_fits(db, conn),
                    m < conn.models@.len(),
                    *mdl_conn == conn.models@[m as int],
                    k <= mdl_conn.materials@.len(),
                    image_namer.used_texture_ids@.len() == db.textures@.len(),
                    image_namer.state() == add_materials(db, st0, mdl_conn.materials@.take(k as int)),
                decreases mdl_conn.materials@.len() - k,
            {
                let mat_conn = &mdl_conn.materials[k];
                assert(mdl_conn.materials@.take(k + 1).drop_last() =~= mdl_conn.materials@.take(k as int));
                assert(conn.models@[m as int].materials@[k as int] == *mat_conn);
                match mat_conn.image_id() {
                    Ok(Some(image_id)) => image_namer.insert_image_id(db, image_id),
                    _ => {},
                }
                k += 1;
            }
            assert(mdl_conn.materials@.take(k as int) =~= mdl_conn.materials@);
            assert(conn.models@.take(m + 1).drop_last() =~= conn.models@.take(m as int));
            m += 1;
        }
        assert(conn.models@.take(m as int) =~= conn.models@);

        // Discover images from pattern animations
        let ghost st_mats = image_namer.state();
        let mut m: usize = 0;
        while m < conn.models.len()
            invariant
                conn_fits(db, conn),
                m <= conn.models@.len(),
                image_namer.used_texture_ids@.len() == db.textures@.len(),
                image_namer.state() == add_model_patterns(db, st_mats, conn.models@.take(m as int)),
            decreases conn.models@.len() - m,
        {
            let mdl_conn = &conn.models[m];
            let ghost st0 = image_namer.state();
            let mut p: usize = 0;
            while p < mdl_conn.patterns.len()
                invariant
                    conn_fits(db, conn),
                    m < conn.models@.len(),
                    *mdl_conn == conn.models@[m as int],
                    p <= mdl_conn.patterns@.len(),
                    image_namer.used_texture_ids@.len() == db.textures@.len(),
                    image_namer.state() == add_patterns(db, st0, mdl_conn.patterns@.take(p as int)),
                decreases mdl_conn.patterns@.len() - p,
            {
                let pat_conn = &mdl_conn.patterns[p];
                assert(conn.models@[m as int].patterns@[p as int] == *pat_conn);
                assert(pattern_fits(db, *pat_conn));
                assert(mdl_conn.patterns@.take(p + 1).drop_last() =~= mdl_conn.patterns@.take(p as int));
                image_namer.add_pattern_images(db, pat_conn);
                p += 1;
            }
            assert(mdl_conn.patterns@.take(p as int) =~= mdl_conn.patterns@);
            assert(conn.models@.take(m + 1).drop_last() =~= conn.models@.take(m as int));
            m += 1;
        }
        assert(conn.models@.take(m as int) =~= conn.models@);
        image_namer
    }

    /// Adds the images the keyframes of pattern connection `pat_conn` show.
    fn add_pattern_images(&mut self, db: &Database, pat_conn: &PatternConnection)
        requires
            pattern_fits(db, *pat_conn),
            old(self).used_texture_ids@.len() == db.textures@.len(),
        ensures
            final(self).used_texture_ids@.len() == db.textures@.len(),
            final(self).state() == add_tracks(db, old(self).state(), *pat_conn,
                db.patterns@[pat_conn.pattern_id as int].material_tracks@),
    {
        let pat = &db.patterns[pat_conn.pattern_id];
        let ghost st0 = self.state();
        let mut t: usize = 0;
        while t < pat.material_tracks.len()
            invariant
                pattern_fits(db, *pat_conn),
                *pat == db.patterns@[pat_conn.pattern_id as int],
                t <= pat.material_tracks@.len(),
                self.used_texture_ids@.len() == db.textures@.len(),
                self.state() == add_tracks(db, st0, *pat_conn, pat.material_tracks@.take(t as int)),
            decreases pat.material_tracks@.len() - t,
        {
            let track = &pat.material_tracks[t];
            let ghost st1 = self.state();
            let mut k: usize = 0;
            while k < track.keyframes.len()
                invariant
                    pattern_fits(db, *pat_conn),
                    *pat == db.patterns@[pat_conn.pattern_id as int],
                    t < pat.material_tracks@.len(),
                    *track == pat.material_tracks@[t as int],
                    k <= track.keyframes@.len(),
                    self.used_texture_ids@.len() == db.textures@.len(),
                    self.state() == add_keyframes(db, st1, *pat_conn, track.keyframes@.take(k as int)),
                decreases track.keyframes@.len() - k,
            {
                let keyframe = &track.keyframes[k];
                assert(db.patterns@[pat_conn.pattern_id as int].material_tracks@[t as int].keyframes@[k as int]
                    == *keyframe);
                assert(track.keyframes@.take(k + 1).drop_last() =~= track.keyframes@.take(k as int));
                let tex_idx = keyframe.texture_idx as usize;
                let pal_idx = keyframe.palette_idx as usize;
                match pat_conn.texture_ids[tex_idx] {
                    Some(texture_id) => match pat_conn.palette_ids[pal_idx] {
                        Some(palette_id) => {
                            assert(pat_conn.texture_ids@[tex_idx as int] == Some(texture_id));
                            self.insert_image_id(db, (texture_id, Some(palette_id)));
                        },
                        None => {},
                    },
                    None => {},
                }
                k += 1;
            }
            assert(track.keyframes@.take(k as int) =~= track.keyframes@);
            assert(pat.material_tracks@.take(t + 1).drop_last() =~= pat.material_tracks@.take(t as int));
            t += 1;
        }
        assert(pat.material_tracks@.take(t as int) =~= pat.material_tracks@);
    }

    pub fn insert_image_id(&mut self, db: &Database, image_id: ImageId)
        requires
            image_id.0 < db.textures@.len(),
            old(self).used_texture_ids@.len() == db.textures@.len(),
        ensures
            final(self).used_texture_ids@.len() == db.textures@.len(),
            final(self).state() == insert_one(db, old(self).state(), image_id),
            names_unique(old(self).state()) ==> names_unique(final(self).state()),
            names_unique(old(self).state()) && !has_image(old(self).state().names, image_id) ==> {
                &&& final(self).state().names.last().0 == image_id
                &&& forall|i: int| 0 <= i < old(self).state().names.len()
                    ==> final(self).state().names.last().1 != #[trigger] old(self).state().names[i].1
            },
    {
        let ghost st = self.state();
        proof {
            if names_unique(st) {
                lemma_insert_one_unique(db, st, image_id);
                if !has_image(st.names, image_id) {
                    let st1 = insert_one(db, st, image_id);
                    assert forall|i: int| 0 <= i < st.names.len()
                        implies st1.names.last().1 != #[trigger] st.names[i].1 by {
                        assert(st1.names[i] == st.names[i]);
                        assert(st1.names[st.names.len() as int] == st1.names.last());
                    }
                }
            }
        }
        if !has_image_exec(&self.names, image_id) {
            let texture_name = &db.textures[image_id.0].name;
            let name = self.namer.get_fresh_name(texture_name.print_safe());
            self.names.push((image_id, name));
            assert(names_view(self.names@) =~= st.names.push((image_id, name@)));
        }
        self.used_texture_ids[image_id.0] = true;
        assert(self.state().used =~= st.used.update(image_id.0 as int, true));
    }

    /// Discover even more images by guessing, based on their names, which
    /// palettes go with which textures.
    pub fn add_more_images(&mut self, db: &Database)
        requires
            db.wf(),
            old(self).used_texture_ids@.len() == db.textures@.len(),
        ensures
            final(self).used_texture_ids@.len() == db.textures@.len(),
            final(self).state() == add_guesses(db, old(self).state(), db.textures@.len()),
            names_unique(old(self).state()) ==> names_unique(final(self).state()),
    {
        proof {
            if names_unique(old(self).state()) {
                lemma_add_guesses_unique(db, old(self).state(), db.textures@.len());
            }
        }
        proof {
            crate::connection::lemma_db_tables_nonempty(db);
        }
        let ghost st0 = self.state();
        let mut texture_id: usize = 0;
        while texture_id < db.textures.len()
            invariant
                db.wf(),
                forall|n: Name| #[trigger] db.palettes_by_name.lookup(n) matches Some(ids) ==> ids.len() > 0,
                texture_id <= db.textures@.len(),
                self.used_texture_ids@.len() == db.textures@.len(),
                self.state() == add_guesses(db, st0, texture_id as nat),
            decreases db.textures@.len() - texture_id,
        {
            let texture = &db.textures[texture_id];
            if !self.used_texture_ids[texture_id] {
                if !texture.params.format().desc().requires_palette {
                    // Direct color textures don't need a palette.
                    self.insert_image_id(db, (texture_id, None));
                } else if db.palettes.len() == 1 {
                    // If there's one palette, guess it
                    self.insert_image_id(db, (texture_id, Some(0)));
                } else {
                    // Guess palette name == texture name
                    match db.palettes_by_name.get(&texture.name) {
                        Some(ids) => {
                            self.insert_image_id(db, (texture_id, Some(ids[0])));
                        },
                        None => {
                            // Guess palette name == texture_name + "_pl"
                            let pl = append_pl(&texture.name);
                            proof {
                                broadcast use vstd::array::group_array_axioms;
                                assert(pl.0 =~= pl_name(texture.name).0);
                            }
                            match db.palettes_by_name.get(&pl) {
                                Some(ids) => {
                                    self.insert_image_id(db, (texture_id, Some(ids[0])));
                                },
                                None => {},
                            }
                        },
                    }
                }
            }
            texture_id += 1;
        }
    }
}

/// The namer before any image has been added: no names, no texture used.
pub open spec fn initial_state(db: &Database) -> NamerState {
    NamerState {
        names: Seq::empty(),
        taken: Seq::empty(),
        used: Seq::new(db.textures@.len(), |_i: int| false),
    }
}

/// The palette guessed for texture `texture_id`, for a texture that needs
/// one: the only palette if there is just one, else the first palette with
/// the texture's name, else the first with the texture's name followed by
/// `_pl`.
pub open spec fn guessed_palette(db: &Database, texture_id: int) -> Option<PaletteId> {
    let name = db.textures@[texture_id].name;
    if db.palettes@.len() == 1 {
        Some(0)
    } else if db.palettes_by_name.lookup(name) is Some {
        Some(db.palettes_by_name.lookup(name).unwrap()[0])
    } else if db.palettes_by_name.lookup(pl_name(name)) is Some {
        Some(db.palettes_by_name.lookup(pl_name(name)).unwrap()[0])
    } else {
        None
    }
}

/// The name `append_pl` makes of `n`.
pub open spec fn pl_name(n: Name) -> Name {
    choose|r: Name| r.0@ == appended_pl(n.0@)
}

/// The image guessed for texture `texture_id`: the texture alone if it needs
/// no palette, with its guessed palette if it needs one and one is found.
pub open spec fn guessed_image(db: &Database, texture_id: int) -> Option<ImageId> {
    if !spec_requires_palette(db.textures@[texture_id].params.spec_format()) {
        Some((texture_id as usize, None))
    } else {
        match guessed_palette(db, texture_id) {
            Some(p) => Some((texture_id as usize, Some(p))),
            None => None,
        }
    }
}

/// The state after guessing images for the first `n` textures, skipping
/// those that already have one.
pub open spec fn add_guesses(db: &Database, st: NamerState, n: nat) -> NamerState
    decreases n,
{
    if n == 0 {
        st
    } else {
        let st1 = add_guesses(db, st, (n - 1) as nat);
        if st1.used[n - 1] {
            st1
        } else {
            match guessed_image(db, n - 1) {
                Some(id) => insert_one(db, st1, id),
                None => st1,
            }
        }
    }
}

/// Whether `names` has an entry for `id`.
fn has_image_exec(names: &Vec<(ImageId, String)>, id: ImageId) -> (r: bool)
    ensures
        r == has_image(names_view(names@), id),
{
    let mut i: usize = 0;
    while i < names.len()
        invariant
            i <= names@.len(),
            forall|j: int| 0 <= j < i ==> names@[j].0 != id,
        decreases names@.len() - i,
    {
        if same_image(names[i].0, id) {
            assert(names_view(names@)[i as int].0 == id);
            return true;
        }
        i += 1;
    }
    proof {
        if has_image(names_view(names@), id) {
            let j = choose|j: int| 0 <= j < names_view(names@).len() && (#[trigger] names_view(names@)[j]).0 == id;
            assert(names@[j].0 == id);
        }
    }
    false
}

fn same_image(a: ImageId, b: ImageId) -> (r: bool)
    ensures
        r == (a == b),
{
    a.0 == b.0 && match (a.1, b.1) {
        (None, None) => true,
        (Some(x), Some(y)) => x == y,
        _ => false,
    }
}

/// `n` times `false`.
fn vec_of_false(n: usize) -> (v: Vec<bool>)
    ensures
        v@ == Seq::new(n as nat, |_i: int| false),
{
    let mut v = Vec::with_capacity(n);
    let mut i: usize = 0;
    while i < n
        invariant
            i <= n,
            v@ == Seq::new(i as nat, |_i: int| false),
        decreases n - i,
    {
        v.push(false);
        i += 1;
        assert(v@ =~= Seq::new(i as nat, |_i: int| false));
    }
    v
}

/// Every image has one entry, no two images share a name, and every name
/// given out is one the namer has handed out, none twice.
pub open spec fn names_unique(st: NamerState) -> bool {
    &&& st.taken.no_duplicates()
    &&& forall|i: int| 0 <= i < st.names.len() ==> st.taken.contains(#[trigger] st.names[i].1)
    &&& forall|i: int, j: int| 0 <= i < st.names.len() && 0 <= j < st.names.len() && i != j
        ==> (#[trigger] st.names[i]).0 != (#[trigger] st.names[j]).0
    &&& forall|i: int, j: int| 0 <= i < st.names.len() && 0 <= j < st.names.len() && i != j
        ==> (#[trigger] st.names[i]).1 != (#[trigger] st.names[j]).1
}

/// Adding an image keeps every image to one entry and every name to one
/// image, and the image has an entry afterwards.
pub proof fn lemma_insert_one_unique(db: &Database, st: NamerState, id: ImageId)
    requires
        names_unique(st),
    ensures
        names_unique(insert_one(db, st, id)),
        has_image(insert_one(db, st, id).names, id),
{
    if !has_image(st.names, id) {
        let desired = print_safe_text(db.textures@[id.0 as int].name.0@);
        let name = free_name(desired, st.taken);
        lemma_free_name(desired, st.taken);
        lemma_picked_names_distinct(desired, st.taken);
        let st1 = insert_one(db, st, id);
        let n = st.names.len() as int;
        assert(st1.names[n] == (id, name));
        assert forall|i: int| 0 <= i < st1.names.len() implies st1.taken.contains(#[trigger] st1.names[i].1) by {
            if i < n {
                assert(st1.names[i] == st.names[i]);
                assert(st.taken.contains(st.names[i].1));
                let k = choose|k: int| 0 <= k < st.taken.len() && st.taken[k] == st.names[i].1;
                assert(st1.taken[k] == st.taken[k]);
            } else {
                assert(st1.taken[st.taken.len() as int] == name);
            }
        }
        assert forall|i: int, j: int| 0 <= i < st1.names.len() && 0 <= j < st1.names.len() && i != j
            implies (#[trigger] st1.names[i]).0 != (#[trigger] st1.names[j]).0 && st1.names[i].1 != st1.names[j].1 by {
            if i < n && j < n {
                assert(st1.names[i] == st.names[i] && st1.names[j] == st.names[j]);
            } else if i < n {
                assert(st1.names[i] == st.names[i]);
                assert(st.taken.contains(st.names[i].1));
            } else {
                assert(st1.names[j] == st.names[j]);
                assert(st.taken.contains(st.names[j].1));
            }
        }
    } else {
        let j = choose|j: int| 0 <= j < st.names.len() && (#[trigger] st.names[j]).0 == id;
        assert(insert_one(db, st, id).names[j].0 == id);
    }
}

proof fn lemma_add_materials_unique(db: &Database, st: NamerState, mats: Seq<MaterialConnection>)
    requires
        names_unique(st),
    ensures
        names_unique(add_materials(db, st, mats)),
    decreases mats.len(),
{
    if mats.len() > 0 {
        lemma_add_materials_unique(db, st, mats.drop_last());
        if let Some(id) = mats.last().spec_image_id() {
            lemma_insert_one_unique(db, add_materials(db, st, mats.drop_last()), id);
        }
    }
}

proof fn lemma_add_model_materials_unique(db: &Database, st: NamerState, mdls: Seq<ModelConnection>)
    requires
        names_unique(st),
    ensures
        names_unique(add_model_materials(db, st, mdls)),
    decreases mdls.len(),
{
    if mdls.len() > 0 {
        lemma_add_model_materials_unique(db, st, mdls.drop_last());
        lemma_add_materials_unique(db, add_model_materials(db, st, mdls.drop_last()), mdls.last().materials@);
    }
}

proof fn lemma_add_keyframes_unique(db: &Database, st: NamerState, pc: PatternConnection, kfs: Seq<PatternKeyframe>)
    requires
        names_unique(st),
    ensures
        names_unique(add_keyframes(db, st, pc, kfs)),
    decreases kfs.len(),
{
    if kfs.len() > 0 {
        lemma_add_keyframes_unique(db, st, pc, kfs.drop_last());
        if let Some(id) = keyframe_image(pc, kfs.last()) {
            lemma_insert_one_unique(db, add_keyframes(db, st, pc, kfs.drop_last()), id);
        }
    }
}

proof fn lemma_add_tracks_unique(db: &Database, st: NamerState, pc: PatternConnection, tracks: Seq<MaterialTrack>)
    requires
        names_unique(st),
    ensures
        names_unique(add_tracks(db, st, pc, tracks)),
    decreases tracks.len(),
{
    if tracks.len() > 0 {
        lemma_add_tracks_unique(db, st, pc, tracks.drop_last());
        lemma_add_keyframes_unique(db, add_tracks(db, st, pc, tracks.drop_last()), pc, tracks.last().keyframes@);
    }
}

proof fn lemma_add_patterns_unique(db: &Database, st: NamerState, pcs: Seq<PatternConnection>)
    requires
        names_unique(st),
    ensures
        names_unique(add_patterns(db, st, pcs)),
    decreases pcs.len(),
{
    if pcs.len() > 0 {
        lemma_add_patterns_unique(db, st, pcs.drop_last());
        let pc = pcs.last();
        lemma_add_tracks_unique(db, add_patterns(db, st, pcs.drop_last()), pc,
            db.patterns@[pc.pattern_id as int].material_tracks@);
    }
}

proof fn lemma_add_model_patterns_unique(db: &Database, st: NamerState, mdls: Seq<ModelConnection>)
    requires
        names_unique(st),
    ensures
        names_unique(add_model_patterns(db, st, mdls)),
    decreases mdls.len(),
{
    if mdls.len() > 0 {
        lemma_add_model_patterns_unique(db, st, mdls.drop_last());
        lemma_add_patterns_unique(db, add_model_patterns(db, st, mdls.drop_last()), mdls.last().patterns@);
    }
}

/// Guessing more images keeps every image to one entry and every name to
/// one image.
pub proof fn lemma_add_guesses_unique(db: &Database, st: NamerState, n: nat)
    requires
        names_unique(st),
    ensures
        names_unique(add_guesses(db, st, n)),
    decreases n,
{
    if n > 0 {
        lemma_add_guesses_unique(db, st, (n - 1) as nat);
        let st1 = add_guesses(db, st, (n - 1) as nat);
        if !st1.used[n - 1] {
            if let Some(id) = guessed_image(db, n - 1) {
                lemma_insert_one_unique(db, st1, id);
            }
        }
    }
}

/// The images `ImageNamer::build` finds each have one entry, and no two of
/// them share a name, so no image file overwrites another.
pub proof fn lemma_build_names_unique(db: &Database, conn: &Connection)
    ensures
        names_unique(add_model_patterns(db, add_model_materials(db, initial_state(db), conn.models@), conn.models@)),
{
    lemma_add_model_materials_unique(db, initial_state(db), conn.models@);
    lemma_add_model_patterns_unique(db, add_model_materials(db, initial_state(db), conn.models@), conn.models@);
}

/// Every keyframe of every pattern picks one of its pattern's texture names
/// and one of its palette names.
pub open spec fn keyframes_in_range(db: &Database) -> bool {
    forall|p: int, t: int, k: int|
        #![trigger db.patterns@[p].material_tracks@[t].keyframes@[k]]
        0 <= p < db.patterns@.len() && 0 <= t < db.patterns@[p].material_tracks@.len()
        && 0 <= k < db.patterns@[p].material_tracks@[t].keyframes@.len() ==> {
            let kf = db.patterns@[p].material_tracks@[t].keyframes@[k];
            &&& (kf.texture_idx as int) < db.patterns@[p].texture_names@.len()
            &&& (kf.palette_idx as int) < db.patterns@[p].palette_names@.len()
        }
}

/// Whether every keyframe of every pattern picks one of its pattern's
/// texture names and one of its palette names.
pub fn check_keyframes(db: &Database) -> (r: bool)
    ensures
        r == keyframes_in_range(db),
{
    let mut p: usize = 0;
    while p < db.patterns.len()
        invariant
            p <= db.patterns@.len(),
            forall|q: int, t: int, k: int|
                #![trigger db.patterns@[q].material_tracks@[t].keyframes@[k]]
                0 <= q < p && 0 <= t < db.patterns@[q].material_tracks@.len()
                && 0 <= k < db.patterns@[q].material_tracks@[t].keyframes@.len() ==> {
                    let kf = db.patterns@[q].material_tracks@[t].keyframes@[k];
                    &&& (kf.texture_idx as int) < db.patterns@[q].texture_names@.len()
                    &&& (kf.palette_idx as int) < db.patterns@[q].palette_names@.len()
                },
        decreases db.patterns@.len() - p,
    {
        let pat = &db.patterns[p];
        let mut t: usize = 0;
        while t < pat.material_tracks.len()
            invariant
                p < db.patterns@.len(),
                *pat == db.patterns@[p as int],
                t <= pat.material_tracks@.len(),
                forall|q: int, t2: int, k: int|
                    #![trigger db.patterns@[q].material_tracks@[t2].keyframes@[k]]
                    0 <= q < p && 0 <= t2 < db.patterns@[q].material_tracks@.len()
                    && 0 <= k < db.patterns@[q].material_tracks@[t2].keyframes@.len() ==> {
                        let kf = db.patterns@[q].material_tracks@[t2].keyframes@[k];
                        &&& (kf.texture_idx as int) < db.patterns@[q].texture_names@.len()
                        &&& (kf.palette_idx as int) < db.patterns@[q].palette_names@.len()
                    },
                forall|t2: int, k: int|
                    #![trigger db.patterns@[p as int].material_tracks@[t2].keyframes@[k]]
                    0 <= t2 < t && 0 <= k < db.patterns@[p as int].material_tracks@[t2].keyframes@.len() ==> {
                        let kf = db.patterns@[p as int].material_tracks@[t2].keyframes@[k];
                        &&& (kf.texture_idx as int) < db.patterns@[p as int].texture_names@.len()
                        &&& (kf.palette_idx as int) < db.patterns@[p as int].palette_names@.len()
                    },
            decreases pat.material_tracks@.len() - t,
        {
            let track = &pat.material_tracks[t];
            let mut k: usize = 0;
            while k < track.keyframes.len()
                invariant
                    p < db.patterns@.len(),
                    *pat == db.patterns@[p as int],
                    t < pat.material_tracks@.len(),
                    *track == pat.material_tracks@[t as int],
                    k <= track.keyframes@.len(),
                    forall|q: int, t2: int, k2: int|
                        #![trigger db.patterns@[q].material_tracks@[t2].keyframes@[k2]]
                        0 <= q < p && 0 <= t2 < db.patterns@[q].material_tracks@.len()
                        && 0 <= k2 < db.patterns@[q].material_tracks@[t2].keyframes@.len() ==> {
                            let kf = db.patterns@[q].material_tracks@[t2].keyframes@[k2];
                            &&& (kf.texture_idx as int) < db.patterns@[q].texture_names@.len()
                            &&& (kf.palette_idx as int) < db.patterns@[q].palette_names@.len()
                        },
                    forall|t2: int, k2: int|
                        #![trigger db.patterns@[p as int].material_tracks@[t2].keyframes@[k2]]
                        (0 <= t2 < t && 0 <= k2 < db.patterns@[p as int].material_tracks@[t2].keyframes@.len())
                        || (t2 == t && 0 <= k2 < k) ==> {
                            let kf = db.patterns@[p as int].material_tracks@[t2].keyframes@[k2];
                            &&& (kf.texture_idx as int) < db.patterns@[p as int].texture_names@.len()
                            &&& (kf.palette_idx as int) < db.patterns@[p as int].palette_names@.len()
                        },
                decreases track.keyframes@.len() - k,
            {
                let kf = &track.keyframes[k];
                assert(db.patterns@[p as int].material_tracks@[t as int].keyframes@[k as int] == *kf);
                if kf.texture_idx as usize >= pat.texture_names.len()
                    || kf.palette_idx as usize >= pat.palette_names.len() {
                    return false;
                }
                k += 1;
            }
            t += 1;
        }
        p += 1;
    }
    true
}

/// A connection that `Connection::build` makes can be handed to
/// `ImageNamer::build`, as long as every pattern keyframe picks one of its
/// pattern's names.
pub proof fn lemma_built_connection_fits(db: &Database, options: ConnectionOptions, conn: &Connection)
    requires
        db.wf(),
        keyframes_in_range(db),
        conn.models@.len() == db.models@.len(),
        forall|m: int| 0 <= m < conn.models@.len() ==> is_model_connection(db, m as usize, options,
            #[trigger] conn.models@[m]),
    ensures
        conn_fits(db, conn),
{
    assert forall|m: int, k: int| #![trigger conn.models@[m].materials@[k]]
        0 <= m < conn.models@.len() && 0 <= k < conn.models@[m].materials@.len() implies
        (conn.models@[m].materials@[k].spec_image_id() matches Some(id) ==> id.0 < db.textures@.len()) by {
        assert(is_model_connection(db, m as usize, options, conn.models@[m]));
        assert(conn.models@[m].materials@[k] == crate::connection::spec_resolve_material(db, m as usize, k as usize));
        lemma_resolved_image_in_range(db, m as usize, k as usize);
    }
    assert forall|m: int, p: int| #![trigger conn.models@[m].patterns@[p]]
        0 <= m < conn.models@.len() && 0 <= p < conn.models@[m].patterns@.len() implies
        pattern_fits(db, conn.models@[m].patterns@[p]) by {
        assert(is_model_connection(db, m as usize, options, conn.models@[m]));
        let pc = conn.models@[m].patterns@[p];
        assert(crate::connection::is_pattern_connection(db, p as usize, pc));
        let pat = db.patterns@[p];
        lemma_first_ids_in_range(db.textures_by_name, texture_names(db.textures@), pat.texture_names@);
        assert forall|t: int| 0 <= t < pc.texture_ids@.len() implies
            (#[trigger] pc.texture_ids@[t] matches Some(id) ==> id < db.textures@.len()) by {
            assert(pc.texture_ids@[t] == crate::connection::first_ids(db.textures_by_name, pat.texture_names@)[t]);
        }
    }
}

/// Adding an image a second time changes nothing: it keeps its name.
pub proof fn lemma_insert_one_twice(db: &Database, st: NamerState, id: ImageId)
    requires
        names_unique(st),
        id.0 < st.used.len(),
    ensures
        insert_one(db, insert_one(db, st, id), id) == insert_one(db, st, id),
{
    lemma_insert_one_unique(db, st, id);
    let st1 = insert_one(db, st, id);
    assert(st1.used.update(id.0 as int, true) =~= st1.used);
}

/// What inserting image `id` does, as one law (`insert_image_id` steps by
/// `insert_one`): the image's texture is marked used and no other flag
/// changes; an image already named keeps the names as they are; a new image
/// is added at the end, named after its texture made unique, and its name is
/// unlike every name before; names stay unique; and inserting the image a
/// second time changes nothing.
pub proof fn lemma_insert_image_law(db: &Database, st: NamerState, id: ImageId)
    requires
        names_unique(st),
        id.0 < st.used.len(),
    ensures
        ({
            let st1 = insert_one(db, st, id);
            &&& st1.used == st.used.update(id.0 as int, true)
            &&& has_image(st.names, id) ==> st1.names == st.names
            &&& !has_image(st.names, id) ==> {
                &&& st1.names == st.names.push((id,
                    free_name(print_safe_text(db.textures@[id.0 as int].name.0@), st.taken)))
                &&& forall|i: int| 0 <= i < st.names.len() ==> st1.names.last().1 != #[trigger] st.names[i].1
            }
            &&& names_unique(st1)
            &&& has_image(st1.names, id)
            &&& insert_one(db, st1, id) == st1
        }),
{
    lemma_insert_one_unique(db, st, id);
    lemma_insert_one_twice(db, st, id);
    let st1 = insert_one(db, st, id);
    if !has_image(st.names, id) {
        assert forall|i: int| 0 <= i < st.names.len() implies st1.names.last().1 != #[trigger] st.names[i].1 by {
            assert(st1.names[i] == st.names[i]);
            assert(st1.names[st.names.len() as int] == st1.names.last());
        }
    }
}

/// No item is named `n`: no ids are filed under it.
proof fn lemma_ids_named_none(names: Seq<Name>, n: Name)
    requires
        forall|q: int| 0 <= q < names.len() ==> names[q] != n,
    ensures
        ids_named(names, n).len() == 0,
    decreases names.len(),
{
    if names.len() > 0 {
        lemma_ids_named_none(names.drop_last(), n);
    }
}

/// The first id filed under `n` is the first item named `n`.
proof fn lemma_ids_named_first(names: Seq<Name>, n: Name, p: int)
    requires
        0 <= p < names.len(),
        names.len() <= usize::MAX,
        names[p] == n,
        forall|q: int| 0 <= q < p ==> names[q] != n,
    ensures
        ids_named(names, n).len() > 0,
        ids_named(names, n)[0] == p,
    decreases names.len(),
{
    let init = names.drop_last();
    if p < names.len() - 1 {
        assert(init[p] == n);
        assert forall|q: int| 0 <= q < p implies init[q] != n by {
            assert(init[q] == names[q]);
        }
        lemma_ids_named_first(init, n, p);
    } else {
        assert forall|q: int| 0 <= q < init.len() implies init[q] != n by {
            assert(init[q] == names[q]);
        }
        lemma_ids_named_none(init, n);
    }
}

/// An image that has an entry keeps it when another image is added.
proof fn lemma_insert_keeps_image(db: &Database, st: NamerState, x: ImageId, id: ImageId)
    requires
        has_image(st.names, id),
    ensures
        has_image(insert_one(db, st, x).names, id),
{
    let i = choose|i: int| 0 <= i < st.names.len() && (#[trigger] st.names[i]).0 == id;
    assert(insert_one(db, st, x).names[i] == st.names[i]);
}

/// Guessing images for the first `n` textures leaves the used flags of the
/// textures from `n` on as they were.
proof fn lemma_add_guesses_used(db: &Database, st: NamerState, n: nat, t: int)
    requires
        n <= t < st.used.len(),
        st.used.len() == db.textures@.len(),
    ensures
        add_guesses(db, st, n).used.len() == st.used.len(),
        add_guesses(db, st, n).used[t] == st.used[t],
    decreases n,
{
    if n > 0 {
        lemma_add_guesses_used(db, st, (n - 1) as nat, t);
    }
}

/// Guessing images for more textures keeps every image already named.
proof fn lemma_add_guesses_keeps(db: &Database, st: NamerState, n: nat, m: nat, id: ImageId)
    requires
        n <= m,
        has_image(add_guesses(db, st, n).names, id),
    ensures
        has_image(add_guesses(db, st, m).names, id),
    decreases m - n,
{
    if n < m {
        lemma_add_guesses_keeps(db, st, n, (m - 1) as nat, id);
        let st1 = add_guesses(db, st, (m - 1) as nat);
        if !st1.used[m - 1] {
            if let Some(x) = guessed_image(db, m - 1) {
                lemma_insert_keeps_image(db, st1, x, id);
            }
        }
    }
}

/// The image guessed for an unused texture is added.
proof fn lemma_guess_added(db: &Database, st: NamerState, t: usize, id: ImageId)
    requires
        t < db.textures@.len(),
        st.used.len() == db.textures@.len(),
        !st.used[t as int],
        guessed_image(db, t as int) == Some(id),
    ensures
        has_image(add_guesses(db, st, db.textures@.len()).names, id),
{
    lemma_add_guesses_used(db, st, t as nat, t as int);
    let st1 = add_guesses(db, st, t as nat);
    lemma_insert_one_unique_image(db, st1, id);
    assert(add_guesses(db, st, (t + 1) as nat) == insert_one(db, st1, id));
    lemma_add_guesses_keeps(db, st, (t + 1) as nat, db.textures@.len(), id);
}

/// The first palette filed under a name is the first palette with that
/// name.
proof fn lemma_first_palette_named(db: &Database, n: Name, p0: usize)
    requires
        db.wf(),
        p0 < db.palettes@.len(),
        db.palettes@[p0 as int].name == n,
        forall|q: int| 0 <= q < p0 ==> (#[trigger] db.palettes@[q]).name != n,
    ensures
        db.palettes_by_name.lookup(n) is Some,
        db.palettes_by_name.lookup(n).unwrap()[0] == p0,
{
    let names = palette_names(db.palettes@);
    assert(names.len() == db.palettes.len());
    assert forall|q: int| 0 <= q < p0 implies names[q] != n by {
        assert(names[q] == db.palettes@[q].name);
    }
    lemma_ids_named_first(names, n, p0 as int);
    assert(db.palettes_by_name.lookup(n) == Some(ids_named(names, n)));
}

/// Adding more images pairs each unused texture with the palette it
/// guesses, and adds that image: a texture that needs no palette is added
/// alone; one that needs a palette is paired with palette 0 when there is
/// exactly one palette, else with the first palette that has exactly the
/// texture's name, else with the first whose name is the texture's name
/// followed by `_pl`.
pub proof fn lemma_more_images_guesses(db: &Database, st: NamerState, t: usize, p: usize)
    requires
        db.wf(),
        t < db.textures@.len(),
        st.used.len() == db.textures@.len(),
        !st.used[t as int],
    ensures
        !spec_requires_palette(db.textures@[t as int].params.spec_format())
            ==> has_image(add_guesses(db, st, db.textures@.len()).names, (t, None)),
        spec_requires_palette(db.textures@[t as int].params.spec_format()) && db.palettes@.len() == 1
            ==> has_image(add_guesses(db, st, db.textures@.len()).names, (t, Some(0usize))),
        spec_requires_palette(db.textures@[t as int].params.spec_format()) && db.palettes@.len() != 1
            && p < db.palettes@.len()
            && db.palettes@[p as int].name == db.textures@[t as int].name
            && (forall|q: int| 0 <= q < p ==> (#[trigger] db.palettes@[q]).name != db.textures@[t as int].name)
            ==> has_image(add_guesses(db, st, db.textures@.len()).names, (t, Some(p))),
        spec_requires_palette(db.textures@[t as int].params.spec_format()) && db.palettes@.len() != 1
            && (forall|q: int| 0 <= q < db.palettes@.len()
                ==> (#[trigger] db.palettes@[q]).name != db.textures@[t as int].name)
            && p < db.palettes@.len()
            && db.palettes@[p as int].name.0@ == appended_pl(db.textures@[t as int].name.0@)
            && (forall|q: int| 0 <= q < p
                ==> (#[trigger] db.palettes@[q]).name.0@ != appended_pl(db.textures@[t as int].name.0@))
            ==> has_image(add_guesses(db, st, db.textures@.len()).names, (t, Some(p))),
{
    let tex = db.textures@[t as int];
    let name = tex.name;
    if !spec_requires_palette(tex.params.spec_format()) {
        lemma_guess_added(db, st, t, (t, None));
    } else if db.palettes@.len() == 1 {
        lemma_guess_added(db, st, t, (t, Some(0usize)));
    } else if p < db.palettes@.len() && db.palettes@[p as int].name == name
        && (forall|q: int| 0 <= q < p ==> (#[trigger] db.palettes@[q]).name != name) {
        lemma_first_palette_named(db, name, p);
        assert(guessed_image(db, t as int) == Some((t, Some(p))));
        lemma_guess_added(db, st, t, (t, Some(p)));
    } else if (forall|q: int| 0 <= q < db.palettes@.len() ==> (#[trigger] db.palettes@[q]).name != name)
        && p < db.palettes@.len() && db.palettes@[p as int].name.0@ == appended_pl(name.0@)
        && (forall|q: int| 0 <= q < p ==> (#[trigger] db.palettes@[q]).name.0@ != appended_pl(name.0@)) {
        let names = palette_names(db.palettes@);
        assert forall|q: int| 0 <= q < names.len() implies names[q] != name by {
            assert(names[q] == db.palettes@[q].name);
        }
        lemma_ids_named_none(names, name);
        assert(db.palettes_by_name.lookup(name) == crate::db::appended_lookup(None, ids_named(names, name)));
        assert(db.palettes_by_name.lookup(name) is None);
        let pn = db.palettes@[p as int].name;
        assert(pl_name(name).0@ == appended_pl(name.0@));
        assert(pl_name(name) == pn) by {
            broadcast use vstd::array::group_array_axioms;
            assert(pl_name(name).0 =~= pn.0);
        }
        assert forall|q: int| 0 <= q < p implies (#[trigger] db.palettes@[q]).name != pn by {
            assert(db.palettes@[q].name.0@ != pn.0@);
        }
        lemma_first_palette_named(db, pn, p);
        assert(guessed_image(db, t as int) == Some((t, Some(p))));
        lemma_guess_added(db, st, t, (t, Some(p)));
    }
}

/// After adding an image it has an entry.
proof fn lemma_insert_one_unique_image(db: &Database, st: NamerState, id: ImageId)
    ensures
        has_image(insert_one(db, st, id).names, id),
{
    if !has_image(st.names, id) {
        let st1 = insert_one(db, st, id);
        assert(st1.names[st.names.len() as int].0 == id);
    }
}

} // verus!
