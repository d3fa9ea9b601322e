//! All the resources found in the input files, with tables for looking
//! textures and palettes up by name.

use vstd::prelude::*;
use crate::util::fmt::{dec_str, push_dec};
use crate::nitro::{Name, Model, Texture, Palette, Animation, Pattern, Container};

verus! {

pub type FileId = usize;
pub type ModelId = usize;
pub type TextureId = usize;
pub type PaletteId = usize;
pub type AnimationId = usize;
pub type PatternId = usize;

/// Whether some entry of `e` has the name `n`.
pub open spec fn has_entry(e: Seq<(Name, Vec<usize>)>, n: Name) -> bool {
    exists|i: int| 0 <= i < e.len() && e[i].0 == n
}

/// The ids filed under `n`, if any.
pub open spec fn lookup_entries(e: Seq<(Name, Vec<usize>)>, n: Name) -> Option<Seq<usize>> {
    if has_entry(e, n) {
        let i = choose|i: int| 0 <= i < e.len() && e[i].0 == n;
        Some(e[i].1@)
    } else {
        None
    }
}

/// The indices `i` (in increasing order) with `names[i] == n`.
pub open spec fn ids_named(names: Seq<Name>, n: Name) -> Seq<usize>
    decreases names.len(),
{
    if names.len() == 0 {
        Seq::empty()
    } else {
        let rest = ids_named(names.drop_last(), n);
        if names.last() == n { rest.push((names.len() - 1) as usize) } else { rest }
    }
}

/// `ids` filed after whatever was already filed under a name, as a lookup
/// result (`None` when nothing is filed).
pub open spec fn appended_lookup(old: Option<Seq<usize>>, ids: Seq<usize>) -> Option<Seq<usize>> {
    match old {
        Some(a) => Some(a + ids),
        None => if ids.len() > 0 { Some(ids) } else { None },
    }
}

pub open spec fn texture_names(t: Seq<Texture>) -> Seq<Name> {
    t.map_values(|x: Texture| x.name)
}

pub open spec fn palette_names(p: Seq<Palette>) -> Seq<Name> {
    p.map_values(|x: Palette| x.name)
}

/// Every id `ids_named` gives indexes an item of that name.
pub proof fn lemma_ids_named(names: Seq<Name>, n: Name)
    requires
        names.len() <= usize::MAX,
    ensures
        forall|k: int| 0 <= k < ids_named(names, n).len() ==>
            (#[trigger] ids_named(names, n)[k]) < names.len() && names[ids_named(names, n)[k] as int] == n,
    decreases names.len(),
{
    if names.len() > 0 {
        let init = names.drop_last();
        lemma_ids_named(init, n);
        let rest = ids_named(init, n);
        assert forall|k: int| 0 <= k < ids_named(names, n).len() implies
            (#[trigger] ids_named(names, n)[k]) < names.len() && names[ids_named(names, n)[k] as int] == n by {
            if k < rest.len() {
                assert(ids_named(names, n)[k] == rest[k]);
                assert(names[rest[k] as int] == init[rest[k] as int]);
            }
        }
    }
}

/// A map from names to lists of ids, kept as a list of entries with distinct
/// names.
pub struct NameMap {
    pub entries: Vec<(Name, Vec<usize>)>,
}

impl NameMap {
    pub open spec fn wf(&self) -> bool {
        forall|i: int, j: int| 0 <= i < self.entries.len() && 0 <= j < self.entries.len()
            && #[trigger] self.entries@[i].0 == #[trigger] self.entries@[j].0 ==> i == j
    }

    pub open spec fn lookup(&self, n: Name) -> Option<Seq<usize>> {
        lookup_entries(self.entries@, n)
    }

    pub fn new() -> (m: NameMap)
        ensures
            m.wf(),
            forall|n: Name| m.lookup(n) is None,
    {
        NameMap { entries: Vec::new() }
    }

    /// The ids filed under `n`.
    pub fn get(&self, n: &Name) -> (r: Option<&Vec<usize>>)
        requires
            self.wf(),
        ensures
            match r {
                Some(v) => self.lookup(*n) == Some(v@),
                None => self.lookup(*n) is None,
            },
    {
        let mut i: usize = 0;
        while i < self.entries.len()
            invariant
                self.wf(),
                i <= self.entries.len(),
                forall|j: int| 0 <= j < i ==> self.entries@[j].0 != *n,
            decreases self.entries.len() - i,
        {
            if self.entries[i].0.eq_name(n) {
                proof {
                    let k = choose|k: int| 0 <= k < self.entries@.len() && self.entries@[k].0 == *n;
                    assert(self.entries@[k].0 == self.entries@[i as int].0);
                }
                return Some(&self.entries[i].1);
            }
            i += 1;
        }
        None
    }

    /// Files `id` after the ids already filed under `n`.
    pub fn push_id(&mut self, n: Name, id: usize)
        requires
            old(self).wf(),
        ensures
            final(self).wf(),
            final(self).lookup(n) == appended_lookup(old(self).lookup(n), seq![id]),
            forall|m: Name| m != n ==> final(self).lookup(m) == old(self).lookup(m),
    {
        let mut i: usize = 0;
        while i < self.entries.len()
            invariant
                self.wf(),
                self.entries@ == old(self).entries@,
                i <= self.entries.len(),
                forall|j: int| 0 <= j < i ==> self.entries@[j].0 != n,
            decreases self.entries.len() - i,
        {
            if self.entries[i].0.eq_name(&n) {
                let ghost old_entries = self.entries@;
                let mut ids = self.entries[i].1.clone();
                ids.push(id);
                self.entries.set(i, (n, ids));
                proof {
                    let e = self.entries@;
                    assert forall|a: int, b: int| 0 <= a < e.len() && 0 <= b < e.len()
                        && #[trigger] e[a].0 == #[trigger] e[b].0 implies a == b by {
                        assert(e[a].0 == old_entries[a].0);
                        assert(e[b].0 == old_entries[b].0);
                    }
                    assert forall|m: Name| #[trigger] lookup_entries(e, m) == if m == n {
                        appended_lookup(lookup_entries(old_entries, n), seq![id])
                    } else {
                        lookup_entries(old_entries, m)
                    } by {
                        if m == n {
                            let k = choose|k: int| 0 <= k < old_entries.len() && old_entries[k].0 == n;
                            assert(old_entries[k].0 == old_entries[i as int].0);
                            assert(e[i as int].0 == m);
                            let k2 = choose|k: int| 0 <= k < e.len() && e[k].0 == m;
                            assert(e[k2].0 == e[i as int].0);
                        } else {
                            if has_entry(old_entries, m) {
                                let k = choose|k: int| 0 <= k < old_entries.len() && old_entries[k].0 == m;
                                assert(e[k].0 == m);
                                let k2 = choose|k: int| 0 <= k < e.len() && e[k].0 == m;
                                assert(e[k2].0 == e[k].0);
                            }
                            if has_entry(e, m) {
                                let k2 = choose|k: int| 0 <= k < e.len() && e[k].0 == m;
                                assert(old_entries[k2].0 == m);
                            }
                        }
                    }
                }
                return;
            }
            i += 1;
        }
        let ghost old_entries = self.entries@;
        self.entries.push((n, vec![id]));
        proof {
            let e = self.entries@;
            assert(e[old_entries.len() as int].0 == n);
            assert forall|a: int, b: int| 0 <= a < e.len() && 0 <= b < e.len()
                && #[trigger] e[a].0 == #[trigger] e[b].0 implies a == b by {
                if a < old_entries.len() {
                    assert(e[a].0 == old_entries[a].0);
                }
                if b < old_entries.len() {
                    assert(e[b].0 == old_entries[b].0);
                }
            }
            assert forall|m: Name| #[trigger] lookup_entries(e, m) == if m == n {
                appended_lookup(lookup_entries(old_entries, n), seq![id])
            } else {
                lookup_entries(old_entries, m)
            } by {
                if m == n {
                    let k2 = choose|k: int| 0 <= k < e.len() && e[k].0 == m;
                    assert(k2 == old_entries.len());
                    assert(e[k2].1@ =~= seq![id]);
                } else {
                    if has_entry(old_entries, m) {
                        let k = choose|k: int| 0 <= k < old_entries.len() && old_entries[k].0 == m;
                        assert(e[k].0 == m);
                        let k2 = choose|k: int| 0 <= k < e.len() && e[k].0 == m;
                        assert(old_entries[k2].0 == m);
                        assert(old_entries[k2].0 == old_entries[k].0);
                    }
                    if has_entry(e, m) {
                        let k2 = choose|k: int| 0 <= k < e.len() && e[k].0 == m;
                        assert(old_entries[k2].0 == m);
                    }
                }
            }
        }
    }
}

/// All the resources in the input files, each with the file it came from.
pub struct Database {
    pub file_paths: Vec<String>,

    pub models: Vec<Model>,
    pub textures: Vec<Texture>,
    pub palettes: Vec<Palette>,
    pub animations: Vec<Animation>,
    pub patterns: Vec<Pattern>,

    pub models_found_in: Vec<FileId>,
    pub textures_found_in: Vec<FileId>,
    pub palettes_found_in: Vec<FileId>,
    pub animations_found_in: Vec<FileId>,
    pub patterns_found_in: Vec<FileId>,

    pub textures_by_name: NameMap,
    pub palettes_by_name: NameMap,
}

impl Database {
    /// Every resource has the file it came from, and the name tables list,
    /// for each name, exactly the textures (palettes) with that name, in
    /// order.
    pub open spec fn wf(&self) -> bool {
        &&& self.models_found_in.len() == self.models.len()
        &&& self.textures_found_in.len() == self.textures.len()
        &&& self.palettes_found_in.len() == self.palettes.len()
        &&& self.animations_found_in.len() == self.animations.len()
        &&& self.patterns_found_in.len() == self.patterns.len()
        &&& self.textures_by_name.wf()
        &&& self.palettes_by_name.wf()
        &&& forall|n: Name| #[trigger] self.textures_by_name.lookup(n)
            == appended_lookup(None, ids_named(texture_names(self.textures@), n))
        &&& forall|n: Name| #[trigger] self.palettes_by_name.lookup(n)
            == appended_lookup(None, ids_named(palette_names(self.palettes@), n))
    }

    /// An empty database.
    pub fn new() -> (db: Database)
        ensures
            db.wf(),
            db.models@.len() == 0,
            db.textures@.len() == 0,
            db.palettes@.len() == 0,
            db.animations@.len() == 0,
            db.patterns@.len() == 0,
            db.file_paths@.len() == 0,
    {
        let db = Database {
            file_paths: Vec::new(),
            models: Vec::new(),
            textures: Vec::new(),
            palettes: Vec::new(),
            animations: Vec::new(),
            patterns: Vec::new(),
            models_found_in: Vec::new(),
            textures_found_in: Vec::new(),
            palettes_found_in: Vec::new(),
            animations_found_in: Vec::new(),
            patterns_found_in: Vec::new(),
            textures_by_name: NameMap::new(),
            palettes_by_name: NameMap::new(),
        };
        assert(texture_names(db.textures@) =~= Seq::<Name>::empty());
        assert(palette_names(db.palettes@) =~= Seq::<Name>::empty());
        db
    }

    /// Moves every resource of the container `cont`, read from file
    /// `file_id`, into the database.
    pub fn add_container(&mut self, file_id: FileId, cont: Container)
        ensures
            final(self).models@ == old(self).models@ + cont.models@,
            final(self).textures@ == old(self).textures@ + cont.textures@,
            final(self).palettes@ == old(self).palettes@ + cont.palettes@,
            final(self).animations@ == old(self).animations@ + cont.animations@,
            final(self).patterns@ == old(self).patterns@ + cont.patterns@,
            final(self).models_found_in@ == old(self).models_found_in@
                + Seq::new(cont.models@.len(), |i: int| file_id),
            final(self).textures_found_in@ == old(self).textures_found_in@
                + Seq::new(cont.textures@.len(), |i: int| file_id),
            final(self).palettes_found_in@ == old(self).palettes_found_in@
                + Seq::new(cont.palettes@.len(), |i: int| file_id),
            final(self).animations_found_in@ == old(self).animations_found_in@
                + Seq::new(cont.animations@.len(), |i: int| file_id),
            final(self).patterns_found_in@ == old(self).patterns_found_in@
                + Seq::new(cont.patterns@.len(), |i: int| file_id),
            final(self).file_paths == old(self).file_paths,
            final(self).textures_by_name == old(self).textures_by_name,
            final(self).palettes_by_name == old(self).palettes_by_name,
    {
        let mut cont = cont;
        let num = cont.models.len();
        self.models.append(&mut cont.models);
        extend_repeat(&mut self.models_found_in, file_id, num);
        let num = cont.textures.len();
        self.textures.append(&mut cont.textures);
        extend_repeat(&mut self.textures_found_in, file_id, num);
        let num = cont.palettes.len();
        self.palettes.append(&mut cont.palettes);
        extend_repeat(&mut self.palettes_found_in, file_id, num);
        let num = cont.animations.len();
        self.animations.append(&mut cont.animations);
        extend_repeat(&mut self.animations_found_in, file_id, num);
        let num = cont.patterns.len();
        self.patterns.append(&mut cont.patterns);
        extend_repeat(&mut self.patterns_found_in, file_id, num);
    }

    /// Files every texture and palette under its name, after anything
    /// already filed.
    pub fn build_by_name_maps(&mut self)
        requires
            old(self).textures_by_name.wf(),
            old(self).palettes_by_name.wf(),
        ensures
            final(self).textures_by_name.wf(),
            final(self).palettes_by_name.wf(),
            forall|n: Name| #[trigger] final(self).textures_by_name.lookup(n)
                == appended_lookup(old(self).textures_by_name.lookup(n),
                    ids_named(texture_names(old(self).textures@), n)),
            forall|n: Name| #[trigger] final(self).palettes_by_name.lookup(n)
                == appended_lookup(old(self).palettes_by_name.lookup(n),
                    ids_named(palette_names(old(self).palettes@), n)),
            final(self).models == old(self).models,
            final(self).textures == old(self).textures,
            final(self).palettes == old(self).palettes,
            final(self).animations == old(self).animations,
            final(self).patterns == old(self).patterns,
            final(self).models_found_in == old(self).models_found_in,
            final(self).textures_found_in == old(self).textures_found_in,
            final(self).palettes_found_in == old(self).palettes_found_in,
            final(self).animations_found_in == old(self).animations_found_in,
            final(self).patterns_found_in == old(self).patterns_found_in,
            final(self).file_paths == old(self).file_paths,
            // Filing everything into empty tables makes a well-formed
            // database.
            ({
                &&& forall|n: Name| #[trigger] old(self).textures_by_name.lookup(n) is None
                &&& forall|n: Name| #[trigger] old(self).palettes_by_name.lookup(n) is None
                &&& old(self).models_found_in.len() == old(self).models.len()
                &&& old(self).textures_found_in.len() == old(self).textures.len()
                &&& old(self).palettes_found_in.len() == old(self).palettes.len()
                &&& old(self).animations_found_in.len() == old(self).animations.len()
                &&& old(self).patterns_found_in.len() == old(self).patterns.len()
            }) ==> final(self).wf(),
    {
        let ghost names = texture_names(self.textures@);
        let ghost old_tex = self.textures_by_name;
        let num_textures = self.textures.len();
        for id in 0..num_textures
            invariant
                num_textures == self.textures.len(),
                names.len() == num_textures,
                self.textures == old(self).textures,
                self.palettes_by_name == old(self).palettes_by_name,
                self.models == old(self).models,
                self.palettes == old(self).palettes,
                self.animations == old(self).animations,
                self.patterns == old(self).patterns,
                self.models_found_in == old(self).models_found_in,
                self.textures_found_in == old(self).textures_found_in,
                self.palettes_found_in == old(self).palettes_found_in,
                self.animations_found_in == old(self).animations_found_in,
                self.patterns_found_in == old(self).patterns_found_in,
                self.file_paths == old(self).file_paths,
                names == texture_names(self.textures@),
                old_tex == old(self).textures_by_name,
                self.textures_by_name.wf(),
                forall|n: Name| #[trigger] self.textures_by_name.lookup(n)
                    == appended_lookup(old_tex.lookup(n), ids_named(names.take(id as int), n)),
        {
            let name = self.textures[id].name;
            self.textures_by_name.push_id(name, id);
            proof { lemma_lookup_step(old_tex.lookup(name), names, id as int); }
            assert forall|n: Name| #[trigger] self.textures_by_name.lookup(n)
                == appended_lookup(old_tex.lookup(n), ids_named(names.take(id + 1), n)) by {
                lemma_lookup_step(old_tex.lookup(n), names, id as int);
            }
        }
        assert(names.take(self.textures@.len() as int) == names);

        let ghost pnames = palette_names(self.palettes@);
        let ghost old_pal = self.palettes_by_name;
        let num_palettes = self.palettes.len();
        for id in 0..num_palettes
            invariant
                num_palettes == self.palettes.len(),
                pnames.len() == num_palettes,
                self.palettes == old(self).palettes,
                self.textures_by_name.wf(),
                forall|n: Name| #[trigger] self.textures_by_name.lookup(n)
                    == appended_lookup(old(self).textures_by_name.lookup(n),
                        ids_named(texture_names(old(self).textures@), n)),
                self.textures == old(self).textures,
                self.models == old(self).models,
                self.animations == old(self).animations,
                self.patterns == old(self).patterns,
                self.models_found_in == old(self).models_found_in,
                self.textures_found_in == old(self).textures_found_in,
                self.palettes_found_in == old(self).palettes_found_in,
                self.animations_found_in == old(self).animations_found_in,
                self.patterns_found_in == old(self).patterns_found_in,
                self.file_paths == old(self).file_paths,
                pnames == palette_names(self.palettes@),
                old_pal == old(self).palettes_by_name,
                self.palettes_by_name.wf(),
                forall|n: Name| #[trigger] self.palettes_by_name.lookup(n)
                    == appended_lookup(old_pal.lookup(n), ids_named(pnames.take(id as int), n)),
        {
            let name = self.palettes[id].name;
            self.palettes_by_name.push_id(name, id);
            assert forall|n: Name| #[trigger] self.palettes_by_name.lookup(n)
                == appended_lookup(old_pal.lookup(n), ids_named(pnames.take(id + 1), n)) by {
                lemma_lookup_step(old_pal.lookup(n), pnames, id as int);
            }
        }
        assert(pnames.take(self.palettes@.len() as int) == pnames);
    }
}

/// Appends `num` copies of `file_id`.
fn extend_repeat(v: &mut Vec<FileId>, file_id: FileId, num: usize)
    ensures
        final(v)@ == old(v)@ + Seq::new(num as nat, |i: int| file_id),
{
    let ghost base = v@;
    for i in 0..num
        invariant
            v@ == base + Seq::new(i as nat, |j: int| file_id),
    {
        v.push(file_id);
        assert(v@ =~= base + Seq::new((i + 1) as nat, |j: int| file_id));
    }
}

/// Filing the name of item `id` extends the lookup of every name by the ids
/// among `names[..id + 1]` rather than `names[..id]`.
proof fn lemma_lookup_step(old: Option<Seq<usize>>, names: Seq<Name>, id: int)
    requires
        0 <= id < names.len(),
        id <= usize::MAX,
    ensures
        forall|n: Name| appended_lookup(old, ids_named(names.take(id + 1), n)) == if n == names[id] {
            appended_lookup(appended_lookup(old, ids_named(names.take(id), n)), seq![id as usize])
        } else {
            appended_lookup(old, ids_named(names.take(id), n))
        },
{
    assert forall|n: Name| appended_lookup(old, ids_named(names.take(id + 1), n)) == if n == names[id] {
        appended_lookup(appended_lookup(old, ids_named(names.take(id), n)), seq![id as usize])
    } else {
        appended_lookup(old, ids_named(names.take(id), n))
    } by {
        let t1 = names.take(id + 1);
        assert(t1.drop_last() =~= names.take(id));
        assert(t1.last() == names[id]);
        if n == names[id] {
            let ids = ids_named(names.take(id), n);
            assert(ids_named(t1, n) == ids.push(id as usize));
            match old {
                Some(a) => {
                    assert(a + ids.push(id as usize) =~= (a + ids).push(id as usize));
                },
                None => {
                    if ids.len() > 0 {
                        assert(ids.push(id as usize) =~= ids + seq![id as usize]);
                    } else {
                        assert(ids.push(id as usize) =~= seq![id as usize]);
                    }
                },
            }
        }
    }
}

impl Database {
    /// The status line: how many of each resource the database holds.
    pub fn status_line(&self) -> (s: String)
        ensures
            s@ == "Got "@ + dec_str(self.models@.len()) + " model"@ + plural_n(self.models@.len())
                + ", "@ + dec_str(self.textures@.len()) + " texture"@ + plural_n(self.textures@.len())
                + ", "@ + dec_str(self.palettes@.len()) + " palette"@ + plural_n(self.palettes@.len())
                + ", "@ + dec_str(self.animations@.len()) + " animation"@ + plural_n(self.animations@.len())
                + ", "@ + dec_str(self.patterns@.len()) + " pattern animation"@ + plural_n(self.patterns@.len())
                + "."@,
    {
        let mut s = String::from_str("Got ");
        push_count(&mut s, self.models.len(), " model");
        s.append(", ");
        push_count(&mut s, self.textures.len(), " texture");
        s.append(", ");
        push_count(&mut s, self.palettes.len(), " palette");
        s.append(", ");
        push_count(&mut s, self.animations.len(), " animation");
        s.append(", ");
        push_count(&mut s, self.patterns.len(), " pattern animation");
        s.append(".");
        s
    }
}

/// `"s"` unless `n` is one.
pub open spec fn plural_n(n: nat) -> Seq<char> {
    if n != 1 { "s"@ } else { ""@ }
}

/// Appends `n`, then `what`, then `s` unless `n` is one.
fn push_count(s: &mut String, n: usize, what: &str)
    ensures
        final(s)@ == old(s)@ + dec_str(n as nat) + what@ + plural_n(n as nat),
{
    push_dec(s, n as u64);
    s.append(what);
    s.append(if n != 1 { "s" } else { "" });
}

} // verus!
