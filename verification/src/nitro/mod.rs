//! The data read out of Nitro files that the rest of the library works on.

use vstd::prelude::*;
use crate::nds::TextureParams;
use crate::util::strings::string_push;

verus! {

/// A 16-byte resource name, padded with NUL bytes.
#[derive(Debug, Copy, Clone)]
pub struct Name(pub [u8; 16]);

impl Name {
    /// Whether two names are the same bytes.
    pub fn eq_name(&self, other: &Name) -> (r: bool)
        ensures
            r == (*self == *other),
    {
        broadcast use vstd::array::group_array_axioms;
        let mut i: usize = 0;
        while i < 16
            invariant
                i <= 16,
                forall|j: int| 0 <= j < i ==> self.0[j] == other.0[j],
            decreases 16 - i,
        {
            if self.0[i] != other.0[i] {
                return false;
            }
            i += 1;
        }
        assert(self.0 =~= other.0);
        true
    }

    /// The name as text safe to print and to use in a file name.
    pub fn print_safe(&self) -> (s: String)
        ensures
            s@ == print_safe_text(self.0@),
    {
        let end = trimmed_len_exec(&self.0);
        let mut s = String::new();
        let mut i: usize = 0;
        while i < end
            invariant
                end == trimmed_len(self.0@),
                end <= 16,
                i <= end,
                s@ == self.0@.take(i as int).map_values(|b: u8| safe_char(b)),
            decreases end - i,
        {
            let b = self.0[i];
            let c: char = if is_safe_byte_exec(b) { b as char } else { '_' };
            string_push(&mut s, c);
            i += 1;
            assert(s@ =~= self.0@.take(i as int).map_values(|b: u8| safe_char(b)));
        }
        s
    }
}

/// The length of `b` without its trailing NUL bytes.
pub open spec fn trimmed_len(b: Seq<u8>) -> nat
    decreases b.len(),
{
    if b.len() == 0 {
        0
    } else if b.last() != 0 {
        b.len()
    } else {
        trimmed_len(b.drop_last())
    }
}

proof fn lemma_trimmed_len(b: Seq<u8>)
    ensures
        trimmed_len(b) <= b.len(),
        forall|i: int| trimmed_len(b) <= i < b.len() ==> b[i] == 0,
        trimmed_len(b) > 0 ==> b[trimmed_len(b) - 1] != 0,
    decreases b.len(),
{
    if b.len() > 0 && b.last() == 0 {
        lemma_trimmed_len(b.drop_last());
        assert forall|i: int| trimmed_len(b) <= i < b.len() implies b[i] == 0 by {
            if i < b.len() - 1 {
                assert(b.drop_last()[i] == b[i]);
            }
        }
    }
}

fn trimmed_len_exec(b: &[u8; 16]) -> (n: usize)
    ensures
        n == trimmed_len(b@),
        n <= 16,
{
    let mut end: usize = 16;
    assert(b@.take(16) =~= b@);
    while end != 0
        invariant
            end <= 16,
            trimmed_len(b@) == trimmed_len(b@.take(end as int)),
        decreases end,
    {
        if b[end - 1] != 0 {
            assert(b@.take(end as int).last() == b@[end - 1]);
            return end;
        }
        assert(b@.take(end as int).drop_last() =~= b@.take(end - 1));
        end -= 1;
    }
    end
}

/// Bytes kept as they are in printed names: ASCII letters, digits, `_`,
/// `-` and `.`.
pub open spec fn is_safe_byte(b: u8) -> bool {
    (48 <= b <= 57) || (65 <= b <= 90) || (97 <= b <= 122) || b == 95 || b == 45 || b == 46
}

fn is_safe_byte_exec(b: u8) -> (r: bool)
    ensures
        r == is_safe_byte(b),
{
    (48 <= b && b <= 57) || (65 <= b && b <= 90) || (97 <= b && b <= 122) || b == 95 || b == 45 || b == 46
}

/// The character a byte of a name prints as: itself when it is safe, `_`
/// otherwise.
pub open spec fn safe_char(b: u8) -> char {
    if is_safe_byte(b) { b as char } else { '_' }
}

/// The printed form of a name's bytes: the bytes before the trailing NULs,
/// each as `safe_char` prints it.
pub open spec fn print_safe_text(b: Seq<u8>) -> Seq<char> {
    b.take(trimmed_len(b) as int).map_values(|x: u8| safe_char(x))
}

/// A name whose last non-NUL byte is at `k - 1` has `k` bytes before its
/// trailing NULs.
proof fn lemma_trimmed_len_is(b: Seq<u8>, k: nat)
    requires
        0 < k <= b.len(),
        b[k - 1] != 0,
        forall|i: int| k <= i < b.len() ==> b[i] == 0,
    ensures
        trimmed_len(b) == k,
    decreases b.len(),
{
    if b.len() > k {
        assert(b.last() == 0);
        assert(b.drop_last()[k - 1] == b[k - 1]);
        lemma_trimmed_len_is(b.drop_last(), k);
    }
}

/// The `k`th byte of `"_pl"`.
pub open spec fn pl_byte(k: int) -> u8 {
    if k == 0 { 95 } else if k == 1 { 112 } else { 108 }
}

/// The bytes of a name with `"_pl"` appended after its last non-NUL byte,
/// as much of it as fits.
pub open spec fn appended_pl(b: Seq<u8>) -> Seq<u8> {
    Seq::new(b.len(), |i: int| if trimmed_len(b) <= i < trimmed_len(b) + 3 { pl_byte(i - trimmed_len(b)) } else { b[i] })
}

/// Append "_pl" to the end of a name.
pub fn append_pl(name: &Name) -> (r: Name)
    ensures
        r.0@ == appended_pl(name.0@),
{
    let mut res = *name;
    // Find the index of the first NUL byte in the suffix of NUL bytes.
    let start = trimmed_len_exec(&name.0);
    let mut idx = start;
    let mut k: usize = 0;
    // Append as much of b"_pl" as will fit.
    while k < 3 && idx < 16
        invariant
            start == trimmed_len(name.0@),
            start <= 16,
            idx == start + k,
            k <= 3,
            forall|i: int| 0 <= i < 16 ==> res.0@[i] == if start <= i < idx { pl_byte(i - start) } else { name.0@[i] },
        decreases 3 - k,
    {
        let b: u8 = if k == 0 { 95 } else if k == 1 { 112 } else { 108 };
        res.0[idx] = b;
        idx += 1;
        k += 1;
    }
    assert(res.0@ =~= appended_pl(name.0@));
    res
}

/// A texture: its parameters and its texel data (`data2` is only used by
/// block-compressed textures).
pub struct Texture {
    pub name: Name,
    pub params: TextureParams,
    pub data1: Vec<u8>,
    pub data2: Vec<u8>,
}

/// A palette: the block of RGB555 colors it lives in and its byte offset.
pub struct Palette {
    pub name: Name,
    pub off: u32,
    pub pal_block: Vec<u8>,
}

/// A model material: which texture and palette it names, and the texture
/// parameters it draws with.
pub struct Material {
    pub name: Name,
    pub texture_name: Option<Name>,
    pub palette_name: Option<Name>,
    pub params: TextureParams,
}

/// A model object (a node whose matrix animations drive).
pub struct Object {
    pub name: Name,
}

pub struct Model {
    pub name: Name,
    pub materials: Vec<Material>,
    pub objects: Vec<Object>,
}

/// A skeletal animation: how many frames it has and how many objects it
/// has curves for.
pub struct Animation {
    pub name: Name,
    pub num_frames: u16,
    pub num_objects_curves: usize,
}

/// An animation curve: no data (`Empty`), a constant value, or values sampled at
/// regular intervals from `start_frame` to `end_frame`.
pub enum Curve<T> {
    Empty,
    Constant(T),
    Samples { start_frame: u16, end_frame: u16, values: Vec<T> },
}

/// A keyframe of a pattern animation: from `frame` on, the material uses the
/// pattern's texture and palette names at these indices.
#[derive(Copy, Clone)]
pub struct PatternKeyframe {
    pub frame: u16,
    pub texture_idx: u8,
    pub palette_idx: u8,
}

/// The keyframes a pattern animation has for one material.
pub struct MaterialTrack {
    pub name: Name,
    pub keyframes: Vec<PatternKeyframe>,
}

/// A pattern (texture-swapping) animation.
pub struct Pattern {
    pub name: Name,
    pub num_frames: u16,
    pub texture_names: Vec<Name>,
    pub palette_names: Vec<Name>,
    pub material_tracks: Vec<MaterialTrack>,
}

/// The resources found in one Nitro container file.
pub struct Container {
    pub stamp: [u8; 4],
    pub file_size: u32,
    pub models: Vec<Model>,
    pub textures: Vec<Texture>,
    pub palettes: Vec<Palette>,
    pub animations: Vec<Animation>,
    pub patterns: Vec<Pattern>,
}

/// When there is room for it, `append_pl` adds exactly `_pl` to the
/// printed name.
pub proof fn lemma_print_safe_append_pl(b: Seq<u8>)
    requires
        b.len() == 16,
        trimmed_len(b) + 3 <= 16,
    ensures
        print_safe_text(appended_pl(b)) == print_safe_text(b) + seq!['_', 'p', 'l'],
{
    lemma_trimmed_len(b);
    let t = trimmed_len(b);
    let a = appended_pl(b);
    assert(a[t + 2 as int] == 108u8);
    lemma_trimmed_len_is(a, t + 3);
    assert(print_safe_text(a) =~= print_safe_text(b) + seq!['_', 'p', 'l']) by {
        assert(safe_char(95u8) == '_');
        assert(safe_char(112u8) == 'p');
        assert(safe_char(108u8) == 'l');
    }
}

} // verus!
