//! Extract recognized container files from ROMs or other packed files: where
//! to look for them, what to call the files they are saved to, and the
//! report of what was found.

use vstd::prelude::*;
use crate::nitro::{Container, print_safe_text};
use crate::util::fmt::{dec_str, digit_char, radix_str, zero_padded, push_dec, push_dec_padded};
use crate::util::namers::{names_view, lemma_some_name_free};

verus! {

/// Whether a container stamp (`BMD0`, `BTX0`, `BCA0` or `BTP0`) starts at
/// `i` in `b`.
pub open spec fn is_stamp_at(b: Seq<u8>, i: int) -> bool {
    &&& 0 <= i && i + 3 < b.len()
    &&& b[i] == 0x42 && b[i + 3] == 0x30
    &&& (b[i + 1] == 0x4d && b[i + 2] == 0x44) || (b[i + 1] == 0x54 && b[i + 2] == 0x58)
        || (b[i + 1] == 0x43 && b[i + 2] == 0x41) || (b[i + 1] == 0x54 && b[i + 2] == 0x50)
}

/// The position of the first container stamp in `bytes`, if any.
pub fn find_next_stamp(bytes: &[u8]) -> (r: Option<usize>)
    ensures
        match r {
            Some(i) => is_stamp_at(bytes@, i as int) && forall|j: int| 0 <= j < i ==> !is_stamp_at(bytes@, j),
            None => forall|j: int| !is_stamp_at(bytes@, j),
        },
{
    // find BMD0|BTX0|BCA0|BTP0 (the bytes 0x42 'B', 0x4d 'M', 0x44 'D',
    // 0x54 'T', 0x58 'X', 0x43 'C', 0x41 'A', 0x50 'P', 0x30 '0')
    let mut i: usize = 0;
    while bytes.len() >= 4 && i < bytes.len() - 3
        invariant
            forall|j: int| 0 <= j < i ==> !is_stamp_at(bytes@, j),
        decreases bytes@.len() - i,
    {
        if bytes[i] == 0x42 && bytes[i + 3] == 0x30 {
            if (bytes[i + 1] == 0x4d && bytes[i + 2] == 0x44)
                || (bytes[i + 1] == 0x54 && bytes[i + 2] == 0x58)
                || (bytes[i + 1] == 0x43 && bytes[i + 2] == 0x41)
                || (bytes[i + 1] == 0x54 && bytes[i + 2] == 0x50)
            {
                return Some(i);
            }
        }
        i += 1;
    }
    None
}

/// Whether `b` is the first byte of LZ77-compressed data (`0x10` or `0x11`).
pub open spec fn is_compression_start(b: u8) -> bool {
    b == 0x10 || b == 0x11
}

/// The position of the first byte in `bytes` that can start compressed
/// data, if any.
pub fn find_next_compression_start_byte(bytes: &[u8]) -> (r: Option<usize>)
    ensures
        match r {
            Some(i) => i < bytes@.len() && is_compression_start(bytes@[i as int])
                && forall|j: int| 0 <= j < i ==> !is_compression_start(bytes@[j]),
            None => forall|j: int| 0 <= j < bytes@.len() ==> !is_compression_start(bytes@[j]),
        },
{
    // find 0x10|0x11
    let mut i: usize = 0;
    while i != bytes.len()
        invariant
            i <= bytes@.len(),
            forall|j: int| 0 <= j < i ==> !is_compression_start(bytes@[j]),
        decreases bytes@.len() - i,
    {
        if bytes[i] == 0x10 || bytes[i] == 0x11 {
            return Some(i);
        }
        i += 1;
    }
    None
}

/// Whether `stamp` is the four bytes `a`, `b`, `c`, `d`.
pub open spec fn stamp_is(stamp: [u8; 4], a: u8, b: u8, c: u8, d: u8) -> bool {
    stamp@ == seq![a, b, c, d]
}

fn stamp_eq(stamp: &[u8; 4], a: u8, b: u8, c: u8, d: u8) -> (r: bool)
    ensures
        r == stamp_is(*stamp, a, b, c, d),
{
    let r = stamp[0] == a && stamp[1] == b && stamp[2] == c && stamp[3] == d;
    proof {
        if r {
            assert(stamp@ =~= seq![a, b, c, d]);
        } else if stamp@ == seq![a, b, c, d] {
            assert(stamp@[0] == a && stamp@[1] == b && stamp@[2] == c && stamp@[3] == d);
        }
    }
    r
}

pub open spec fn is_bmd(stamp: [u8; 4]) -> bool { stamp_is(stamp, 0x42, 0x4d, 0x44, 0x30) }
pub open spec fn is_btx(stamp: [u8; 4]) -> bool { stamp_is(stamp, 0x42, 0x54, 0x58, 0x30) }
pub open spec fn is_bca(stamp: [u8; 4]) -> bool { stamp_is(stamp, 0x42, 0x43, 0x41, 0x30) }
pub open spec fn is_btp(stamp: [u8; 4]) -> bool { stamp_is(stamp, 0x42, 0x54, 0x50, 0x30) }

/// The file extension for a container with this stamp.
pub open spec fn extension_for(stamp: [u8; 4]) -> Seq<char> {
    if is_bmd(stamp) {
        "nsbmd"@
    } else if is_btx(stamp) {
        "nsbtx"@
    } else if is_bca(stamp) {
        "nsbca"@
    } else if is_btp(stamp) {
        "nsbtp"@
    } else {
        "nsbxx"@
    }
}

/// The file extension for a container with this stamp.
pub fn file_extension(stamp: &[u8; 4]) -> (ext: &'static str)
    ensures
        ext@ == extension_for(*stamp),
{
    if stamp_eq(stamp, 0x42, 0x4d, 0x44, 0x30) {
        "nsbmd"
    } else if stamp_eq(stamp, 0x42, 0x54, 0x58, 0x30) {
        "nsbtx"
    } else if stamp_eq(stamp, 0x42, 0x43, 0x41, 0x30) {
        "nsbca"
    } else if stamp_eq(stamp, 0x42, 0x54, 0x50, 0x30) {
        "nsbtp"
    } else {
        "nsbxx"
    }
}

/// A name for a container: the name of its first item (models first, then
/// textures, palettes, animations and patterns), or one that says which kind
/// of empty file it is.
pub open spec fn container_name(cont: Container) -> Seq<char> {
    if cont.models@.len() > 0 {
        print_safe_text(cont.models@[0].name.0@)
    } else if cont.textures@.len() > 0 {
        print_safe_text(cont.textures@[0].name.0@)
    } else if cont.palettes@.len() > 0 {
        print_safe_text(cont.palettes@[0].name.0@)
    } else if cont.animations@.len() > 0 {
        print_safe_text(cont.animations@[0].name.0@)
    } else if cont.patterns@.len() > 0 {
        print_safe_text(cont.patterns@[0].name.0@)
    } else if is_bmd(cont.stamp) {
        "empty_model_file"@
    } else if is_btx(cont.stamp) {
        "empty_texture_file"@
    } else if is_bca(cont.stamp) {
        "empty_animation_file"@
    } else if is_btp(cont.stamp) {
        "empty_pattern_file"@
    } else {
        "empty_unknown_file"@
    }
}

/// Guess a name for `cont` using the name of its first item.
pub fn guess_container_name(cont: &Container) -> (s: String)
    ensures
        s@ == container_name(*cont),
{
    if cont.models.len() > 0 {
        cont.models[0].name.print_safe()
    } else if cont.textures.len() > 0 {
        cont.textures[0].name.print_safe()
    } else if cont.palettes.len() > 0 {
        cont.palettes[0].name.print_safe()
    } else if cont.animations.len() > 0 {
        cont.animations[0].name.print_safe()
    } else if cont.patterns.len() > 0 {
        cont.patterns[0].name.print_safe()
    } else if stamp_eq(&cont.stamp, 0x42, 0x4d, 0x44, 0x30) {
        String::from_str("empty_model_file")
    } else if stamp_eq(&cont.stamp, 0x42, 0x54, 0x58, 0x30) {
        String::from_str("empty_texture_file")
    } else if stamp_eq(&cont.stamp, 0x42, 0x43, 0x41, 0x30) {
        String::from_str("empty_animation_file")
    } else if stamp_eq(&cont.stamp, 0x42, 0x54, 0x50, 0x30) {
        String::from_str("empty_pattern_file")
    } else {
        String::from_str("empty_unknown_file")
    }
}

/// The `i`th file name tried for `name` with extension `ext`:
/// `name.ext`, then `name.001.ext`, `name.002.ext`, ...
pub open spec fn save_path_candidate(name: Seq<char>, ext: Seq<char>, i: nat) -> Seq<char> {
    if i == 0 {
        name + seq!['.'] + ext
    } else {
        name + seq!['.'] + zero_padded(dec_str(i), 3) + seq!['.'] + ext
    }
}

/// The index of the first file name tried, from the `i`th on, that is not
/// in `taken`.
pub open spec fn first_free_path_from(name: Seq<char>, ext: Seq<char>, taken: Seq<Seq<char>>, i: nat) -> nat
    decreases taken.len() + 1 - i,
{
    if !taken.contains(save_path_candidate(name, ext, i)) || i > taken.len() {
        i
    } else {
        first_free_path_from(name, ext, taken, i + 1)
    }
}

/// The file name picked for `name` and `ext` when the names in `taken` are
/// taken.
pub open spec fn free_save_path(name: Seq<char>, ext: Seq<char>, taken: Seq<Seq<char>>) -> Seq<char> {
    save_path_candidate(name, ext, first_free_path_from(name, ext, taken, 0))
}

proof fn lemma_dec_len(n: nat)
    ensures
        n < 10 ==> dec_str(n).len() == 1,
        10 <= n < 100 ==> dec_str(n).len() == 2,
        100 <= n < 1000 ==> dec_str(n).len() == 3,
        n >= 1000 ==> dec_str(n).len() >= 4,
    decreases n,
{
    if n >= 10 {
        lemma_dec_len(n / 10);
    }
}

/// Below 1000, `{:03}` writes the hundreds, tens and units digits.
proof fn lemma_padded_digits(n: nat)
    requires
        n < 1000,
    ensures
        zero_padded(dec_str(n), 3) == seq![digit_char(n / 100), digit_char((n / 10) % 10), digit_char(n % 10)],
{
    lemma_dec_len(n);
    if n < 10 {
        assert(zero_padded(dec_str(n), 3) =~= seq!['0', '0', digit_char(n)]);
    } else if n < 100 {
        assert(dec_str(n) == dec_str(n / 10).push(digit_char(n % 10)));
        assert(zero_padded(dec_str(n), 3) =~= seq!['0', digit_char(n / 10), digit_char(n % 10)]);
    } else {
        assert(dec_str(n) == dec_str(n / 10).push(digit_char(n % 10)));
        assert(dec_str(n / 10) == dec_str(n / 10 / 10).push(digit_char((n / 10) % 10)));
        assert(n / 10 / 10 == n / 100);
        assert(zero_padded(dec_str(n), 3) =~= seq![digit_char(n / 100), digit_char((n / 10) % 10), digit_char(n % 10)]);
    }
}

proof fn lemma_padded_injective(a: nat, b: nat)
    requires
        zero_padded(dec_str(a), 3) == zero_padded(dec_str(b), 3),
    ensures
        a == b,
{
    lemma_dec_len(a);
    lemma_dec_len(b);
    if a < 1000 && b < 1000 {
        lemma_padded_digits(a);
        lemma_padded_digits(b);
        let pa = zero_padded(dec_str(a), 3);
        assert(pa[0] == digit_char(a / 100) && pa[0] == digit_char(b / 100));
        assert(pa[1] == digit_char((a / 10) % 10) && pa[1] == digit_char((b / 10) % 10));
        assert(pa[2] == digit_char(a % 10) && pa[2] == digit_char(b % 10));
        assert(a / 100 == b / 100);
        assert((a / 10) % 10 == (b / 10) % 10);
        assert(a % 10 == b % 10);
        assert(a == 100 * (a / 100) + 10 * ((a / 10) % 10) + a % 10);
        assert(b == 100 * (b / 100) + 10 * ((b / 10) % 10) + b % 10);
    } else if a >= 1000 && b >= 1000 {
        crate::util::namers::lemma_dec_str_injective(a, b);
    } else {
        assert(zero_padded(dec_str(a), 3).len() != zero_padded(dec_str(b), 3).len());
    }
}

proof fn lemma_save_path_candidate_injective(name: Seq<char>, ext: Seq<char>, i: nat, j: nat)
    requires
        save_path_candidate(name, ext, i) == save_path_candidate(name, ext, j),
    ensures
        i == j,
{
    lemma_dec_len(i);
    lemma_dec_len(j);
    let ci = save_path_candidate(name, ext, i);
    if i != 0 && j != 0 {
        let pi = zero_padded(dec_str(i), 3);
        let pj = zero_padded(dec_str(j), 3);
        let cj = save_path_candidate(name, ext, j);
        assert(ci.len() == name.len() + 1 + pi.len() + 1 + ext.len());
        assert(cj.len() == name.len() + 1 + pj.len() + 1 + ext.len());
        assert(pi.len() == pj.len());
        assert(pi =~= ci.subrange(name.len() + 1 as int, name.len() + 1 + pi.len() as int));
        assert(pj =~= ci.subrange(name.len() + 1 as int, name.len() + 1 + pj.len() as int));
        lemma_padded_injective(i, j);
    } else if i != j {
        assert(save_path_candidate(name, ext, i).len() != save_path_candidate(name, ext, j).len());
    }
}

proof fn lemma_first_free_path_from(name: Seq<char>, ext: Seq<char>, taken: Seq<Seq<char>>, i: nat)
    requires
        i <= taken.len() + 1,
        forall|j: nat| j < i ==> taken.contains(#[trigger] save_path_candidate(name, ext, j)),
    ensures
        i <= first_free_path_from(name, ext, taken, i) <= taken.len(),
        !taken.contains(save_path_candidate(name, ext, first_free_path_from(name, ext, taken, i))),
        forall|j: nat| j < first_free_path_from(name, ext, taken, i)
            ==> taken.contains(#[trigger] save_path_candidate(name, ext, j)),
    decreases taken.len() + 1 - i,
{
    let f = |k: nat| save_path_candidate(name, ext, k);
    assert forall|a: nat, b: nat| #[trigger] f(a) == #[trigger] f(b) implies a == b by {
        lemma_save_path_candidate_injective(name, ext, a, b);
    }
    lemma_some_name_free(f, taken);
    if i > taken.len() {
        let k = choose|k: nat| k <= taken.len() && !taken.contains(#[trigger] f(k));
        assert(taken.contains(save_path_candidate(name, ext, k)));
    } else if taken.contains(save_path_candidate(name, ext, i)) {
        lemma_first_free_path_from(name, ext, taken, i + 1);
    }
}

/// The file name picked is not taken, so files saved one after another
/// never overwrite each other.
pub proof fn lemma_save_paths_distinct(name: Seq<char>, ext: Seq<char>, taken: Seq<Seq<char>>)
    requires
        taken.no_duplicates(),
    ensures
        !taken.contains(free_save_path(name, ext, taken)),
        taken.push(free_save_path(name, ext, taken)).no_duplicates(),
{
    lemma_first_free_path_from(name, ext, taken, 0);
    let p = free_save_path(name, ext, taken);
    let t = taken.push(p);
    assert forall|i: int, j: int| 0 <= i < t.len() && 0 <= j < t.len() && i != j implies t[i] != t[j] by {
        if i == taken.len() {
            assert(taken[j] == t[j]);
        } else if j == taken.len() {
            assert(taken[i] == t[i]);
        }
    }
}

/// The file names picked so far, and how many files of each kind were
/// saved.
pub struct ExtractOutput {
    pub taken_file_names: Vec<String>,
    pub num_bmds: u32,
    pub num_btxs: u32,
    pub num_bcas: u32,
    pub num_btps: u32,
}

/// `"s"` unless `x` is one.
pub open spec fn plural(x: u32) -> Seq<char> {
    if x != 1 { "s"@ } else { ""@ }
}

impl ExtractOutput {
    /// The file names picked so far.
    pub open spec fn taken(&self) -> Seq<Seq<char>> {
        names_view(self.taken_file_names@)
    }

    pub fn new() -> (o: ExtractOutput)
        ensures
            o.taken() == Seq::<Seq<char>>::empty(),
            o.num_bmds == 0 && o.num_btxs == 0 && o.num_bcas == 0 && o.num_btps == 0,
    {
        let o = ExtractOutput { taken_file_names: Vec::new(), num_bmds: 0, num_btxs: 0, num_bcas: 0, num_btps: 0 };
        assert(o.taken() =~= Seq::<Seq<char>>::empty());
        o
    }

    /// Picks the file a container named `file_name` with stamp `stamp` is
    /// saved to: the first of `file_name.ext`, `file_name.001.ext`,
    /// `file_name.002.ext`, ... not picked before.
    pub fn pick_save_path(&mut self, file_name: &String, stamp: &[u8; 4]) -> (p: String)
        ensures
            p@ == free_save_path(file_name@, extension_for(*stamp), old(self).taken()),
            final(self).taken() == old(self).taken().push(p@),
            final(self).num_bmds == old(self).num_bmds,
            final(self).num_btxs == old(self).num_btxs,
            final(self).num_bcas == old(self).num_bcas,
            final(self).num_btps == old(self).num_btps,
    {
        let ext = file_extension(stamp);
        let ghost taken = self.taken();
        let ghost e = ext@;
        proof {
            lemma_first_free_path_from(file_name@, e, taken, 0);
        }
        let n: usize = self.taken_file_names.len();
        let mut save_path = self.candidate(file_name, ext, 0);
        let mut cntr: usize = 0;
        while crate::util::namers::is_taken(&self.taken_file_names, &save_path)
            invariant
                taken == self.taken(),
                taken.len() == n,
                e == ext@,
                cntr <= taken.len(),
                save_path@ == save_path_candidate(file_name@, e, cntr as nat),
                forall|j: nat| j < cntr ==> taken.contains(#[trigger] save_path_candidate(file_name@, e, j)),
                first_free_path_from(file_name@, e, taken, 0) == first_free_path_from(file_name@, e, taken, cntr as nat),
            decreases taken.len() - cntr,
        {
            proof {
                lemma_first_free_path_from(file_name@, e, taken, (cntr + 1) as nat);
            }
            cntr += 1;
            save_path = self.candidate(file_name, ext, cntr);
        }
        let ghost r = save_path@;
        self.taken_file_names.push(save_path.clone());
        assert(self.taken() =~= taken.push(r));
        save_path
    }

    fn candidate(&self, file_name: &String, ext: &str, cntr: usize) -> (p: String)
        ensures
            p@ == save_path_candidate(file_name@, ext@, cntr as nat),
    {
        let mut p = file_name.clone();
        p.append(".");
        if cntr != 0 {
            push_dec_padded(&mut p, cntr as u64, 3);
            p.append(".");
        }
        p.append(ext);
        proof {
            reveal_strlit(".");
        }
        assert(p@ =~= save_path_candidate(file_name@, ext@, cntr as nat));
        p
    }

    /// Counts a saved container with stamp `stamp`.
    pub fn count_saved(&mut self, stamp: &[u8; 4])
        requires
            old(self).num_bmds < u32::MAX,
            old(self).num_btxs < u32::MAX,
            old(self).num_bcas < u32::MAX,
            old(self).num_btps < u32::MAX,
        ensures
            final(self).taken() == old(self).taken(),
            final(self).num_bmds == old(self).num_bmds + if is_bmd(*stamp) { 1int } else { 0 },
            final(self).num_btxs == old(self).num_btxs + if is_btx(*stamp) { 1int } else { 0 },
            final(self).num_bcas == old(self).num_bcas + if is_bca(*stamp) { 1int } else { 0 },
            final(self).num_btps == old(self).num_btps + if is_btp(*stamp) { 1int } else { 0 },
    {
        if stamp_eq(stamp, 0x42, 0x4d, 0x44, 0x30) {
            self.num_bmds += 1;
        } else if stamp_eq(stamp, 0x42, 0x54, 0x58, 0x30) {
            self.num_btxs += 1;
        } else if stamp_eq(stamp, 0x42, 0x43, 0x41, 0x30) {
            self.num_bcas += 1;
        } else if stamp_eq(stamp, 0x42, 0x54, 0x50, 0x30) {
            self.num_btps += 1;
        }
    }

    /// The report on extraction results.
    pub fn report(&self) -> (s: String)
        ensures
            s@ == "Found "@ + dec_str(self.num_bmds as nat) + " BMD"@ + plural(self.num_bmds)
                + ", "@ + dec_str(self.num_btxs as nat) + " BTX"@ + plural(self.num_btxs)
                + ", "@ + dec_str(self.num_bcas as nat) + " BCA"@ + plural(self.num_bcas)
                + ", "@ + dec_str(self.num_btps as nat) + " BTP"@ + plural(self.num_btps) + "."@,
    {
        let mut s = String::from_str("Found ");
        push_dec(&mut s, self.num_bmds as u64);
        s.append(" BMD");
        s.append(plural_exec(self.num_bmds));
        s.append(", ");
        push_dec(&mut s, self.num_btxs as u64);
        s.append(" BTX");
        s.append(plural_exec(self.num_btxs));
        s.append(", ");
        push_dec(&mut s, self.num_bcas as u64);
        s.append(" BCA");
        s.append(plural_exec(self.num_bcas));
        s.append(", ");
        push_dec(&mut s, self.num_btps as u64);
        s.append(" BTP");
        s.append(plural_exec(self.num_btps));
        s.append(".");
        s
    }
}

fn plural_exec(x: u32) -> (s: &'static str)
    ensures
        s@ == plural(x),
{
    if x != 1 { "s" } else { "" }
}

} // verus!
