//! Picking names that have not been used yet.
//!
//! A name is made unique by trying `"{desired}"`, then `"{desired}1"`,
//! `"{desired}2"`, ... and taking the first one not already taken.

use vstd::prelude::*;
use vstd::set_lib::{set_int_range, lemma_int_range, lemma_map_size, lemma_len_subset};
use crate::util::fmt::{digit_char, radix_str, dec_str, push_dec};

verus! {

/// The text of each string in `v`.
pub open spec fn names_view(v: Seq<String>) -> Seq<Seq<char>> {
    v.map_values(|s: String| s@)
}

/// The `i`th name tried for `desired`: `desired` itself, then `desired`
/// followed by `i` in decimal.
pub open spec fn candidate(desired: Seq<char>, i: nat) -> Seq<char> {
    if i == 0 { desired } else { desired + dec_str(i) }
}

/// The index of the first name tried for `desired`, from the `i`th on, that
/// is not in `taken`.
pub open spec fn first_free_from(desired: Seq<char>, taken: Seq<Seq<char>>, i: nat) -> nat
    decreases taken.len() + 1 - i,
{
    if !taken.contains(candidate(desired, i)) || i > taken.len() {
        i
    } else {
        first_free_from(desired, taken, i + 1)
    }
}

/// The name picked for `desired` when the names in `taken` are taken.
pub open spec fn free_name(desired: Seq<char>, taken: Seq<Seq<char>>) -> Seq<char> {
    candidate(desired, first_free_from(desired, taken, 0))
}

proof fn lemma_digit_char_injective(a: nat, b: nat)
    requires
        a < 16,
        b < 16,
        digit_char(a) == digit_char(b),
    ensures
        a == b,
{
}

proof fn lemma_radix_str_nonempty(n: nat, base: nat)
    requires
        base >= 2,
    ensures
        radix_str(n, base).len() >= 1,
        n >= base ==> radix_str(n, base).len() >= 2,
    decreases n,
{
    if n >= base {
        assert(n / base < n) by (nonlinear_arith)
            requires
                base >= 2,
                n >= base,
        ;
        lemma_radix_str_nonempty(n / base, base);
    }
}

/// Different numbers have different decimal forms.
pub proof fn lemma_dec_str_injective(a: nat, b: nat)
    requires
        dec_str(a) == dec_str(b),
    ensures
        a == b,
    decreases a,
{
    lemma_radix_str_nonempty(a, 10);
    lemma_radix_str_nonempty(b, 10);
    if a < 10 {
        if b >= 10 {
            assert(false);
        }
        assert(dec_str(a)[0] == digit_char(a));
        assert(dec_str(b)[0] == digit_char(b));
        lemma_digit_char_injective(a, b);
    } else {
        if b < 10 {
            assert(false);
        }
        let sa = dec_str(a);
        let sb = dec_str(b);
        assert(sa.last() == digit_char(a % 10));
        assert(sb.last() == digit_char(b % 10));
        lemma_digit_char_injective(a % 10, b % 10);
        assert(sa.drop_last() == dec_str(a / 10));
        assert(sb.drop_last() == dec_str(b / 10));
        assert(a / 10 < a);
        lemma_dec_str_injective(a / 10, b / 10);
        assert(a == 10 * (a / 10) + a % 10);
        assert(b == 10 * (b / 10) + b % 10);
    }
}

/// The names tried for one desired name are all different.
pub proof fn lemma_candidate_injective(desired: Seq<char>, i: nat, j: nat)
    requires
        candidate(desired, i) == candidate(desired, j),
    ensures
        i == j,
{
    lemma_radix_str_nonempty(i, 10);
    lemma_radix_str_nonempty(j, 10);
    if i != 0 && j != 0 {
        assert(dec_str(i) =~= candidate(desired, i).skip(desired.len() as int));
        assert(dec_str(j) =~= candidate(desired, j).skip(desired.len() as int));
        lemma_dec_str_injective(i, j);
    } else if i != j {
        assert(candidate(desired, i).len() != candidate(desired, j).len());
    }
}

/// Of `taken.len() + 1` different names, one is not in `taken`.
pub proof fn lemma_some_name_free(f: spec_fn(nat) -> Seq<char>, taken: Seq<Seq<char>>)
    requires
        forall|i: nat, j: nat| #[trigger] f(i) == #[trigger] f(j) ==> i == j,
    ensures
        exists|i: nat| i <= taken.len() && !taken.contains(#[trigger] f(i)),
{
    if forall|i: nat| i <= taken.len() ==> taken.contains(#[trigger] f(i)) {
        let n = taken.len() as int;
        let g = |i: int| f(i as nat);
        let range = set_int_range(0, n + 1);
        lemma_int_range(0, n + 1);
        assert(vstd::relations::injective_on(g, range)) by {
            assert forall|x: int, y: int| range.contains(x) && range.contains(y) && #[trigger] g(x) == #[trigger] g(y)
                implies x == y by {
                assert(f(x as nat) == f(y as nat));
            }
        }
        let tried = range.map(g);
        lemma_map_size(range, tried, g);
        assert(tried.subset_of(taken.to_set())) by {
            assert forall|s: Seq<char>| tried.contains(s) implies taken.to_set().contains(s) by {
                let i = choose|i: int| range.contains(i) && g(i) == s;
                assert(taken.contains(f(i as nat)));
            }
        }
        taken.lemma_cardinality_of_set();
        lemma_len_subset(tried, taken.to_set());
        assert(false);
    }
}

/// Among the first `taken.len() + 1` names tried, one is free.
pub proof fn lemma_free_candidate_exists(desired: Seq<char>, taken: Seq<Seq<char>>)
    ensures
        exists|i: nat| i <= taken.len() && !taken.contains(#[trigger] candidate(desired, i)),
{
    let f = |i: nat| candidate(desired, i);
    assert forall|i: nat, j: nat| #[trigger] f(i) == #[trigger] f(j) implies i == j by {
        lemma_candidate_injective(desired, i, j);
    }
    lemma_some_name_free(f, taken);
    let k = choose|i: nat| i <= taken.len() && !taken.contains(#[trigger] f(i));
    assert(!taken.contains(candidate(desired, k)));
}

/// Every name tried before the first free one is taken.
proof fn lemma_first_free_from(desired: Seq<char>, taken: Seq<Seq<char>>, i: nat)
    requires
        i <= taken.len() + 1,
        forall|j: nat| j < i ==> taken.contains(#[trigger] candidate(desired, j)),
    ensures
        i <= first_free_from(desired, taken, i) <= taken.len(),
        !taken.contains(candidate(desired, first_free_from(desired, taken, i))),
        forall|j: nat| j < first_free_from(desired, taken, i) ==> taken.contains(#[trigger] candidate(desired, j)),
    decreases taken.len() + 1 - i,
{
    lemma_free_candidate_exists(desired, taken);
    if i > taken.len() {
        let k = choose|k: nat| k <= taken.len() && !taken.contains(#[trigger] candidate(desired, k));
        assert(taken.contains(candidate(desired, k)));
    } else if taken.contains(candidate(desired, i)) {
        lemma_first_free_from(desired, taken, i + 1);
    }
}

/// The name picked is free, and it is the first name tried that is: every
/// name tried before it is taken.
pub proof fn lemma_free_name(desired: Seq<char>, taken: Seq<Seq<char>>)
    ensures
        !taken.contains(free_name(desired, taken)),
        exists|k: nat| free_name(desired, taken) == #[trigger] candidate(desired, k)
            && forall|j: nat| j < k ==> taken.contains(#[trigger] candidate(desired, j)),
{
    lemma_first_free_from(desired, taken, 0);
    let k = first_free_from(desired, taken, 0);
    assert(free_name(desired, taken) == candidate(desired, k));
}

/// A name picked this way is never one already taken, so names picked one
/// after another, starting from none taken, are all different.
pub proof fn lemma_picked_names_distinct(desired: Seq<char>, taken: Seq<Seq<char>>)
    requires
        taken.no_duplicates(),
    ensures
        taken.push(free_name(desired, taken)).no_duplicates(),
{
    lemma_free_name(desired, taken);
    let t = taken.push(free_name(desired, taken));
    assert forall|i: int, j: int| 0 <= i < t.len() && 0 <= j < t.len() && i != j implies t[i] != t[j] by {
        if i == taken.len() {
            assert(taken[j] == t[j]);
        } else if j == taken.len() {
            assert(taken[i] == t[i]);
        }
    }
}

/// Whether `name` is one of `taken`.
pub(crate) fn is_taken(taken: &Vec<String>, name: &String) -> (r: bool)
    ensures
        r == names_view(taken@).contains(name@),
{
    let mut i: usize = 0;
    while i < taken.len()
        invariant
            i <= taken@.len(),
            forall|j: int| 0 <= j < i ==> taken@[j]@ != name@,
        decreases taken@.len() - i,
    {
        if taken[i] == *name {
            assert(names_view(taken@)[i as int] == name@);
            return true;
        }
        i += 1;
    }
    proof {
        if names_view(taken@).contains(name@) {
            let j = choose|j: int| 0 <= j < names_view(taken@).len() && names_view(taken@)[j] == name@;
            assert(taken@[j]@ == name@);
        }
    }
    false
}

/// Picks the first name from
///
/// * `"{desired_name}"`
/// * `"{desired_name}1"`
/// * `"{desired_name}2"`
/// * ...
///
/// which is not taken, marks it as taken, and returns it.
pub fn find_free_name(taken_names: &mut Vec<String>, desired_name: String) -> (r: String)
    ensures
        r@ == free_name(desired_name@, names_view(old(taken_names)@)),
        names_view(final(taken_names)@) == names_view(old(taken_names)@).push(r@),
{
    let ghost taken = names_view(taken_names@);
    proof {
        lemma_first_free_from(desired_name@, taken, 0);
    }
    let chosen_name = if !is_taken(taken_names, &desired_name) {
        desired_name
    } else {
        let n: usize = taken_names.len();
        let mut i: usize = 1;
        let mut name = desired_name.clone();
        push_dec(&mut name, i as u64);
        while is_taken(taken_names, &name)
            invariant
                taken == names_view(taken_names@),
                taken.len() == n,
                1 <= i <= taken.len(),
                name@ == candidate(desired_name@, i as nat),
                forall|j: nat| j < i ==> taken.contains(#[trigger] candidate(desired_name@, j)),
                first_free_from(desired_name@, taken, 0) == first_free_from(desired_name@, taken, i as nat),
            decreases taken.len() - i,
        {
            proof {
                lemma_first_free_from(desired_name@, taken, (i + 1) as nat);
            }
            i += 1;
            name = desired_name.clone();
            push_dec(&mut name, i as u64);
        }
        name
    };
    let ghost r = chosen_name@;
    taken_names.push(chosen_name.clone());
    assert(names_view(taken_names@) =~= taken.push(r));
    chosen_name
}

/// Hands out names, none of them twice.
pub struct UniqueNamer {
    taken_names: Vec<String>,
}

impl UniqueNamer {
    /// The names handed out so far, in order.
    pub closed spec fn taken(&self) -> Seq<Seq<char>> {
        names_view(self.taken_names@)
    }

    pub fn new() -> (n: UniqueNamer)
        ensures
            n.taken() == Seq::<Seq<char>>::empty(),
    {
        let n = UniqueNamer { taken_names: Vec::new() };
        assert(n.taken() =~= Seq::<Seq<char>>::empty());
        n
    }

    /// A name that has not been handed out yet, made from `name` as
    /// `find_free_name` makes it.
    pub fn get_fresh_name(&mut self, name: String) -> (r: String)
        ensures
            r@ == free_name(name@, old(self).taken()),
            final(self).taken() == old(self).taken().push(r@),
    {
        find_free_name(&mut self.taken_names, name)
    }
}

} // verus!
