//! Writing integers as text: decimal and hexadecimal digits, as the `{}`,
//! `{:03}` and `{:#x}` formats of integers write them.

use vstd::prelude::*;
use crate::util::strings::string_push;

verus! {

/// The character for digit `d` (`0`-`9`, then lower-case `a`-`f`).
pub open spec fn digit_char(d: nat) -> char {
    if d < 10 {
        (48 + d) as char
    } else {
        (87 + d) as char
    }
}

/// The digits of `n` in base `base`, most significant first, with no
/// leading zeros (zero is the single digit `0`).
pub open spec fn radix_str(n: nat, base: nat) -> Seq<char>
    decreases n,
{
    if base < 2 {
        Seq::empty()
    } else if n < base {
        seq![digit_char(n)]
    } else {
        proof {
            assert(n / base < n) by (nonlinear_arith)
                requires
                    base >= 2,
                    n >= base,
            ;
        }
        radix_str(n / base, base).push(digit_char(n % base))
    }
}

/// `n` in decimal, as `{}` writes it.
pub open spec fn dec_str(n: nat) -> Seq<char> {
    radix_str(n, 10)
}

/// `n` in hexadecimal with the `0x` prefix, as `{:#x}` writes it.
pub open spec fn hex_str(n: nat) -> Seq<char> {
    seq!['0', 'x'] + radix_str(n, 16)
}

/// `s` preceded by as many `0`s as it takes to be `width` characters long.
pub open spec fn zero_padded(s: Seq<char>, width: nat) -> Seq<char> {
    if s.len() < width {
        Seq::new((width - s.len()) as nat, |_i: int| '0') + s
    } else {
        s
    }
}

fn digit_to_char(d: u64) -> (c: char)
    requires
        d < 16,
    ensures
        c == digit_char(d as nat),
{
    let b: u8 = if d < 10 { 48 + d as u8 } else { 87 + d as u8 };
    b as char
}

/// Appends the digits of `n` in base `base`.
pub fn push_radix(s: &mut String, n: u64, base: u64)
    requires
        2 <= base <= 16,
    ensures
        final(s)@ == old(s)@ + radix_str(n as nat, base as nat),
    decreases n,
{
    let ghost start = s@;
    if n >= base {
        assert(n / base < n) by (nonlinear_arith)
            requires
                base >= 2,
                n >= base,
        ;
        push_radix(s, n / base, base);
        string_push(s, digit_to_char(n % base));
        assert(s@ =~= start + radix_str(n as nat, base as nat));
    } else {
        assert(n % base == n) by (nonlinear_arith)
            requires
                n < base,
        ;
        string_push(s, digit_to_char(n % base));
        assert(s@ =~= start + radix_str(n as nat, base as nat));
    }
}

/// Appends `n` in decimal (`{}`).
pub fn push_dec(s: &mut String, n: u64)
    ensures
        final(s)@ == old(s)@ + dec_str(n as nat),
{
    push_radix(s, n, 10);
}

/// Appends `n` in hexadecimal with the `0x` prefix (`{:#x}`).
pub fn push_hex(s: &mut String, n: u64)
    ensures
        final(s)@ == old(s)@ + hex_str(n as nat),
{
    string_push(s, '0');
    string_push(s, 'x');
    push_radix(s, n, 16);
    assert(s@ == old(s)@ + hex_str(n as nat));
}

/// Appends `n` in decimal, padded with zeros to at least `width`
/// characters (`{:0width$}`).
pub fn push_dec_padded(s: &mut String, n: u64, width: usize)
    ensures
        final(s)@ == old(s)@ + zero_padded(dec_str(n as nat), width as nat),
{
    let mut digits = String::new();
    push_dec(&mut digits, n);
    let len = digits.unicode_len();
    let ghost start = s@;
    if len < width {
        let mut i: usize = 0;
        while i < width - len
            invariant
                len < width,
                i <= width - len,
                s@ == start + Seq::new(i as nat, |_j: int| '0'),
            decreases width - len - i,
        {
            string_push(s, '0');
            i += 1;
            assert(s@ =~= start + Seq::new(i as nat, |_j: int| '0'));
        }
    }
    s.append(digits.as_str());
    assert(s@ =~= start + zero_padded(dec_str(n as nat), width as nat));
}

} // verus!
