//! Extracting bit fields from integers.

use vstd::prelude::*;
use vstd::arithmetic::power2::{pow2, lemma_pow2_pos, lemma2_to64};
use vstd::bits::{
    low_bits_mask, lemma_u32_shr_is_div, lemma_u32_shl_is_mul, lemma_u32_pow2_no_overflow,
    lemma_u32_low_bits_mask_is_mod,
};

verus! {

/// The value of bits `lo..hi` of `x` (bit 0 being the least significant).
pub open spec fn bit_field(x: nat, lo: nat, hi: nat) -> nat {
    (x / pow2(lo)) % pow2((hi - lo) as nat)
}

/// Bits `lo..hi` of a 32-bit word.
pub fn bits_u32(x: u32, lo: u32, hi: u32) -> (r: u32)
    requires
        lo < hi <= 32,
    ensures
        r as nat == bit_field(x as nat, lo as nat, hi as nat),
{
    let shifted = x >> lo;
    proof {
        lemma_u32_shr_is_div(x, lo);
        lemma_pow2_pos(lo as nat);
    }
    let n = hi - lo;
    if n == 32 {
        proof {
            lemma2_to64();
            assert(pow2(0) == 1);
            assert(x as nat / 1 == x as nat);
            assert((x as nat) < pow2(32));
            vstd::arithmetic::div_mod::lemma_small_mod(x as nat, pow2(32));
        }
        x
    } else {
        proof {
            lemma_u32_pow2_no_overflow(n as nat);
            lemma_u32_shl_is_mul(1, n);
            lemma_u32_low_bits_mask_is_mod(shifted, n as nat);
        }
        let mask = (1u32 << n) - 1;
        assert(mask == low_bits_mask(n as nat) as u32);
        shifted & mask
    }
}

/// Bits `lo..hi` of a 16-bit word.
pub fn bits_u16(x: u16, lo: u32, hi: u32) -> (r: u16)
    requires
        lo < hi <= 16,
    ensures
        r as nat == bit_field(x as nat, lo as nat, hi as nat),
{
    let r = bits_u32(x as u32, lo, hi);
    proof {
        lemma2_to64();
        vstd::arithmetic::power2::lemma_pow2_strictly_increases((hi - lo) as nat, 17);
        if hi - lo < 16 {
            vstd::arithmetic::power2::lemma_pow2_strictly_increases((hi - lo) as nat, 16);
        }
        vstd::arithmetic::div_mod::lemma_mod_bound(
            (x as nat / pow2(lo as nat)) as int, pow2((hi - lo) as nat) as int);
        lemma_pow2_pos((hi - lo) as nat);
        if hi - lo == 16 {
            lemma_pow2_pos(lo as nat);
            vstd::arithmetic::div_mod::lemma_div_is_ordered_by_denominator(x as int, 1, pow2(lo as nat) as int);
        }
    }
    r as u16
}

/// Bits `lo..hi` of a byte.
pub fn bits_u8(x: u8, lo: u32, hi: u32) -> (r: u8)
    requires
        lo < hi <= 8,
    ensures
        r as nat == bit_field(x as nat, lo as nat, hi as nat),
{
    let r = bits_u32(x as u32, lo, hi);
    proof {
        lemma2_to64();
        lemma_pow2_pos((hi - lo) as nat);
        lemma_pow2_pos(lo as nat);
        if hi - lo < 8 {
            vstd::arithmetic::power2::lemma_pow2_strictly_increases((hi - lo) as nat, 8);
            vstd::arithmetic::div_mod::lemma_mod_bound(
                (x as nat / pow2(lo as nat)) as int, pow2((hi - lo) as nat) as int);
        } else {
            vstd::arithmetic::div_mod::lemma_div_is_ordered_by_denominator(x as int, 1, pow2(lo as nat) as int);
            vstd::arithmetic::div_mod::lemma_mod_bound(
                (x as nat / pow2(lo as nat)) as int, pow2((hi - lo) as nat) as int);
        }
    }
    r as u8
}

} // verus!
