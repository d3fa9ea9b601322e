//! The 32-bit texture parameter word.
//!
//! There is a parameter word stored both in the texture itself and in the
//! model's material; the texture's holds its innate properties (format, width,
//! height) and the material's its ephemeral ones (repeat, mirror, transform
//! mode).

use vstd::prelude::*;
use vstd::arithmetic::power2::{pow2, lemma2_to64};
use crate::util::bits::{bit_field, bits_u32};
use super::texture_formats::TextureFormat;

verus! {

#[derive(Copy, Clone)]
pub struct TextureParams(pub u32);

/// Log2 of (dimension / 8), as stored in the three-bit size fields.
pub open spec fn spec_dim_shift(x: u32, lo: nat) -> nat {
    bit_field(x as nat, lo, lo + 3)
}

impl TextureParams {
    /// Offset of the texture data, in bytes (bits 0..16 count 8-byte units).
    pub fn offset(self) -> (r: u32)
        ensures
            r as nat == bit_field(self.0 as nat, 0, 16) * 8,
    {
        let v = bits_u32(self.0, 0, 16);
        proof {
            lemma2_to64();
            vstd::arithmetic::div_mod::lemma_mod_bound((self.0 as nat / pow2(0)) as int, pow2(16) as int);
            vstd::bits::lemma_u32_shl_is_mul(v, 3);
        }
        v << 3
    }

    pub fn repeat_s(self) -> (r: bool)
        ensures
            r == (bit_field(self.0 as nat, 16, 17) != 0),
    {
        bits_u32(self.0, 16, 17) != 0
    }

    pub fn repeat_t(self) -> (r: bool)
        ensures
            r == (bit_field(self.0 as nat, 17, 18) != 0),
    {
        bits_u32(self.0, 17, 18) != 0
    }

    pub fn mirror_s(self) -> (r: bool)
        ensures
            r == (bit_field(self.0 as nat, 18, 19) != 0),
    {
        bits_u32(self.0, 18, 19) != 0
    }

    pub fn mirror_t(self) -> (r: bool)
        ensures
            r == (bit_field(self.0 as nat, 19, 20) != 0),
    {
        bits_u32(self.0, 19, 20) != 0
    }

    /// The width in texels: 8 shifted left by bits 20..23.
    pub open spec fn spec_width(self) -> nat {
        8 * pow2(spec_dim_shift(self.0, 20))
    }

    /// The height in texels: 8 shifted left by bits 23..26.
    pub open spec fn spec_height(self) -> nat {
        8 * pow2(spec_dim_shift(self.0, 23))
    }

    pub fn width(self) -> (r: u32)
        ensures
            r as nat == self.spec_width(),
            8 <= r <= 1024,
            r % 8 == 0,
    {
        let s = bits_u32(self.0, 20, 23);
        proof { lemma_dim_shift(8, s, self.0 as nat, 20); }
        8u32 << s
    }

    pub fn height(self) -> (r: u32)
        ensures
            r as nat == self.spec_height(),
            8 <= r <= 1024,
            r % 8 == 0,
    {
        let s = bits_u32(self.0, 23, 26);
        proof { lemma_dim_shift(8, s, self.0 as nat, 23); }
        8u32 << s
    }

    pub fn dim(self) -> (r: (u32, u32))
        ensures
            r.0 as nat == self.spec_width(),
            r.1 as nat == self.spec_height(),
            8 <= r.0 <= 1024,
            8 <= r.1 <= 1024,
            r.0 % 8 == 0,
            r.1 % 8 == 0,
    {
        (self.width(), self.height())
    }

    /// The texture format, bits 26..29.
    pub open spec fn spec_format(self) -> u8 {
        bit_field(self.0 as nat, 26, 29) as u8
    }

    pub fn format(self) -> (r: TextureFormat)
        ensures
            r.0 == self.spec_format(),
            r.0 < 8,
    {
        let f = bits_u32(self.0, 26, 29);
        proof {
            lemma2_to64();
            vstd::arithmetic::div_mod::lemma_mod_bound(
                (self.0 as nat / pow2(26)) as int, pow2(3) as int);
        }
        TextureFormat(f as u8)
    }

    pub fn is_color0_transparent(self) -> (r: bool)
        ensures
            r == (bit_field(self.0 as nat, 29, 30) != 0),
    {
        bits_u32(self.0, 29, 30) != 0
    }

    pub fn texcoord_transform_mode(self) -> (r: u8)
        ensures
            r as nat == bit_field(self.0 as nat, 30, 32),
            r < 4,
    {
        let m = bits_u32(self.0, 30, 32);
        proof {
            lemma2_to64();
            vstd::arithmetic::div_mod::lemma_mod_bound(
                (self.0 as nat / pow2(30)) as int, pow2(2) as int);
        }
        m as u8
    }
}

/// A three-bit size field, read as `s`, gives `8 << s` in range.
proof fn lemma_dim_shift(base: u32, s: u32, x: nat, lo: nat)
    requires
        base == 8,
        s as nat == bit_field(x, lo, lo + 3),
    ensures
        s < 8,
        (base << s) as nat == 8 * pow2(s as nat),
        8 <= (base << s) <= 1024,
        (base << s) % 8 == 0,
{
    lemma2_to64();
    assert(((lo + 3) - lo) as nat == 3);
    vstd::arithmetic::power2::lemma_pow2_pos(lo);
    vstd::arithmetic::div_mod::lemma_mod_bound((x / pow2(lo)) as int, pow2(3) as int);
    assert(s < 8);
    assert(pow2(s as nat) <= 128) by {
        if s < 7 {
            vstd::arithmetic::power2::lemma_pow2_strictly_increases(s as nat, 7);
        }
    }
    vstd::arithmetic::power2::lemma_pow2_pos(s as nat);
    vstd::bits::lemma_u32_shl_is_mul(base, s);
    vstd::arithmetic::div_mod::lemma_mod_multiples_basic(pow2(s as nat) as int, 8);
}

} // verus!
