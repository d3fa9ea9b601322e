//! Decoding NDS textures to RGBA.

use vstd::prelude::*;
use vstd::arithmetic::power2::{pow2, lemma2_to64};
use crate::util::bits::{bit_field, bits_u8, bits_u16, bits_u32};
use crate::util::cur::{Cur, le_u16, le_u32};
use crate::nitro::{Texture, Palette};
use crate::errors::ErrorMsg;
use super::texture_formats::{spec_requires_palette, spec_alpha_type, alpha_kind, Alpha};

verus! {

/// Pixel data stored in R8G8B8A8 format.
pub struct RGBABuf(pub Vec<u8>);

impl RGBABuf {
    pub fn for_dimensions(dim: (u32, u32)) -> (b: RGBABuf)
        requires
            4 * dim.0 <= usize::MAX,
            4 * dim.0 * dim.1 <= usize::MAX,
        ensures
            b.0@ == Seq::<u8>::empty(),
    {
        let (w, h) = (dim.0 as usize, dim.1 as usize);
        RGBABuf(Vec::with_capacity(4 * w * h))
    }

    fn pixel(&mut self, pixel: [u8; 4])
        ensures
            final(self).0@ == old(self).0@ + pixel@,
    {
        self.0.extend_from_slice(&pixel);
    }
}

/// Replicates the high bits of a 5-bit value into the low ones, so 0 maps
/// to 0 and 31 to 255.
pub open spec fn spec_extend_5bit_to_8bit(x: u8) -> u8 {
    (x << 3u8) | (x >> 2u8)
}

/// Widens a 3-bit alpha to 5 bits by bit replication.
pub open spec fn spec_a3_to_a5(x: u8) -> u8 {
    (x << 2u8) | (x >> 1u8)
}

/// An RGB555 color (red in the low bits) with a 5-bit alpha, as RGBA8888.
pub open spec fn spec_rgb555a5(rgb555: u16, a5: u8) -> Seq<u8> {
    seq![
        spec_extend_5bit_to_8bit(bit_field(rgb555 as nat, 0, 5) as u8),
        spec_extend_5bit_to_8bit(bit_field(rgb555 as nat, 5, 10) as u8),
        spec_extend_5bit_to_8bit(bit_field(rgb555 as nat, 10, 15) as u8),
        spec_extend_5bit_to_8bit(a5),
    ]
}

/// Color `n` of the palette at byte offset `off` in `pb` (black if it lies
/// past the end of the block).
pub open spec fn pal_color(pb: Seq<u8>, off: nat, n: nat) -> u16 {
    if off + 2 * n + 2 <= pb.len() {
        le_u16(pb, (off + 2 * n) as int)
    } else {
        0
    }
}

/// Alpha of a paletted texel with color index `u`: index 0 is transparent
/// when the parameters say so.
pub open spec fn index_alpha(u: nat, color0_is_transparent: bool) -> u8 {
    if u == 0 && color0_is_transparent { 0 } else { 31 }
}

/// Componentwise `(c1 + c2) / 2`.
pub open spec fn spec_avg(c1: Seq<u8>, c2: Seq<u8>) -> Seq<u8> {
    Seq::new(4, |i: int| ((c1[i] + c2[i]) / 2) as u8)
}

/// Componentwise `(3 * c1 + 5 * c2) / 8`.
pub open spec fn spec_avg358(c1: Seq<u8>, c2: Seq<u8>) -> Seq<u8> {
    Seq::new(4, |i: int| ((3 * c1[i] + 5 * c2[i]) / 8) as u8)
}

/// The color of a block-compressed texel with 2-bit value `texel`, in a block
/// with the given mode and palette address (in colors). Values 0 and 1 are
/// the first two colors; in mode 0 value 2 is the third color and 3 is
/// transparent; in mode 1 value 2 is the average of the first two and 3 is
/// transparent; in mode 2 values 2 and 3 are the third and fourth colors; in
/// mode 3 values 2 and 3 are 5:3 and 3:5 blends of the first two.
pub open spec fn block_pixel_spec(pb: Seq<u8>, off: nat, pal_addr: nat, mode: nat, texel: nat) -> Seq<u8> {
    let c0 = spec_rgb555a5(pal_color(pb, off, pal_addr), 31);
    let c1 = spec_rgb555a5(pal_color(pb, off, pal_addr + 1), 31);
    let c2 = spec_rgb555a5(pal_color(pb, off, pal_addr + 2), 31);
    let c3 = spec_rgb555a5(pal_color(pb, off, pal_addr + 3), 31);
    let clear = seq![0u8, 0u8, 0u8, 0u8];
    if texel == 0 {
        c0
    } else if texel == 1 {
        c1
    } else if texel == 2 {
        if mode == 0 || mode == 2 { c2 } else if mode == 1 { spec_avg(c0, c1) } else { spec_avg358(c1, c0) }
    } else {
        if mode == 0 || mode == 1 { clear } else if mode == 2 { c3 } else { spec_avg358(c0, c1) }
    }
}

/// Palette color `i` of the palette block `pb` at `off`, as an opaque RGBA
/// pixel.
pub open spec fn opaque_pal_pixel(pb: Seq<u8>, off: nat, i: nat) -> Seq<u8> {
    spec_rgb555a5(pal_color(pb, off, i), 31)
}

/// How a block-compressed texel value maps to a pixel, mode by mode, with
/// `c(i)` the opaque palette color `pal_addr + i`: values 0 and 1 are `c(0)`
/// and `c(1)` in every mode; in mode 2 each value `v` is `c(v)` (so value 3
/// is the fourth color), fully opaque; in mode 0 value 2 is `c(2)`; in modes
/// 0 and 1 value 3 is a transparent black pixel; in mode 1 value 2 averages
/// `c(0)` and `c(1)` channel by channel; in mode 3 values 2 and 3 blend them
/// 5:3 and 3:5.
pub proof fn lemma_block_pixel_modes(pb: Seq<u8>, off: nat, pal_addr: nat, mode: nat, texel: nat)
    requires
        mode < 4,
        texel < 4,
    ensures
        ({
            let r = block_pixel_spec(pb, off, pal_addr, mode, texel);
            let c0 = opaque_pal_pixel(pb, off, pal_addr);
            let c1 = opaque_pal_pixel(pb, off, pal_addr + 1);
            &&& texel < 2 ==> r == opaque_pal_pixel(pb, off, pal_addr + texel)
            &&& mode == 2 ==> r == opaque_pal_pixel(pb, off, pal_addr + texel) && r[3] == 255
            &&& mode == 0 && texel == 2 ==> r == opaque_pal_pixel(pb, off, pal_addr + 2)
            &&& mode < 2 && texel == 3 ==> r == seq![0u8, 0u8, 0u8, 0u8]
            &&& mode == 1 && texel == 2 ==> r.len() == 4
                && forall|i: int| 0 <= i < 4 ==> #[trigger] r[i] == ((c0[i] + c1[i]) / 2) as u8
            &&& mode == 3 && texel == 2 ==> r.len() == 4
                && forall|i: int| 0 <= i < 4 ==> #[trigger] r[i] == ((5 * c0[i] + 3 * c1[i]) / 8) as u8
            &&& mode == 3 && texel == 3 ==> r.len() == 4
                && forall|i: int| 0 <= i < 4 ==> #[trigger] r[i] == ((3 * c0[i] + 5 * c1[i]) / 8) as u8
        }),
{
    assert(spec_extend_5bit_to_8bit(31) == 255) by (bit_vector);
}

/// Texel `n` (in row-major order) of a block-compressed texture of width
/// `w`. Each 4x4 block has a 32-bit word of 2-bit texels in `d1` and a 16-bit
/// word in `d2` holding a palette address (bits 0..14, in units of 2 colors)
/// and a mode (bits 14..16) saying how the four texel values map to colors.
pub open spec fn block_texel(w: nat, d1: Seq<u8>, d2: Seq<u8>, pb: Seq<u8>, off: nat, n: nat) -> Seq<u8> {
    let x = n % w;
    let y = n / w;
    let block_idx = (w / 4) * (y / 4) + x / 4;
    let block = le_u32(d1, (4 * block_idx) as int);
    let extra = le_u16(d2, (2 * block_idx) as int);
    let texel_off = 2 * (4 * (y % 4) + x % 4);
    let texel = bit_field(block as nat, texel_off, texel_off + 2);
    let mode = bit_field(extra as nat, 14, 16);
    let pal_addr = bit_field(extra as nat, 0, 14) * 2;
    block_pixel_spec(pb, off, pal_addr, mode, texel)
}

/// Two bits of a little-endian 32-bit word, at bit `8 * r + 2 * c`: bits
/// `2 * c` and `2 * c + 1` of its byte `r`.
proof fn lemma_word_bit_pair(b0: u8, b1: u8, b2: u8, b3: u8, r: nat, c: nat)
    requires
        r < 4,
        c < 4,
    ensures
        ({
            let w = b0 as nat + 256 * b1 as nat + 65536 * b2 as nat + 16777216 * b3 as nat;
            let byte = if r == 0 { b0 } else if r == 1 { b1 } else if r == 2 { b2 } else { b3 };
            (w / pow2(8 * r + 2 * c)) % 4 == ((byte >> (2 * c) as u8) & 3u8) as nat
        }),
{
    let w = b0 as nat + 256 * b1 as nat + 65536 * b2 as nat + 16777216 * b3 as nat;
    if r == 0 && c == 0 {
        assert(pow2(0) == 1) by { lemma2_to64(); }
        assert((b0 >> 0u8) & 3u8 == (b0 / 1) % 4) by (bit_vector);
        assert((w / 1) % 4 == (b0 / 1) % 4) by (nonlinear_arith)
            requires w == b0 + 256 * b1 + 65536 * b2 + 16777216 * b3, 0 <= b0 < 256, 0 <= b1 < 256,
                0 <= b2 < 256, 0 <= b3 < 256;
    } else if r == 0 && c == 1 {
        assert(pow2(2) == 4) by { lemma2_to64(); }
        assert((b0 >> 2u8) & 3u8 == (b0 / 4) % 4) by (bit_vector);
        assert((w / 4) % 4 == (b0 / 4) % 4) by (nonlinear_arith)
            requires w == b0 + 256 * b1 + 65536 * b2 + 16777216 * b3, 0 <= b0 < 256, 0 <= b1 < 256,
                0 <= b2 < 256, 0 <= b3 < 256;
    } else if r == 0 && c == 2 {
        assert(pow2(4) == 16) by { lemma2_to64(); }
        assert((b0 >> 4u8) & 3u8 == (b0 / 16) % 4) by (bit_vector);
        assert((w / 16) % 4 == (b0 / 16) % 4) by (nonlinear_arith)
            requires w == b0 + 256 * b1 + 65536 * b2 + 16777216 * b3, 0 <= b0 < 256, 0 <= b1 < 256,
                0 <= b2 < 256, 0 <= b3 < 256;
    } else if r == 0 && c == 3 {
        assert(pow2(6) == 64) by { lemma2_to64(); }
        assert((b0 >> 6u8) & 3u8 == (b0 / 64) % 4) by (bit_vector);
        assert((w / 64) % 4 == (b0 / 64) % 4) by (nonlinear_arith)
            requires w == b0 + 256 * b1 + 65536 * b2 + 16777216 * b3, 0 <= b0 < 256, 0 <= b1 < 256,
                0 <= b2 < 256, 0 <= b3 < 256;
    } else if r == 1 && c == 0 {
        assert(pow2(8) == 256) by { lemma2_to64(); }
        assert((b1 >> 0u8) & 3u8 == (b1 / 1) % 4) by (bit_vector);
        assert((w / 256) % 4 == (b1 / 1) % 4) by (nonlinear_arith)
            requires w == b0 + 256 * b1 + 65536 * b2 + 16777216 * b3, 0 <= b0 < 256, 0 <= b1 < 256,
                0 <= b2 < 256, 0 <= b3 < 256;
    } else if r == 1 && c == 1 {
        assert(pow2(10) == 1024) by { lemma2_to64(); }
        assert((b1 >> 2u8) & 3u8 == (b1 / 4) % 4) by (bit_vector);
        assert((w / 1024) % 4 == (b1 / 4) % 4) by (nonlinear_arith)
            requires w == b0 + 256 * b1 + 65536 * b2 + 16777216 * b3, 0 <= b0 < 256, 0 <= b1 < 256,
                0 <= b2 < 256, 0 <= b3 < 256;
    } else if r == 1 && c == 2 {
        assert(pow2(12) == 4096) by { lemma2_to64(); }
        assert((b1 >> 4u8) & 3u8 == (b1 / 16) % 4) by (bit_vector);
        assert((w / 4096) % 4 == (b1 / 16) % 4) by (nonlinear_arith)
            requires w == b0 + 256 * b1 + 65536 * b2 + 16777216 * b3, 0 <= b0 < 256, 0 <= b1 < 256,
                0 <= b2 < 256, 0 <= b3 < 256;
    } else if r == 1 && c == 3 {
        assert(pow2(14) == 16384) by { lemma2_to64(); }
        assert((b1 >> 6u8) & 3u8 == (b1 / 64) % 4) by (bit_vector);
        assert((w / 16384) % 4 == (b1 / 64) % 4) by (nonlinear_arith)
            requires w == b0 + 256 * b1 + 65536 * b2 + 16777216 * b3, 0 <= b0 < 256, 0 <= b1 < 256,
                0 <= b2 < 256, 0 <= b3 < 256;
    } else if r == 2 && c == 0 {
        assert(pow2(16) == 65536) by { lemma2_to64(); }
        assert((b2 >> 0u8) & 3u8 == (b2 / 1) % 4) by (bit_vector);
        assert((w / 65536) % 4 == (b2 / 1) % 4) by (nonlinear_arith)
            requires w == b0 + 256 * b1 + 65536 * b2 + 16777216 * b3, 0 <= b0 < 256, 0 <= b1 < 256,
                0 <= b2 < 256, 0 <= b3 < 256;
    } else if r == 2 && c == 1 {
        assert(pow2(18) == 262144) by { lemma2_to64(); }
        assert((b2 >> 2u8) & 3u8 == (b2 / 4) % 4) by (bit_vector);
        assert((w / 262144) % 4 == (b2 / 4) % 4) by (nonlinear_arith)
            requires w == b0 + 256 * b1 + 65536 * b2 + 16777216 * b3, 0 <= b0 < 256, 0 <= b1 < 256,
                0 <= b2 < 256, 0 <= b3 < 256;
    } else if r == 2 && c == 2 {
        assert(pow2(20) == 1048576) by { lemma2_to64(); }
        assert((b2 >> 4u8) & 3u8 == (b2 / 16) % 4) by (bit_vector);
        assert((w / 1048576) % 4 == (b2 / 16) % 4) by (nonlinear_arith)
            requires w == b0 + 256 * b1 + 65536 * b2 + 16777216 * b3, 0 <= b0 < 256, 0 <= b1 < 256,
                0 <= b2 < 256, 0 <= b3 < 256;
    } else if r == 2 && c == 3 {
        assert(pow2(22) == 4194304) by { lemma2_to64(); }
        assert((b2 >> 6u8) & 3u8 == (b2 / 64) % 4) by (bit_vector);
        assert((w / 4194304) % 4 == (b2 / 64) % 4) by (nonlinear_arith)
            requires w == b0 + 256 * b1 + 65536 * b2 + 16777216 * b3, 0 <= b0 < 256, 0 <= b1 < 256,
                0 <= b2 < 256, 0 <= b3 < 256;
    } else if r == 3 && c == 0 {
        assert(pow2(24) == 16777216) by { lemma2_to64(); }
        assert((b3 >> 0u8) & 3u8 == (b3 / 1) % 4) by (bit_vector);
        assert((w / 16777216) % 4 == (b3 / 1) % 4) by (nonlinear_arith)
            requires w == b0 + 256 * b1 + 65536 * b2 + 16777216 * b3, 0 <= b0 < 256, 0 <= b1 < 256,
                0 <= b2 < 256, 0 <= b3 < 256;
    } else if r == 3 && c == 1 {
        assert(pow2(26) == 67108864) by { lemma2_to64(); }
        assert((b3 >> 2u8) & 3u8 == (b3 / 4) % 4) by (bit_vector);
        assert((w / 67108864) % 4 == (b3 / 4) % 4) by (nonlinear_arith)
            requires w == b0 + 256 * b1 + 65536 * b2 + 16777216 * b3, 0 <= b0 < 256, 0 <= b1 < 256,
                0 <= b2 < 256, 0 <= b3 < 256;
    } else if r == 3 && c == 2 {
        assert(pow2(28) == 268435456) by { lemma2_to64(); }
        assert((b3 >> 4u8) & 3u8 == (b3 / 16) % 4) by (bit_vector);
        assert((w / 268435456) % 4 == (b3 / 16) % 4) by (nonlinear_arith)
            requires w == b0 + 256 * b1 + 65536 * b2 + 16777216 * b3, 0 <= b0 < 256, 0 <= b1 < 256,
                0 <= b2 < 256, 0 <= b3 < 256;
    } else if r == 3 && c == 3 {
        assert(pow2(30) == 1073741824) by { lemma2_to64(); }
        assert((b3 >> 6u8) & 3u8 == (b3 / 64) % 4) by (bit_vector);
        assert((w / 1073741824) % 4 == (b3 / 64) % 4) by (nonlinear_arith)
            requires w == b0 + 256 * b1 + 65536 * b2 + 16777216 * b3, 0 <= b0 < 256, 0 <= b1 < 256,
                0 <= b2 < 256, 0 <= b3 < 256;
    }
}

/// Texel `n` of a block-compressed texture of width `w` (a multiple of 4),
/// read from the bytes: its 4x4 block is number `(w / 4) * (y / 4) + x / 4`
/// with `x, y` its column and row; the texel's 2-bit value is bits
/// `2 * (x % 4)` and up of byte `y % 4` of the block's 32-bit word in `d1`;
/// the block's 16-bit word in `d2` holds the mode in the top two bits of its
/// second byte and the palette address (in units of two colors) in the rest.
pub proof fn lemma_block_texel_bytes(w: nat, d1: Seq<u8>, d2: Seq<u8>, pb: Seq<u8>, off: nat, n: nat)
    requires
        w > 0,
        w % 4 == 0,
        4 * ((w / 4) * ((n / w) / 4) + (n % w) / 4) + 4 <= d1.len(),
        2 * ((w / 4) * ((n / w) / 4) + (n % w) / 4) + 2 <= d2.len(),
    ensures
        ({
            let x = n % w;
            let y = n / w;
            let bi = ((w / 4) * (y / 4) + x / 4) as int;
            let e0 = d2[2 * bi];
            let e1 = d2[2 * bi + 1];
            let texel = ((d1[4 * bi + (y % 4) as int] >> (2 * (x % 4)) as u8) & 3u8) as nat;
            let mode = (e1 >> 6u8) as nat;
            let pal_addr = (((e1 & 0x3fu8) as nat) * 256 + e0 as nat) * 2;
            block_texel(w, d1, d2, pb, off, n) == block_pixel_spec(pb, off, pal_addr, mode, texel)
        }),
{
    let x = n % w;
    let y = n / w;
    let bi = ((w / 4) * (y / 4) + x / 4) as int;
    let i = 4 * bi;
    let b0 = d1[i];
    let b1 = d1[i + 1];
    let b2 = d1[i + 2];
    let b3 = d1[i + 3];
    let word = b0 as nat + 256 * b1 as nat + 65536 * b2 as nat + 16777216 * b3 as nat;
    assert(word < 0x1_0000_0000);
    assert(le_u32(d1, i) as nat == word);
    let r = y % 4;
    let c = x % 4;
    lemma_word_bit_pair(b0, b1, b2, b3, r, c);
    lemma2_to64();
    assert(pow2(2) == 4);
    assert(2 * (4 * r + c) == 8 * r + 2 * c);
    let e0 = d2[2 * bi];
    let e1 = d2[2 * bi + 1];
    let extra = e0 as nat + 256 * e1 as nat;
    assert(le_u16(d2, 2 * bi) as nat == extra);
    assert((e1 >> 6u8) == e1 / 64 && (e1 & 0x3fu8) == e1 % 64) by (bit_vector);
    assert(extra / 16384 % 4 == e1 / 64 && extra % 16384 == (e1 % 64) * 256 + e0) by (nonlinear_arith)
        requires extra == e0 + 256 * e1, 0 <= e0 < 256, 0 <= e1 < 256;
    assert(pow2(14) == 16384 && pow2(0) == 1);
    assert(bit_field(extra, 14, 16) == extra / 16384 % 4);
    assert(bit_field(extra, 0, 14) == extra % 16384);
}

/// Texel `n` (row-major) of a texture of format `fmt` and width `w`, as RGBA.
///
/// 1. A3I5: each byte holds a 5-bit palette index and a 3-bit alpha.
/// 2. 4 colors: four 2-bit indices per byte, low bits first.
/// 3. 16 colors: two 4-bit indices per byte, low bits first.
/// 4. 256 colors: one index per byte.
/// 5. Block compressed (see `block_texel`).
/// 6. A5I3: each byte holds a 3-bit palette index and a 5-bit alpha.
/// 7. Direct: one RGB555 word per texel, bit 15 making it opaque.
pub open spec fn texel_rgba(fmt: u8, w: nat, color0_is_transparent: bool, d1: Seq<u8>, d2: Seq<u8>,
    pb: Seq<u8>, off: nat, n: nat) -> Seq<u8> {
    if fmt == 1 {
        let x = d1[n as int];
        spec_rgb555a5(pal_color(pb, off, bit_field(x as nat, 0, 5)),
            spec_a3_to_a5(bit_field(x as nat, 5, 8) as u8))
    } else if fmt == 2 {
        let x = d1[(n / 4) as int];
        let q = n % 4;
        let u = bit_field(x as nat, 2 * q, 2 * q + 2);
        spec_rgb555a5(pal_color(pb, off, u), index_alpha(u, color0_is_transparent))
    } else if fmt == 3 {
        let x = d1[(n / 2) as int];
        let q = n % 2;
        let u = bit_field(x as nat, 4 * q, 4 * q + 4);
        spec_rgb555a5(pal_color(pb, off, u), index_alpha(u, color0_is_transparent))
    } else if fmt == 4 {
        let u = d1[n as int] as nat;
        spec_rgb555a5(pal_color(pb, off, u), index_alpha(u, color0_is_transparent))
    } else if fmt == 5 {
        block_texel(w, d1, d2, pb, off, n)
    } else if fmt == 6 {
        let x = d1[n as int];
        spec_rgb555a5(pal_color(pb, off, bit_field(x as nat, 0, 3)), bit_field(x as nat, 3, 8) as u8)
    } else {
        let texel = le_u16(d1, (2 * n) as int);
        spec_rgb555a5(texel, if bit_field(texel as nat, 15, 16) == 0 { 0 } else { 31 })
    }
}

/// The RGBA bytes of the first `count` texels.
pub open spec fn decoded_pixels(fmt: u8, w: nat, color0_is_transparent: bool, d1: Seq<u8>, d2: Seq<u8>,
    pb: Seq<u8>, off: nat, count: nat) -> Seq<u8> {
    Seq::new(4 * count, |i: int| texel_rgba(fmt, w, color0_is_transparent, d1, d2, pb, off, (i / 4) as nat)[i % 4])
}

/// Whether the texel data of a `w` by `h` texture of format `fmt` is long
/// enough to decode.
pub open spec fn texture_data_fits(fmt: u8, w: nat, h: nat, d1_len: nat, d2_len: nat) -> bool {
    if fmt == 1 || fmt == 4 || fmt == 6 {
        d1_len >= w * h
    } else if fmt == 2 {
        d1_len >= w * h / 4
    } else if fmt == 3 {
        d1_len >= w * h / 2
    } else if fmt == 5 {
        d1_len >= 4 * (w * h / 16) && d2_len >= 2 * (w * h / 16)
    } else if fmt == 7 {
        d1_len >= 2 * (w * h)
    } else {
        true
    }
}

/// The palette block and offset of an optional palette (empty if none).
pub open spec fn pal_block_of(pal: Option<&Palette>) -> Seq<u8> {
    match pal { Some(p) => p.pal_block@, None => Seq::empty() }
}

pub open spec fn pal_off_of(pal: Option<&Palette>) -> nat {
    match pal { Some(p) => p.off as nat, None => 0 }
}

/// The RGBA image a texture decodes to with the given palette.
pub open spec fn decoded_texture(tex: &Texture, pal: Option<&Palette>) -> Seq<u8> {
    decoded_pixels(tex.params.spec_format(), tex.params.spec_width(),
        bit_field(tex.params.0 as nat, 29, 30) != 0, tex.data1@, tex.data2@,
        pal_block_of(pal), pal_off_of(pal), tex.params.spec_width() * tex.params.spec_height())
}

/// A texture whose format and parameters make it opaque decodes to pixels
/// whose alpha bytes are all 255.
pub proof fn lemma_opaque_textures_decode_opaque(tex: &Texture, pal: Option<&Palette>)
    requires
        tex.params.spec_format() != 0,
        spec_alpha_type(tex.params.spec_format(), tex.params) == 0,
    ensures
        forall|k: int| 0 <= k < tex.params.spec_width() * tex.params.spec_height()
            ==> #[trigger] decoded_texture(tex, pal)[4 * k + 3] == 255,
{
    let f = tex.params.spec_format();
    assert(2 <= f <= 4);
    assert(bit_field(tex.params.0 as nat, 29, 30) == 0);
    assert(spec_extend_5bit_to_8bit(31) == 255) by (bit_vector);
    assert forall|k: int| 0 <= k < tex.params.spec_width() * tex.params.spec_height()
        implies #[trigger] decoded_texture(tex, pal)[4 * k + 3] == 255 by {
        vstd::arithmetic::div_mod::lemma_fundamental_div_mod_converse(4 * k + 3, 4, k, 3);
    }
}

/// How a texture of format 1 to 7 can be transparent, with what that means
/// for its decoded pixels, for `a` the alpha type `alpha_type` gives: formats
/// 1 and 6 are translucent, 5 and 7 transparent, and 2, 3 and 4 transparent
/// exactly when the parameters make color 0 transparent, opaque otherwise;
/// an opaque texture decodes (`decode_texture` returns `decoded_texture`)
/// to pixels whose alpha bytes are all 255.
pub proof fn lemma_alpha_type_law(tex: &Texture, pal: Option<&Palette>, a: Alpha)
    requires
        1 <= tex.params.spec_format() <= 7,
        alpha_kind(a) == spec_alpha_type(tex.params.spec_format(), tex.params),
    ensures
        ({
            let f = tex.params.spec_format();
            let c0 = bit_field(tex.params.0 as nat, 29, 30) != 0;
            &&& (f == 1 || f == 6) ==> a is Translucent
            &&& (f == 5 || f == 7) ==> a is Transparent
            &&& (2 <= f <= 4) ==> (a is Transparent <==> c0) && (a is Opaque <==> !c0)
            &&& a is Opaque ==> forall|k: int| 0 <= k < tex.params.spec_width() * tex.params.spec_height()
                ==> #[trigger] decoded_texture(tex, pal)[4 * k + 3] == 255
        }),
{
    if a is Opaque {
        lemma_opaque_textures_decode_opaque(tex, pal);
    }
}

/// Adding one texel appends its four bytes.
proof fn lemma_pixels_step(fmt: u8, w: nat, c0t: bool, d1: Seq<u8>, d2: Seq<u8>, pb: Seq<u8>, off: nat, n: nat)
    ensures
        decoded_pixels(fmt, w, c0t, d1, d2, pb, off, n + 1)
            == decoded_pixels(fmt, w, c0t, d1, d2, pb, off, n) + texel_rgba(fmt, w, c0t, d1, d2, pb, off, n),
{
    let a = decoded_pixels(fmt, w, c0t, d1, d2, pb, off, n + 1);
    let b = decoded_pixels(fmt, w, c0t, d1, d2, pb, off, n) + texel_rgba(fmt, w, c0t, d1, d2, pb, off, n);
    let t = texel_rgba(fmt, w, c0t, d1, d2, pb, off, n);
    assert(t.len() == 4);
    assert forall|k: int| 0 <= k < a.len() implies a[k] == b[k] by {
        if k >= 4 * n {
            let j = k - 4 * n;
            vstd::arithmetic::div_mod::lemma_fundamental_div_mod_converse(k, 4, n as int, j);
        }
    }
    assert(a =~= b);
}

/// `(d * q + r) / d == q` and `(d * q + r) % d == r` for `0 <= r < d`.
proof fn lemma_div_mod_parts(q: int, r: int, d: int)
    requires
        0 < d,
        0 <= r < d,
    ensures
        (d * q + r) / d == q,
        (d * q + r) % d == r,
{
    vstd::arithmetic::mul::lemma_mul_is_commutative(d, q);
    vstd::arithmetic::div_mod::lemma_fundamental_div_mod_converse(d * q + r, d, q, r);
}

/// Texture dimensions are multiples of 8 up to 1024, so their product is a
/// multiple of 64 up to 2^20.
proof fn lemma_dims(w: u32, h: u32)
    requires
        8 <= w <= 1024,
        8 <= h <= 1024,
        w % 8 == 0,
        h % 8 == 0,
    ensures
        64 <= w * h <= 1048576,
        (w * h) % 64 == 0,
        4 * ((w * h) / 4) == w * h,
        2 * ((w * h) / 2) == w * h,
        16 * ((w * h) / 16) == w * h,
        (w / 4) * (h / 4) == (w * h) / 16,
        (w / 4) * (h / 4) <= 65536,
        4 * w <= 4096,
        4 * w * h <= 4194304,
        w * h * 2 <= u32::MAX,
        w * h * 4 <= u32::MAX,
        w * h * 8 <= u32::MAX,
        w * h * 16 <= u32::MAX,
        w * h * 2 / 8 == w * h / 4,
        w * h * 4 / 8 == w * h / 2,
        w * h * 8 / 8 == w * h,
        w * 0 == 0,
{
    let a = (w / 8) as int;
    let b = (h / 8) as int;
    assert(w == 8 * a && h == 8 * b);
    assert(1 <= a <= 128 && 1 <= b <= 128);
    let c = a * b;
    vstd::arithmetic::mul::lemma_mul_upper_bound(a, 128, b, 128);
    vstd::arithmetic::mul::lemma_mul_inequality(1, a, b);
    assert(w * h == 64 * c) by (nonlinear_arith)
        requires w == 8 * a, h == 8 * b, c == a * b;
    assert((w / 4) * (h / 4) == 4 * c) by (nonlinear_arith)
        requires w / 4 == 2 * a, h / 4 == 2 * b, c == a * b;
    assert(4 * w * h == 4 * (w * h)) by (nonlinear_arith);
    assert(w * 0 == 0) by (nonlinear_arith);
    let m = w * h;
    assert(m == 64 * c);
    vstd::arithmetic::div_mod::lemma_mod_multiples_basic(c, 64);
    vstd::arithmetic::div_mod::lemma_div_multiples_vanish(16 * c, 4);
    vstd::arithmetic::div_mod::lemma_div_multiples_vanish(32 * c, 2);
    vstd::arithmetic::div_mod::lemma_div_multiples_vanish(4 * c, 16);
    vstd::arithmetic::div_mod::lemma_div_multiples_vanish(16 * c, 8);
    vstd::arithmetic::div_mod::lemma_div_multiples_vanish(32 * c, 8);
    vstd::arithmetic::div_mod::lemma_div_multiples_vanish(64 * c, 8);
}

/// Block `(xb, yb)` of a `bx` by `hb` grid of blocks lies inside it.
proof fn lemma_block_idx(bx: int, hb: int, xb: int, yb: int)
    requires
        0 <= xb < bx,
        0 <= yb < hb,
        hb <= 256,
        bx <= 256,
    ensures
        bx * yb + xb < bx * hb,
        bx * yb <= 65536,
{
    assert(bx * yb + xb < bx * hb) by (nonlinear_arith)
        requires 0 <= xb < bx, 0 <= yb, yb + 1 <= hb;
    assert(bx * yb <= 65536) by (nonlinear_arith)
        requires 0 <= bx <= 256, 0 <= yb <= 256;
}

/// Converts RGB555 color and A5 alpha into RGBA8888.
fn rgb555a5(rgb555: u16, a5: u8) -> (p: [u8; 4])
    ensures
        p@ == spec_rgb555a5(rgb555, a5),
{
    let r5 = bits_u16(rgb555, 0, 5) as u8;
    let g5 = bits_u16(rgb555, 5, 10) as u8;
    let b5 = bits_u16(rgb555, 10, 15) as u8;
    proof {
        vstd::arithmetic::power2::lemma2_to64();
        vstd::arithmetic::div_mod::lemma_mod_bound((rgb555 as nat / vstd::arithmetic::power2::pow2(0)) as int, 32);
        vstd::arithmetic::div_mod::lemma_mod_bound((rgb555 as nat / vstd::arithmetic::power2::pow2(5)) as int, 32);
        vstd::arithmetic::div_mod::lemma_mod_bound((rgb555 as nat / vstd::arithmetic::power2::pow2(10)) as int, 32);
    }
    let r8 = extend_5bit_to_8bit(r5);
    let g8 = extend_5bit_to_8bit(g5);
    let b8 = extend_5bit_to_8bit(b5);
    let a8 = extend_5bit_to_8bit(a5);
    let p = [r8, g8, b8, a8];
    assert(p@ =~= spec_rgb555a5(rgb555, a5));
    p
}

fn a3_to_a5(x: u8) -> (r: u8)
    ensures
        r == spec_a3_to_a5(x),
{
    (x << 2) | (x >> 1)
}

fn extend_5bit_to_8bit(x: u8) -> (r: u8)
    ensures
        r == spec_extend_5bit_to_8bit(x),
{
    (x << 3) | (x >> 2)
}

/// (c1 + c2) / 2
fn avg(c1: [u8; 4], c2: [u8; 4]) -> (r: [u8; 4])
    ensures
        r@ == spec_avg(c1@, c2@),
{
    let r = [
        ((c1[0] as u32 + c2[0] as u32) / 2) as u8,
        ((c1[1] as u32 + c2[1] as u32) / 2) as u8,
        ((c1[2] as u32 + c2[2] as u32) / 2) as u8,
        ((c1[3] as u32 + c2[3] as u32) / 2) as u8,
    ];
    assert(r@ =~= spec_avg(c1@, c2@));
    r
}

/// (3*c1 + 5*c2) / 8
fn avg358(c1: [u8; 4], c2: [u8; 4]) -> (r: [u8; 4])
    ensures
        r@ == spec_avg358(c1@, c2@),
{
    let r = [
        ((3 * c1[0] as u32 + 5 * c2[0] as u32) / 8) as u8,
        ((3 * c1[1] as u32 + 5 * c2[1] as u32) / 8) as u8,
        ((3 * c1[2] as u32 + 5 * c2[2] as u32) / 8) as u8,
        ((3 * c1[3] as u32 + 5 * c2[3] as u32) / 8) as u8,
    ];
    assert(r@ =~= spec_avg358(c1@, c2@));
    r
}

/// Color `n` of the palette under `pal_cur`, black past the end.
fn pal_nth(pal_cur: &Cur, n: usize) -> (c: u16)
    ensures
        c == pal_color(pal_cur.data(), pal_cur.position(), n as nat),
{
    match pal_cur.nth_u16(n) {
        Ok(c) => c,
        Err(_) => 0,
    }
}

/// The pixel for palette index `u` of a paletted texture.
fn indexed_pixel(pal_cur: &Cur, u: u8, color0_is_transparent: bool) -> (p: [u8; 4])
    ensures
        p@ == spec_rgb555a5(pal_color(pal_cur.data(), pal_cur.position(), u as nat),
            index_alpha(u as nat, color0_is_transparent)),
{
    let rgb = pal_nth(pal_cur, u as usize);
    let transparent = u == 0 && color0_is_transparent;
    let a = if transparent { 0 } else { 31 };
    rgb555a5(rgb, a)
}

/// The texel colors of `tex` read with the palette block `pb` at `off`.
pub open spec fn tex_pixels(tex: &Texture, fmt: u8, pb: Seq<u8>, off: nat, count: nat) -> Seq<u8> {
    decoded_pixels(fmt, tex.params.spec_width(), bit_field(tex.params.0 as nat, 29, 30) != 0,
        tex.data1@, tex.data2@, pb, off, count)
}

/// Whether the texture has as many bytes of texel data as its format and
/// size need (`decode_texture` reads that many).
pub fn has_enough_data(texture: &Texture) -> (r: bool)
    ensures
        r == texture_data_fits(texture.params.spec_format(), texture.params.spec_width(),
            texture.params.spec_height(), texture.data1@.len(), texture.data2@.len()),
{
    let fmt = texture.params.format().0;
    let w = texture.params.width() as usize;
    let h = texture.params.height() as usize;
    assert(w * h <= 1024 * 1024) by (nonlinear_arith)
        requires
            w <= 1024,
            h <= 1024,
    ;
    let n = w * h;
    let d1 = texture.data1.len();
    let d2 = texture.data2.len();
    if fmt == 1 || fmt == 4 || fmt == 6 {
        d1 >= n
    } else if fmt == 2 {
        d1 >= n / 4
    } else if fmt == 3 {
        d1 >= n / 2
    } else if fmt == 5 {
        d1 >= 4 * (n / 16) && d2 >= 2 * (n / 16)
    } else if fmt == 7 {
        d1 >= 2 * n
    } else {
        true
    }
}

/// Decodes a texture/palette combo to RGBA.
pub fn decode_texture(texture: &Texture, palette: Option<&Palette>) -> (r: Result<RGBABuf, ErrorMsg>)
    requires
        texture.params.spec_format() != 0
            && !(spec_requires_palette(texture.params.spec_format()) && palette is None)
            ==> texture_data_fits(texture.params.spec_format(), texture.params.spec_width(),
            texture.params.spec_height(), texture.data1@.len(), texture.data2@.len()),
    ensures
        spec_requires_palette(texture.params.spec_format()) && palette is None
            ==> (r matches Err(e) && e.msg@ == "texture required a palette"@),
        texture.params.spec_format() == 0 ==> (r matches Err(e) && e.msg@ == "texture had format 0"@),
        !(spec_requires_palette(texture.params.spec_format()) && palette is None)
            && texture.params.spec_format() != 0 ==> (r matches Ok(buf)
            && buf.0@ == decoded_texture(texture, palette)),
{
    let params = texture.params;
    let (w, h) = params.dim();
    proof { lemma_dims(w, h); }
    let requires_palette = params.format().desc().requires_palette;

    if requires_palette && palette.is_none() {
        return Err(ErrorMsg { msg: String::from_str("texture required a palette") });
    }

    let mut buf = RGBABuf::for_dimensions((w, h));

    let f = params.format().0;
    if f == 0 {
        return Err(ErrorMsg { msg: String::from_str("texture had format 0") });
    } else if f == 1 {
        decode_format1(&mut buf, texture, palette.unwrap());
    } else if f == 2 {
        decode_format2(&mut buf, texture, palette.unwrap());
    } else if f == 3 {
        decode_format3(&mut buf, texture, palette.unwrap());
    } else if f == 4 {
        decode_format4(&mut buf, texture, palette.unwrap());
    } else if f == 5 {
        decode_format5(&mut buf, texture, palette.unwrap());
    } else if f == 6 {
        decode_format6(&mut buf, texture, palette.unwrap());
    } else {
        decode_format7(&mut buf, texture, palette);
    }

    Ok(buf)
}

/// A3I5 Translucent Texture (3-bit Alpha, 5-bit Color Index)
fn decode_format1(buf: &mut RGBABuf, tex: &Texture, pal: &Palette)
    requires
        tex.data1@.len() >= tex.params.spec_width() * tex.params.spec_height(),
    ensures
        final(buf).0@ == old(buf).0@ + tex_pixels(tex, 1, pal.pal_block@, pal.off as nat,
            tex.params.spec_width() * tex.params.spec_height()),
{
    let (w, h) = tex.params.dim();
    proof { lemma_dims(w, h); }
    let num_texels = (w * h) as usize;
    let data = &tex.data1;
    let pal_cur = Cur::from_buf_pos(pal.pal_block.as_slice(), pal.off as usize);
    let ghost base = buf.0@;
    for n in 0..num_texels
        invariant
            num_texels == tex.params.spec_width() * tex.params.spec_height(),
            w == tex.params.spec_width(),
            data.len() >= num_texels,
            data@ == tex.data1@,
            pal_cur.data() == pal.pal_block@,
            pal_cur.position() == pal.off,
            buf.0@ == base + tex_pixels(tex, 1, pal.pal_block@, pal.off as nat, n as nat),
    {
        proof {
            lemma_pixels_step(1, w as nat, bit_field(tex.params.0 as nat, 29, 30) != 0, tex.data1@,
                tex.data2@, pal.pal_block@, pal.off as nat, n as nat);
        }
        let x = data[n];
        let rgb = pal_nth(&pal_cur, bits_u8(x, 0, 5) as usize);
        let a = a3_to_a5(bits_u8(x, 5, 8));
        buf.pixel(rgb555a5(rgb, a));
    }
}

/// A5I3 Translucent Texture (5-bit Alpha, 3-bit Color Index)
fn decode_format6(buf: &mut RGBABuf, tex: &Texture, pal: &Palette)
    requires
        tex.data1@.len() >= tex.params.spec_width() * tex.params.spec_height(),
    ensures
        final(buf).0@ == old(buf).0@ + tex_pixels(tex, 6, pal.pal_block@, pal.off as nat,
            tex.params.spec_width() * tex.params.spec_height()),
{
    let (w, h) = tex.params.dim();
    proof { lemma_dims(w, h); }
    let num_texels = (w * h) as usize;
    let data = &tex.data1;
    let pal_cur = Cur::from_buf_pos(pal.pal_block.as_slice(), pal.off as usize);
    let ghost base = buf.0@;
    for n in 0..num_texels
        invariant
            num_texels == tex.params.spec_width() * tex.params.spec_height(),
            w == tex.params.spec_width(),
            data.len() >= num_texels,
            data@ == tex.data1@,
            pal_cur.data() == pal.pal_block@,
            pal_cur.position() == pal.off,
            buf.0@ == base + tex_pixels(tex, 6, pal.pal_block@, pal.off as nat, n as nat),
    {
        proof {
            lemma_pixels_step(6, w as nat, bit_field(tex.params.0 as nat, 29, 30) != 0, tex.data1@,
                tex.data2@, pal.pal_block@, pal.off as nat, n as nat);
        }
        let x = data[n];
        let rgb = pal_nth(&pal_cur, bits_u8(x, 0, 3) as usize);
        let a = bits_u8(x, 3, 8);
        buf.pixel(rgb555a5(rgb, a));
    }
}

/// 256-Color Palette Texture
fn decode_format4(buf: &mut RGBABuf, tex: &Texture, pal: &Palette)
    requires
        tex.data1@.len() >= tex.params.spec_width() * tex.params.spec_height(),
        tex.params.spec_format() == 4,
    ensures
        final(buf).0@ == old(buf).0@ + tex_pixels(tex, 4, pal.pal_block@, pal.off as nat,
            tex.params.spec_width() * tex.params.spec_height()),
{
    let (w, h) = tex.params.dim();
    proof { lemma_dims(w, h); }
    let num_bytes = tex.params.format().byte_len((w, h));
    let color0_is_transparent = tex.params.is_color0_transparent();
    let data = &tex.data1;
    let pal_cur = Cur::from_buf_pos(pal.pal_block.as_slice(), pal.off as usize);
    let ghost base = buf.0@;
    for n in 0..num_bytes
        invariant
            num_bytes == tex.params.spec_width() * tex.params.spec_height(),
            w == tex.params.spec_width(),
            color0_is_transparent == (bit_field(tex.params.0 as nat, 29, 30) != 0),
            data.len() >= num_bytes,
            data@ == tex.data1@,
            pal_cur.data() == pal.pal_block@,
            pal_cur.position() == pal.off,
            buf.0@ == base + tex_pixels(tex, 4, pal.pal_block@, pal.off as nat, n as nat),
    {
        proof {
            lemma_pixels_step(4, w as nat, color0_is_transparent, tex.data1@,
                tex.data2@, pal.pal_block@, pal.off as nat, n as nat);
        }
        let x = data[n];
        buf.pixel(indexed_pixel(&pal_cur, x, color0_is_transparent));
    }
}

/// 16-Color Palette Texture
fn decode_format3(buf: &mut RGBABuf, tex: &Texture, pal: &Palette)
    requires
        tex.data1@.len() >= tex.params.spec_width() * tex.params.spec_height() / 2,
        tex.params.spec_format() == 3,
    ensures
        final(buf).0@ == old(buf).0@ + tex_pixels(tex, 3, pal.pal_block@, pal.off as nat,
            tex.params.spec_width() * tex.params.spec_height()),
{
    let (w, h) = tex.params.dim();
    proof { lemma_dims(w, h); }
    let num_bytes = tex.params.format().byte_len((w, h));
    let color0_is_transparent = tex.params.is_color0_transparent();
    let data = &tex.data1;
    let pal_cur = Cur::from_buf_pos(pal.pal_block.as_slice(), pal.off as usize);
    let ghost base = buf.0@;
    let ghost c0t = color0_is_transparent;
    for n in 0..num_bytes
        invariant
            2 * num_bytes == tex.params.spec_width() * tex.params.spec_height(),
            w == tex.params.spec_width(),
            color0_is_transparent == (bit_field(tex.params.0 as nat, 29, 30) != 0),
            c0t == color0_is_transparent,
            data.len() >= num_bytes,
            data@ == tex.data1@,
            pal_cur.data() == pal.pal_block@,
            pal_cur.position() == pal.off,
            buf.0@ == base + tex_pixels(tex, 3, pal.pal_block@, pal.off as nat, 2 * n as nat),
    {
        let x = data[n];
        proof {
            lemma_pixels_step(3, w as nat, c0t, tex.data1@, tex.data2@, pal.pal_block@, pal.off as nat,
                2 * n as nat);
            lemma_div_mod_parts(n as int, 0, 2);
        }
        buf.pixel(indexed_pixel(&pal_cur, bits_u8(x, 0, 4), color0_is_transparent));
        proof {
            lemma_pixels_step(3, w as nat, c0t, tex.data1@, tex.data2@, pal.pal_block@, pal.off as nat,
                (2 * n + 1) as nat);
            lemma_div_mod_parts(n as int, 1, 2);
        }
        buf.pixel(indexed_pixel(&pal_cur, bits_u8(x, 4, 8), color0_is_transparent));
    }
}

/// 4-Color Palette Texture
fn decode_format2(buf: &mut RGBABuf, tex: &Texture, pal: &Palette)
    requires
        tex.data1@.len() >= tex.params.spec_width() * tex.params.spec_height() / 4,
        tex.params.spec_format() == 2,
    ensures
        final(buf).0@ == old(buf).0@ + tex_pixels(tex, 2, pal.pal_block@, pal.off as nat,
            tex.params.spec_width() * tex.params.spec_height()),
{
    let (w, h) = tex.params.dim();
    proof { lemma_dims(w, h); }
    let num_bytes = tex.params.format().byte_len((w, h));
    let color0_is_transparent = tex.params.is_color0_transparent();
    let data = &tex.data1;
    let pal_cur = Cur::from_buf_pos(pal.pal_block.as_slice(), pal.off as usize);
    let ghost base = buf.0@;
    let ghost c0t = color0_is_transparent;
    for n in 0..num_bytes
        invariant
            4 * num_bytes == tex.params.spec_width() * tex.params.spec_height(),
            w == tex.params.spec_width(),
            color0_is_transparent == (bit_field(tex.params.0 as nat, 29, 30) != 0),
            c0t == color0_is_transparent,
            data.len() >= num_bytes,
            data@ == tex.data1@,
            pal_cur.data() == pal.pal_block@,
            pal_cur.position() == pal.off,
            buf.0@ == base + tex_pixels(tex, 2, pal.pal_block@, pal.off as nat, 4 * n as nat),
    {
        let x = data[n];
        proof {
            lemma_pixels_step(2, w as nat, c0t, tex.data1@, tex.data2@, pal.pal_block@, pal.off as nat,
                4 * n as nat);
            lemma_div_mod_parts(n as int, 0, 4);
        }
        buf.pixel(indexed_pixel(&pal_cur, bits_u8(x, 0, 2), color0_is_transparent));
        proof {
            lemma_pixels_step(2, w as nat, c0t, tex.data1@, tex.data2@, pal.pal_block@, pal.off as nat,
                (4 * n + 1) as nat);
            lemma_div_mod_parts(n as int, 1, 4);
        }
        buf.pixel(indexed_pixel(&pal_cur, bits_u8(x, 2, 4), color0_is_transparent));
        proof {
            lemma_pixels_step(2, w as nat, c0t, tex.data1@, tex.data2@, pal.pal_block@, pal.off as nat,
                (4 * n + 2) as nat);
            lemma_div_mod_parts(n as int, 2, 4);
        }
        buf.pixel(indexed_pixel(&pal_cur, bits_u8(x, 4, 6), color0_is_transparent));
        proof {
            lemma_pixels_step(2, w as nat, c0t, tex.data1@, tex.data2@, pal.pal_block@, pal.off as nat,
                (4 * n + 3) as nat);
            lemma_div_mod_parts(n as int, 3, 4);
        }
        buf.pixel(indexed_pixel(&pal_cur, bits_u8(x, 6, 8), color0_is_transparent));
    }
}

/// Direct Color Texture: actual 16-bit color values (no palette).
fn decode_format7(buf: &mut RGBABuf, tex: &Texture, pal: Option<&Palette>)
    requires
        tex.data1@.len() >= 2 * (tex.params.spec_width() * tex.params.spec_height()),
    ensures
        final(buf).0@ == old(buf).0@ + tex_pixels(tex, 7, pal_block_of(pal), pal_off_of(pal),
            tex.params.spec_width() * tex.params.spec_height()),
{
    let (w, h) = tex.params.dim();
    proof { lemma_dims(w, h); }
    let num_texels = (w * h) as usize;
    let data = Cur::new(tex.data1.as_slice());
    let ghost base = buf.0@;
    for n in 0..num_texels
        invariant
            num_texels == tex.params.spec_width() * tex.params.spec_height(),
            w == tex.params.spec_width(),
            data.data() == tex.data1@,
            data.position() == 0,
            data.data().len() >= 2 * num_texels,
            buf.0@ == base + tex_pixels(tex, 7, pal_block_of(pal), pal_off_of(pal), n as nat),
    {
        proof {
            lemma_pixels_step(7, w as nat, bit_field(tex.params.0 as nat, 29, 30) != 0, tex.data1@,
                tex.data2@, pal_block_of(pal), pal_off_of(pal), n as nat);
        }
        let texel = match data.nth_u16(n) {
            Ok(t) => t,
            Err(_) => 0,
        };
        let alpha_bit = bits_u16(texel, 15, 16);
        buf.pixel(rgb555a5(texel, if alpha_bit == 0 { 0 } else { 31 }));
    }
}

/// The pixel for a block-compressed texel.
fn block_pixel(pal_cur: &Cur, pal_addr: usize, mode: u16, texel: u32) -> (p: [u8; 4])
    requires
        pal_addr + 3 <= usize::MAX,
        mode < 4,
        texel < 4,
    ensures
        p@ == block_pixel_spec(pal_cur.data(), pal_cur.position(), pal_addr as nat, mode as nat,
            texel as nat),
{
    let c0 = rgb555a5(pal_nth(pal_cur, pal_addr), 31);
    let c1 = rgb555a5(pal_nth(pal_cur, pal_addr + 1), 31);
    if texel == 0 {
        c0
    } else if texel == 1 {
        c1
    } else if texel == 2 {
        if mode == 0 || mode == 2 {
            rgb555a5(pal_nth(pal_cur, pal_addr + 2), 31)
        } else if mode == 1 {
            avg(c0, c1)
        } else {
            avg358(c1, c0)
        }
    } else {
        if mode == 0 || mode == 1 {
            let clear = [0u8, 0, 0, 0];
            assert(clear@ =~= seq![0u8, 0u8, 0u8, 0u8]);
            clear
        } else if mode == 2 {
            rgb555a5(pal_nth(pal_cur, pal_addr + 3), 31)
        } else {
            avg358(c0, c1)
        }
    }
}

/// Block-compressed Texture
#[verifier::rlimit(40)]
fn decode_format5(buf: &mut RGBABuf, tex: &Texture, pal: &Palette)
    requires
        tex.data1@.len() >= 4 * (tex.params.spec_width() * tex.params.spec_height() / 16),
        tex.data2@.len() >= 2 * (tex.params.spec_width() * tex.params.spec_height() / 16),
    ensures
        final(buf).0@ == old(buf).0@ + tex_pixels(tex, 5, pal.pal_block@, pal.off as nat,
            tex.params.spec_width() * tex.params.spec_height()),
{
    let (w, h) = tex.params.dim();
    proof { lemma_dims(w, h); }
    let num_blocks_x = w / 4;
    let ghost num_blocks = w * h / 16;
    let data1 = Cur::new(tex.data1.as_slice());
    let data2 = Cur::new(tex.data2.as_slice());
    let pal_cur = Cur::from_buf_pos(pal.pal_block.as_slice(), pal.off as usize);
    let ghost base = buf.0@;
    let ghost c0t = bit_field(tex.params.0 as nat, 29, 30) != 0;

    for y in 0..h
        invariant
            w == tex.params.spec_width(),
            h == tex.params.spec_height(),
            8 <= w <= 1024,
            8 <= h <= 1024,
            w % 8 == 0,
            h % 8 == 0,
            num_blocks_x == w / 4,
            num_blocks_x * (h / 4) == num_blocks,
            data1.data() == tex.data1@,
            data1.position() == 0,
            data1.data().len() >= 4 * num_blocks,
            data2.data() == tex.data2@,
            data2.position() == 0,
            data2.data().len() >= 2 * num_blocks,
            pal_cur.data() == pal.pal_block@,
            pal_cur.position() == pal.off,
            c0t == (bit_field(tex.params.0 as nat, 29, 30) != 0),
            buf.0@ == base + tex_pixels(tex, 5, pal.pal_block@, pal.off as nat, (w * y) as nat),
    {
        for x in 0..w
            invariant
                w == tex.params.spec_width(),
                h == tex.params.spec_height(),
                8 <= w <= 1024,
                8 <= h <= 1024,
                y < h,
                w % 8 == 0,
                h % 8 == 0,
                num_blocks_x == w / 4,
                num_blocks_x * (h / 4) == num_blocks,
                data1.data() == tex.data1@,
                data1.position() == 0,
                data1.data().len() >= 4 * num_blocks,
                data2.data() == tex.data2@,
                data2.position() == 0,
                data2.data().len() >= 2 * num_blocks,
                pal_cur.data() == pal.pal_block@,
                pal_cur.position() == pal.off,
                c0t == (bit_field(tex.params.0 as nat, 29, 30) != 0),
                buf.0@ == base + tex_pixels(tex, 5, pal.pal_block@, pal.off as nat, (w * y + x) as nat),
        {
            proof {
                lemma_pixels_step(5, w as nat, c0t, tex.data1@, tex.data2@, pal.pal_block@, pal.off as nat,
                    (w * y + x) as nat);
                lemma_div_mod_parts(y as int, x as int, w as int);
                assert(w * y + x < w * h) by (nonlinear_arith)
                    requires y < h, x < w, w >= 0;
                lemma_block_idx(num_blocks_x as int, (h / 4) as int, (x / 4) as int, (y / 4) as int);
            }
            // Find the block containing (x, y)
            let block_idx = num_blocks_x * (y / 4) + (x / 4);
            let block = match data1.nth_u32(block_idx as usize) {
                Ok(v) => v,
                Err(_) => 0,
            };
            let extra = match data2.nth_u16(block_idx as usize) {
                Ok(v) => v,
                Err(_) => 0,
            };

            // Find the bits for this texel within the block
            let texel_off = 2 * (4 * (y % 4) + (x % 4));
            let texel = bits_u32(block, texel_off, texel_off + 2);

            let mode = bits_u16(extra, 14, 16);
            let pal_addr = (bits_u16(extra, 0, 14) as usize) * 2;
            proof {
                vstd::arithmetic::power2::lemma2_to64();
                vstd::arithmetic::power2::lemma_pow2_pos(texel_off as nat);
                vstd::arithmetic::div_mod::lemma_mod_bound((block as nat / vstd::arithmetic::power2::pow2(texel_off as nat)) as int, 4);
                vstd::arithmetic::div_mod::lemma_mod_bound((extra as nat / vstd::arithmetic::power2::pow2(14)) as int, 4);
                vstd::arithmetic::div_mod::lemma_mod_bound((extra as nat / vstd::arithmetic::power2::pow2(0)) as int, 16384);
            }

            buf.pixel(block_pixel(&pal_cur, pal_addr, mode, texel));
        }
        proof {
            assert(w * y + w == w * (y + 1)) by (nonlinear_arith);
        }
    }
}

/// Widening by bit replication keeps the ends of the scale: black stays 0,
/// full intensity becomes 255 (and a full 3-bit alpha a full 5-bit one),
/// and it is the nearest 8-bit value, `x * 255 / 31` rounded down or up.
pub proof fn lemma_widening_keeps_the_scale(x: u8)
    ensures
        x < 32 ==> spec_extend_5bit_to_8bit(x) == x * 8 + x / 4,
        x < 32 ==> x * 255 / 31 <= spec_extend_5bit_to_8bit(x) <= x * 255 / 31 + 1,
        spec_extend_5bit_to_8bit(0) == 0,
        spec_extend_5bit_to_8bit(31) == 255,
        x < 8 ==> spec_a3_to_a5(x) == x * 4 + x / 2 && spec_a3_to_a5(x) < 32,
        spec_a3_to_a5(0) == 0,
        spec_a3_to_a5(7) == 31,
{
    assert(x < 32 ==> ((x << 3u8) | (x >> 2u8)) == x * 8 + x / 4) by (bit_vector);
    assert(x < 8 ==> ((x << 2u8) | (x >> 1u8)) == x * 4 + x / 2) by (bit_vector);
    assert(((0u8 << 3u8) | (0u8 >> 2u8)) == 0u8) by (bit_vector);
    assert(((31u8 << 3u8) | (31u8 >> 2u8)) == 255u8) by (bit_vector);
    assert(((0u8 << 2u8) | (0u8 >> 1u8)) == 0u8) by (bit_vector);
    assert(((7u8 << 2u8) | (7u8 >> 1u8)) == 31u8) by (bit_vector);
    if x < 32 {
        assert(x * 255 / 31 <= x * 8 + x / 4 <= x * 255 / 31 + 1) by (nonlinear_arith)
            requires
                x < 32,
        ;
    }
}

/// The decoded image holds four bytes (red, green, blue, alpha) for each
/// of the texture's `width * height` texels.
pub proof fn lemma_decoded_size(tex: &Texture, pal: Option<&Palette>)
    ensures
        decoded_texture(tex, pal).len() == 4 * tex.params.spec_width() * tex.params.spec_height(),
{
    assert(4 * (tex.params.spec_width() * tex.params.spec_height())
        == 4 * tex.params.spec_width() * tex.params.spec_height()) by (nonlinear_arith);
}

} // verus!
