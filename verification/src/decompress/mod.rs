//! Decompress NDS data.
//!
//! The compression methods are the LZ77 variants included in the NDS BIOS
//! (types 0x10 and 0x11).

use vstd::prelude::*;
use crate::util::cur::{Cur, le_u32};

verus! {

/// The largest decompressed size accepted (4 MiB).
pub open spec fn max_decompressed_size() -> nat {
    0x200000 * 2
}

/// The smallest decompressed size accepted; anything shorter cannot hold
/// anything interesting.
pub open spec fn min_decompressed_size() -> nat {
    40
}

/// `out` followed by `n` bytes copied from `ofs` bytes back. The copy runs a
/// byte at a time, so when `n > ofs` it repeats the last `ofs` bytes.
pub open spec fn lz_copy(out: Seq<u8>, ofs: nat, n: nat) -> Seq<u8> {
    out + Seq::new(n, |i: int| out[out.len() - ofs + i % (ofs as int)])
}

/// The back-reference at `s[pos..]` of a stream of type `ty`: its offset,
/// its length and how many bytes it occupies, or `None` if the stream ends
/// inside it.
///
/// Type 0x10: two big-endian bytes, 4 bits of (length - 3) and 12 bits of
/// (offset - 1). Type 0x11: the high nibble of the first byte selects a
/// 2-, 3- or 4-byte form with wider length fields.
pub open spec fn lz_backref(s: Seq<u8>, pos: int, ty: u8) -> Option<(nat, nat, int)> {
    if ty == 0x10 {
        if pos + 2 > s.len() {
            None
        } else {
            let x = s[pos] * 256 + s[pos + 1];
            Some(((x % 4096 + 1) as nat, (x / 4096 + 3) as nat, 2))
        }
    } else {
        if pos + 1 > s.len() {
            None
        } else {
            let a = s[pos] / 16;
            let b = s[pos] % 16;
            if a == 0 {
                if pos + 3 > s.len() {
                    None
                } else {
                    let c = s[pos + 1] / 16;
                    let d = s[pos + 1] % 16;
                    let ef = s[pos + 2];
                    Some(((d * 256 + ef + 1) as nat, (b * 16 + c + 0x11) as nat, 3))
                }
            } else if a == 1 {
                if pos + 4 > s.len() {
                    None
                } else {
                    let cd = s[pos + 1];
                    let e = s[pos + 2] / 16;
                    let f = s[pos + 2] % 16;
                    let gh = s[pos + 3];
                    Some(((f * 256 + gh + 1) as nat, (b * 4096 + cd * 16 + e + 0x111) as nat, 4))
                }
            } else {
                if pos + 2 > s.len() {
                    None
                } else {
                    let cd = s[pos + 1];
                    Some(((b * 256 + cd + 1) as nat, (a + 1) as nat, 2))
                }
            }
        }
    }
}

/// Whether item `k` (0..8) of a group is a back-reference: bit `7 - k` of the
/// group's flag byte is set. Otherwise it is a literal byte.
pub open spec fn is_backref_item(flags: u8, k: nat) -> bool {
    (flags >> ((7 - k) as u8)) & 1u8 == 1u8
}

/// Runs the token stream `s[pos..]` of type `ty`, having produced `out` so far
/// and being at item `k` of a group with flag byte `flags` (`k == 8` means
/// the next byte is a new flag byte). Stops as soon as `size` bytes are out,
/// giving them and the position just past the last token read; `None` if the
/// stream is cut short or a back-reference reaches before the start or past
/// `size`.
pub open spec fn lz_tokens(s: Seq<u8>, pos: int, out: Seq<u8>, size: nat, flags: u8, k: nat, ty: u8)
    -> Option<(Seq<u8>, int)>
    decreases s.len() - pos, 8 - k,
{
    if pos < 0 || pos > s.len() || k > 8 {
        None
    } else if k == 8 {
        if pos >= s.len() {
            None
        } else {
            lz_tokens(s, pos + 1, out, size, s[pos], 0, ty)
        }
    } else if !is_backref_item(flags, k) {
        if pos >= s.len() {
            None
        } else {
            let o = out.push(s[pos]);
            if o.len() >= size {
                Some((o, pos + 1))
            } else {
                lz_tokens(s, pos + 1, o, size, flags, k + 1, ty)
            }
        }
    } else {
        match lz_backref(s, pos, ty) {
            None => None,
            Some((ofs, n, used)) => {
                if out.len() + n > size || out.len() < ofs {
                    None
                } else {
                    let o = lz_copy(out, ofs, n);
                    if o.len() >= size {
                        Some((o, pos + used))
                    } else {
                        lz_tokens(s, pos + used, o, size, flags, k + 1, ty)
                    }
                }
            }
        }
    }
}

/// The header at `s[p..]` of a stream of type `ty`: the decompressed size and
/// where the tokens start. The low byte of the first little-endian word is
/// the type and the rest the size; a size of 0 means the size is the next
/// word. `None` unless the size is within the accepted bounds.
pub open spec fn lz_header(s: Seq<u8>, p: int, ty: u8) -> Option<(nat, int)> {
    if p < 0 || p + 4 > s.len() {
        None
    } else {
        let h = le_u32(s, p);
        if h % 256 != ty as u32 {
            None
        } else {
            let size0 = (h / 256) as nat;
            let (size, start) = if size0 == 0 {
                if p + 8 > s.len() {
                    (0nat, p)
                } else {
                    (le_u32(s, p + 4) as nat, p + 8)
                }
            } else {
                (size0, p + 4)
            };
            if size < min_decompressed_size() || size > max_decompressed_size() {
                None
            } else {
                Some((size, start))
            }
        }
    }
}

/// Decompressing a stream of type `ty` at `s[p..]`: the data and the position
/// just past the stream.
pub open spec fn spec_lz(s: Seq<u8>, p: int, ty: u8) -> Option<(Seq<u8>, int)> {
    match lz_header(s, p, ty) {
        None => None,
        Some((size, start)) => lz_tokens(s, start, Seq::empty(), size, 0, 8, ty),
    }
}

/// Decompressing whatever stream starts at `s[p..]`: its first byte selects
/// the type.
pub open spec fn spec_decompress(s: Seq<u8>, p: int) -> Option<(Seq<u8>, int)> {
    if 0 <= p < s.len() && s[p] == 0x10 {
        spec_lz(s, p, 0x10)
    } else if 0 <= p < s.len() && s[p] == 0x11 {
        spec_lz(s, p, 0x11)
    } else {
        None
    }
}

pub struct DecompressResult<'a> {
    /// The decompressed data.
    pub data: Vec<u8>,
    /// A cursor at the end of the compressed data stream.
    pub end_cur: Cur<'a>,
}

/// Decompression failed (no information is kept about why).
#[derive(Debug)]
pub enum Error {
    DecompressFailed,
}

/// Try to decompress data at `cur`.
pub fn decompress<'a>(cur: Cur<'a>) -> (r: Result<DecompressResult<'a>, Error>)
    ensures
        match r {
            Ok(res) => spec_decompress(cur.data(), cur.position() as int)
                == Some((res.data@, res.end_cur.position() as int))
                && res.end_cur.data() == cur.data(),
            Err(_) => spec_decompress(cur.data(), cur.position() as int) is None,
        },
{
    match cur.peek_u8() {
        Ok(0x10) => de_lz77_0x10(cur),
        Ok(0x11) => de_lz77_0x11(cur),
        _ => Err(Error::DecompressFailed),
    }
}

/// Decompresses a type 0x10 stream (2-byte back-references).
fn de_lz77_0x10<'a>(cur: Cur<'a>) -> (r: Result<DecompressResult<'a>, Error>)
    ensures
        match r {
            Ok(res) => spec_lz(cur.data(), cur.position() as int, 0x10)
                == Some((res.data@, res.end_cur.position() as int))
                && res.end_cur.data() == cur.data(),
            Err(_) => spec_lz(cur.data(), cur.position() as int, 0x10) is None,
        },
{
    de_lz77(cur, 0x10)
}

/// Decompresses a type 0x11 stream (2-, 3- or 4-byte back-references).
fn de_lz77_0x11<'a>(cur: Cur<'a>) -> (r: Result<DecompressResult<'a>, Error>)
    ensures
        match r {
            Ok(res) => spec_lz(cur.data(), cur.position() as int, 0x11)
                == Some((res.data@, res.end_cur.position() as int))
                && res.end_cur.data() == cur.data(),
            Err(_) => spec_lz(cur.data(), cur.position() as int, 0x11) is None,
        },
{
    de_lz77(cur, 0x11)
}

/// Running the tokens from a state with fewer than `size` bytes out ends
/// with exactly `size` bytes, inside the stream.
proof fn lemma_tokens_len(s: Seq<u8>, pos: int, out: Seq<u8>, size: nat, flags: u8, k: nat, ty: u8)
    requires
        out.len() < size,
    ensures
        lz_tokens(s, pos, out, size, flags, k, ty) matches Some((o, e)) ==> o.len() == size
            && pos < e <= s.len(),
    decreases s.len() - pos, 8 - k,
{
    if pos < 0 || pos > s.len() || k > 8 {
    } else if k == 8 {
        if pos < s.len() {
            lemma_tokens_len(s, pos + 1, out, size, s[pos], 0, ty);
        }
    } else if !is_backref_item(flags, k) {
        if pos < s.len() {
            let o = out.push(s[pos]);
            if o.len() < size {
                lemma_tokens_len(s, pos + 1, o, size, flags, k + 1, ty);
            }
        }
    } else {
        match lz_backref(s, pos, ty) {
            None => {},
            Some((ofs, n, used)) => {
                if !(out.len() + n > size || out.len() < ofs) {
                    let o = lz_copy(out, ofs, n);
                    if o.len() < size {
                        lemma_tokens_len(s, pos + used, o, size, flags, k + 1, ty);
                    }
                }
            },
        }
    }
}

/// Reading a back-reference only looks at the bytes it occupies.
proof fn lemma_backref_extend(s: Seq<u8>, t: Seq<u8>, pos: int, ty: u8)
    requires
        0 <= pos,
        lz_backref(s, pos, ty) is Some,
    ensures
        lz_backref(s + t, pos, ty) == lz_backref(s, pos, ty),
{
    let st = s + t;
    assert(pos < s.len());
    assert(st[pos] == s[pos]);
    if pos + 1 < s.len() {
        assert(st[pos + 1] == s[pos + 1]);
    }
    if pos + 2 < s.len() {
        assert(st[pos + 2] == s[pos + 2]);
    }
    if pos + 3 < s.len() {
        assert(st[pos + 3] == s[pos + 3]);
    }
}

/// Bytes after the end of a stream that decodes do not change how it decodes.
proof fn lemma_tokens_extend(s: Seq<u8>, t: Seq<u8>, pos: int, out: Seq<u8>, size: nat, flags: u8,
    k: nat, ty: u8)
    requires
        lz_tokens(s, pos, out, size, flags, k, ty) is Some,
    ensures
        lz_tokens(s + t, pos, out, size, flags, k, ty) == lz_tokens(s, pos, out, size, flags, k, ty),
    decreases s.len() - pos, 8 - k,
{
    let st = s + t;
    if pos < 0 || pos > s.len() || k > 8 {
    } else if k == 8 {
        assert(st[pos] == s[pos]);
        lemma_tokens_extend(s, t, pos + 1, out, size, s[pos], 0, ty);
    } else if !is_backref_item(flags, k) {
        assert(st[pos] == s[pos]);
        let o = out.push(s[pos]);
        if o.len() < size {
            lemma_tokens_extend(s, t, pos + 1, o, size, flags, k + 1, ty);
        }
    } else {
        lemma_backref_extend(s, t, pos, ty);
        let (ofs, n, used) = lz_backref(s, pos, ty).unwrap();
        let o = lz_copy(out, ofs, n);
        if o.len() < size {
            lemma_tokens_extend(s, t, pos + used, o, size, flags, k + 1, ty);
        }
    }
}

/// The decompressed data of a stream has exactly the size its header
/// declares, which lies between 40 bytes and 4 MiB, and the stream ends after
/// its header, inside the buffer.
pub proof fn lemma_decompressed_size(s: Seq<u8>, p: int)
    ensures
        spec_decompress(s, p) matches Some((o, e)) ==> {
            &&& lz_header(s, p, s[p]) matches Some((size, start))
            &&& o.len() == size
            &&& min_decompressed_size() <= o.len() <= max_decompressed_size()
            &&& p < start < e <= s.len()
        },
{
    if let Some((o, e)) = spec_decompress(s, p) {
        let ty = s[p];
        let (size, start) = lz_header(s, p, ty).unwrap();
        lemma_tokens_len(s, start, Seq::empty(), size, 0, 8, ty);
    }
}

/// Whatever follows a compressed stream in the buffer does not affect its
/// decompression: the result depends only on the bytes up to its end.
pub proof fn lemma_decompress_ignores_trailing_bytes(s: Seq<u8>, t: Seq<u8>, p: int)
    ensures
        spec_decompress(s, p) is Some ==> spec_decompress(s + t, p) == spec_decompress(s, p),
{
    if spec_decompress(s, p) is Some {
        let st = s + t;
        let ty = s[p];
        assert(st[p] == s[p]);
        let (size, start) = lz_header(s, p, ty).unwrap();
        assert(st[p + 1] == s[p + 1] && st[p + 2] == s[p + 2] && st[p + 3] == s[p + 3]);
        if start == p + 8 {
            assert(st[p + 4] == s[p + 4] && st[p + 5] == s[p + 5] && st[p + 6] == s[p + 6]
                && st[p + 7] == s[p + 7]);
        }
        assert(lz_header(st, p, ty) == lz_header(s, p, ty));
        lemma_tokens_extend(s, t, start, Seq::empty(), size, 0, 8, ty);
    }
}

/// A type-0x10 back-reference token of bytes `[hi, lo]` copies
/// `(hi >> 4) + 3` bytes from `(hi & 0xf) * 256 + lo + 1` bytes back: the
/// low nibble of the first byte and the second byte give the offset minus
/// one, the high nibble the length minus three.
pub proof fn lemma_type10_backref(s: Seq<u8>, pos: int)
    requires
        0 <= pos,
        pos + 2 <= s.len(),
    ensures
        lz_backref(s, pos, 0x10) == Some((
            ((s[pos] & 0x0f) as nat) * 256 + s[pos + 1] as nat + 1,
            ((s[pos] >> 4u8) as nat) + 3,
            2int,
        )),
{
    let hi = s[pos];
    let lo = s[pos + 1];
    assert(hi & 0x0f == hi % 16) by (bit_vector);
    assert(hi >> 4u8 == hi / 16) by (bit_vector);
    let x = hi * 256 + lo;
    assert(x % 4096 == (hi % 16) * 256 + lo && x / 4096 == hi / 16) by (nonlinear_arith)
        requires x == hi * 256 + lo, 0 <= hi < 256, 0 <= lo < 256;
}

/// A stream's header is its type byte followed by the decompressed size in
/// the next three bytes, little-endian; the size must lie between 40 bytes
/// and 4 MiB, and the tokens follow the header.
pub proof fn lemma_header_size(s: Seq<u8>, p: int, ty: u8)
    requires
        0 <= p,
        p + 4 <= s.len(),
        s[p] == ty,
        s[p + 1] != 0 || s[p + 2] != 0 || s[p + 3] != 0,
    ensures
        ({
            let size = s[p + 1] as nat + 256 * s[p + 2] as nat + 65536 * s[p + 3] as nat;
            lz_header(s, p, ty) == if 40 <= size <= 0x400000 { Some((size, p + 4)) } else { None }
        }),
{
    let b0 = s[p] as int;
    let b1 = s[p + 1] as int;
    let b2 = s[p + 2] as int;
    let b3 = s[p + 3] as int;
    let h = b0 + 256 * b1 + 65536 * b2 + 16777216 * b3;
    assert(h % 256 == b0 && h / 256 == b1 + 256 * b2 + 65536 * b3) by (nonlinear_arith)
        requires h == b0 + 256 * b1 + 65536 * b2 + 16777216 * b3, 0 <= b0 < 256, 0 <= b1 < 256,
            0 <= b2 < 256, 0 <= b3 < 256;
    assert(le_u32(s, p) as int == h);
}

/// A type-0x11 back-reference token: the high nibble `a` of its first byte
/// selects the form. With `a == 0` it takes three bytes, the length minus
/// 0x11 in the next 8 bits and the offset minus one in the last 12; with
/// `a == 1` four bytes, the length minus 0x111 in the next 16 bits and the
/// offset minus one in the last 12; otherwise two bytes, the length is
/// `a + 1` and the offset minus one is the last 12 bits.
pub proof fn lemma_type11_backref(s: Seq<u8>, pos: int)
    requires
        0 <= pos,
        pos + 4 <= s.len(),
    ensures
        ({
            let b0 = s[pos];
            let b1 = s[pos + 1];
            let b2 = s[pos + 2];
            let b3 = s[pos + 3];
            let a = b0 >> 4u8;
            &&& a == 0 ==> lz_backref(s, pos, 0x11) == Some((
                ((b1 & 0x0f) as nat) * 256 + b2 as nat + 1,
                ((b0 & 0x0f) as nat) * 16 + (b1 >> 4u8) as nat + 0x11,
                3int))
            &&& a == 1 ==> lz_backref(s, pos, 0x11) == Some((
                ((b2 & 0x0f) as nat) * 256 + b3 as nat + 1,
                ((b0 & 0x0f) as nat) * 4096 + (b1 as nat) * 16 + (b2 >> 4u8) as nat + 0x111,
                4int))
            &&& a >= 2 ==> lz_backref(s, pos, 0x11) == Some((
                ((b0 & 0x0f) as nat) * 256 + b1 as nat + 1,
                a as nat + 1,
                2int))
        }),
{
    let b0 = s[pos];
    let b1 = s[pos + 1];
    let b2 = s[pos + 2];
    assert(b0 & 0x0f == b0 % 16 && b0 >> 4u8 == b0 / 16) by (bit_vector);
    assert(b1 & 0x0f == b1 % 16 && b1 >> 4u8 == b1 / 16) by (bit_vector);
    assert(b2 & 0x0f == b2 % 16 && b2 >> 4u8 == b2 / 16) by (bit_vector);
}

/// The items of a group follow the bits of its flag byte from the most
/// significant one down: item `k` is a back-reference exactly when bit
/// `7 - k` is set.
pub proof fn lemma_backref_flag_bits(flags: u8, k: nat)
    requires
        k < 8,
    ensures
        is_backref_item(flags, k) <==> (flags as nat / vstd::arithmetic::power2::pow2((7 - k) as nat)) % 2 == 1,
{
    let sh = (7 - k) as u8;
    assert((flags >> sh) & 1u8 == 1u8 <==> (flags >> sh) % 2 == 1) by (bit_vector);
    vstd::bits::lemma_u8_shr_is_div(flags, sh);
}

/// In a type-0x10 stream, a back-reference item with token bytes `[hi, lo]`
/// appends `(hi >> 4) + 3` bytes, byte `i` repeating the byte
/// `(hi & 0xf) * 256 + lo + 1` places back (the copy runs a byte at a time,
/// so the new bytes repeat the last `offset` ones); decoding then goes on
/// after the two token bytes, or stops there when the data is complete.
pub proof fn lemma_type10_backref_output(s: Seq<u8>, pos: int, out: Seq<u8>, size: nat, flags: u8, k: nat)
    requires
        0 <= pos,
        pos + 2 <= s.len(),
        k < 8,
        is_backref_item(flags, k),
        ((s[pos] & 0x0f) as nat) * 256 + s[pos + 1] as nat + 1 <= out.len(),
        out.len() + ((s[pos] >> 4u8) as nat) + 3 <= size,
    ensures
        ({
            let ofs = ((s[pos] & 0x0f) as nat) * 256 + s[pos + 1] as nat + 1;
            let n = ((s[pos] >> 4u8) as nat) + 3;
            let o = out + Seq::new(n, |i: int| out[out.len() - ofs + i % (ofs as int)]);
            &&& forall|i: int| 0 <= i < n && i < ofs ==> #[trigger] o[out.len() + i] == out[out.len() - ofs + i]
            &&& lz_tokens(s, pos, out, size, flags, k, 0x10) == if o.len() >= size {
                Some((o, pos + 2))
            } else {
                lz_tokens(s, pos + 2, o, size, flags, k + 1, 0x10)
            }
        }),
{
    lemma_type10_backref(s, pos);
    let ofs = ((s[pos] & 0x0f) as nat) * 256 + s[pos + 1] as nat + 1;
    let n = ((s[pos] >> 4u8) as nat) + 3;
    let o = out + Seq::new(n, |i: int| out[out.len() - ofs + i % (ofs as int)]);
    assert forall|i: int| 0 <= i < n && i < ofs implies #[trigger] o[out.len() + i] == out[out.len() - ofs + i] by {
        vstd::arithmetic::div_mod::lemma_small_mod(i as nat, ofs);
    }
    assert(lz_copy(out, ofs, n) == o);
}

/// `lz_copy` grows one byte at a time.
proof fn lemma_lz_copy_step(out: Seq<u8>, ofs: nat, j: nat)
    requires
        0 < ofs <= out.len(),
    ensures
        lz_copy(out, ofs, j + 1) == lz_copy(out, ofs, j).push(
            lz_copy(out, ofs, j)[out.len() + j - ofs]),
{
    let l = out.len() as int;
    let prev = lz_copy(out, ofs, j);
    let next = lz_copy(out, ofs, j + 1);
    let o = ofs as int;
    assert(prev[l + j - o] == out[l - o + (j as int) % o]) by {
        if (j as int) < o {
            vstd::arithmetic::div_mod::lemma_small_mod(j as nat, ofs);
        } else {
            vstd::arithmetic::div_mod::lemma_mod_sub_multiples_vanish(j as int, o);
            assert(prev[l + j - o] == out[l - o + (j as int - o) % o]);
        }
    }
    assert(next =~= prev.push(prev[l + j - o]));
}

/// Reads the back-reference at the cursor: its offset and length.
fn read_backref(cur: &mut Cur, ty: u8) -> (r: Result<(usize, usize), Error>)
    requires
        ty == 0x10 || ty == 0x11,
    ensures
        final(cur).data() == old(cur).data(),
        match r {
            Ok((ofs, n)) => lz_backref(old(cur).data(), old(cur).position() as int, ty)
                == Some((ofs as nat, n as nat, final(cur).position() - old(cur).position())),
            Err(_) => lz_backref(old(cur).data(), old(cur).position() as int, ty) is None,
        },
{
    let r: (usize, usize) = if ty == 0x10 {
        let x = match cur.next_u16() {
            Ok(x) => x,
            Err(_) => return Err(Error::DecompressFailed),
        };
        // stored big-endian
        let x = (x % 256) * 256 + x / 256;
        ((x % 4096) as usize + 1, (x / 4096) as usize + 3)
    } else {
        let ab = match cur.next_u8() {
            Ok(v) => v,
            Err(_) => return Err(Error::DecompressFailed),
        };
        let (a, b) = (ab / 16, ab % 16);
        if a == 0 {
            // ab cd ef => n = bc + 0x11, ofs = def + 1
            let cd = match cur.next_u8() {
                Ok(v) => v,
                Err(_) => return Err(Error::DecompressFailed),
            };
            let (c, d) = (cd / 16, cd % 16);
            let ef = match cur.next_u8() {
                Ok(v) => v,
                Err(_) => return Err(Error::DecompressFailed),
            };
            ((d as usize) * 256 + (ef as usize) + 1, (b as usize) * 16 + (c as usize) + 0x11)
        } else if a == 1 {
            // ab cd ef gh => n = bcde + 0x111, ofs = fgh + 1
            let cd = match cur.next_u8() {
                Ok(v) => v,
                Err(_) => return Err(Error::DecompressFailed),
            };
            let ef = match cur.next_u8() {
                Ok(v) => v,
                Err(_) => return Err(Error::DecompressFailed),
            };
            let (e, f) = (ef / 16, ef % 16);
            let gh = match cur.next_u8() {
                Ok(v) => v,
                Err(_) => return Err(Error::DecompressFailed),
            };
            (
                (f as usize) * 256 + (gh as usize) + 1,
                (b as usize) * 4096 + (cd as usize) * 16 + (e as usize) + 0x111,
            )
        } else {
            // ab cd => n = a + 1, ofs = bcd + 1
            let cd = match cur.next_u8() {
                Ok(v) => v,
                Err(_) => return Err(Error::DecompressFailed),
            };
            ((b as usize) * 256 + (cd as usize) + 1, (a as usize) + 1)
        }
    };
    Ok(r)
}

fn de_lz77<'a>(cur0: Cur<'a>, ty: u8) -> (r: Result<DecompressResult<'a>, Error>)
    requires
        ty == 0x10 || ty == 0x11,
    ensures
        match r {
            Ok(res) => spec_lz(cur0.data(), cur0.position() as int, ty)
                == Some((res.data@, res.end_cur.position() as int))
                && res.end_cur.data() == cur0.data(),
            Err(_) => spec_lz(cur0.data(), cur0.position() as int, ty) is None,
        },
{
    let ghost s = cur0.data();
    let ghost p = cur0.position() as int;
    let mut cur = cur0;
    let header = match cur.next_u32() {
        Ok(h) => h,
        Err(_) => return Err(Error::DecompressFailed),
    };
    if header % 256 != ty as u32 {
        return Err(Error::DecompressFailed);
    }
    let mut decompressed_size = (header / 256) as usize;
    if decompressed_size == 0 {
        decompressed_size = match cur.next_u32() {
            Ok(x) => x as usize,
            Err(_) => return Err(Error::DecompressFailed),
        };
    }

    // Too short to contain anything interesting
    if decompressed_size < 40 {
        return Err(Error::DecompressFailed);
    }
    // Too big (> 4 MiB)
    if decompressed_size > 0x200000 * 2 {
        return Err(Error::DecompressFailed);
    }
    assert(lz_header(s, p, ty) == Some((decompressed_size as nat, cur.position() as int)));

    let mut out: Vec<u8> = Vec::with_capacity(decompressed_size);
    let mut flags: u8 = 0;
    let mut k: u8 = 8;
    let ghost target = spec_lz(s, p, ty);

    loop
        invariant
            s == cur0.data(),
            p == cur0.position() as int,
            target == spec_lz(s, p, ty),
            cur.data() == s,
            p < cur.position() <= s.len(),
            k <= 8,
            out.len() < decompressed_size,
            40 <= decompressed_size <= 0x400000,
            ty == 0x10 || ty == 0x11,
            lz_tokens(s, cur.position() as int, out@, decompressed_size as nat, flags, k as nat, ty)
                == target,
        decreases s.len() - cur.position(),
    {
        if k == 8 {
            flags = match cur.next_u8() {
                Ok(b) => b,
                Err(_) => return Err(Error::DecompressFailed),
            };
            k = 0;
            continue;
        }
        let compressed = (flags >> (7 - k)) & 1 == 1;
        if !compressed {
            // Uncompressed byte
            let b = match cur.next_u8() {
                Ok(b) => b,
                Err(_) => return Err(Error::DecompressFailed),
            };
            out.push(b);
        } else {
            // LZ backreference
            let ghost pos0 = cur.position() as int;
            let (ofs, n) = match read_backref(&mut cur, ty) {
                Ok(on) => on,
                Err(_) => return Err(Error::DecompressFailed),
            };
            assert(lz_backref(s, pos0, ty) == Some((ofs as nat, n as nat, cur.position() - pos0)));

            if out.len() + n > decompressed_size {
                // too much data
                return Err(Error::DecompressFailed);
            }
            if out.len() < ofs {
                // not enough data
                return Err(Error::DecompressFailed);
            }

            let ghost before = out@;
            let mut j: usize = 0;
            while j < n
                invariant
                    0 < ofs <= before.len(),
                    j <= n,
                    out@ == lz_copy(before, ofs as nat, j as nat),
                decreases n - j,
            {
                proof { lemma_lz_copy_step(before, ofs as nat, j as nat); }
                let x = out[out.len() - ofs];
                out.push(x);
                j = j + 1;
            }
        }

        if out.len() >= decompressed_size {
            return Ok(DecompressResult { data: out, end_cur: cur });
        }
        k = k + 1;
    }
}

} // verus!
