//! The binary side of a glTF document: buffers laid out end-to-end in one
//! joined buffer, and the GLB container that holds the JSON text and that
//! joined buffer.

use vstd::prelude::*;

verus! {

/// A buffer of binary data that must start at a multiple of `alignment` in
/// the joined buffer.
pub struct Buffer {
    pub bytes: Vec<u8>,
    pub alignment: usize,
}

/// `l` rounded up to a multiple of `a`.
pub open spec fn pad_to(l: int, a: int) -> int {
    if l % a != 0 { l + (a - l % a) } else { l }
}

/// Where the buffers `bufs` end when laid out one after another, each at
/// the next multiple of its alignment.
pub open spec fn layout_end(bufs: Seq<Buffer>) -> int
    decreases bufs.len(),
{
    if bufs.len() == 0 {
        0
    } else {
        pad_to(layout_end(bufs.drop_last()), bufs.last().alignment as int) + bufs.last().bytes@.len()
    }
}

/// Where buffer `i` starts in the joined buffer.
pub open spec fn buffer_offset(bufs: Seq<Buffer>, i: int) -> int {
    pad_to(layout_end(bufs.take(i)), bufs[i].alignment as int)
}

/// The size of the joined buffer: the end of the last buffer, padded to a
/// multiple of 4 (as GLB requires).
pub open spec fn joined_len(bufs: Seq<Buffer>) -> int {
    pad_to(layout_end(bufs), 4)
}

/// Every buffer has a nonzero alignment.
pub open spec fn alignments_ok(bufs: Seq<Buffer>) -> bool {
    forall|i: int| 0 <= i < bufs.len() ==> (#[trigger] bufs[i]).alignment > 0
}

/// `n` zero bytes.
pub open spec fn zeros(n: int) -> Seq<u8> {
    Seq::new(n as nat, |_i: int| 0u8)
}

/// The buffers laid out end-to-end, with zeros as padding before each.
pub open spec fn joined_unpadded(bufs: Seq<Buffer>) -> Seq<u8>
    decreases bufs.len(),
{
    if bufs.len() == 0 {
        Seq::empty()
    } else {
        let before = joined_unpadded(bufs.drop_last());
        before + zeros(pad_to(before.len() as int, bufs.last().alignment as int) - before.len())
            + bufs.last().bytes@
    }
}

/// The joined buffer: the buffers laid out end-to-end, padded with zeros to
/// a multiple of 4 bytes.
pub open spec fn joined(bufs: Seq<Buffer>) -> Seq<u8> {
    let b = joined_unpadded(bufs);
    b + zeros(pad_to(b.len() as int, 4) - b.len())
}

proof fn lemma_pad_to(l: int, a: int)
    requires
        l >= 0,
        a > 0,
    ensures
        l <= pad_to(l, a) < l + a,
        pad_to(l, a) % a == 0,
{
    vstd::arithmetic::div_mod::lemma_mod_bound(l, a);
    if l % a != 0 {
        vstd::arithmetic::div_mod::lemma_mod_add_multiples_vanish(l - l % a, a);
        vstd::arithmetic::div_mod::lemma_fundamental_div_mod(l, a);
        vstd::arithmetic::div_mod::lemma_mod_multiples_basic(l / a + 1, a);
        assert(pad_to(l, a) == a * (l / a + 1)) by (nonlinear_arith)
            requires
                l == a * (l / a) + l % a,
                pad_to(l, a) == l + (a - l % a),
        ;
    }
}

/// The layout only grows as buffers are added.
proof fn lemma_layout_monotone(bufs: Seq<Buffer>, i: int)
    requires
        alignments_ok(bufs),
        0 <= i <= bufs.len(),
    ensures
        0 <= layout_end(bufs.take(i)) <= layout_end(bufs),
        i < bufs.len() ==> buffer_offset(bufs, i) + bufs[i].bytes@.len() <= layout_end(bufs),
    decreases bufs.len() - i,
{
    if i == bufs.len() {
        assert(bufs.take(i) =~= bufs);
        lemma_layout_nonneg(bufs);
    } else {
        lemma_layout_monotone(bufs, i + 1);
        let t = bufs.take(i + 1);
        assert(t.drop_last() =~= bufs.take(i));
        assert(t.last() == bufs[i]);
        lemma_layout_nonneg(bufs.take(i));
        lemma_pad_to(layout_end(bufs.take(i)), bufs[i].alignment as int);
    }
}

proof fn lemma_layout_nonneg(bufs: Seq<Buffer>)
    requires
        alignments_ok(bufs),
    ensures
        layout_end(bufs) >= 0,
    decreases bufs.len(),
{
    if bufs.len() > 0 {
        assert(alignments_ok(bufs.drop_last())) by {
            assert forall|i: int| 0 <= i < bufs.drop_last().len() implies (#[trigger] bufs.drop_last()[i]).alignment > 0 by {
                assert(bufs.drop_last()[i] == bufs[i]);
            }
        }
        lemma_layout_nonneg(bufs.drop_last());
        lemma_pad_to(layout_end(bufs.drop_last()), bufs.last().alignment as int);
    }
}

/// The joined bytes before the final padding are exactly as long as the
/// layout says.
proof fn lemma_joined_len(bufs: Seq<Buffer>)
    requires
        alignments_ok(bufs),
    ensures
        joined_unpadded(bufs).len() == layout_end(bufs),
    decreases bufs.len(),
{
    if bufs.len() > 0 {
        assert(alignments_ok(bufs.drop_last())) by {
            assert forall|i: int| 0 <= i < bufs.drop_last().len() implies (#[trigger] bufs.drop_last()[i]).alignment > 0 by {
                assert(bufs.drop_last()[i] == bufs[i]);
            }
        }
        lemma_joined_len(bufs.drop_last());
        lemma_layout_nonneg(bufs.drop_last());
        lemma_pad_to(layout_end(bufs.drop_last()), bufs.last().alignment as int);
    }
}

/// Where each buffer starts when they are all laid out end-to-end, and the
/// size of the joined buffer.
pub fn buffer_layout(buffers: &Vec<Buffer>) -> (r: (Vec<usize>, usize))
    requires
        alignments_ok(buffers@),
        joined_len(buffers@) <= usize::MAX,
    ensures
        r.0@.len() == buffers@.len(),
        forall|i: int| 0 <= i < buffers@.len() ==> #[trigger] r.0@[i] == buffer_offset(buffers@, i),
        r.1 == joined_len(buffers@),
{
    let mut buf_offsets: Vec<usize> = Vec::with_capacity(buffers.len());
    let mut l: usize = 0;
    proof {
        lemma_layout_nonneg(buffers@);
        lemma_pad_to(layout_end(buffers@), 4);
    }
    let mut k: usize = 0;
    while k < buffers.len()
        invariant
            alignments_ok(buffers@),
            joined_len(buffers@) <= usize::MAX,
            layout_end(buffers@) <= joined_len(buffers@),
            k <= buffers@.len(),
            l == layout_end(buffers@.take(k as int)),
            buf_offsets@.len() == k,
            forall|i: int| 0 <= i < k ==> #[trigger] buf_offsets@[i] == buffer_offset(buffers@, i),
        decreases buffers@.len() - k,
    {
        let buffer = &buffers[k];
        assert(buffers@[k as int].alignment > 0);
        proof {
            lemma_layout_monotone(buffers@, k as int);
            lemma_pad_to(l as int, buffer.alignment as int);
        }
        // Pad to alignment
        if l % buffer.alignment != 0 {
            l += buffer.alignment - (l % buffer.alignment);
        }
        buf_offsets.push(l);
        l += buffer.bytes.len();
        proof {
            let t = buffers@.take(k + 1);
            assert(t.drop_last() =~= buffers@.take(k as int));
            assert(t.last() == buffers@[k as int]);
        }
        k += 1;
    }
    assert(buffers@.take(k as int) =~= buffers@);
    // Pad buffer to 4-byte alignment (required for GLBs)
    if l % 4 != 0 {
        l += 4 - (l % 4);
    }
    (buf_offsets, l)
}

/// A buffer view of the glTF document, as far as the joining of buffers
/// concerns it: the buffer it points into and its byte offset there (an
/// absent offset means 0).
#[derive(Debug, Clone, Copy)]
pub struct BufferView {
    pub buffer: usize,
    pub byte_offset: Option<usize>,
}

/// The byte offset of a view in its buffer.
pub open spec fn view_offset(v: BufferView) -> int {
    match v.byte_offset {
        Some(o) => o as int,
        None => 0,
    }
}

/// Where view `v` starts once the buffers `bufs` are joined into one.
pub open spec fn joined_view_offset(bufs: Seq<Buffer>, v: BufferView) -> int {
    view_offset(v) + buffer_offset(bufs, v.buffer as int)
}

/// Points every view at its place in the joined buffer 0, and returns the
/// size of the joined buffer.
fn point_views_into_joined(buffers: &Vec<Buffer>, views: &mut Vec<BufferView>) -> (len: usize)
    requires
        alignments_ok(buffers@),
        joined_len(buffers@) <= usize::MAX,
        forall|i: int| 0 <= i < old(views)@.len() ==> (#[trigger] old(views)@[i]).buffer < buffers@.len(),
        forall|i: int| 0 <= i < old(views)@.len()
            ==> joined_view_offset(buffers@, #[trigger] old(views)@[i]) <= usize::MAX,
    ensures
        len == joined_len(buffers@),
        final(views)@.len() == old(views)@.len(),
        forall|i: int| 0 <= i < old(views)@.len() ==> {
            &&& (#[trigger] final(views)@[i]).buffer == 0
            &&& final(views)@[i].byte_offset == Some(joined_view_offset(buffers@, old(views)@[i]) as usize)
        },
{
    let (buf_offsets, buf_byte_len) = buffer_layout(buffers);
    let ghost v0 = views@;
    let mut i: usize = 0;
    while i < views.len()
        invariant
            v0 == old(views)@,
            views@.len() == v0.len(),
            i <= v0.len(),
            buf_offsets@.len() == buffers@.len(),
            forall|j: int| 0 <= j < buffers@.len() ==> #[trigger] buf_offsets@[j] == buffer_offset(buffers@, j),
            forall|j: int| 0 <= j < v0.len() ==> (#[trigger] v0[j]).buffer < buffers@.len(),
            forall|j: int| 0 <= j < v0.len() ==> joined_view_offset(buffers@, #[trigger] v0[j]) <= usize::MAX,
            forall|j: int| i <= j < v0.len() ==> #[trigger] views@[j] == v0[j],
            forall|j: int| 0 <= j < i ==> {
                &&& (#[trigger] views@[j]).buffer == 0
                &&& views@[j].byte_offset == Some(joined_view_offset(buffers@, v0[j]) as usize)
            },
        decreases v0.len() - i,
    {
        let view = views[i];
        assert(view == v0[i as int]);
        let offset = match view.byte_offset {
            Some(o) => o,
            None => 0,
        };
        let new_offset = offset + buf_offsets[view.buffer];
        views.set(i, BufferView { buffer: 0, byte_offset: Some(new_offset) });
        i += 1;
    }
    buf_byte_len
}

/// An entry of the document's buffer table: the size of a buffer.
#[derive(Debug, Clone, Copy, PartialEq, Eq, Structural)]
pub struct BufferEntry {
    pub byte_length: usize,
}

/// The binary side of a glTF document: its buffers, the views into them,
/// and its table of buffers.
pub struct GlTF {
    pub buffers: Vec<Buffer>,
    pub buffer_views: Vec<BufferView>,
    pub buffer_entries: Vec<BufferEntry>,
}

/// Every view of `views` points into one of the buffers `bufs`, at an offset
/// that still fits once the buffers are joined.
pub open spec fn views_fit(bufs: Seq<Buffer>, views: Seq<BufferView>) -> bool {
    &&& forall|i: int| 0 <= i < views.len() ==> (#[trigger] views[i]).buffer < bufs.len()
    &&& forall|i: int| 0 <= i < views.len() ==> joined_view_offset(bufs, #[trigger] views[i]) <= usize::MAX
}

impl GlTF {
    pub fn new() -> (g: GlTF)
        ensures
            g.buffers@.len() == 0,
            g.buffer_views@.len() == 0,
            g.buffer_entries@.len() == 0,
    {
        GlTF { buffers: Vec::new(), buffer_views: Vec::new(), buffer_entries: Vec::new() }
    }

    /// Updates all the buffer views to point to the correct location when the
    /// buffers are all joined into one single buffer 0, and makes that
    /// joined buffer the document's only buffer. Returns the size the joined
    /// buffer will have.
    pub fn update_buffer_views(&mut self) -> (len: usize)
        requires
            alignments_ok(old(self).buffers@),
            joined_len(old(self).buffers@) <= usize::MAX,
            views_fit(old(self).buffers@, old(self).buffer_views@),
        ensures
            len == joined_len(old(self).buffers@),
            len % 4 == 0,
            final(self).buffers@ == old(self).buffers@,
            final(self).buffer_entries@ == seq![BufferEntry { byte_length: len }],
            final(self).buffer_views@.len() == old(self).buffer_views@.len(),
            forall|i: int| 0 <= i < old(self).buffer_views@.len() ==> {
                &&& (#[trigger] final(self).buffer_views@[i]).buffer == 0
                &&& final(self).buffer_views@[i].byte_offset
                    == Some(joined_view_offset(old(self).buffers@, old(self).buffer_views@[i]) as usize)
            },
    {
        proof {
            lemma_layout_nonneg(self.buffers@);
            lemma_pad_to(layout_end(self.buffers@), 4);
        }
        let len = point_views_into_joined(&self.buffers, &mut self.buffer_views);
        self.buffer_entries = vec![BufferEntry { byte_length: len }];
        len
    }

    /// The joined buffer: all the buffers laid out end-to-end, `joined_len`
    /// bytes long.
    pub fn write_buffer(&self) -> (r: Vec<u8>)
        requires
            alignments_ok(self.buffers@),
            joined_len(self.buffers@) <= usize::MAX,
        ensures
            r@ == joined(self.buffers@),
            r@.len() == joined_len(self.buffers@),
    {
        joined_buffer(&self.buffers)
    }
}

/// Appends `n` zero bytes.
fn push_zeros(v: &mut Vec<u8>, n: usize)
    ensures
        final(v)@ == old(v)@ + zeros(n as int),
{
    let ghost start = v@;
    let mut i: usize = 0;
    while i < n
        invariant
            i <= n,
            v@ == start + zeros(i as int),
        decreases n - i,
    {
        v.push(0);
        i += 1;
        assert(v@ =~= start + zeros(i as int));
    }
}

/// The joined buffer's bytes.
pub fn joined_buffer(buffers: &Vec<Buffer>) -> (r: Vec<u8>)
    requires
        alignments_ok(buffers@),
        joined_len(buffers@) <= usize::MAX,
    ensures
        r@ == joined(buffers@),
        r@.len() == joined_len(buffers@),
{
    let mut out: Vec<u8> = Vec::new();
    proof {
        lemma_layout_nonneg(buffers@);
        lemma_pad_to(layout_end(buffers@), 4);
    }
    let mut k: usize = 0;
    while k < buffers.len()
        invariant
            alignments_ok(buffers@),
            joined_len(buffers@) <= usize::MAX,
            layout_end(buffers@) <= joined_len(buffers@),
            k <= buffers@.len(),
            out@ == joined_unpadded(buffers@.take(k as int)),
            out@.len() == layout_end(buffers@.take(k as int)),
        decreases buffers@.len() - k,
    {
        let buffer = &buffers[k];
        assert(buffers@[k as int].alignment > 0);
        proof {
            lemma_layout_monotone(buffers@, k as int);
            lemma_pad_to(out@.len() as int, buffer.alignment as int);
        }
        let l = out.len();
        // Pad to alignment
        if l % buffer.alignment != 0 {
            push_zeros(&mut out, buffer.alignment - (l % buffer.alignment));
        } else {
            assert(zeros(0) =~= Seq::<u8>::empty());
            assert(out@ =~= out@ + zeros(0));
        }
        let mut bytes = buffer.bytes.clone();
        out.append(&mut bytes);
        proof {
            let t = buffers@.take(k + 1);
            assert(t.drop_last() =~= buffers@.take(k as int));
            assert(t.last() == buffers@[k as int]);
        }
        k += 1;
    }
    assert(buffers@.take(k as int) =~= buffers@);
    let l = out.len();
    if l % 4 != 0 {
        push_zeros(&mut out, 4 - (l % 4));
    } else {
        assert(out@ =~= out@ + zeros(0));
    }
    out
}

/// Each buffer's bytes lie in the joined buffer at the offset the layout
/// gives it, so buffer views moved by that offset point at the same data.
pub proof fn lemma_joined_holds_buffers(bufs: Seq<Buffer>, i: int)
    requires
        alignments_ok(bufs),
        0 <= i < bufs.len(),
    ensures
        joined(bufs).len() == joined_len(bufs),
        joined(bufs).subrange(buffer_offset(bufs, i), buffer_offset(bufs, i) + bufs[i].bytes@.len())
            == bufs[i].bytes@,
    decreases bufs.len(),
{
    lemma_joined_len(bufs);
    lemma_layout_nonneg(bufs);
    lemma_pad_to(layout_end(bufs), 4);
    let n = bufs.len() - 1;
    let prev = bufs.drop_last();
    assert(alignments_ok(prev)) by {
        assert forall|k: int| 0 <= k < prev.len() implies (#[trigger] prev[k]).alignment > 0 by {
            assert(prev[k] == bufs[k]);
        }
    }
    lemma_joined_len(prev);
    lemma_layout_nonneg(prev);
    lemma_pad_to(layout_end(prev), bufs.last().alignment as int);
    let u = joined_unpadded(bufs);
    let pu = joined_unpadded(prev);
    if i == n {
        assert(bufs.take(i) =~= prev);
        assert(joined(bufs).subrange(buffer_offset(bufs, i), buffer_offset(bufs, i) + bufs[i].bytes@.len())
            =~= bufs[i].bytes@);
    } else {
        lemma_joined_holds_buffers(prev, i);
        assert(prev.take(i) =~= bufs.take(i));
        assert(prev[i] == bufs[i]);
        lemma_layout_monotone(prev, i);
        lemma_pad_to(layout_end(prev), 4);
        let lo = buffer_offset(bufs, i);
        let hi = lo + bufs[i].bytes@.len();
        assert(hi <= pu.len());
        assert(joined(prev).subrange(lo, hi) =~= pu.subrange(lo, hi));
        assert(joined(bufs).subrange(lo, hi) =~= pu.subrange(lo, hi));
    }
}

/// The little-endian bytes of `x`.
pub open spec fn le32(x: u32) -> Seq<u8> {
    seq![(x % 256) as u8, (x / 256 % 256) as u8, (x / 65536 % 256) as u8, (x / 16777216) as u8]
}

/// The little-endian bytes of `x`.
pub open spec fn le16(x: u16) -> Seq<u8> {
    seq![(x % 256) as u8, (x / 256) as u8]
}

/// Appending little-endian integers to a byte buffer.
pub trait ByteVec {
    fn push_u16(&mut self, x: u16);
    fn push_u32(&mut self, x: u32);
}

impl ByteVec for Vec<u8> {
    fn push_u16(&mut self, x: u16)
        ensures
            final(self)@ == old(self)@ + le16(x),
    {
        self.push((x % 256) as u8);
        self.push((x / 256) as u8);
        assert(self@ =~= old(self)@ + le16(x));
    }

    fn push_u32(&mut self, x: u32)
        ensures
            final(self)@ == old(self)@ + le32(x),
    {
        self.push((x % 256) as u8);
        self.push((x / 256 % 256) as u8);
        self.push((x / 65536 % 256) as u8);
        self.push((x / 16777216) as u8);
        assert(self@ =~= old(self)@ + le32(x));
    }
}

/// Pushing that hands back where the value went.
pub trait VecExt<T> {
    fn add(&mut self, x: T) -> usize;
}

impl<T> VecExt<T> for Vec<T> {
    fn add(&mut self, x: T) -> (i: usize)
        ensures
            final(self)@ == old(self)@.push(x),
            i == old(self)@.len(),
    {
        self.push(x);
        self.len() - 1
    }
}

/// The bytes `glTF`, `JSON` and `BIN\0`.
pub open spec fn magic_gltf() -> Seq<u8> { seq![0x67u8, 0x6c, 0x54, 0x46] }
pub open spec fn magic_json() -> Seq<u8> { seq![0x4au8, 0x53, 0x4f, 0x4e] }
pub open spec fn magic_bin() -> Seq<u8> { seq![0x42u8, 0x49, 0x4e, 0x00] }

/// The JSON text padded with spaces to a multiple of 4 bytes.
pub open spec fn padded_json(json: Seq<u8>) -> Seq<u8> {
    json + Seq::new((pad_to(json.len() as int, 4) - json.len()) as nat, |_i: int| 0x20u8)
}

/// A GLB file holding the JSON text `json` and the binary chunk `bin`: the
/// header (magic, version 2, file size), the JSON chunk and the BIN chunk,
/// each chunk led by its length and type.
pub open spec fn glb_file(json: Seq<u8>, bin: Seq<u8>) -> Seq<u8> {
    let j = padded_json(json);
    let file_size = 12 + 8 + j.len() + 8 + bin.len();
    magic_gltf() + le32(2) + le32(file_size as u32) + le32(j.len() as u32) + magic_json() + j
        + le32(bin.len() as u32) + magic_bin() + bin
}

/// The JSON text padded with spaces to a multiple of 4 bytes.
fn pad_json(json: &[u8]) -> (s: Vec<u8>)
    ensures
        s@ == padded_json(json@),
{
    let mut s: Vec<u8> = Vec::new();
    let mut i: usize = 0;
    while i < json.len()
        invariant
            i <= json@.len(),
            s@ == json@.take(i as int),
        decreases json@.len() - i,
    {
        s.push(json[i]);
        i += 1;
        assert(s@ =~= json@.take(i as int));
    }
    assert(json@.take(i as int) =~= json@);
    proof {
        lemma_pad_to(json@.len() as int, 4);
    }
    while s.len() % 4 != 0
        invariant
            json@.len() <= s@.len() <= pad_to(json@.len() as int, 4),
            s@ == json@ + Seq::new((s@.len() - json@.len()) as nat, |_i: int| 0x20u8),
        decreases pad_to(json@.len() as int, 4) - s@.len(),
    {
        proof {
            if s@.len() == pad_to(json@.len() as int, 4) {
                lemma_pad_to(json@.len() as int, 4);
            }
        }
        s.push(0x20);
        assert(s@ =~= json@ + Seq::new((s@.len() - json@.len()) as nat, |_i: int| 0x20u8));
    }
    proof {
        lemma_pad_to(json@.len() as int, 4);
        let p = pad_to(json@.len() as int, 4);
        if s@.len() < p {
            assert(false) by (nonlinear_arith)
                requires
                    p % 4 == 0,
                    s@.len() % 4 == 0,
                    json@.len() < s@.len() < p,
                    p < json@.len() + 4,
            ;
        }
    }
    assert(s@ =~= padded_json(json@));
    s
}

/// Writes a GLB file from the document's JSON text and its buffers.
#[verifier::spinoff_prover]
#[verifier::rlimit(40)]
pub fn glb_bytes(json: &[u8], buffers: &Vec<Buffer>) -> (r: Vec<u8>)
    requires
        alignments_ok(buffers@),
        joined_len(buffers@) <= usize::MAX,
        12 + 8 + pad_to(json@.len() as int, 4) + 8 + joined_len(buffers@) <= usize::MAX,
    ensures
        r@ == glb_file(json@, joined(buffers@)),
{
    let bin = joined_buffer(buffers);
    let bin_len = bin.len();
    let s = pad_json(json);

    // Calculate total filesize
    let filesize = 12 + 8 + s.len() + 8 + bin_len;

    let mut out: Vec<u8> = Vec::new();
    // GLB Header
    out.push(0x67);
    out.push(0x6c);
    out.push(0x54);
    out.push(0x46);
    out.push_u32(2);
    out.push_u32(filesize as u32);
    // JSON Chunk Header
    out.push_u32(s.len() as u32);
    out.push(0x4a);
    out.push(0x53);
    out.push(0x4f);
    out.push(0x4e);
    // JSON Chunk Data
    let mut s = s;
    out.append(&mut s);
    // BIN Chunk Header
    out.push_u32(bin_len as u32);
    out.push(0x42);
    out.push(0x49);
    out.push(0x4e);
    out.push(0x00);
    // The joined buffer is the BIN data
    let mut bin = bin;
    out.append(&mut bin);
    assert(out@ =~= glb_file(json@, joined(buffers@)));
    out
}

} // verus!
