//! NDS GPU command parsing.
//!
//! A `CmdParser` walks over NDS GPU commands stored in a buffer. This module
//! doesn't actually do anything with the commands, it just knows how they're
//! stored in memory and provides them in a more easily-consumable form.
//!
//! A GPU command consists of a one-byte opcode and a sequence of 32-bit
//! words for parameters. Four commands are packed as a sequence of words:
//! first the four opcodes in the first four bytes, then the parameters of
//! the first command, then those of the second, the third and the fourth.
//!
//! Fixed-point values are handed out as the integers they scale: a value
//! `v` in units of `2^-k` stands for `v / 2^k`.

use vstd::prelude::*;
use vstd::arithmetic::power2::{pow2, lemma2_to64, lemma_pow2_pos};
use crate::util::bits::{bit_field, bits_u32};
use crate::util::cur::{Cur, le_u32};
use crate::util::fmt::{hex_str, push_hex};
use crate::errors::ErrorMsg;

verus! {

/// DS GPU command.
#[derive(Debug, Copy, Clone, PartialEq, Eq)]
pub enum GpuCmd {
    /// Do nothing.
    Nop,
    /// Load the matrix from stack slot `idx` to the current matrix.
    Restore { idx: u32 },
    /// Precompose the current matrix with a scaling (units of 2^-12).
    Scale { scale: (i32, i32, i32) },
    /// Begin a new primitive group of the given type (tris, quads, etc).
    Begin { prim_type: u32 },
    /// End the current primitive group.
    End,
    /// Send a vertex with the given position (units of 2^-12).
    ///
    /// The position is _untransformed_: it must be multiplied by the
    /// current matrix to get its final position.
    Vertex { position: (i128, i128, i128) },
    /// Set the texture coordinate for subsequent vertices, in texels
    /// (units of 2^-4).
    TexCoord { texcoord: (i32, i32) },
    /// Set the color for subsequent vertices: 5-bit red, green and blue
    /// intensities (31 is full intensity).
    Color { color: (u8, u8, u8) },
    /// Set the normal vector for subsequent vertices (units of 2^-9).
    Normal { normal: (i32, i32, i32) },
}

/// The two's-complement value of the `n`-bit number `v`.
pub open spec fn sext(v: nat, n: nat) -> int {
    if v >= pow2((n - 1) as nat) {
        v - pow2(n)
    } else {
        v as int
    }
}

/// Bits `lo..hi` of `x`, read as a signed number.
pub open spec fn signed_field(x: nat, lo: nat, hi: nat) -> int {
    sext(bit_field(x, lo, hi), (hi - lo) as nat)
}

/// Number of 32-bit parameters `opcode` takes, or `None` for an unknown
/// opcode.
pub open spec fn spec_num_params(opcode: u8) -> Option<nat> {
    match opcode {
        0x00 | 0x11 | 0x15 | 0x41 => Some(0),
        0x10 | 0x12 | 0x13 | 0x14 => Some(1),
        0x16 | 0x18 => Some(16),
        0x17 | 0x19 => Some(12),
        0x1a => Some(9),
        0x1b | 0x1c => Some(3),
        0x23 => Some(2),
        0x20 | 0x21 | 0x22 | 0x24 | 0x25 | 0x26 | 0x27 | 0x28 | 0x29 | 0x2a | 0x2b
        | 0x30 | 0x31 | 0x32 | 0x33 | 0x34 | 0x40 => Some(1),
        _ => None,
    }
}

/// The `i`th parameter word.
pub open spec fn param(params: Seq<u8>, i: int) -> nat {
    le_u32(params, 4 * i) as nat
}

/// A vertex coordinate given as a 16-bit 1.3.12 number.
pub open spec fn coord16(x: nat, lo: nat) -> i128 {
    signed_field(x, lo, lo + 16) as i128
}

/// A vertex coordinate given as a 10-bit 1.3.6 number, in units of 2^-12.
pub open spec fn coord10(x: nat, lo: nat) -> i128 {
    (signed_field(x, lo, lo + 10) * 64) as i128
}

/// A vertex displacement given as a 10-bit 1.0.9 number scaled by 2^-3, in
/// units of 2^-12.
pub open spec fn diff10(x: nat, lo: nat) -> int {
    signed_field(x, lo, lo + 10)
}

/// The message for an opcode that has a size but no meaning here.
pub open spec fn unsupported_opcode_msg(opcode: u8) -> Seq<char> {
    "unimplented GPU ocpode: "@ + hex_str(opcode as nat)
}

/// The message for an opcode that is not in the size table.
pub open spec fn unknown_msg(opcode: u8) -> Seq<char> {
    "unknown GPU opcode: "@ + hex_str(opcode as nat)
}

/// The command that `opcode` with parameter bytes `params` stands for, and
/// the last vertex position after it, given the last one before it.
pub open spec fn spec_parse(vertex: (i128, i128, i128), opcode: u8, params: Seq<u8>)
    -> ((i128, i128, i128), Result<GpuCmd, Seq<char>>)
{
    let p0 = param(params, 0);
    match opcode {
        0x00 => (vertex, Ok(GpuCmd::Nop)),
        0x14 => (vertex, Ok(GpuCmd::Restore { idx: (p0 % 32) as u32 })),
        0x1b => (vertex, Ok(GpuCmd::Scale {
            scale: (
                sext(p0, 32) as i32,
                sext(param(params, 1), 32) as i32,
                sext(param(params, 2), 32) as i32,
            ),
        })),
        0x40 => (vertex, Ok(GpuCmd::Begin { prim_type: (p0 % 4) as u32 })),
        0x41 => (vertex, Ok(GpuCmd::End)),
        0x23 => {
            let v = (coord16(p0, 0), coord16(p0, 16), coord16(param(params, 1), 0));
            (v, Ok(GpuCmd::Vertex { position: v }))
        },
        0x24 => {
            let v = (coord10(p0, 0), coord10(p0, 10), coord10(p0, 20));
            (v, Ok(GpuCmd::Vertex { position: v }))
        },
        0x25 => {
            let v = (coord16(p0, 0), coord16(p0, 16), vertex.2);
            (v, Ok(GpuCmd::Vertex { position: v }))
        },
        0x26 => {
            let v = (coord16(p0, 0), vertex.1, coord16(p0, 16));
            (v, Ok(GpuCmd::Vertex { position: v }))
        },
        0x27 => {
            let v = (vertex.0, coord16(p0, 0), coord16(p0, 16));
            (v, Ok(GpuCmd::Vertex { position: v }))
        },
        0x28 => {
            let v = (
                (vertex.0 + diff10(p0, 0)) as i128,
                (vertex.1 + diff10(p0, 10)) as i128,
                (vertex.2 + diff10(p0, 20)) as i128,
            );
            (v, Ok(GpuCmd::Vertex { position: v }))
        },
        0x22 => (vertex, Ok(GpuCmd::TexCoord {
            texcoord: (signed_field(p0, 0, 16) as i32, signed_field(p0, 16, 32) as i32),
        })),
        0x20 => (vertex, Ok(GpuCmd::Color {
            color: (bit_field(p0, 0, 5) as u8, bit_field(p0, 5, 10) as u8, bit_field(p0, 10, 15) as u8),
        })),
        0x21 => (vertex, Ok(GpuCmd::Normal {
            normal: (
                signed_field(p0, 0, 10) as i32,
                signed_field(p0, 10, 20) as i32,
                signed_field(p0, 20, 30) as i32,
            ),
        })),
        _ => (vertex, Err(unsupported_opcode_msg(opcode))),
    }
}

/// What the parser has left to do: the opcodes left of the current group,
/// the bytes after them, the last vertex position, and whether it is done.
pub struct ParseState {
    pub fifo: Seq<u8>,
    pub buf: Seq<u8>,
    pub vertex: (i128, i128, i128),
    pub done: bool,
}

/// The parser state before anything of `cmds` has been read.
pub open spec fn initial_state(cmds: Seq<u8>) -> ParseState {
    ParseState { fifo: Seq::empty(), buf: cmds, vertex: (0, 0, 0), done: false }
}

/// A finished parser with what it had left.
pub open spec fn finished(fifo: Seq<u8>, buf: Seq<u8>, vertex: (i128, i128, i128)) -> ParseState {
    ParseState { fifo, buf, vertex, done: true }
}

/// One step of the parser: its next state and what `next` returns.
///
/// When the opcode group runs out, the next four bytes become the new group;
/// each opcode then takes its parameters from the bytes after the group. The
/// parser stops for good at the end of the buffer and after any error.
pub open spec fn step(st: ParseState) -> (ParseState, Option<Result<GpuCmd, Seq<char>>>) {
    if st.done {
        (st, None)
    } else if st.fifo.len() == 0 && st.buf.len() == 0 {
        (finished(st.fifo, st.buf, st.vertex), None)
    } else if st.fifo.len() == 0 && st.buf.len() < 4 {
        (finished(st.fifo, st.buf, st.vertex), Some(Err("GPU has too few opcodes"@)))
    } else {
        let group = if st.fifo.len() == 0 { st.buf.take(4) } else { st.fifo };
        let buf = if st.fifo.len() == 0 { st.buf.skip(4) } else { st.buf };
        let opcode = group[0];
        let fifo = group.skip(1);
        match spec_num_params(opcode) {
            None => (finished(fifo, buf, st.vertex), Some(Err(unknown_msg(opcode)))),
            Some(n) => if buf.len() < 4 * n {
                (
                    finished(fifo, buf, st.vertex),
                    Some(Err("buffer too short for GPU opcode parameters"@)),
                )
            } else {
                let (vertex, r) = spec_parse(st.vertex, opcode, buf.take(4 * n as int));
                (ParseState { fifo, buf: buf.skip(4 * n as int), vertex, done: r is Err }, Some(r))
            },
        }
    }
}

/// What `next` hands back, with the error's message for the error.
pub open spec fn result_view(r: Option<Result<GpuCmd, ErrorMsg>>) -> Option<Result<GpuCmd, Seq<char>>> {
    match r {
        None => None,
        Some(Ok(c)) => Some(Ok(c)),
        Some(Err(e)) => Some(Err(e.msg@)),
    }
}

/// Every coordinate of `v` lies within `-b..=b`.
pub open spec fn vertex_within(v: (i128, i128, i128), b: int) -> bool {
    &&& -b <= v.0 <= b
    &&& -b <= v.1 <= b
    &&& -b <= v.2 <= b
}

/// Parses the memory representation of GPU commands, handing them out one
/// by one from `next`.
pub struct CmdParser<'a> {
    cmds: &'a [u8],
    /// The unprocessed opcodes (never more than four at one time) are
    /// `cmds[fifo_start..fifo_end]`.
    fifo_start: usize,
    fifo_end: usize,
    /// Where the parameters of the next opcode, or the next group of
    /// opcodes, start.
    pos: usize,
    /// The last vertex position sent; the relative vertex commands give a
    /// position by its displacement from this one.
    vertex: (i128, i128, i128),
    /// Whether we're done. Always set after an error.
    done: bool,
}

impl<'a> CmdParser<'a> {
    pub closed spec fn wf(&self) -> bool {
        &&& self.fifo_start <= self.fifo_end <= self.pos <= self.cmds@.len()
        &&& vertex_within(self.vertex, 32768 + 128 * self.pos)
    }

    /// What is left to parse.
    pub closed spec fn state(&self) -> ParseState {
        ParseState {
            fifo: self.cmds@.subrange(self.fifo_start as int, self.fifo_end as int),
            buf: self.cmds@.subrange(self.pos as int, self.cmds@.len() as int),
            vertex: self.vertex,
            done: self.done,
        }
    }

    pub fn new(cmds: &'a [u8]) -> (p: CmdParser<'a>)
        ensures
            p.wf(),
            p.state() == initial_state(cmds@),
    {
        let p = CmdParser { cmds, fifo_start: 0, fifo_end: 0, pos: 0, vertex: (0, 0, 0), done: false };
        assert(p.state().fifo =~= Seq::<u8>::empty());
        assert(p.state().buf =~= cmds@);
        p
    }

    /// The next command, `None` once the commands have run out or after an
    /// error.
    pub fn next(&mut self) -> (r: Option<Result<GpuCmd, ErrorMsg>>)
        requires
            old(self).wf(),
        ensures
            final(self).wf(),
            (final(self).state(), result_view(r)) == step(old(self).state()),
    {
        let ghost st = self.state();
        if self.done {
            return None;
        }
        // Fill up the opcode FIFO if it has run out.
        if self.fifo_start == self.fifo_end {
            if self.pos == self.cmds.len() {
                // Finished successfully.
                self.done = true;
                return None;
            }
            if self.cmds.len() - self.pos < 4 {
                self.done = true;
                return Some(Err(ErrorMsg { msg: String::from_str("GPU has too few opcodes") }));
            }
            self.fifo_start = self.pos;
            self.fifo_end = self.pos + 4;
            self.pos = self.pos + 4;
            assert(self.cmds@.subrange(self.fifo_start as int, self.fifo_end as int) =~= st.buf.take(4));
            assert(self.cmds@.subrange(self.pos as int, self.cmds@.len() as int) =~= st.buf.skip(4));
        }
        let ghost group = self.cmds@.subrange(self.fifo_start as int, self.fifo_end as int);
        let ghost rest = self.cmds@.subrange(self.pos as int, self.cmds@.len() as int);
        let opcode = self.cmds[self.fifo_start];
        self.fifo_start += 1;
        assert(self.cmds@.subrange(self.fifo_start as int, self.fifo_end as int) =~= group.skip(1));

        let num_params = match num_params(opcode) {
            Ok(count) => count,
            Err(e) => {
                self.done = true;
                return Some(Err(e));
            },
        };
        let num_param_bytes = 4 * num_params;
        if self.cmds.len() - self.pos < num_param_bytes {
            self.done = true;
            return Some(Err(ErrorMsg { msg: String::from_str("buffer too short for GPU opcode parameters") }));
        }
        let params = &self.cmds[self.pos..self.pos + num_param_bytes];
        assert(params@ =~= rest.take(4 * num_params as int));
        self.pos += num_param_bytes;
        assert(self.cmds@.subrange(self.pos as int, self.cmds@.len() as int)
            =~= rest.skip(4 * num_params as int));
        let (vertex, r) = parse(self.vertex, opcode, params);
        proof {
            lemma_parse_vertex_bound(self.vertex, opcode, params@, 32768 + 128 * (self.pos - num_param_bytes));
        }
        self.vertex = vertex;
        match r {
            Ok(cmd) => Some(Ok(cmd)),
            Err(e) => {
                self.done = true;
                Some(Err(e))
            },
        }
    }
}

/// A vertex that starts within `b` stays within `b + 512` (and a vertex that
/// is set outright lies within `32768`).
pub proof fn lemma_parse_vertex_bound(vertex: (i128, i128, i128), opcode: u8, params: Seq<u8>, b: int)
    requires
        b >= 32768,
        vertex_within(vertex, b),
        spec_num_params(opcode) is Some,
        params.len() == 4 * spec_num_params(opcode).unwrap(),
        b + 512 <= i128::MAX,
    ensures
        vertex_within(spec_parse(vertex, opcode, params).0, b + 512),
        opcode != 0x28 ==> vertex_within(spec_parse(vertex, opcode, params).0, b),
{
    lemma_signed_field_bounds(param(params, 0));
    if opcode == 0x23 {
        lemma_signed_field_bounds(param(params, 1));
    }
}

/// The signed fields the commands use lie within their ranges.
proof fn lemma_signed_field_bounds(x: nat)
    ensures
        forall|lo: nat| #![trigger signed_field(x, lo, lo + 16)]
            -32768 <= signed_field(x, lo, lo + 16) < 32768,
        forall|lo: nat| #![trigger signed_field(x, lo, lo + 10)]
            -512 <= signed_field(x, lo, lo + 10) < 512,
{
    lemma2_to64();
    assert forall|lo: nat| #![trigger signed_field(x, lo, lo + 16)]
        -32768 <= signed_field(x, lo, lo + 16) < 32768 by {
        lemma_pow2_pos(lo);
        vstd::arithmetic::div_mod::lemma_mod_bound((x / pow2(lo)) as int, 65536);
    }
    assert forall|lo: nat| #![trigger signed_field(x, lo, lo + 10)]
        -512 <= signed_field(x, lo, lo + 10) < 512 by {
        lemma_pow2_pos(lo);
        vstd::arithmetic::div_mod::lemma_mod_bound((x / pow2(lo)) as int, 1024);
    }
}

/// Bits `lo..hi` of `x` read as a signed number, for 10- and 16-bit fields.
fn signed_bits(x: u32, lo: u32, hi: u32) -> (r: i32)
    requires
        lo < hi <= 32,
        hi - lo == 10 || hi - lo == 16,
    ensures
        r == signed_field(x as nat, lo as nat, hi as nat),
{
    let v = bits_u32(x, lo, hi);
    proof {
        lemma2_to64();
        lemma_pow2_pos(lo as nat);
        lemma_pow2_pos((hi - lo) as nat);
        vstd::arithmetic::div_mod::lemma_mod_bound(
            (x as nat / pow2(lo as nat)) as int, pow2((hi - lo) as nat) as int);
    }
    if hi - lo == 10 {
        if v >= 512 { v as i32 - 1024 } else { v as i32 }
    } else {
        if v >= 32768 { v as i32 - 65536 } else { v as i32 }
    }
}

/// A full 32-bit word read as a signed number.
fn signed_word(x: u32) -> (r: i32)
    ensures
        r == sext(x as nat, 32),
{
    proof {
        lemma2_to64();
    }
    if x >= 0x8000_0000 {
        ((x - 0x8000_0000) as i32) + i32::MIN
    } else {
        x as i32
    }
}

/// The `i`th parameter word of `params`.
fn param_word(params: &[u8], i: usize) -> (w: u32)
    requires
        4 * i + 4 <= params@.len(),
    ensures
        w as nat == param(params@, i as int),
{
    let cur = Cur::from_buf_pos(params, 0);
    match cur.nth_u32(i) {
        Ok(w) => w,
        Err(_) => 0,
    }
}

fn parse(vertex: (i128, i128, i128), opcode: u8, params: &[u8])
    -> (r: ((i128, i128, i128), Result<GpuCmd, ErrorMsg>))
    requires
        spec_num_params(opcode) is Some,
        params@.len() == 4 * spec_num_params(opcode).unwrap(),
        vertex_within(vertex, 0x1_0000_0000_0000_0000_0000_0000),
    ensures
        ({
            let (v, c) = spec_parse(vertex, opcode, params@);
            &&& r.0 == v
            &&& match r.1 {
                Ok(cmd) => c == Ok::<GpuCmd, Seq<char>>(cmd),
                Err(e) => c == Err::<GpuCmd, Seq<char>>(e.msg@),
            }
        }),
{
    proof {
        lemma2_to64();
    }
    match opcode {
        // NOP
        0x00 => (vertex, Ok(GpuCmd::Nop)),
        // MTX_RESTORE - Restore Current Matrix from Stack
        0x14 => {
            let p = param_word(params, 0);
            assert(p & 31 == p % 32) by (bit_vector);
            (vertex, Ok(GpuCmd::Restore { idx: p & 31 }))
        },
        // MTX_SCALE - Multiply Current Matrix by Scale Matrix
        0x1b => {
            let sx = signed_word(param_word(params, 0));
            let sy = signed_word(param_word(params, 1));
            let sz = signed_word(param_word(params, 2));
            (vertex, Ok(GpuCmd::Scale { scale: (sx, sy, sz) }))
        },
        // BEGIN_VTXS - Start of Vertex List
        0x40 => {
            let p = param_word(params, 0);
            assert(p & 3 == p % 4) by (bit_vector);
            (vertex, Ok(GpuCmd::Begin { prim_type: p & 3 }))
        },
        // END_VTXS - End of Vertex List
        0x41 => (vertex, Ok(GpuCmd::End)),
        // VTX_16 - Set Vertex XYZ Coordinates
        0x23 => {
            let p0 = param_word(params, 0);
            let p1 = param_word(params, 1);
            let x = signed_bits(p0, 0, 16) as i128;
            let y = signed_bits(p0, 16, 32) as i128;
            let z = signed_bits(p1, 0, 16) as i128;
            let position = (x, y, z);
            (position, Ok(GpuCmd::Vertex { position }))
        },
        // VTX_10 - Set Vertex XYZ Coordinates
        0x24 => {
            let p = param_word(params, 0);
            proof {
                lemma_signed_field_bounds(p as nat);
            }
            let x = signed_bits(p, 0, 10) as i128 * 64;
            let y = signed_bits(p, 10, 20) as i128 * 64;
            let z = signed_bits(p, 20, 30) as i128 * 64;
            let position = (x, y, z);
            (position, Ok(GpuCmd::Vertex { position }))
        },
        // VTX_XY - Set Vertex XY Coordinates
        0x25 => {
            let p = param_word(params, 0);
            let x = signed_bits(p, 0, 16) as i128;
            let y = signed_bits(p, 16, 32) as i128;
            let position = (x, y, vertex.2);
            (position, Ok(GpuCmd::Vertex { position }))
        },
        // VTX_XZ - Set Vertex XZ Coordinates
        0x26 => {
            let p = param_word(params, 0);
            let x = signed_bits(p, 0, 16) as i128;
            let z = signed_bits(p, 16, 32) as i128;
            let position = (x, vertex.1, z);
            (position, Ok(GpuCmd::Vertex { position }))
        },
        // VTX_YZ - Set Vertex YZ Coordinates
        0x27 => {
            let p = param_word(params, 0);
            let y = signed_bits(p, 0, 16) as i128;
            let z = signed_bits(p, 16, 32) as i128;
            let position = (vertex.0, y, z);
            (position, Ok(GpuCmd::Vertex { position }))
        },
        // VTX_DIFF - Set Relative Vertex Coordinates
        0x28 => {
            // Differences are 10-bit numbers with 9 fraction bits, scaled by
            // 1/2^3 to put them in the same 1.3.12 format as the other VTX
            // commands.
            let p = param_word(params, 0);
            proof {
                lemma_signed_field_bounds(p as nat);
            }
            let dx = signed_bits(p, 0, 10) as i128;
            let dy = signed_bits(p, 10, 20) as i128;
            let dz = signed_bits(p, 20, 30) as i128;
            let position = (vertex.0 + dx, vertex.1 + dy, vertex.2 + dz);
            (position, Ok(GpuCmd::Vertex { position }))
        },
        // TEXCOORD - Set Texture Coordinates
        0x22 => {
            let p = param_word(params, 0);
            let s = signed_bits(p, 0, 16);
            let t = signed_bits(p, 16, 32);
            (vertex, Ok(GpuCmd::TexCoord { texcoord: (s, t) }))
        },
        // COLOR - Set Vertex Color
        0x20 => {
            let p = param_word(params, 0);
            proof {
                lemma_pow2_pos(5);
                vstd::arithmetic::div_mod::lemma_mod_bound(p as int, 32);
                lemma_pow2_pos(10);
                vstd::arithmetic::div_mod::lemma_mod_bound((p as nat / pow2(5)) as int, 32);
                vstd::arithmetic::div_mod::lemma_mod_bound((p as nat / pow2(10)) as int, 32);
            }
            let r = bits_u32(p, 0, 5) as u8;
            let g = bits_u32(p, 5, 10) as u8;
            let b = bits_u32(p, 10, 15) as u8;
            (vertex, Ok(GpuCmd::Color { color: (r, g, b) }))
        },
        // NORMAL - Set Normal Vector
        0x21 => {
            let p = param_word(params, 0);
            let x = signed_bits(p, 0, 10);
            let y = signed_bits(p, 10, 20);
            let z = signed_bits(p, 20, 30);
            (vertex, Ok(GpuCmd::Normal { normal: (x, y, z) }))
        },
        _ => {
            let mut msg = String::from_str("unimplented GPU ocpode: ");
            push_hex(&mut msg, opcode as u64);
            (vertex, Err(ErrorMsg { msg }))
        },
    }
}

/// Number of u32 parameters `opcode` takes.
fn num_params(opcode: u8) -> (r: Result<usize, ErrorMsg>)
    ensures
        match r {
            Ok(n) => spec_num_params(opcode) == Some(n as nat),
            Err(e) => spec_num_params(opcode) is None && e.msg@ == unknown_msg(opcode),
        },
{
    match opcode {
        0x00 | 0x11 | 0x15 | 0x41 => Ok(0),
        0x10 | 0x12 | 0x13 | 0x14 => Ok(1),
        0x16 | 0x18 => Ok(16),
        0x17 | 0x19 => Ok(12),
        0x1a => Ok(9),
        0x1b | 0x1c => Ok(3),
        0x23 => Ok(2),
        0x20 | 0x21 | 0x22 | 0x24 | 0x25 | 0x26 | 0x27 | 0x28 | 0x29 | 0x2a | 0x2b
        | 0x30 | 0x31 | 0x32 | 0x33 | 0x34 | 0x40 => Ok(1),
        _ => {
            let mut msg = String::from_str("unknown GPU opcode: ");
            push_hex(&mut msg, opcode as u64);
            Err(ErrorMsg { msg })
        },
    }
}

/// Once `next` has returned `None` or an error, it returns `None` forever
/// and the state no longer changes.
pub proof fn lemma_stops_after_end_or_error(st: ParseState)
    ensures
        ({
            let (st1, r) = step(st);
            (r is None || r matches Some(Err(_))) ==> st1.done && step(st1) == (st1, None::<Result<GpuCmd, Seq<char>>>)
        }),
{
}

/// Every command handed out consumes input, so the commands of a buffer run
/// out after finitely many calls.
pub proof fn lemma_step_consumes_input(st: ParseState)
    requires
        st.fifo.len() <= 4,
    ensures
        ({
            let (st1, r) = step(st);
            &&& st1.fifo.len() <= 4
            &&& r matches Some(Ok(_)) ==> st1.fifo.len() + st1.buf.len() < st.fifo.len() + st.buf.len()
        }),
{
}

/// The position a vertex command hands out is the one the next relative
/// vertex command starts from; other commands leave it alone.
pub proof fn lemma_vertex_is_remembered(st: ParseState)
    ensures
        ({
            let (st1, r) = step(st);
            &&& r matches Some(Ok(GpuCmd::Vertex { position })) ==> st1.vertex == position
            &&& (r matches Some(Ok(c)) && !(c is Vertex)) ==> st1.vertex == st.vertex
        }),
{
}

/// BEGIN_VTXS (`0x40`) begins a group of the primitive type in bits 0..2 of
/// its parameter word, that is the low two bits of the parameter's first
/// byte: 0 separate triangles, 1 separate quads, 2 a triangle strip, 3 a
/// quad strip. The last vertex is kept.
pub proof fn lemma_begin_prim_type(vertex: (i128, i128, i128), params: Seq<u8>)
    requires
        params.len() >= 4,
    ensures
        spec_parse(vertex, 0x40, params)
            == (vertex, Ok::<GpuCmd, Seq<char>>(GpuCmd::Begin { prim_type: (params[0] & 3u8) as u32 })),
        (params[0] & 3u8) as nat == bit_field(param(params, 0), 0, 2),
{
    let b0 = params[0];
    let w = le_u32(params, 0) as nat;
    assert(b0 & 3u8 == b0 % 4) by (bit_vector);
    assert(w == params[0] + 256 * params[1] + 65536 * params[2] + 16777216 * params[3]);
    assert(w % 4 == b0 % 4) by (nonlinear_arith)
        requires w == b0 + 256 * params[1] + 65536 * params[2] + 16777216 * params[3];
    lemma2_to64();
    assert(bit_field(w, 0, 2) == (w / 1) % 4);
}

/// When the parser meets BEGIN_VTXS with its parameter in the buffer, it
/// hands out a `Begin` of the primitive type in the low two bits of the
/// parameter's first byte, and goes on after that parameter word.
pub proof fn lemma_step_begin(st: ParseState)
    requires
        !st.done,
        st.fifo.len() > 0,
        st.fifo[0] == 0x40,
        st.buf.len() >= 4,
    ensures
        step(st).1 == Some(Ok::<GpuCmd, Seq<char>>(GpuCmd::Begin { prim_type: (st.buf[0] & 3u8) as u32 })),
        step(st).0.buf == st.buf.skip(4),
        step(st).0.fifo == st.fifo.skip(1),
        !step(st).0.done,
{
    let params = st.buf.take(4);
    lemma_begin_prim_type(st.vertex, params);
    assert(params[0] == st.buf[0]);
}

/// MTX_RESTORE (`0x14`) restores the matrix slot in the low five bits of its
/// parameter; END_VTXS (`0x41`) ends the group and NOP (`0x00`) does
/// nothing, both keeping the last vertex; COLOR (`0x20`) sets the 5-bit red,
/// green and blue intensities in bits 0..5, 5..10 and 10..15 of its
/// parameter.
pub proof fn lemma_simple_commands(vertex: (i128, i128, i128), params: Seq<u8>)
    requires
        params.len() >= 4,
    ensures
        spec_parse(vertex, 0x14, params)
            == (vertex, Ok::<GpuCmd, Seq<char>>(GpuCmd::Restore { idx: (params[0] & 31u8) as u32 })),
        spec_parse(vertex, 0x41, params) == (vertex, Ok::<GpuCmd, Seq<char>>(GpuCmd::End)),
        spec_parse(vertex, 0x00, params) == (vertex, Ok::<GpuCmd, Seq<char>>(GpuCmd::Nop)),
        spec_parse(vertex, 0x20, params) == (vertex, Ok::<GpuCmd, Seq<char>>(GpuCmd::Color {
            color: (
                params[0] & 31u8,
                ((params[0] >> 5u8) | ((params[1] & 3u8) << 3u8)) as u8,
                (params[1] >> 2u8) & 31u8,
            ),
        })),
{
    let b0 = params[0];
    let b1 = params[1];
    let w = le_u32(params, 0) as nat;
    let rest = params[2] + 256 * params[3];
    assert(w == b0 + 256 * b1 + 65536 * rest);
    assert(b0 & 31u8 == b0 % 32) by (bit_vector);
    assert((b0 >> 5u8) | ((b1 & 3u8) << 3u8) == b0 / 32 + (b1 % 4) * 8) by (bit_vector);
    assert((b1 >> 2u8) & 31u8 == (b1 / 4) % 32) by (bit_vector);
    lemma2_to64();
    assert(w % 32 == b0 % 32 && (w / 32) % 32 == b0 / 32 + (b1 % 4) * 8 && (w / 1024) % 32 == (b1 / 4) % 32)
        by (nonlinear_arith)
        requires w == b0 + 256 * b1 + 65536 * rest, 0 <= b0 < 256, 0 <= b1 < 256, rest >= 0;
    assert(bit_field(w, 0, 5) == w % 32);
    assert(bit_field(w, 5, 10) == (w / 32) % 32);
    assert(bit_field(w, 10, 15) == (w / 1024) % 32);
}

/// The signed 16-bit little-endian number in bytes `lo`, `hi`.
pub open spec fn le_i16(lo: u8, hi: u8) -> int {
    lo + 256 * hi - if hi >= 128 { 65536int } else { 0int }
}

/// VTX_16 (`0x23`) sends a vertex at x, y, z given as signed 16-bit
/// little-endian numbers in its parameter bytes 0..2, 2..4 and 4..6 (units
/// of 2^-12); the vertex becomes the last one.
pub proof fn lemma_vertex16(vertex: (i128, i128, i128), params: Seq<u8>)
    requires
        params.len() >= 8,
    ensures
        ({
            let v = (
                le_i16(params[0], params[1]) as i128,
                le_i16(params[2], params[3]) as i128,
                le_i16(params[4], params[5]) as i128,
            );
            spec_parse(vertex, 0x23, params) == (v, Ok::<GpuCmd, Seq<char>>(GpuCmd::Vertex { position: v }))
        }),
{
    lemma2_to64();
    let w0 = param(params, 0);
    let w1 = param(params, 1);
    let (b0, b1, b2, b3, b4, b5) = (params[0] as int, params[1] as int, params[2] as int, params[3] as int,
        params[4] as int, params[5] as int);
    let (b6, b7) = (params[6] as int, params[7] as int);
    assert(w0 == b0 + 256 * b1 + 65536 * b2 + 16777216 * b3);
    assert(w1 == b4 + 256 * b5 + 65536 * b6 + 16777216 * b7);
    assert(w0 % 65536 == b0 + 256 * b1 && (w0 / 65536) % 65536 == b2 + 256 * b3) by (nonlinear_arith)
        requires w0 == b0 + 256 * b1 + 65536 * b2 + 16777216 * b3, 0 <= b0 < 256, 0 <= b1 < 256,
            0 <= b2 < 256, 0 <= b3 < 256;
    assert(w1 % 65536 == b4 + 256 * b5) by (nonlinear_arith)
        requires w1 == b4 + 256 * b5 + 65536 * b6 + 16777216 * b7, 0 <= b4 < 256, 0 <= b5 < 256,
            0 <= b6 < 256, 0 <= b7 < 256;
    assert(bit_field(w0, 0, 16) == w0 % 65536);
    assert(bit_field(w0, 16, 32) == (w0 / 65536) % 65536);
    assert(bit_field(w1, 0, 16) == w1 % 65536);
    assert forall|lo: int, hi: int| 0 <= lo < 256 && 0 <= hi < 256 implies
        (#[trigger] sext((lo + 256 * hi) as nat, 16)) == lo + 256 * hi - if hi >= 128 { 65536int } else { 0int } by {
        assert(pow2(15) == 32768 && pow2(16) == 65536);
    }
}

} // verus!
