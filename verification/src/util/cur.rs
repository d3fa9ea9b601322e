//! A cursor over a byte buffer, reading little-endian integers.

use vstd::prelude::*;

verus! {

/// The little-endian 16-bit integer at `s[i..i+2]`.
pub open spec fn le_u16(s: Seq<u8>, i: int) -> u16 {
    (s[i] + 256 * s[i + 1]) as u16
}

/// The little-endian 32-bit integer at `s[i..i+4]`.
pub open spec fn le_u32(s: Seq<u8>, i: int) -> u32 {
    (s[i] + 256 * s[i + 1] + 65536 * s[i + 2] + 16777216 * s[i + 3]) as u32
}

/// Reading past the end of the buffer.
#[derive(Debug)]
pub struct Error;

/// A position in a borrowed byte buffer. The position may lie past the end,
/// in which case every read fails.
#[derive(Copy, Clone)]
pub struct Cur<'a> {
    buf: &'a [u8],
    pos: usize,
}

impl<'a> Cur<'a> {
    /// The whole buffer the cursor points into.
    pub closed spec fn data(self) -> Seq<u8> {
        self.buf@
    }

    /// The cursor's offset from the start of the buffer.
    pub closed spec fn position(self) -> nat {
        self.pos as nat
    }

    pub fn new(buf: &'a [u8]) -> (c: Cur<'a>)
        ensures
            c.data() == buf@,
            c.position() == 0,
    {
        Cur { buf, pos: 0 }
    }

    pub fn from_buf_pos(buf: &'a [u8], pos: usize) -> (c: Cur<'a>)
        ensures
            c.data() == buf@,
            c.position() == pos,
    {
        Cur { buf, pos }
    }

    pub fn pos(&self) -> (p: usize)
        ensures
            p == self.position(),
    {
        self.pos
    }

    /// Number of bytes from the cursor to the end (0 if past the end).
    pub fn bytes_left(&self) -> (n: usize)
        ensures
            n == if self.position() <= self.data().len() {
                self.data().len() - self.position()
            } else {
                0
            },
    {
        if self.pos <= self.buf.len() {
            self.buf.len() - self.pos
        } else {
            0
        }
    }

    /// The bytes from the cursor to the end of the buffer.
    pub fn slice_from_cur_to_end(&self) -> (s: &'a [u8])
        ensures
            s@ == if self.position() <= self.data().len() {
                self.data().subrange(self.position() as int, self.data().len() as int)
            } else {
                Seq::<u8>::empty()
            },
    {
        if self.pos <= self.buf.len() {
            &self.buf[self.pos..self.buf.len()]
        } else {
            &self.buf[0..0]
        }
    }

    /// Moves the cursor `n` bytes forward.
    pub fn jump_forward(&mut self, n: usize)
        requires
            old(self).position() + n <= usize::MAX,
        ensures
            final(self).data() == old(self).data(),
            final(self).position() == old(self).position() + n,
    {
        self.pos = self.pos + n;
    }

    /// The byte at the cursor, without moving.
    pub fn peek_u8(&self) -> (r: Result<u8, Error>)
        ensures
            r is Ok <==> self.position() < self.data().len(),
            r matches Ok(b) ==> b == self.data()[self.position() as int],
    {
        if self.pos < self.buf.len() {
            Ok(self.buf[self.pos])
        } else {
            Err(Error)
        }
    }

    /// Reads a byte and moves past it.
    pub fn next_u8(&mut self) -> (r: Result<u8, Error>)
        ensures
            final(self).data() == old(self).data(),
            r is Ok <==> old(self).position() < old(self).data().len(),
            r matches Ok(b) ==> b == old(self).data()[old(self).position() as int]
                && final(self).position() == old(self).position() + 1,
            r is Err ==> final(self).position() == old(self).position(),
    {
        if self.pos < self.buf.len() {
            let b = self.buf[self.pos];
            self.pos = self.pos + 1;
            Ok(b)
        } else {
            Err(Error)
        }
    }

    /// Reads a little-endian 16-bit integer and moves past it.
    pub fn next_u16(&mut self) -> (r: Result<u16, Error>)
        ensures
            final(self).data() == old(self).data(),
            r is Ok <==> old(self).position() + 2 <= old(self).data().len(),
            r matches Ok(x) ==> x == le_u16(old(self).data(), old(self).position() as int)
                && final(self).position() == old(self).position() + 2,
            r is Err ==> final(self).position() == old(self).position(),
    {
        if self.pos < self.buf.len() && self.buf.len() - self.pos >= 2 {
            let b0 = self.buf[self.pos] as u16;
            let b1 = self.buf[self.pos + 1] as u16;
            self.pos = self.pos + 2;
            Ok(b0 + 256 * b1)
        } else {
            Err(Error)
        }
    }

    /// Reads a little-endian 32-bit integer and moves past it.
    pub fn next_u32(&mut self) -> (r: Result<u32, Error>)
        ensures
            final(self).data() == old(self).data(),
            r is Ok <==> old(self).position() + 4 <= old(self).data().len(),
            r matches Ok(x) ==> x == le_u32(old(self).data(), old(self).position() as int)
                && final(self).position() == old(self).position() + 4,
            r is Err ==> final(self).position() == old(self).position(),
    {
        if self.pos < self.buf.len() && self.buf.len() - self.pos >= 4 {
            let b0 = self.buf[self.pos] as u32;
            let b1 = self.buf[self.pos + 1] as u32;
            let b2 = self.buf[self.pos + 2] as u32;
            let b3 = self.buf[self.pos + 3] as u32;
            self.pos = self.pos + 4;
            Ok(b0 + 256 * b1 + 65536 * b2 + 16777216 * b3)
        } else {
            Err(Error)
        }
    }

    /// The `n`th little-endian 16-bit integer after the cursor (at byte
    /// offset `2 * n`), without moving.
    pub fn nth_u16(&self, n: usize) -> (r: Result<u16, Error>)
        ensures
            r is Ok <==> self.position() + 2 * n + 2 <= self.data().len(),
            r matches Ok(x) ==> x == le_u16(self.data(), self.position() + 2 * n),
    {
        if self.pos <= self.buf.len() && n <= (self.buf.len() - self.pos) / 2
            && self.buf.len() - self.pos - 2 * n >= 2
        {
            let i = self.pos + 2 * n;
            let b0 = self.buf[i] as u16;
            let b1 = self.buf[i + 1] as u16;
            Ok(b0 + 256 * b1)
        } else {
            Err(Error)
        }
    }

    /// The `n`th little-endian 32-bit integer after the cursor (at byte
    /// offset `4 * n`), without moving.
    pub fn nth_u32(&self, n: usize) -> (r: Result<u32, Error>)
        ensures
            r is Ok <==> self.position() + 4 * n + 4 <= self.data().len(),
            r matches Ok(x) ==> x == le_u32(self.data(), self.position() + 4 * n),
    {
        if self.pos <= self.buf.len() && n <= (self.buf.len() - self.pos) / 4
            && self.buf.len() - self.pos - 4 * n >= 4
        {
            let i = self.pos + 4 * n;
            let b0 = self.buf[i] as u32;
            let b1 = self.buf[i + 1] as u32;
            let b2 = self.buf[i + 2] as u32;
            let b3 = self.buf[i + 3] as u32;
            Ok(b0 + 256 * b1 + 65536 * b2 + 16777216 * b3)
        } else {
            Err(Error)
        }
    }

    /// The next `n` bytes, moving past them.
    pub fn next_n_u8s(&mut self, n: usize) -> (r: Result<&'a [u8], Error>)
        ensures
            final(self).data() == old(self).data(),
            r is Ok <==> old(self).position() + n <= old(self).data().len(),
            r matches Ok(b) ==> b@ == old(self).data().subrange(
                old(self).position() as int, old(self).position() + n)
                && final(self).position() == old(self).position() + n,
            r is Err ==> final(self).position() == old(self).position(),
    {
        if self.pos <= self.buf.len() && n <= self.buf.len() - self.pos {
            let s = &self.buf[self.pos..self.pos + n];
            self.pos = self.pos + n;
            Ok(s)
        } else {
            Err(Error)
        }
    }
}

} // verus!
