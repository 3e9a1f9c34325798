//! A sequential, bounds-checked, big-endian cursor over an immutable byte
//! buffer. Every read advances the position by exactly the number of bytes
//! consumed; a read that would pass the end of the buffer fails without
//! advancing and reports the offset it attempted.

use vstd::prelude::*;

use crate::error::Error;

verus! {

/// The big-endian 16-bit value stored at `pos`.
pub open spec fn u16_be(b: Seq<u8>, pos: int) -> u16
    recommends
        0 <= pos,
        pos + 2 <= b.len(),
{
    ((b[pos] as int) * 0x100 + (b[pos + 1] as int)) as u16
}

/// The big-endian 32-bit value stored at `pos`.
pub open spec fn u32_be(b: Seq<u8>, pos: int) -> u32
    recommends
        0 <= pos,
        pos + 4 <= b.len(),
{
    ((b[pos] as int) * 0x1000000 + (b[pos + 1] as int) * 0x10000 + (b[pos + 2] as int) * 0x100 + (b[
        pos + 3
    ] as int)) as u32
}

/// Addition clamped to `usize`; the offset reported by a failed read is
/// computed this way so that it is well defined for every argument.
pub open spec fn sat_offset(a: int, b: int) -> usize
    recommends
        0 <= a,
        0 <= b,
{
    if a + b > usize::MAX {
        usize::MAX
    } else {
        (a + b) as usize
    }
}

/// Outcome of reading one byte at `pos`: the value and the new position on
/// success, the bounds error and the unchanged position otherwise.
pub open spec fn spec_read_u1(b: Seq<u8>, pos: int) -> (Result<u8, Error>, int) {
    if pos + 1 <= b.len() {
        (Ok(b[pos]), pos + 1)
    } else {
        (Err(Error::OutOfBounds(pos as usize)), pos)
    }
}

/// Outcome of reading a big-endian 16-bit value at `pos`.
pub open spec fn spec_read_u2(b: Seq<u8>, pos: int) -> (Result<u16, Error>, int) {
    if pos + 2 <= b.len() {
        (Ok(u16_be(b, pos)), pos + 2)
    } else {
        (Err(Error::OutOfBounds(sat_offset(pos, 1))), pos)
    }
}

/// Outcome of reading a big-endian 32-bit value at `pos`.
pub open spec fn spec_read_u4(b: Seq<u8>, pos: int) -> (Result<u32, Error>, int) {
    if pos + 4 <= b.len() {
        (Ok(u32_be(b, pos)), pos + 4)
    } else {
        (Err(Error::OutOfBounds(sat_offset(pos, 3))), pos)
    }
}

/// Outcome of reading `len` bytes at `pos`. A zero-length read from a
/// position inside the buffer always succeeds with the empty sequence.
pub open spec fn spec_read_slice(b: Seq<u8>, pos: int, len: int) -> (Result<Seq<u8>, Error>, int) {
    if pos + len <= b.len() {
        (Ok(b.subrange(pos, pos + len)), pos + len)
    } else {
        (
            Err(
                Error::OutOfBounds(
                    if len >= 1 {
                        sat_offset(pos, len - 1)
                    } else {
                        pos as usize
                    },
                ),
            ),
            pos,
        )
    }
}

/// Outcome of advancing `len` bytes at `pos` without reading.
pub open spec fn spec_skip(b: Seq<u8>, pos: int, len: int) -> (Result<usize, Error>, int) {
    if pos + len <= b.len() {
        (Ok(len as usize), pos + len)
    } else {
        (Err(Error::OutOfBounds(sat_offset(pos, len))), pos)
    }
}

/// Value of peeking one byte at `pos`; the position never moves.
pub open spec fn spec_peek_u1(b: Seq<u8>, pos: int) -> Result<u8, Error> {
    spec_read_u1(b, pos).0
}

/// Value of peeking a big-endian 16-bit value at `pos`.
pub open spec fn spec_peek_u2(b: Seq<u8>, pos: int) -> Result<u16, Error> {
    spec_read_u2(b, pos).0
}

/// Value of peeking a big-endian 32-bit value at `pos`.
pub open spec fn spec_peek_u4(b: Seq<u8>, pos: int) -> Result<u32, Error> {
    spec_read_u4(b, pos).0
}

/// Value of peeking the whole remainder of the buffer that starts `off`
/// bytes past `pos`; there must be at least one byte there.
pub open spec fn spec_peek_slice(b: Seq<u8>, pos: int, off: int) -> Result<Seq<u8>, Error> {
    if pos + off < b.len() {
        Ok(b.subrange(pos + off, b.len() as int))
    } else {
        Err(Error::OutOfBounds(sat_offset(pos, off)))
    }
}

/// Saturating addition on `usize`, matching [`sat_offset`].
fn sat_add(a: usize, b: usize) -> (r: usize)
    ensures
        r == sat_offset(a as int, b as int),
{
    if a <= usize::MAX - b {
        a + b
    } else {
        usize::MAX
    }
}

/// A cursor over a borrowed byte buffer: the buffer itself never changes,
/// only the position moves forward.
pub struct PoSlice<'a> {
    bytes: &'a [u8],
    pos: usize,
}

impl<'a> PoSlice<'a> {
    /// The underlying buffer.
    pub closed spec fn bytes_view(&self) -> Seq<u8> {
        self.bytes@
    }

    /// The current position.
    pub closed spec fn spec_pos(&self) -> int {
        self.pos as int
    }

    /// The position never lies past the end of the buffer.
    pub open spec fn wf(&self) -> bool {
        0 <= self.spec_pos() <= self.bytes_view().len()
    }

    /// A fresh cursor at the start of `bytes`.
    pub fn new(bytes: &'a [u8]) -> (r: Self)
        ensures
            r.bytes_view() == bytes@,
            r.spec_pos() == 0,
            r.wf(),
    {
        PoSlice { bytes, pos: 0 }
    }

    /// Consumes one byte.
    pub fn read_u1(&mut self) -> (r: Result<u8, Error>)
        requires
            old(self).wf(),
        ensures
            final(self).wf(),
            final(self).bytes_view() == old(self).bytes_view(),
            (r, final(self).spec_pos()) == spec_read_u1(old(self).bytes_view(), old(self).spec_pos()),
    {
        if self.pos < self.bytes.len() {
            let v = self.bytes[self.pos];
            self.pos = self.pos + 1;
            Ok(v)
        } else {
            Err(Error::OutOfBounds(self.pos))
        }
    }

    /// Consumes two bytes as one big-endian 16-bit value.
    pub fn read_u2(&mut self) -> (r: Result<u16, Error>)
        requires
            old(self).wf(),
        ensures
            final(self).wf(),
            final(self).bytes_view() == old(self).bytes_view(),
            (r, final(self).spec_pos()) == spec_read_u2(old(self).bytes_view(), old(self).spec_pos()),
    {
        if self.bytes.len() - self.pos >= 2 {
            let hi = self.bytes[self.pos] as u16;
            let lo = self.bytes[self.pos + 1] as u16;
            self.pos = self.pos + 2;
            Ok(hi * 0x100 + lo)
        } else {
            Err(Error::OutOfBounds(sat_add(self.pos, 1)))
        }
    }

    /// Consumes four bytes as one big-endian 32-bit value.
    pub fn read_u4(&mut self) -> (r: Result<u32, Error>)
        requires
            old(self).wf(),
        ensures
            final(self).wf(),
            final(self).bytes_view() == old(self).bytes_view(),
            (r, final(self).spec_pos()) == spec_read_u4(old(self).bytes_view(), old(self).spec_pos()),
    {
        if self.bytes.len() - self.pos >= 4 {
            let b0 = self.bytes[self.pos] as u32;
            let b1 = self.bytes[self.pos + 1] as u32;
            let b2 = self.bytes[self.pos + 2] as u32;
            let b3 = self.bytes[self.pos + 3] as u32;
            self.pos = self.pos + 4;
            Ok(b0 * 0x1000000 + b1 * 0x10000 + b2 * 0x100 + b3)
        } else {
            Err(Error::OutOfBounds(sat_add(self.pos, 3)))
        }
    }

    /// Consumes `len` bytes and hands back a view into the buffer itself;
    /// nothing is copied.
    pub fn read_slice(&mut self, len: usize) -> (r: Result<&'a [u8], Error>)
        requires
            old(self).wf(),
        ensures
            final(self).wf(),
            final(self).bytes_view() == old(self).bytes_view(),
            ({
                let (sr, sp) = spec_read_slice(
                    old(self).bytes_view(),
                    old(self).spec_pos(),
                    len as int,
                );
                &&& final(self).spec_pos() == sp
                &&& match sr {
                    Ok(s) => r is Ok && r->Ok_0@ == s,
                    Err(e) => r == Err::<&'a [u8], Error>(e),
                }
            }),
    {
        if self.bytes.len() - self.pos >= len {
            let b: &'a [u8] = self.bytes;
            let s = vstd::slice::slice_subrange(b, self.pos, self.pos + len);
            self.pos = self.pos + len;
            Ok(s)
        } else {
            // the failing span is never empty here, since an empty span
            // from a well-formed position always fits
            Err(Error::OutOfBounds(sat_add(self.pos, len - 1)))
        }
    }

    /// Consumes `len` bytes into an owned vector.
    pub fn read_slice_vec(&mut self, len: usize) -> (r: Result<Vec<u8>, Error>)
        requires
            old(self).wf(),
        ensures
            final(self).wf(),
            final(self).bytes_view() == old(self).bytes_view(),
            ({
                let (sr, sp) = spec_read_slice(
                    old(self).bytes_view(),
                    old(self).spec_pos(),
                    len as int,
                );
                &&& final(self).spec_pos() == sp
                &&& match sr {
                    Ok(s) => r is Ok && r->Ok_0@ == s,
                    Err(e) => r == Err::<Vec<u8>, Error>(e),
                }
            }),
    {
        match self.read_slice(len) {
            Ok(s) => Ok(vstd::slice::slice_to_vec(s)),
            Err(e) => Err(e),
        }
    }

    /// Reads one byte without advancing.
    pub fn peek_u1(&self) -> (r: Result<u8, Error>)
        requires
            self.wf(),
        ensures
            r == spec_peek_u1(self.bytes_view(), self.spec_pos()),
    {
        if self.pos < self.bytes.len() {
            Ok(self.bytes[self.pos])
        } else {
            Err(Error::OutOfBounds(self.pos))
        }
    }

    /// Reads a big-endian 16-bit value without advancing.
    pub fn peek_u2(&self) -> (r: Result<u16, Error>)
        requires
            self.wf(),
        ensures
            r == spec_peek_u2(self.bytes_view(), self.spec_pos()),
    {
        if self.bytes.len() - self.pos >= 2 {
            let hi = self.bytes[self.pos] as u16;
            let lo = self.bytes[self.pos + 1] as u16;
            Ok(hi * 0x100 + lo)
        } else {
            Err(Error::OutOfBounds(sat_add(self.pos, 1)))
        }
    }

    /// Reads a big-endian 32-bit value without advancing.
    pub fn peek_u4(&self) -> (r: Result<u32, Error>)
        requires
            self.wf(),
        ensures
            r == spec_peek_u4(self.bytes_view(), self.spec_pos()),
    {
        if self.bytes.len() - self.pos >= 4 {
            let b0 = self.bytes[self.pos] as u32;
            let b1 = self.bytes[self.pos + 1] as u32;
            let b2 = self.bytes[self.pos + 2] as u32;
            let b3 = self.bytes[self.pos + 3] as u32;
            Ok(b0 * 0x1000000 + b1 * 0x10000 + b2 * 0x100 + b3)
        } else {
            Err(Error::OutOfBounds(sat_add(self.pos, 3)))
        }
    }

    /// Hands back everything from `off` bytes past the position to the end
    /// of the buffer, without advancing; there must be at least one byte.
    pub fn peek_slice(&self, off: usize) -> (r: Result<&'a [u8], Error>)
        requires
            self.wf(),
        ensures
            match spec_peek_slice(self.bytes_view(), self.spec_pos(), off as int) {
                Ok(s) => r is Ok && r->Ok_0@ == s,
                Err(e) => r == Err::<&'a [u8], Error>(e),
            },
    {
        if off < self.bytes.len() - self.pos {
            let b: &'a [u8] = self.bytes;
            Ok(vstd::slice::slice_subrange(b, self.pos + off, b.len()))
        } else {
            Err(Error::OutOfBounds(sat_add(self.pos, off)))
        }
    }

    /// Advances `len` bytes without reading them.
    pub fn skip(&mut self, len: usize) -> (r: Result<usize, Error>)
        requires
            old(self).wf(),
        ensures
            final(self).wf(),
            final(self).bytes_view() == old(self).bytes_view(),
            (r, final(self).spec_pos()) == spec_skip(
                old(self).bytes_view(),
                old(self).spec_pos(),
                len as int,
            ),
    {
        if self.bytes.len() - self.pos >= len {
            self.pos = self.pos + len;
            Ok(len)
        } else {
            Err(Error::OutOfBounds(sat_add(self.pos, len)))
        }
    }

    /// The current position.
    pub fn pos(&self) -> (r: usize)
        ensures
            r as int == self.spec_pos(),
    {
        self.pos
    }
}

} // verus!
