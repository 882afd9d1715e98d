//! A byte cursor: sequential little-endian reads and relative/absolute seeks
//! over an in-memory byte source.
use vstd::prelude::*;

use crate::DecodeError;

verus! {

/// The value of the two little-endian bytes of `s` starting at index `i`.
pub open spec fn le16_at(s: Seq<u8>, i: int) -> u16
    recommends
        0 <= i,
        i + 2 <= s.len(),
{
    (s[i] + 256 * s[i + 1]) as u16
}

/// The value of the four little-endian bytes of `s` starting at index `i`.
pub open spec fn le32_at(s: Seq<u8>, i: int) -> u32
    recommends
        0 <= i,
        i + 4 <= s.len(),
{
    (s[i] + 256 * s[i + 1] + 65536 * s[i + 2] + 16777216 * s[i + 3]) as u32
}

/// A position over an owned byte source. The position always stays within
/// `0 ..= data.len()`; reads advance it, seeks reposition it, and every
/// out-of-range request fails without moving it.
pub struct Cursor {
    pub data: Vec<u8>,
    pub pos: usize,
}

impl Cursor {
    /// The cursor invariant: the position never passes the end of the data.
    pub open spec fn wf(&self) -> bool {
        self.pos <= self.data@.len()
    }

    pub fn new(data: Vec<u8>) -> (c: Cursor)
        ensures
            c.data@ == data@,
            c.pos == 0,
            c.wf(),
    {
        Cursor { data, pos: 0 }
    }

    /// Reads one byte and advances; fails with `TruncatedInput` at the end.
    pub fn read_u8(&mut self) -> (r: Result<u8, DecodeError>)
        requires
            old(self).wf(),
        ensures
            final(self).wf(),
            final(self).data@ == old(self).data@,
            old(self).pos + 1 <= old(self).data@.len() ==> {
                &&& r == Ok::<u8, DecodeError>(old(self).data@[old(self).pos as int])
                &&& final(self).pos == old(self).pos + 1
            },
            old(self).pos + 1 > old(self).data@.len() ==> {
                &&& r == Err::<u8, DecodeError>(DecodeError::TruncatedInput)
                &&& final(self).pos == old(self).pos
            },
    {
        if self.pos < self.data.len() {
            let b = self.data[self.pos];
            self.pos = self.pos + 1;
            Ok(b)
        } else {
            Err(DecodeError::TruncatedInput)
        }
    }

    /// Reads a little-endian `u16` and advances; fails with `TruncatedInput`
    /// when fewer than two bytes remain.
    pub fn read_u16(&mut self) -> (r: Result<u16, DecodeError>)
        requires
            old(self).wf(),
        ensures
            final(self).wf(),
            final(self).data@ == old(self).data@,
            old(self).pos + 2 <= old(self).data@.len() ==> {
                &&& r == Ok::<u16, DecodeError>(le16_at(old(self).data@, old(self).pos as int))
                &&& final(self).pos == old(self).pos + 2
            },
            old(self).pos + 2 > old(self).data@.len() ==> {
                &&& r == Err::<u16, DecodeError>(DecodeError::TruncatedInput)
                &&& final(self).pos == old(self).pos
            },
    {
        if self.data.len() - self.pos >= 2 {
            let b0 = self.data[self.pos];
            let b1 = self.data[self.pos + 1];
            self.pos = self.pos + 2;
            Ok(b0 as u16 + 256 * (b1 as u16))
        } else {
            Err(DecodeError::TruncatedInput)
        }
    }

    /// Reads a little-endian `u32` and advances; fails with `TruncatedInput`
    /// when fewer than four bytes remain.
    pub fn read_u32(&mut self) -> (r: Result<u32, DecodeError>)
        requires
            old(self).wf(),
        ensures
            final(self).wf(),
            final(self).data@ == old(self).data@,
            old(self).pos + 4 <= old(self).data@.len() ==> {
                &&& r == Ok::<u32, DecodeError>(le32_at(old(self).data@, old(self).pos as int))
                &&& final(self).pos == old(self).pos + 4
            },
            old(self).pos + 4 > old(self).data@.len() ==> {
                &&& r == Err::<u32, DecodeError>(DecodeError::TruncatedInput)
                &&& final(self).pos == old(self).pos
            },
    {
        if self.data.len() - self.pos >= 4 {
            let b0 = self.data[self.pos];
            let b1 = self.data[self.pos + 1];
            let b2 = self.data[self.pos + 2];
            let b3 = self.data[self.pos + 3];
            self.pos = self.pos + 4;
            Ok(b0 as u32 + 256 * (b1 as u32) + 65536 * (b2 as u32) + 16777216 * (b3 as u32))
        } else {
            Err(DecodeError::TruncatedInput)
        }
    }

    /// Moves to an absolute offset; fails with `OutOfBounds` past the end.
    pub fn seek_absolute(&mut self, offset: u64) -> (r: Result<(), DecodeError>)
        requires
            old(self).wf(),
        ensures
            final(self).wf(),
            final(self).data@ == old(self).data@,
            offset <= old(self).data@.len() ==> {
                &&& r == Ok::<(), DecodeError>(())
                &&& final(self).pos == offset
            },
            offset > old(self).data@.len() ==> {
                &&& r == Err::<(), DecodeError>(DecodeError::OutOfBounds)
                &&& final(self).pos == old(self).pos
            },
    {
        if offset <= self.data.len() as u64 {
            self.pos = offset as usize;
            Ok(())
        } else {
            Err(DecodeError::OutOfBounds)
        }
    }

    /// Moves by a signed delta; fails with `OutOfBounds` when the target
    /// would lie before the start or past the end.
    pub fn seek_relative(&mut self, delta: i64) -> (r: Result<(), DecodeError>)
        requires
            old(self).wf(),
        ensures
            final(self).wf(),
            final(self).data@ == old(self).data@,
            0 <= old(self).pos + delta <= old(self).data@.len() ==> {
                &&& r == Ok::<(), DecodeError>(())
                &&& final(self).pos == old(self).pos + delta
            },
            !(0 <= old(self).pos + delta <= old(self).data@.len()) ==> {
                &&& r == Err::<(), DecodeError>(DecodeError::OutOfBounds)
                &&& final(self).pos == old(self).pos
            },
    {
        let target: i128 = self.pos as i128 + delta as i128;
        if 0 <= target && target <= self.data.len() as i128 {
            self.pos = target as usize;
            Ok(())
        } else {
            Err(DecodeError::OutOfBounds)
        }
    }
}

} // verus!
