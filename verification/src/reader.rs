//! An in-memory seekable reader over a byte buffer.
//!
//! `SliceReader` gives the crate's `ReadSeek` capability its reference
//! implementation: a cursor over bytes held in memory, with the same
//! positional semantics a memory-mapped file cursor has — reads stop at the
//! end of the buffer and seeking past the end is rejected.

use vstd::prelude::*;

verus! {

use crate::ReadSeek;

/// Where a seek is measured from.
#[derive(Clone, Copy, Debug)]
pub enum SeekFrom {
    /// An absolute position from the start.
    Start(u64),
    /// An offset from the current cursor; moves below zero stop at zero.
    Current(i64),
    /// An offset from the end of the contents; moves below zero stop at zero.
    End(i64),
}

/// The position a seek resolves to, before the upper bound is enforced.
/// Relative moves saturate at zero on the low side.
pub open spec fn seek_target(from: SeekFrom, cursor: int, len: int) -> int {
    match from {
        SeekFrom::Start(offset) => offset as int,
        SeekFrom::Current(offset) => if cursor + offset >= 0 {
            cursor + offset
        } else {
            0
        },
        SeekFrom::End(offset) => if len + offset >= 0 {
            len + offset
        } else {
            0
        },
    }
}

/// The absolute value of a negative offset, as the unsigned distance it
/// moves the cursor back.
fn magnitude_of_negative(offset: i64) -> (r: u64)
    requires
        offset < 0,
    ensures
        r as int == -(offset as int),
{
    if offset == i64::MIN {
        9223372036854775808u64
    } else {
        (-offset) as u64
    }
}

/// A cursor over bytes held in memory.
pub struct SliceReader {
    data: Vec<u8>,
    position: u64,
}

impl SliceReader {
    /// Wrap a buffer; the cursor starts at the beginning.
    pub fn new(data: Vec<u8>) -> (r: SliceReader)
        ensures
            r.wf(),
            r.contents() == data@,
            r.cursor() == 0,
    {
        SliceReader { data, position: 0 }
    }

    /// The total number of bytes.
    pub fn len(&self) -> (r: usize)
        ensures
            r == self.contents().len(),
    {
        self.data.len()
    }
}

impl ReadSeek for SliceReader {
    closed spec fn contents(&self) -> Seq<u8> {
        self.data@
    }

    closed spec fn cursor(&self) -> int {
        self.position as int
    }

    closed spec fn wf(&self) -> bool {
        self.position <= self.data.len()
    }

    fn read(&mut self, count: usize) -> (r: Vec<u8>) {
        let start: usize = self.position as usize;
        let remaining: usize = self.data.len() - start;
        let take: usize = if count < remaining {
            count
        } else {
            remaining
        };
        let mut out: Vec<u8> = Vec::new();
        let mut i: usize = 0;
        while i < take
            invariant
                i <= take,
                start + take <= self.data.len(),
                out@ == self.data@.subrange(start as int, start + i),
            decreases take - i,
        {
            out.push(self.data[start + i]);
            i = i + 1;
            proof {
                assert(out@ =~= self.data@.subrange(start as int, start + i));
            }
        }
        self.position = self.position + take as u64;
        out
    }

    fn read_exact(&mut self, count: usize) -> (r: Result<Vec<u8>, ()>) {
        let start: usize = self.position as usize;
        if count > self.data.len() - start {
            return Err(());
        }
        let bytes = self.read(count);
        Ok(bytes)
    }

    fn seek(&mut self, from: SeekFrom) -> (r: Result<u64, ()>) {
        let len: u64 = self.data.len() as u64;
        let target: u64 = match from {
            SeekFrom::Start(offset) => offset,
            SeekFrom::Current(offset) => if offset >= 0 {
                if self.position <= u64::MAX - (offset as u64) {
                    self.position + offset as u64
                } else {
                    return Err(());
                }
            } else {
                let back = magnitude_of_negative(offset);
                if self.position >= back {
                    self.position - back
                } else {
                    0
                }
            },
            SeekFrom::End(offset) => if offset >= 0 {
                if len <= u64::MAX - (offset as u64) {
                    len + offset as u64
                } else {
                    return Err(());
                }
            } else {
                let back = magnitude_of_negative(offset);
                if len >= back {
                    len - back
                } else {
                    0
                }
            },
        };
        if target > len {
            return Err(());
        }
        self.position = target;
        Ok(target)
    }

    fn stream_position(&self) -> (r: u64) {
        self.position
    }
}

} // verus!
