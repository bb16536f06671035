//! An in-memory seekable byte stream.
use vstd::prelude::*;
use crate::error::{FieldError, IoErrorKind, SpecFieldError};

verus! {

/// Where a seek is measured from.
#[derive(Clone, Copy, Debug, PartialEq, Eq, Structural)]
pub enum SeekFrom {
    Start(u64),
    Current(i64),
    End(i64),
}

/// A byte source with a cursor. The cursor may stand anywhere from zero up to
/// the largest `u64`, also past the end of the data; reads there fail.
pub struct ByteStream {
    data: Vec<u8>,
    pos: u64,
}

/// The model of a stream: its bytes and the position of the next read.
pub struct StreamModel {
    pub data: Seq<u8>,
    pub pos: int,
}

impl View for ByteStream {
    type V = StreamModel;

    closed spec fn view(&self) -> StreamModel {
        StreamModel { data: self.data@, pos: self.pos as int }
    }
}

pub open spec fn io_error(kind: IoErrorKind, position: int) -> SpecFieldError {
    SpecFieldError::Io { kind, position }
}

/// Where a seek lands, or `None` where it is invalid.
pub open spec fn seek_target(len: int, pos: int, from: SeekFrom) -> Option<int> {
    let t = match from {
        SeekFrom::Start(o) => o as int,
        SeekFrom::Current(d) => pos + d,
        SeekFrom::End(d) => len + d,
    };
    if 0 <= t <= u64::MAX {
        Some(t)
    } else {
        None
    }
}

/// The `n` bytes at `pos`, or `None` where fewer are left. Reading nothing
/// succeeds anywhere.
pub open spec fn bytes_at(data: Seq<u8>, pos: int, n: int) -> Option<Seq<u8>> {
    if n == 0 {
        Some(Seq::empty())
    } else if 0 <= pos && 0 < n && pos + n <= data.len() {
        Some(data.subrange(pos, pos + n))
    } else {
        None
    }
}

impl ByteStream {
    /// A stream over `data`, positioned at its start.
    pub fn new(data: Vec<u8>) -> (r: ByteStream)
        ensures
            r@.data == data@,
            r@.pos == 0,
    {
        ByteStream { data, pos: 0 }
    }

    /// The position of the next read.
    pub fn tell(&self) -> (r: u64)
        ensures
            r as int == self@.pos,
    {
        self.pos
    }

    /// Puts the cursor back at a position saved earlier.
    pub fn set_position(&mut self, p: u64)
        ensures
            final(self)@.data == old(self)@.data,
            final(self)@.pos == p,
    {
        self.pos = p;
    }

    /// The number of bytes of the underlying data.
    pub fn len(&self) -> (r: usize)
        ensures
            r as int == self@.data.len(),
    {
        self.data.len()
    }

    /// Moves the cursor; fails with `InvalidSeek` where the target would be
    /// negative or beyond the largest position, leaving the cursor unchanged.
    pub fn seek(&mut self, from: SeekFrom) -> (r: Result<u64, FieldError>)
        ensures
            final(self)@.data == old(self)@.data,
            match seek_target(old(self)@.data.len() as int, old(self)@.pos, from) {
                Some(t) => r matches Ok(p) && p as int == t && final(self)@.pos == t,
                None => r matches Err(e) && e@ == io_error(
                    IoErrorKind::InvalidSeek,
                    old(self)@.pos,
                ) && final(self)@.pos == old(self)@.pos,
            },
    {
        let base: i128 = match from {
            SeekFrom::Start(o) => o as i128,
            SeekFrom::Current(d) => self.pos as i128 + d as i128,
            SeekFrom::End(d) => self.data.len() as i128 + d as i128,
        };
        if 0 <= base && base <= u64::MAX as i128 {
            self.pos = base as u64;
            Ok(self.pos)
        } else {
            Err(FieldError::Io { kind: IoErrorKind::InvalidSeek, position: self.pos })
        }
    }

    /// Reads exactly `n` bytes; where fewer are left, fails with
    /// `UnexpectedEof` at the current position and leaves the cursor unchanged.
    pub fn read(&mut self, n: u64) -> (r: Result<Vec<u8>, FieldError>)
        ensures
            final(self)@.data == old(self)@.data,
            match bytes_at(old(self)@.data, old(self)@.pos, n as int) {
                Some(b) => r matches Ok(v) && v@ == b && final(self)@.pos == old(self)@.pos + n,
                None => r matches Err(e) && e@ == io_error(
                    IoErrorKind::UnexpectedEof,
                    old(self)@.pos,
                ) && final(self)@.pos == old(self)@.pos,
            },
    {
        if n == 0 {
            return Ok(Vec::new());
        }
        let len = self.data.len();
        if self.pos > len as u64 || n > len as u64 - self.pos {
            return Err(FieldError::Io { kind: IoErrorKind::UnexpectedEof, position: self.pos });
        }
        let start = self.pos as usize;
        let end = start + n as usize;
        let mut out: Vec<u8> = Vec::new();
        let mut i: usize = start;
        while i < end
            invariant
                start <= i <= end <= self.data@.len(),
                out@ == self.data@.subrange(start as int, i as int),
            decreases end - i,
        {
            out.push(self.data[i]);
            i = i + 1;
            assert(out@ =~= self.data@.subrange(start as int, i as int));
        }
        self.pos = end as u64;
        Ok(out)
    }
}

} // verus!
