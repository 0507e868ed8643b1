//! Shared, read-only buffers of file data and checked slicing of them.
use vstd::prelude::*;
use std::ops::Range;
use std::sync::Arc;
use crate::error::{BlendFileErrorKind, Dot001Error, Result, is_blend_error};

verus! {

/// Where the bytes of a buffer live.
pub enum BlendSource {
    /// Bytes held in memory, shared by all clones of the buffer.
    ArcBuf(Arc<Vec<u8>>),
}

impl View for BlendSource {
    type V = Seq<u8>;

    open spec fn view(&self) -> Seq<u8> {
        match self {
            BlendSource::ArcBuf(b) => b@,
        }
    }
}

/// Whether `start..end` is a slice that a buffer of `len` bytes hands out:
/// not empty, and ending within the buffer.
pub open spec fn valid_range(start: usize, end: usize, len: nat) -> bool {
    start < end && end <= len
}

impl BlendSource {
    /// The number of bytes.
    pub fn len(&self) -> (r: usize)
        ensures
            r == self@.len(),
    {
        match self {
            BlendSource::ArcBuf(b) => b.len(),
        }
    }

    /// Whether there are no bytes.
    pub fn is_empty(&self) -> (r: bool)
        ensures
            r == (self@.len() == 0),
    {
        self.len() == 0
    }

    /// A copy of the bytes in `range`; an empty range or one reaching past
    /// the end is refused with `InvalidData`.
    pub fn slice(&self, range: Range<usize>) -> (r: Result<Vec<u8>>)
        ensures
            match r {
                Ok(v) => valid_range(range.start, range.end, self@.len()) && v@ == self@.subrange(
                    range.start as int,
                    range.end as int,
                ),
                Err(e) => !valid_range(range.start, range.end, self@.len()) && is_blend_error(
                    e,
                    BlendFileErrorKind::InvalidData,
                ),
            },
    {
        let bytes = self.as_slice();
        if range.start >= range.end || range.end > bytes.len() {
            return Err(Dot001Error::blend_file("Invalid range for buffer", BlendFileErrorKind::InvalidData));
        }
        let mut out: Vec<u8> = Vec::new();
        let mut i = range.start;
        while i < range.end
            invariant
                range.start <= i <= range.end <= bytes@.len(),
                bytes@ == self@,
                out@ == self@.subrange(range.start as int, i as int),
            decreases range.end - i,
        {
            out.push(bytes[i]);
            assert(self@.subrange(range.start as int, i + 1) =~= self@.subrange(range.start as int, i as int).push(
                self@[i as int],
            ));
            i = i + 1;
        }
        Ok(out)
    }

    /// All the bytes.
    pub fn as_slice(&self) -> (r: &[u8])
        ensures
            r@ == self@,
    {
        match self {
            BlendSource::ArcBuf(b) => b.as_slice(),
        }
    }

    /// A source holding `data`.
    pub fn from_vec(data: Vec<u8>) -> (r: Self)
        ensures
            r@ == data@,
    {
        BlendSource::ArcBuf(Arc::new(data))
    }
}

/// A buffer of file data that hands out checked slices.
pub struct BlendBuf {
    source: BlendSource,
}

impl View for BlendBuf {
    type V = Seq<u8>;

    closed spec fn view(&self) -> Seq<u8> {
        self.source@
    }
}

impl BlendBuf {
    /// A buffer over `source`.
    pub fn new(source: BlendSource) -> (r: Self)
        ensures
            r@ == source@,
    {
        BlendBuf { source }
    }

    /// The number of bytes.
    pub fn len(&self) -> (r: usize)
        ensures
            r == self@.len(),
    {
        self.source.len()
    }

    /// Whether there are no bytes.
    pub fn is_empty(&self) -> (r: bool)
        ensures
            r == (self@.len() == 0),
    {
        self.source.is_empty()
    }

    /// A copy of the bytes in `range` (see `BlendSource::slice`).
    pub fn slice(&self, range: Range<usize>) -> (r: Result<Vec<u8>>)
        ensures
            match r {
                Ok(v) => valid_range(range.start, range.end, self@.len()) && v@ == self@.subrange(
                    range.start as int,
                    range.end as int,
                ),
                Err(e) => !valid_range(range.start, range.end, self@.len()) && is_blend_error(
                    e,
                    BlendFileErrorKind::InvalidData,
                ),
            },
    {
        self.source.slice(range)
    }

    /// All the bytes.
    pub fn as_slice(&self) -> (r: &[u8])
        ensures
            r@ == self@,
    {
        self.source.as_slice()
    }

    /// A buffer holding `data`.
    pub fn from_vec(data: Vec<u8>) -> (r: Self)
        ensures
            r@ == data@,
    {
        Self::new(BlendSource::from_vec(data))
    }
}

} // verus!
