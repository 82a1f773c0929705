//! Wrapper types for parser sources.

use vstd::prelude::*;

use crate::pull_parser::reader::{spec_min, PositionCacheReader};
use crate::pull_parser::ParserSource;
use crate::stream::{IoError, MemoryReader};

verus! {

/// Source which skips by reading and discarding bytes.
///
/// This internally uses `PositionCacheReader`, so users don't need to wrap
/// readers by `PositionCacheReader` manually.
#[derive(Debug)]
pub struct PlainSource {
    /// Inner reader.
    inner: PositionCacheReader,
}

impl PlainSource {
    /// Creates a new `PlainSource`.
    pub fn new(inner: MemoryReader) -> (r: Self)
        ensures
            r.spec_position() == 0,
            r.spec_rest() == inner.rest(),
    {
        Self { inner: PositionCacheReader::new(inner) }
    }

    /// Creates a new `PlainSource` with the given offset.
    pub fn with_offset(inner: MemoryReader, offset: usize) -> (r: Self)
        ensures
            r.spec_position() == offset,
            r.spec_rest() == inner.rest(),
    {
        Self { inner: PositionCacheReader::with_offset(inner, offset) }
    }
}

impl ParserSource for PlainSource {
    closed spec fn spec_position(&self) -> nat {
        self.inner.spec_pos()
    }

    open spec fn spec_wf(&self) -> bool {
        true
    }

    closed spec fn spec_rest(&self) -> Seq<u8> {
        self.inner.spec_inner().rest()
    }

    fn position(&self) -> (p: u64) {
        self.inner.position() as u64
    }

    fn read(&mut self, buf: &mut [u8]) -> (n: usize) {
        self.inner.read(buf)
    }

    fn skip_distance(&mut self, distance: u64) -> (r: Result<(), IoError>)
        ensures
            r is Ok,
            final(self).spec_position() == old(self).spec_position() + spec_min(
                distance as int,
                old(self).spec_rest().len() as int,
            ),
    {
        self.inner.consume_up_to(distance);
        Ok(())
    }
}

/// Source which skips by seeking.
///
/// This internally uses [`PositionCacheReader`], so users don't need to wrap
/// readers by [`PositionCacheReader`] manually.
#[derive(Debug)]
pub struct SeekableSource {
    /// Inner reader.
    inner: PositionCacheReader,
}

impl SeekableSource {
    /// Creates a new `SeekableSource`.
    pub fn new(inner: MemoryReader) -> (r: Self)
        ensures
            r.spec_position() == 0,
            r.spec_rest() == inner.rest(),
    {
        Self { inner: PositionCacheReader::new(inner) }
    }

    /// Creates a new `SeekableSource` with the given offset.
    pub fn with_offset(inner: MemoryReader, offset: usize) -> (r: Self)
        ensures
            r.spec_position() == offset,
            r.spec_rest() == inner.rest(),
    {
        Self { inner: PositionCacheReader::with_offset(inner, offset) }
    }
}

impl ParserSource for SeekableSource {
    closed spec fn spec_position(&self) -> nat {
        self.inner.spec_pos()
    }

    open spec fn spec_wf(&self) -> bool {
        true
    }

    closed spec fn spec_rest(&self) -> Seq<u8> {
        self.inner.spec_inner().rest()
    }

    fn position(&self) -> (p: u64) {
        self.inner.position() as u64
    }

    fn read(&mut self, buf: &mut [u8]) -> (n: usize) {
        self.inner.read(buf)
    }

    fn skip_distance(&mut self, distance: u64) -> (r: Result<(), IoError>)
        ensures
            r is Ok ==> final(self).spec_position() == old(self).spec_position() + distance,
    {
        self.inner.skip_distance(distance)
    }
}

} // verus!
