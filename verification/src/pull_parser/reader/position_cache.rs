//! Reader with position cache.

use vstd::prelude::*;

use crate::pull_parser::reader::spec_min;
use crate::pull_parser::ParserSource;
use crate::stream::{IoError, MemoryReader};

verus! {

/// A reader with position cache.
///
/// The position starts at zero or at a given offset and grows by the number
/// of bytes read or skipped; the preconditions keep it from overflowing.
#[derive(Debug)]
pub struct PositionCacheReader {
    /// Inner reader.
    inner: MemoryReader,
    /// Current position.
    position: usize,
}

impl PositionCacheReader {
    /// The inner reader.
    pub closed spec fn spec_inner(&self) -> MemoryReader {
        self.inner
    }

    /// The cached position.
    pub closed spec fn spec_pos(&self) -> nat {
        self.position as nat
    }

    /// Creates a new `PositionCacheReader`.
    pub fn new(inner: MemoryReader) -> (r: Self)
        ensures
            r.spec_inner() == inner,
            r.spec_pos() == 0,
    {
        Self { inner, position: 0 }
    }

    /// Creates a new `PositionCacheReader` with the given offset.
    pub fn with_offset(inner: MemoryReader, offset: usize) -> (r: Self)
        ensures
            r.spec_inner() == inner,
            r.spec_pos() == offset,
    {
        Self { inner, position: offset }
    }

    /// Unwraps the wrapper and returns the inner reader.
    pub fn into_inner(self) -> (r: MemoryReader)
        ensures
            r == self.spec_inner(),
    {
        self.inner
    }

    /// Returns the current position.
    pub fn position(&self) -> (p: usize)
        ensures
            p == self.spec_pos(),
    {
        self.position
    }

    /// Skips the given distance by seeking the inner reader.
    ///
    /// A seek beyond the end of a stream is allowed; the inner reader is then
    /// left beyond its end.
    pub fn skip_distance(&mut self, distance: u64) -> (r: Result<(), IoError>)
        requires
            old(self).spec_pos() + distance <= usize::MAX,
        ensures
            final(self).spec_inner().data() == old(self).spec_inner().data(),
            distance <= old(self).spec_inner().rest().len() ==> r is Ok,
            r is Ok ==> final(self).spec_pos() == old(self).spec_pos() + distance,
            r is Ok && distance <= old(self).spec_inner().rest().len() ==> final(self).spec_inner().rest() == old(self).spec_inner().rest().skip(distance as int),
            r is Ok && distance > old(self).spec_inner().rest().len() ==> final(self).spec_inner().rest() == Seq::<u8>::empty(),
            old(self).spec_pos() <= final(self).spec_pos() <= old(self).spec_pos() + distance,
    {
        let ghost p0 = self.spec_pos();
        let ghost rest0 = self.inner.rest();
        let mut remaining = distance;
        while remaining > 0
            invariant
                remaining <= distance,
                p0 == old(self).spec_pos(),
                rest0 == old(self).spec_inner().rest(),
                p0 + distance <= usize::MAX,
                self.inner.data() == old(self).inner.data(),
                self.spec_pos() == p0 + (distance - remaining),
                distance - remaining <= rest0.len() ==> self.inner.rest() == rest0.skip(
                    (distance - remaining) as int,
                ),
                distance - remaining > rest0.len() ==> self.inner.rest() == Seq::<u8>::empty(),
            decreases remaining,
        {
            let part: u64 = if remaining < 0x7fff_ffff_ffff_ffffu64 {
                remaining
            } else {
                0x7fff_ffff_ffff_ffffu64
            };
            match self.inner.seek_forward(part) {
                Ok(()) => {},
                Err(e) => return Err(e),
            }
            self.advance(part as usize);
            remaining = remaining - part;
        }
        Ok(())
    }

    /// Advances the position counter.
    fn advance(&mut self, n: usize)
        requires
            old(self).position + n <= usize::MAX,
        ensures
            final(self).position == old(self).position + n,
            final(self).inner == old(self).inner,
    {
        self.position = self.position + n;
    }

    /// Reads as many bytes as fit into `buf`, and returns how many were read.
    pub fn read(&mut self, buf: &mut [u8]) -> (n: usize)
        requires
            old(self).spec_pos() + spec_min(old(buf)@.len() as int, old(self).spec_inner().rest().len() as int) <= usize::MAX,
        ensures
            n == spec_min(old(buf)@.len() as int, old(self).spec_inner().rest().len() as int),
            final(buf)@.len() == old(buf)@.len(),
            final(buf)@.take(n as int) == old(self).spec_inner().rest().take(n as int),
            final(self).spec_pos() == old(self).spec_pos() + n,
            final(self).spec_inner().data() == old(self).spec_inner().data(),
            final(self).spec_inner().rest() == old(self).spec_inner().rest().skip(n as int),
    {
        let size = self.inner.read(buf);
        self.advance(size);
        size
    }

    /// Consumes up to `distance` bytes, stopping at the end of the data.
    pub fn consume_up_to(&mut self, distance: u64)
        requires
            old(self).spec_pos() + distance <= usize::MAX,
        ensures
            final(self).spec_pos() == old(self).spec_pos() + spec_min(distance as int, old(self).spec_inner().rest().len() as int),
            final(self).spec_inner().data() == old(self).spec_inner().data(),
            final(self).spec_inner().rest() == old(self).spec_inner().rest().skip(spec_min(distance as int, old(self).spec_inner().rest().len() as int)),
    {
        let n = self.inner.consume_up_to(distance);
        self.advance(n as usize);
    }
}

impl ParserSource for PositionCacheReader {
    closed spec fn spec_position(&self) -> nat {
        self.position as nat
    }

    open spec fn spec_wf(&self) -> bool {
        true
    }

    closed spec fn spec_rest(&self) -> Seq<u8> {
        self.inner.rest()
    }

    fn position(&self) -> (p: u64) {
        self.position as u64
    }

    fn read(&mut self, buf: &mut [u8]) -> (n: usize) {
        PositionCacheReader::read(self, buf)
    }
}

} // verus!
