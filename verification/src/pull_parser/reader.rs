//! Parser data source.
//!
//! FBX parsers requires cursor position tracking and skipping.
//! These features are used through [`ParserSource`] trait.
//!
//! Every source here reads from an in-memory [`MemoryReader`]; the wrappers
//! keep a cached byte position which may start at an offset (e.g. after a file
//! header that was read separately).

use vstd::prelude::*;

use crate::stream::{IoError, MemoryReader};

pub use self::position_cache::PositionCacheReader;
pub use self::source::{PlainSource, SeekableSource};

mod position_cache;
mod source;

verus! {

/// The smaller of two integers.
pub open spec fn spec_min(a: int, b: int) -> int {
    if a < b {
        a
    } else {
        b
    }
}

/// Returns `n` zero bytes.
pub fn zeroed(n: usize) -> (v: Vec<u8>)
    ensures
        v@.len() == n,
        forall|i: int| 0 <= i < n ==> v@[i] == 0,
{
    let mut v: Vec<u8> = Vec::with_capacity(n);
    let mut k: usize = 0;
    while k < n
        invariant
            k <= n,
            v@.len() == k,
            forall|i: int| 0 <= i < k ==> v@[i] == 0,
        decreases n - k,
    {
        v.push(0u8);
        k = k + 1;
    }
    v
}

/// A trait for types which can be data sources.
///
/// Users can implement this manually, but usually it is enough to use wrappers
/// in this module.
pub trait ParserSource: Sized {
    /// The offset of the byte which would be read next.
    spec fn spec_position(&self) -> nat;

    /// The bytes not read yet.
    spec fn spec_rest(&self) -> Seq<u8>;

    /// Internal consistency of the source, kept by every operation.
    spec fn spec_wf(&self) -> bool;

    /// Returns the offset of a byte which would be read next.
    fn position(&self) -> (p: u64)
        ensures
            p == self.spec_position(),
    ;

    /// Reads as many bytes as fit into `buf`, and returns how many were read.
    fn read(&mut self, buf: &mut [u8]) -> (n: usize)
        requires
            old(self).spec_wf(),
            old(self).spec_position() + spec_min(old(buf)@.len() as int, old(self).spec_rest().len()
                as int) <= usize::MAX,
        ensures
            final(self).spec_wf(),
            n == spec_min(old(buf)@.len() as int, old(self).spec_rest().len() as int),
            final(buf)@.len() == old(buf)@.len(),
            final(buf)@.take(n as int) == old(self).spec_rest().take(n as int),
            final(self).spec_position() == old(self).spec_position() + n,
            final(self).spec_rest() == old(self).spec_rest().skip(n as int),
    ;

    /// Skips (seeks forward) the given size.
    ///
    /// By default this reads and discards the bytes, stopping at the end of
    /// the data; sources backed by a seekable stream may move past the end.
    fn skip_distance(&mut self, distance: u64) -> (r: Result<(), IoError>)
        requires
            old(self).spec_wf(),
            old(self).spec_position() + distance <= usize::MAX,
        ensures
            final(self).spec_wf(),
            distance <= old(self).spec_rest().len() ==> {
                &&& r is Ok
                &&& final(self).spec_position() == old(self).spec_position() + distance
                &&& final(self).spec_rest() == old(self).spec_rest().skip(distance as int)
            },
            old(self).spec_position() <= final(self).spec_position() <= old(self).spec_position()
                + distance,
    {
        let ghost p0 = self.spec_position();
        let ghost rest0 = self.spec_rest();
        let mut remaining = distance;
        while remaining > 0
            invariant
                remaining <= distance,
                p0 == old(self).spec_position(),
                rest0 == old(self).spec_rest(),
                p0 + distance <= usize::MAX,
                self.spec_wf(),
                self.spec_position() == p0 + (distance - remaining),
                distance - remaining <= rest0.len(),
                self.spec_rest() == rest0.skip((distance - remaining) as int),
            ensures
                remaining == 0 || self.spec_rest().len() == 0,
            decreases remaining,
        {
            let want: usize = if remaining < 64 {
                remaining as usize
            } else {
                64
            };
            let mut buf = zeroed(want);
            let n = self.read(buf.as_mut_slice());
            if n == 0 {
                break;
            }
            remaining = remaining - n as u64;
            assert(self.spec_rest() =~= rest0.skip((distance - remaining) as int));
        }
        Ok(())
    }

    /// Skips (seeks forward) to the given position.
    ///
    /// The given position must not be behind the current position.
    fn skip_to(&mut self, pos: u64) -> (r: Result<(), IoError>)
        requires
            old(self).spec_wf(),
            pos >= old(self).spec_position(),
            pos <= usize::MAX,
        ensures
            pos - old(self).spec_position() <= old(self).spec_rest().len() ==> {
                &&& r is Ok
                &&& final(self).spec_position() == pos
                &&& final(self).spec_rest() == old(self).spec_rest().skip(
                    pos - old(self).spec_position(),
                )
            },
            final(self).spec_wf(),
            old(self).spec_position() <= final(self).spec_position() <= pos,
    {
        let distance = pos - self.position();
        self.skip_distance(distance)
    }
}

/// Which skipping strategy a [`Reader`] uses.
#[derive(Debug, Clone, Copy, PartialEq, Eq, Structural)]
enum ReaderFnTable {
    /// Skip by reading and discarding bytes.
    Plain,
    /// Skip by seeking.
    Seekable,
}

impl ReaderFnTable {
    /// Creates a new function table for a plain reader.
    fn new_for_plain() -> (t: Self)
        ensures
            t == ReaderFnTable::Plain,
    {
        ReaderFnTable::Plain
    }

    /// Creates a new function table for a seekable reader.
    fn new_for_seekable() -> (t: Self)
        ensures
            t == ReaderFnTable::Seekable,
    {
        ReaderFnTable::Seekable
    }

    /// Skips (seeks forward) the given size by reading and discarding bytes,
    /// stopping at the end of the data.
    fn skip_distance_plain(reader: &mut Reader, distance: u64) -> (r: Result<(), IoError>)
        requires
            old(reader).bounded(),
        ensures
            r is Ok,
            final(reader).fn_table == old(reader).fn_table,
            final(reader).bounded(),
            spec_consumed(
                *old(reader),
                *final(reader),
                spec_min(distance as int, old(reader).spec_rest().len() as int) as nat,
            ),
    {
        let ghost rest0 = reader.spec_rest();
        let n = reader.inner.consume_up_to(distance);
        reader.position = reader.position + n;
        Ok(())
    }

    /// Skips (seeks forward) the given size by seeking; the position may move
    /// beyond the end of the data.
    fn skip_distance_seekable(reader: &mut Reader, distance: u64) -> (r: Result<(), IoError>)
        requires
            old(reader).bounded(),
            old(reader).spec_position() + distance <= u64::MAX,
        ensures
            r is Ok,
            final(reader).fn_table == old(reader).fn_table,
            final(reader).bounded(),
            final(reader).spec_position() == old(reader).spec_position() + distance,
            distance <= old(reader).spec_rest().len() ==> final(reader).spec_rest() == old(reader).spec_rest().skip(distance as int),
            distance > old(reader).spec_rest().len() ==> final(reader).spec_rest() == Seq::<
                u8,
            >::empty(),
    {
        let ghost rest0 = reader.spec_rest();
        let _ = reader.inner.consume_up_to(distance);
        reader.position = reader.position + distance;
        assert(rest0.skip(rest0.len() as int) =~= Seq::<u8>::empty());
        Ok(())
    }
}

/// A wrapper type of the source reader.
#[derive(Debug)]
pub struct Reader {
    /// Inner stream.
    inner: MemoryReader,
    /// Cached current stream position.
    position: u64,
    /// Skipping strategy.
    fn_table: ReaderFnTable,
}

/// `new` is `old` after consuming `n` bytes.
pub open spec fn spec_consumed(old: Reader, new: Reader, n: nat) -> bool {
    &&& n <= old.spec_rest().len()
    &&& new.spec_position() == old.spec_position() + n
    &&& new.spec_rest() == old.spec_rest().skip(n as int)
    &&& new.spec_seekable() == old.spec_seekable()
}

/// Consuming `n1` then `n2` bytes consumes `n1 + n2` bytes.
pub proof fn lemma_consumed_trans(a: Reader, b: Reader, c: Reader, n1: nat, n2: nat)
    requires
        spec_consumed(a, b, n1),
        spec_consumed(b, c, n2),
    ensures
        spec_consumed(a, c, n1 + n2),
{
    assert(a.spec_rest().skip(n1 as int).skip(n2 as int) =~= a.spec_rest().skip((n1 + n2) as int));
}

/// Consuming nothing leaves the reader's position and rest as they are.
pub proof fn lemma_consumed_none(a: Reader)
    ensures
        spec_consumed(a, a, 0),
{
    assert(a.spec_rest().skip(0) =~= a.spec_rest());
}

impl Reader {
    /// Whether the reader skips by seeking.
    pub closed spec fn spec_seekable(&self) -> bool {
        self.fn_table == ReaderFnTable::Seekable
    }

    /// The inner stream.
    pub closed spec fn spec_inner(&self) -> MemoryReader {
        self.inner
    }

    /// The position reached at the end of the data fits in `usize`, and the
    /// inner stream is not ahead of the cached position.
    pub open spec fn bounded(&self) -> bool {
        &&& self.spec_position() + self.spec_rest().len() <= u64::MAX
        &&& self.spec_inner().pos() <= self.spec_position()
    }

    /// Creates a new reader which skips by reading.
    pub fn new(inner: MemoryReader, current_position: u64) -> (r: Self)
        requires
            current_position + inner.rest().len() <= u64::MAX,
            inner.pos() <= current_position,
        ensures
            r.bounded(),
            r.spec_position() == current_position,
            r.spec_rest() == inner.rest(),
            r.spec_inner() == inner,
            !r.spec_seekable(),
    {
        Self { inner, position: current_position, fn_table: ReaderFnTable::new_for_plain() }
    }

    /// Creates a new reader which skips by seeking.
    pub fn with_seekable(inner: MemoryReader, current_position: u64) -> (r: Self)
        requires
            current_position + inner.rest().len() <= u64::MAX,
            inner.pos() <= current_position,
        ensures
            r.bounded(),
            r.spec_position() == current_position,
            r.spec_rest() == inner.rest(),
            r.spec_inner() == inner,
            r.spec_seekable(),
    {
        Self { inner, position: current_position, fn_table: ReaderFnTable::new_for_seekable() }
    }

    /// Skips the given distance.
    ///
    /// A seek beyond the end of a stream is allowed for a seekable reader; a
    /// plain reader stops at the end.
    pub fn skip_distance_(&mut self, distance: u64) -> (r: Result<(), IoError>)
        requires
            old(self).bounded(),
            old(self).spec_position() + distance <= u64::MAX,
        ensures
            r is Ok,
            final(self).bounded(),
            final(self).spec_seekable() == old(self).spec_seekable(),
            distance <= old(self).spec_rest().len() ==> spec_consumed(
                *old(self),
                *final(self),
                distance as nat,
            ),
            distance > old(self).spec_rest().len() ==> {
                &&& final(self).spec_rest() == Seq::<u8>::empty()
                &&& final(self).spec_position() == old(self).spec_position() + if old(self).spec_seekable() {
                    distance as nat
                } else {
                    old(self).spec_rest().len()
                }
            },
    {
        let ghost rest0 = self.spec_rest();
        let r = match self.fn_table {
            ReaderFnTable::Plain => ReaderFnTable::skip_distance_plain(self, distance),
            ReaderFnTable::Seekable => ReaderFnTable::skip_distance_seekable(self, distance),
        };
        assert(rest0.skip(rest0.len() as int) =~= Seq::<u8>::empty());
        r
    }

    /// Skips (seeks forward) to the given position.
    ///
    /// The given position must not be behind the current position.
    pub fn skip_to_(&mut self, pos: u64) -> (r: Result<(), IoError>)
        requires
            old(self).bounded(),
            pos >= old(self).spec_position(),
        ensures
            r is Ok,
            final(self).bounded(),
            final(self).spec_seekable() == old(self).spec_seekable(),
            pos - old(self).spec_position() <= old(self).spec_rest().len() ==> spec_consumed(
                *old(self),
                *final(self),
                (pos - old(self).spec_position()) as nat,
            ),
            pos - old(self).spec_position() > old(self).spec_rest().len() ==> {
                &&& final(self).spec_rest() == Seq::<u8>::empty()
                &&& final(self).spec_position() == if old(self).spec_seekable() {
                    pos as nat
                } else {
                    old(self).spec_position() + old(self).spec_rest().len()
                }
            },
    {
        let distance = pos - self.position;
        self.skip_distance_(distance)
    }

    /// Advances the position counter.
    fn advance(&mut self, n: usize)
        requires
            old(self).position + n <= u64::MAX,
        ensures
            final(self).position == old(self).position + n,
            final(self).inner == old(self).inner,
            final(self).fn_table == old(self).fn_table,
    {
        self.position = self.position + n as u64;
    }

    /// Reads exactly `n` bytes.
    ///
    /// If fewer bytes remain, they are all consumed and `UnexpectedEof` is
    /// returned.
    pub fn read_exact(&mut self, n: usize) -> (r: Result<Vec<u8>, IoError>)
        requires
            old(self).bounded(),
        ensures
            final(self).bounded(),
            n <= old(self).spec_rest().len() ==> {
                &&& r matches Ok(v) && v@ == old(self).spec_rest().take(n as int)
                &&& spec_consumed(*old(self), *final(self), n as nat)
            },
            n > old(self).spec_rest().len() ==> {
                &&& r == Err::<Vec<u8>, IoError>(IoError::UnexpectedEof)
                &&& spec_consumed(*old(self), *final(self), old(self).spec_rest().len())
                &&& final(self).spec_rest() == Seq::<u8>::empty()
            },
    {
        let avail = self.inner.remaining_len();
        let ghost rest0 = self.spec_rest();
        let r = self.inner.read_exact(n);
        if n <= avail {
            self.advance(n);
        } else {
            self.advance(avail);
            assert(rest0.skip(rest0.len() as int) =~= Seq::<u8>::empty());
        }
        r
    }

    /// Returns the number of bytes left to read.
    pub fn remaining(&self) -> (n: usize)
        ensures
            n == self.spec_rest().len(),
    {
        self.inner.remaining_len()
    }

    /// Reads at most `n` bytes, stopping at the end of the data.
    pub fn read_up_to(&mut self, n: u64) -> (v: Vec<u8>)
        requires
            old(self).bounded(),
        ensures
            final(self).bounded(),
            v@ == old(self).spec_rest().take(spec_min(n as int, old(self).spec_rest().len() as int)),
            spec_consumed(
                *old(self),
                *final(self),
                spec_min(n as int, old(self).spec_rest().len() as int) as nat,
            ),
    {
        let avail = self.inner.remaining_len();
        let k: usize = if n < avail as u64 {
            n as usize
        } else {
            avail
        };
        match self.read_exact(k) {
            Ok(v) => v,
            Err(_) => Vec::new(),
        }
    }
}

impl ParserSource for Reader {
    open spec fn spec_wf(&self) -> bool {
        self.bounded()
    }

    closed spec fn spec_position(&self) -> nat {
        self.position as nat
    }

    closed spec fn spec_rest(&self) -> Seq<u8> {
        self.inner.rest()
    }

    fn position(&self) -> (p: u64) {
        self.position
    }

    fn read(&mut self, buf: &mut [u8]) -> (n: usize) {
        let size = self.inner.read(buf);
        self.advance(size);
        size
    }

    fn skip_distance(&mut self, distance: u64) -> (r: Result<(), IoError>) {
        self.skip_distance_(distance)
    }

    fn skip_to(&mut self, pos: u64) -> (r: Result<(), IoError>) {
        self.skip_to_(pos)
    }
}

} // verus!
