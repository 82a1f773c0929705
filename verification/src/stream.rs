//! In-memory byte streams.
//!
//! The parser reads FBX data from a [`MemoryReader`] and the writer emits it
//! into a [`MemoryWriter`]; moving bytes between these and files or sockets is
//! left to the caller.

use vstd::prelude::*;
use vstd::string::StringExecFns;

verus! {

/// Error of a stream operation.
#[derive(Debug, Clone, Copy, PartialEq, Eq, Structural)]
pub enum IoError {
    /// The stream ended before the requested number of bytes was available.
    UnexpectedEof,
    /// The bytes read are not what was requested (e.g. not valid UTF-8).
    InvalidData,
    /// A seek to an overflowing position was requested.
    InvalidSeek,
}

/// A reader over an in-memory byte buffer.
///
/// Like a cursor, the read position may be moved beyond the end of the data,
/// after which reads return no bytes.
#[derive(Debug)]
pub struct MemoryReader {
    data: Vec<u8>,
    pos: usize,
}

/// The bytes of `data` at and after `pos` (empty if `pos` is beyond the end).
pub open spec fn spec_rest(data: Seq<u8>, pos: nat) -> Seq<u8> {
    if pos <= data.len() {
        data.skip(pos as int)
    } else {
        Seq::empty()
    }
}

impl MemoryReader {
    /// The whole underlying data.
    pub closed spec fn data(&self) -> Seq<u8> {
        self.data@
    }

    /// The read position in the underlying data.
    pub closed spec fn pos(&self) -> nat {
        self.pos as nat
    }

    /// The bytes not read yet.
    pub open spec fn rest(&self) -> Seq<u8> {
        spec_rest(self.data(), self.pos())
    }

    /// Creates a reader positioned at the start of `data`.
    pub fn new(data: Vec<u8>) -> (r: Self)
        ensures
            r.data() == data@,
            r.pos() == 0,
            r.rest() == data@,
    {
        MemoryReader { data, pos: 0 }
    }

    /// Returns the read position.
    pub fn position(&self) -> (p: usize)
        ensures
            p == self.pos(),
    {
        self.pos
    }

    /// Takes the bytes not read yet.
    pub fn into_rest(self) -> (v: Vec<u8>)
        ensures
            v@ == self.rest(),
    {
        let n = self.remaining_len();
        let mut v: Vec<u8> = Vec::new();
        let mut i: usize = 0;
        while i < n
            invariant
                n == self.rest().len(),
                n > 0 ==> self.pos() + n == self.data().len(),
                self.data().len() <= usize::MAX,
                i <= n,
                v@ == self.rest().take(i as int),
            decreases n - i,
        {
            v.push(self.data[self.pos + i]);
            proof {
                assert(self.rest().take(i + 1) =~= self.rest().take(i as int).push(self.rest()[i as int]));
            }
            i = i + 1;
        }
        proof {
            assert(self.rest().take(n as int) =~= self.rest());
        }
        v
    }

    /// Returns the number of bytes not read yet.
    pub fn remaining_len(&self) -> (n: usize)
        ensures
            n == self.rest().len(),
            n > 0 ==> self.pos() + n == self.data().len(),
            self.data().len() <= usize::MAX,
    {
        if self.pos <= self.data.len() {
            self.data.len() - self.pos
        } else {
            0
        }
    }

    /// Reads as many bytes as fit into `buf`, and returns how many were read.
    pub fn read(&mut self, buf: &mut [u8]) -> (n: usize)
        ensures
            n == if old(buf)@.len() < old(self).rest().len() {
                old(buf)@.len()
            } else {
                old(self).rest().len()
            },
            final(buf)@.len() == old(buf)@.len(),
            final(buf)@.take(n as int) == old(self).rest().take(n as int),
            final(buf)@.skip(n as int) == old(buf)@.skip(n as int),
            final(self).data() == old(self).data(),
            final(self).pos() == old(self).pos() + n,
            final(self).rest() == old(self).rest().skip(n as int),
    {
        let avail = self.remaining_len();
        let n = if buf.len() < avail {
            buf.len()
        } else {
            avail
        };
        let mut i: usize = 0;
        while i < n
            invariant
                n <= avail,
                avail == self.rest().len(),
                n <= old(buf)@.len(),
                i <= n,
                self.pos <= self.data@.len() || avail == 0,
                avail > 0 ==> self.pos + avail == self.data@.len(),
                self.data@.len() <= usize::MAX,
                buf@.len() == old(buf)@.len(),
                forall|k: int| 0 <= k < i ==> buf@[k] == self.rest()[k],
                forall|k: int| n <= k < buf@.len() ==> buf@[k] == old(buf)@[k],
            decreases n - i,
        {
            buf[i] = self.data[self.pos + i];
            i = i + 1;
        }
        let ghost old_rest = self.rest();
        assert(buf@.take(n as int) =~= old_rest.take(n as int));
        assert(buf@.skip(n as int) =~= old(buf)@.skip(n as int));
        self.pos = self.pos + n;
        assert(self.rest() =~= old_rest.skip(n as int));
        n
    }

    /// Reads exactly `n` bytes.
    ///
    /// If fewer bytes remain, they are all consumed and `UnexpectedEof` is
    /// returned.
    pub fn read_exact(&mut self, n: usize) -> (r: Result<Vec<u8>, IoError>)
        ensures
            final(self).data() == old(self).data(),
            n <= old(self).rest().len() ==> {
                &&& r matches Ok(v) && v@ == old(self).rest().take(n as int)
                &&& final(self).pos() == old(self).pos() + n
                &&& final(self).rest() == old(self).rest().skip(n as int)
            },
            n > old(self).rest().len() ==> {
                &&& r == Err::<Vec<u8>, IoError>(IoError::UnexpectedEof)
                &&& final(self).pos() == old(self).pos() + old(self).rest().len()
                &&& final(self).rest() == Seq::<u8>::empty()
            },
    {
        let avail = self.remaining_len();
        if n > avail {
            let ghost old_rest = self.rest();
            self.pos = self.pos + avail;
            assert(self.rest() =~= Seq::<u8>::empty());
            return Err(IoError::UnexpectedEof);
        }
        let mut v: Vec<u8> = Vec::with_capacity(n);
        let mut i: usize = 0;
        while i < n
            invariant
                n <= avail,
                avail == self.rest().len(),
                self.pos <= self.data@.len() || avail == 0,
                avail > 0 ==> self.pos + avail == self.data@.len(),
                self.data@.len() <= usize::MAX,
                i <= n,
                v@.len() == i,
                forall|k: int| 0 <= k < i ==> v@[k] == self.rest()[k],
            decreases n - i,
        {
            v.push(self.data[self.pos + i]);
            i = i + 1;
        }
        let ghost old_rest = self.rest();
        assert(v@ =~= old_rest.take(n as int));
        self.pos = self.pos + n;
        assert(self.rest() =~= old_rest.skip(n as int));
        Ok(v)
    }

    /// Moves the read position forward by `distance` (possibly beyond the end
    /// of the data).
    ///
    /// Fails with `InvalidSeek`, leaving the reader unchanged, if the new
    /// position would overflow.
    pub fn seek_forward(&mut self, distance: u64) -> (r: Result<(), IoError>)
        ensures
            final(self).data() == old(self).data(),
            old(self).pos() + distance <= usize::MAX ==> r is Ok && final(self).pos()
                == old(self).pos() + distance,
            old(self).pos() + distance > usize::MAX ==> r == Err::<(), IoError>(
                IoError::InvalidSeek,
            ) && *final(self) == *old(self),
            distance <= old(self).rest().len() ==> r is Ok && final(self).rest() == old(self).rest().skip(distance as int),
            r is Ok && distance > old(self).rest().len() ==> final(self).rest() == Seq::<
                u8,
            >::empty(),
    {
        let _ = self.remaining_len();
        if distance > (usize::MAX - self.pos) as u64 {
            return Err(IoError::InvalidSeek);
        }
        let ghost old_rest = self.rest();
        self.pos = self.pos + distance as usize;
        assert(distance <= old_rest.len() ==> self.rest() =~= old_rest.skip(distance as int));
        assert(distance > old_rest.len() ==> self.rest() =~= Seq::<u8>::empty());
        Ok(())
    }

    /// Consumes up to `distance` bytes, stopping at the end of the data, and
    /// returns how many were consumed.
    pub fn consume_up_to(&mut self, distance: u64) -> (n: u64)
        ensures
            n == if distance < old(self).rest().len() {
                distance as int
            } else {
                old(self).rest().len() as int
            },
            final(self).data() == old(self).data(),
            final(self).pos() == old(self).pos() + n,
            final(self).rest() == old(self).rest().skip(n as int),
    {
        let avail = self.remaining_len();
        let n: usize = if distance < avail as u64 {
            distance as usize
        } else {
            avail
        };
        let ghost old_rest = self.rest();
        self.pos = self.pos + n;
        assert(self.rest() =~= old_rest.skip(n as int));
        n as u64
    }
}

/// `data` with `bytes` written at `pos`, as a seekable in-memory sink does it:
/// a gap before `pos` is filled with zeros, existing bytes are overwritten, and
/// the data grows as needed.
pub open spec fn spec_write_at(data: Seq<u8>, pos: nat, bytes: Seq<u8>) -> Seq<u8> {
    let padded = if pos <= data.len() {
        data
    } else {
        data + Seq::new((pos - data.len()) as nat, |i: int| 0u8)
    };
    let tail = if pos + bytes.len() <= padded.len() {
        padded.skip((pos + bytes.len()) as int)
    } else {
        Seq::empty()
    };
    padded.take(pos as int) + bytes + tail
}

/// A seekable writer into an in-memory byte buffer.
#[derive(Debug)]
pub struct MemoryWriter {
    data: Vec<u8>,
    pos: usize,
}

impl MemoryWriter {
    /// The bytes written so far.
    pub closed spec fn data(&self) -> Seq<u8> {
        self.data@
    }

    /// The write position.
    pub closed spec fn pos(&self) -> nat {
        self.pos as nat
    }

    /// Creates a writer over the given initial contents, positioned at their
    /// start.
    pub fn new(data: Vec<u8>) -> (w: Self)
        ensures
            w.data() == data@,
            w.pos() == 0,
    {
        MemoryWriter { data, pos: 0 }
    }

    /// Returns the current write position.
    pub fn stream_position(&self) -> (p: u64)
        ensures
            p == self.pos(),
    {
        self.pos as u64
    }

    /// Moves the write position to `pos`, measured from the start.
    pub fn seek_to(&mut self, pos: usize)
        ensures
            final(self).data() == old(self).data(),
            final(self).pos() == pos,
    {
        self.pos = pos;
    }

    /// Returns the whole written data.
    pub fn into_inner(self) -> (v: Vec<u8>)
        ensures
            v@ == self.data(),
    {
        self.data
    }

    /// Returns a view of the written data.
    pub fn get_ref(&self) -> (v: &Vec<u8>)
        ensures
            v@ == self.data(),
    {
        &self.data
    }

    /// Writes all of `bytes` at the current position and moves the position
    /// past them.
    pub fn write_all(&mut self, bytes: &[u8])
        requires
            old(self).pos() + bytes@.len() <= usize::MAX,
        ensures
            final(self).data() == spec_write_at(old(self).data(), old(self).pos(), bytes@),
            final(self).pos() == old(self).pos() + bytes@.len(),
    {
        let ghost d0 = self.data@;
        let ghost p0 = self.pos as nat;
        let ghost zeros = Seq::new((p0 - d0.len()) as nat, |i: int| 0u8);
        let ghost padded = if p0 <= d0.len() {
            d0
        } else {
            d0 + zeros
        };
        while self.data.len() < self.pos
            invariant
                d0.len() <= self.data@.len() <= padded.len(),
                self.pos == p0,
                zeros == Seq::new((p0 - d0.len()) as nat, |i: int| 0u8),
                padded == if p0 <= d0.len() {
                    d0
                } else {
                    d0 + zeros
                },
                padded.len() == if p0 <= d0.len() { d0.len() } else { p0 },
                forall|k: int| 0 <= k < self.data@.len() ==> self.data@[k] == padded[k],
            decreases self.pos - self.data.len(),
        {
            let ghost l = self.data@.len();
            assert(p0 > d0.len());
            assert(padded == d0 + zeros);
            assert(zeros[l - d0.len()] == 0u8);
            assert(padded[l as int] == zeros[l - d0.len()]);
            self.data.push(0u8);
        }
        assert(self.data@ =~= padded);
        let mut i: usize = 0;
        while i < bytes.len()
            invariant
                self.pos == p0,
                p0 + bytes@.len() <= usize::MAX,
                i <= bytes@.len(),
                self.data@.len() == if p0 + i <= padded.len() { padded.len() } else { (p0
                    + i) as nat },
                forall|k: int| 0 <= k < p0 ==> self.data@[k] == padded[k],
                forall|k: int| 0 <= k < i ==> self.data@[p0 + k] == bytes@[k],
                forall|k: int|
                    p0 + i <= k < self.data@.len() ==> self.data@[k] == padded[k],
                padded.len() >= p0,
            decreases bytes@.len() - i,
        {
            let at = self.pos + i;
            if at < self.data.len() {
                self.data.set(at, bytes[i]);
            } else {
                self.data.push(bytes[i]);
            }
            i = i + 1;
        }
        let ghost tail = if p0 + bytes@.len() <= padded.len() {
            padded.skip((p0 + bytes@.len()) as int)
        } else {
            Seq::<u8>::empty()
        };
        assert(self.data@ =~= padded.take(p0 as int) + bytes@ + tail);
        self.pos = self.pos + bytes.len();
    }
}


impl IoError {
    /// The human-readable message of the error.
    pub open spec fn spec_message(&self) -> Seq<char> {
        match self {
            IoError::UnexpectedEof => "unexpected end of data"@,
            IoError::InvalidData => "invalid data"@,
            IoError::InvalidSeek => "invalid seek"@,
        }
    }

    /// Returns the human-readable message of the error.
    pub fn message(&self) -> (s: String)
        ensures
            s@ == self.spec_message(),
    {
        let mut s = String::new();
        match self {
            IoError::UnexpectedEof => s.append("unexpected end of data"),
            IoError::InvalidData => s.append("invalid data"),
            IoError::InvalidSeek => s.append("invalid seek"),
        }
        s
    }
}

} // verus!
