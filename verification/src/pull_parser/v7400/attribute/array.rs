//! Array-type node attributes.

use std::marker::PhantomData;

use vstd::prelude::*;

use crate::codec::{
    byteorder_read_i32, byteorder_read_i64, byteorder_read_u32, byteorder_read_u64, spec_le_u32,
    spec_le_u64,
};
use crate::low::v7400::ArrayAttributeEncoding;
use crate::pull_parser::error::{Compression, DataError, ErrorContainer};
use crate::pull_parser::{Error, Result};
use crate::stream::{IoError, MemoryReader};

verus! {

/// What zlib decompression of `data` gives: `None` if the zlib header is
/// broken, otherwise the bytes produced and the error that stopped the
/// decoding, if any (`None` when the whole stream decoded; on an error, the
/// bytes are those produced before it).
pub uninterp spec fn zlib_decoding(data: Seq<u8>) -> Option<(Seq<u8>, Option<IoError>)>;

/// Decompresses a zlib stream with `libflate`'s `zlib::Decoder`: `Decoder::new`
/// reads the zlib header (an error there is returned in its debugging form),
/// then `read_to_end` collects the decompressed bytes, stopping at the first error,
/// whose kind is kept (an unexpected end of the data as such, any other kind
/// as invalid data). The contract only names the outcome: it is the same for
/// the same input.
#[verifier::external_body]
fn libflate_zlib_decode(data: &[u8]) -> (r: std::result::Result<(Vec<u8>, Option<IoError>), String>)
    ensures
        r matches Ok((v, err)) ==> zlib_decoding(data@) == Some((v@, err)),
        r is Err ==> zlib_decoding(data@) is None,
{
    match libflate::zlib::Decoder::new(data) {
        Err(e) => Err(format!("{:?}", e)),
        Ok(mut decoder) => {
            let mut buf = Vec::new();
            let err = match std::io::Read::read_to_end(&mut decoder, &mut buf) {
                Ok(_) => None,
                Err(e) if e.kind() == std::io::ErrorKind::UnexpectedEof => Some(IoError::UnexpectedEof),
                Err(_) => Some(IoError::InvalidData),
            };
            Ok((buf, err))
        },
    }
}

/// Decoded element stream of an array attribute: the stream bytes, and the
/// error reported once they run out (`None` if the stream cannot even start).
pub open spec fn spec_decoded_stream(encoding: ArrayAttributeEncoding, payload: Seq<u8>) -> Option<
    (Seq<u8>, IoError),
> {
    match encoding {
        ArrayAttributeEncoding::Direct => Some((payload, IoError::UnexpectedEof)),
        ArrayAttributeEncoding::Zlib => match zlib_decoding(payload) {
            None => None,
            Some((out, err)) => Some(
                (
                    out,
                    match err {
                        None => IoError::UnexpectedEof,
                        Some(e) => e,
                    },
                ),
            ),
        },
    }
}

/// Attribute stream decoder: turns the stored bytes of an array attribute into
/// the stream of element bytes.
#[derive(Debug)]
pub(crate) struct AttributeStreamDecoder {
    /// Decoded stream.
    reader: MemoryReader,
    /// Error reported when the decoded stream runs out.
    end_error: IoError,
}

impl AttributeStreamDecoder {
    /// The decoded bytes not read yet.
    pub(crate) closed spec fn spec_rest(&self) -> Seq<u8> {
        self.reader.rest()
    }

    /// The error reported when the decoded stream runs out.
    pub(crate) closed spec fn spec_end_error(&self) -> IoError {
        self.end_error
    }

    /// Creates a new decoded reader.
    ///
    /// The elements come from the stored bytes of the attribute alone (as
    /// many as its header declares, or up to the end of the data): an array
    /// whose elements do not fit in them gives an element error rather than
    /// reading on into the data that follows the attribute.
    ///
    /// A zlib stream with a broken header is a `BrokenCompression` data error.
    pub(crate) fn create(encoding: ArrayAttributeEncoding, payload: Vec<u8>) -> (r: Result<Self>)
        ensures
            spec_decoded_stream(encoding, payload@) matches Some((s, e)) ==> (r matches Ok(d) && d.spec_rest() == s && d.spec_end_error() == e),
            spec_decoded_stream(encoding, payload@) is None ==> (r matches Err(err) && (err.container() matches ErrorContainer::Data(DataError::BrokenCompression(Compression::Zlib, _))) && err.spec_position() is None),
    {
        match encoding {
            ArrayAttributeEncoding::Direct => Ok(
                AttributeStreamDecoder {
                    reader: MemoryReader::new(payload),
                    end_error: IoError::UnexpectedEof,
                },
            ),
            ArrayAttributeEncoding::Zlib => match libflate_zlib_decode(payload.as_slice()) {
                Err(msg) => Err(
                    Error::new(
                        ErrorContainer::Data(DataError::BrokenCompression(Compression::Zlib, msg)),
                    ),
                ),
                Ok((out, err)) => Ok(
                    AttributeStreamDecoder {
                        reader: MemoryReader::new(out),
                        end_error: match err {
                            None => IoError::UnexpectedEof,
                            Some(e) => e,
                        },
                    },
                ),
            },
        }
    }
}

/// The `i32` elements whole in `bytes`, at most `n` of them.
pub open spec fn spec_i32_values(bytes: Seq<u8>, n: nat) -> Seq<i32>
    decreases n,
{
    if n == 0 || bytes.len() < 4 {
        Seq::empty()
    } else {
        seq![spec_le_u32(bytes) as i32] + spec_i32_values(bytes.skip(4), (n - 1) as nat)
    }
}

/// The `i64` elements whole in `bytes`, at most `n` of them.
pub open spec fn spec_i64_values(bytes: Seq<u8>, n: nat) -> Seq<i64>
    decreases n,
{
    if n == 0 || bytes.len() < 8 {
        Seq::empty()
    } else {
        seq![spec_le_u64(bytes) as i64] + spec_i64_values(bytes.skip(8), (n - 1) as nat)
    }
}

/// The 32-bit elements (bit patterns) whole in `bytes`, at most `n` of them.
pub open spec fn spec_u32_values(bytes: Seq<u8>, n: nat) -> Seq<u32>
    decreases n,
{
    if n == 0 || bytes.len() < 4 {
        Seq::empty()
    } else {
        seq![spec_le_u32(bytes)] + spec_u32_values(bytes.skip(4), (n - 1) as nat)
    }
}

/// The 64-bit elements (bit patterns) whole in `bytes`, at most `n` of them.
pub open spec fn spec_u64_values(bytes: Seq<u8>, n: nat) -> Seq<u64>
    decreases n,
{
    if n == 0 || bytes.len() < 8 {
        Seq::empty()
    } else {
        seq![spec_le_u64(bytes)] + spec_u64_values(bytes.skip(8), (n - 1) as nat)
    }
}

/// An I/O error of the given kind, without position.
pub open spec fn is_io_error(e: Error, kind: IoError) -> bool {
    e.container() == ErrorContainer::Io(kind) && e.spec_position() is None
}

/// Array attribute values iterator for `{i,f}{32,64}` array.
///
/// `f32` and `f64` elements are produced as their bit patterns (`u32` and
/// `u64`).
#[derive(Debug)]
pub struct ArrayAttributeValues<E> {
    /// Decoded reader.
    reader: MemoryReader,
    /// Error reported when the decoded stream runs out.
    end_error: IoError,
    /// Number of rest elements.
    rest_elements: u32,
    /// Whether an error is happened.
    has_error: bool,
    /// Element type.
    _element_type: PhantomData<E>,
}

impl<E> ArrayAttributeValues<E> {
    /// The decoded bytes not read yet.
    pub closed spec fn spec_rest_bytes(&self) -> Seq<u8> {
        self.reader.rest()
    }

    /// The error reported when the decoded stream runs out.
    pub closed spec fn spec_end_error(&self) -> IoError {
        self.end_error
    }

    /// The number of elements not read yet.
    pub closed spec fn spec_rest_elements(&self) -> nat {
        self.rest_elements as nat
    }

    /// Whether an error happened.
    pub closed spec fn spec_has_error(&self) -> bool {
        self.has_error
    }

    /// A fresh iterator over `count` elements of the decoded stream `bytes`,
    /// which reports `end_error` once the stream runs out.
    pub open spec fn starts(&self, bytes: Seq<u8>, end_error: IoError, count: u32) -> bool {
        &&& self.spec_rest_bytes() == bytes
        &&& self.spec_end_error() == end_error
        &&& self.spec_rest_elements() == count
        &&& !self.spec_has_error()
    }

    /// Creates a new `ArrayAttributeValues`.
    pub(crate) fn new(decoder: AttributeStreamDecoder, total_elements: u32) -> (r: Self)
        ensures
            r.spec_rest_bytes() == decoder.spec_rest(),
            r.spec_end_error() == decoder.spec_end_error(),
            r.spec_rest_elements() == total_elements,
            !r.spec_has_error(),
    {
        Self {
            reader: decoder.reader,
            end_error: decoder.end_error,
            rest_elements: total_elements,
            has_error: false,
            _element_type: PhantomData,
        }
    }

    /// Returns whether an error happened or not.
    pub fn has_error(&self) -> (r: bool)
        ensures
            r == self.spec_has_error(),
    {
        self.has_error
    }

    /// Returns the size hint: no lower bound, and the number of rest elements
    /// as the upper bound.
    pub fn size_hint(&self) -> (r: (usize, Option<usize>))
        ensures
            r == (0usize, Some(self.spec_rest_elements() as usize)),
    {
        (0, Some(self.rest_elements as usize))
    }
}

impl ArrayAttributeValues<i32> {
    /// The elements that can still be read.
    pub open spec fn values(&self) -> Seq<i32> {
        spec_i32_values(self.spec_rest_bytes(), self.spec_rest_elements())
    }

    /// Whether every rest element can be read.
    pub open spec fn complete(&self) -> bool {
        self.spec_rest_bytes().len() >= 4 * self.spec_rest_elements()
    }

    /// Reads the next element.
    pub fn next(&mut self) -> (r: Option<Result<i32>>)
        ensures
            final(self).spec_end_error() == old(self).spec_end_error(),
            old(self).spec_rest_elements() == 0 ==> r is None && *final(self) == *old(self),
            old(self).spec_rest_elements() > 0 && old(self).spec_rest_bytes().len() >= 4 ==> {
                &&& r == Some(Ok::<i32, Error>(old(self).values()[0]))
                &&& final(self).values() == old(self).values().drop_first()
                &&& final(self).complete() == old(self).complete()
                &&& final(self).spec_rest_elements() == old(self).spec_rest_elements() - 1
                &&& final(self).spec_has_error() == old(self).spec_has_error()
            },
            old(self).spec_rest_elements() > 0 && old(self).spec_rest_bytes().len() < 4 ==> {
                &&& r matches Some(Err(e)) && is_io_error(e, old(self).spec_end_error())
                &&& final(self).spec_has_error()
                &&& final(self).spec_rest_elements() == old(self).spec_rest_elements()
                &&& final(self).values() == Seq::<i32>::empty()
                &&& !final(self).complete()
            },
    {
        if self.rest_elements == 0 {
            return None;
        }
        match self.reader.read_exact(4) {
            Ok(bytes) => {
                let v = byteorder_read_i32(bytes.as_slice());
                self.rest_elements = self.rest_elements - 1;
                Some(Ok(v))
            },
            Err(_) => {
                self.has_error = true;
                Some(Err(Error::new(ErrorContainer::Io(self.end_error))))
            },
        }
    }
}

impl ArrayAttributeValues<i64> {
    /// The elements that can still be read.
    pub open spec fn values(&self) -> Seq<i64> {
        spec_i64_values(self.spec_rest_bytes(), self.spec_rest_elements())
    }

    /// Whether every rest element can be read.
    pub open spec fn complete(&self) -> bool {
        self.spec_rest_bytes().len() >= 8 * self.spec_rest_elements()
    }

    /// Reads the next element.
    pub fn next(&mut self) -> (r: Option<Result<i64>>)
        ensures
            final(self).spec_end_error() == old(self).spec_end_error(),
            old(self).spec_rest_elements() == 0 ==> r is None && *final(self) == *old(self),
            old(self).spec_rest_elements() > 0 && old(self).spec_rest_bytes().len() >= 8 ==> {
                &&& r == Some(Ok::<i64, Error>(old(self).values()[0]))
                &&& final(self).values() == old(self).values().drop_first()
                &&& final(self).complete() == old(self).complete()
                &&& final(self).spec_rest_elements() == old(self).spec_rest_elements() - 1
                &&& final(self).spec_has_error() == old(self).spec_has_error()
            },
            old(self).spec_rest_elements() > 0 && old(self).spec_rest_bytes().len() < 8 ==> {
                &&& r matches Some(Err(e)) && is_io_error(e, old(self).spec_end_error())
                &&& final(self).spec_has_error()
                &&& final(self).spec_rest_elements() == old(self).spec_rest_elements()
                &&& final(self).values() == Seq::<i64>::empty()
                &&& !final(self).complete()
            },
    {
        if self.rest_elements == 0 {
            return None;
        }
        match self.reader.read_exact(8) {
            Ok(bytes) => {
                let v = byteorder_read_i64(bytes.as_slice());
                self.rest_elements = self.rest_elements - 1;
                Some(Ok(v))
            },
            Err(_) => {
                self.has_error = true;
                Some(Err(Error::new(ErrorContainer::Io(self.end_error))))
            },
        }
    }
}

impl ArrayAttributeValues<u32> {
    /// The elements (bit patterns) that can still be read.
    pub open spec fn values(&self) -> Seq<u32> {
        spec_u32_values(self.spec_rest_bytes(), self.spec_rest_elements())
    }

    /// Whether every rest element can be read.
    pub open spec fn complete(&self) -> bool {
        self.spec_rest_bytes().len() >= 4 * self.spec_rest_elements()
    }

    /// Reads the next element.
    pub fn next(&mut self) -> (r: Option<Result<u32>>)
        ensures
            final(self).spec_end_error() == old(self).spec_end_error(),
            old(self).spec_rest_elements() == 0 ==> r is None && *final(self) == *old(self),
            old(self).spec_rest_elements() > 0 && old(self).spec_rest_bytes().len() >= 4 ==> {
                &&& r == Some(Ok::<u32, Error>(old(self).values()[0]))
                &&& final(self).values() == old(self).values().drop_first()
                &&& final(self).complete() == old(self).complete()
                &&& final(self).spec_rest_elements() == old(self).spec_rest_elements() - 1
                &&& final(self).spec_has_error() == old(self).spec_has_error()
            },
            old(self).spec_rest_elements() > 0 && old(self).spec_rest_bytes().len() < 4 ==> {
                &&& r matches Some(Err(e)) && is_io_error(e, old(self).spec_end_error())
                &&& final(self).spec_has_error()
                &&& final(self).spec_rest_elements() == old(self).spec_rest_elements()
                &&& final(self).values() == Seq::<u32>::empty()
                &&& !final(self).complete()
            },
    {
        if self.rest_elements == 0 {
            return None;
        }
        match self.reader.read_exact(4) {
            Ok(bytes) => {
                let v = byteorder_read_u32(bytes.as_slice());
                self.rest_elements = self.rest_elements - 1;
                Some(Ok(v))
            },
            Err(_) => {
                self.has_error = true;
                Some(Err(Error::new(ErrorContainer::Io(self.end_error))))
            },
        }
    }
}

impl ArrayAttributeValues<u64> {
    /// The elements (bit patterns) that can still be read.
    pub open spec fn values(&self) -> Seq<u64> {
        spec_u64_values(self.spec_rest_bytes(), self.spec_rest_elements())
    }

    /// Whether every rest element can be read.
    pub open spec fn complete(&self) -> bool {
        self.spec_rest_bytes().len() >= 8 * self.spec_rest_elements()
    }

    /// Reads the next element.
    pub fn next(&mut self) -> (r: Option<Result<u64>>)
        ensures
            final(self).spec_end_error() == old(self).spec_end_error(),
            old(self).spec_rest_elements() == 0 ==> r is None && *final(self) == *old(self),
            old(self).spec_rest_elements() > 0 && old(self).spec_rest_bytes().len() >= 8 ==> {
                &&& r == Some(Ok::<u64, Error>(old(self).values()[0]))
                &&& final(self).values() == old(self).values().drop_first()
                &&& final(self).complete() == old(self).complete()
                &&& final(self).spec_rest_elements() == old(self).spec_rest_elements() - 1
                &&& final(self).spec_has_error() == old(self).spec_has_error()
            },
            old(self).spec_rest_elements() > 0 && old(self).spec_rest_bytes().len() < 8 ==> {
                &&& r matches Some(Err(e)) && is_io_error(e, old(self).spec_end_error())
                &&& final(self).spec_has_error()
                &&& final(self).spec_rest_elements() == old(self).spec_rest_elements()
                &&& final(self).values() == Seq::<u64>::empty()
                &&& !final(self).complete()
            },
    {
        if self.rest_elements == 0 {
            return None;
        }
        match self.reader.read_exact(8) {
            Ok(bytes) => {
                let v = byteorder_read_u64(bytes.as_slice());
                self.rest_elements = self.rest_elements - 1;
                Some(Ok(v))
            },
            Err(_) => {
                self.has_error = true;
                Some(Err(Error::new(ErrorContainer::Io(self.end_error))))
            },
        }
    }
}

/// The boolean a raw byte stands for: its lowest bit.
pub open spec fn spec_bool_of(raw: u8) -> bool {
    raw % 2 == 1
}

/// The booleans raw bytes stand for.
pub open spec fn spec_bools_of(raws: Seq<u8>) -> Seq<bool> {
    raws.map_values(|raw: u8| spec_bool_of(raw))
}

/// Whether a raw byte is a correct boolean representation (`b'T'` or `b'Y'`).
pub open spec fn spec_is_correct_bool(raw: u8) -> bool {
    raw == 84 || raw == 89
}

/// Whether some raw byte is an incorrect boolean representation.
pub open spec fn spec_has_incorrect_bool(raws: Seq<u8>) -> bool {
    exists|k: int| 0 <= k < raws.len() && !spec_is_correct_bool(#[trigger] raws[k])
}

/// Decodes a raw boolean byte.
pub(crate) fn bool_of(raw: u8) -> (b: bool)
    ensures
        b == spec_bool_of(raw),
{
    let b = (raw & 1) != 0;
    assert(((raw & 1) != 0) == (raw % 2 == 1)) by (bit_vector);
    b
}

/// Array attribute values iterator for `bool` array.
#[derive(Debug)]
pub struct BooleanArrayAttributeValues {
    /// Decoded reader.
    reader: MemoryReader,
    /// Error reported when the decoded stream runs out.
    end_error: IoError,
    /// Number of rest elements.
    rest_elements: u32,
    /// Whether an error is happened.
    has_error: bool,
    /// Whether the attribute has incorrect boolean value representation.
    has_incorrect_boolean_value: bool,
}

impl BooleanArrayAttributeValues {
    /// The decoded bytes not read yet.
    pub closed spec fn spec_rest_bytes(&self) -> Seq<u8> {
        self.reader.rest()
    }

    /// The error reported when the decoded stream runs out.
    pub closed spec fn spec_end_error(&self) -> IoError {
        self.end_error
    }

    /// The number of elements not read yet.
    pub closed spec fn spec_rest_elements(&self) -> nat {
        self.rest_elements as nat
    }

    /// Whether an error happened.
    pub closed spec fn spec_has_error(&self) -> bool {
        self.has_error
    }

    /// Whether an element read so far had an incorrect representation.
    pub closed spec fn spec_has_incorrect(&self) -> bool {
        self.has_incorrect_boolean_value
    }

    /// The raw bytes of the elements that can still be read.
    pub open spec fn raw_values(&self) -> Seq<u8> {
        if self.spec_rest_elements() <= self.spec_rest_bytes().len() {
            self.spec_rest_bytes().take(self.spec_rest_elements() as int)
        } else {
            self.spec_rest_bytes()
        }
    }

    /// The elements that can still be read.
    pub open spec fn values(&self) -> Seq<bool> {
        spec_bools_of(self.raw_values())
    }

    /// Whether every rest element can be read.
    pub open spec fn complete(&self) -> bool {
        self.spec_rest_bytes().len() >= self.spec_rest_elements()
    }

    /// A fresh iterator over `count` elements of the decoded stream `bytes`,
    /// which reports `end_error` once the stream runs out.
    pub open spec fn starts(&self, bytes: Seq<u8>, end_error: IoError, count: u32) -> bool {
        &&& self.spec_rest_bytes() == bytes
        &&& self.spec_end_error() == end_error
        &&& self.spec_rest_elements() == count
        &&& !self.spec_has_error()
        &&& !self.spec_has_incorrect()
    }

    /// Creates a new `BooleanArrayAttributeValues`.
    pub(crate) fn new(decoder: AttributeStreamDecoder, total_elements: u32) -> (r: Self)
        ensures
            r.spec_rest_bytes() == decoder.spec_rest(),
            r.spec_end_error() == decoder.spec_end_error(),
            r.spec_rest_elements() == total_elements,
            !r.spec_has_error(),
            !r.spec_has_incorrect(),
    {
        Self {
            reader: decoder.reader,
            end_error: decoder.end_error,
            rest_elements: total_elements,
            has_error: false,
            has_incorrect_boolean_value: false,
        }
    }

    /// Returns whether the attribute has incorrect boolean value
    /// representation.
    pub fn has_incorrect_boolean_value(&self) -> (r: bool)
        ensures
            r == self.spec_has_incorrect(),
    {
        self.has_incorrect_boolean_value
    }

    /// Returns whether an error happened or not.
    pub fn has_error(&self) -> (r: bool)
        ensures
            r == self.spec_has_error(),
    {
        self.has_error
    }

    /// Returns the size hint: no lower bound, and the number of rest elements
    /// as the upper bound.
    pub fn size_hint(&self) -> (r: (usize, Option<usize>))
        ensures
            r == (0usize, Some(self.spec_rest_elements() as usize)),
    {
        (0, Some(self.rest_elements as usize))
    }

    /// Reads the next element.
    pub fn next(&mut self) -> (r: Option<Result<bool>>)
        ensures
            final(self).spec_end_error() == old(self).spec_end_error(),
            old(self).spec_rest_elements() == 0 ==> r is None && *final(self) == *old(self),
            old(self).spec_rest_elements() > 0 && old(self).spec_rest_bytes().len() >= 1 ==> {
                &&& r == Some(Ok::<bool, Error>(old(self).values()[0]))
                &&& final(self).raw_values() == old(self).raw_values().drop_first()
                &&& final(self).complete() == old(self).complete()
                &&& final(self).spec_rest_elements() == old(self).spec_rest_elements() - 1
                &&& final(self).spec_has_error() == old(self).spec_has_error()
                &&& final(self).spec_has_incorrect() == (old(self).spec_has_incorrect()
                    || !spec_is_correct_bool(old(self).raw_values()[0]))
            },
            old(self).spec_rest_elements() > 0 && old(self).spec_rest_bytes().len() < 1 ==> {
                &&& r matches Some(Err(e)) && is_io_error(e, old(self).spec_end_error())
                &&& final(self).spec_has_error()
                &&& final(self).spec_rest_elements() == old(self).spec_rest_elements()
                &&& final(self).spec_has_incorrect() == old(self).spec_has_incorrect()
                &&& final(self).raw_values() == Seq::<u8>::empty()
                &&& !final(self).complete()
            },
    {
        if self.rest_elements == 0 {
            return None;
        }
        let ghost raws = self.raw_values();
        match self.reader.read_exact(1) {
            Ok(bytes) => {
                let raw = bytes[0];
                self.rest_elements = self.rest_elements - 1;
                if raw != 84u8 && raw != 89u8 {
                    self.has_incorrect_boolean_value = true;
                }
                let v = bool_of(raw);
                assert(self.raw_values() =~= raws.drop_first());
                Some(Ok(v))
            },
            Err(_) => {
                self.has_error = true;
                assert(self.raw_values() =~= Seq::<u8>::empty());
                Some(Err(Error::new(ErrorContainer::Io(self.end_error))))
            },
        }
    }

    /// Reads all rest elements, stopping at the first error.
    pub fn collect_values(&mut self) -> (r: Result<Vec<bool>>)
        ensures
            final(self).spec_rest_elements() == 0 || final(self).spec_has_error(),
            old(self).complete() ==> {
                &&& r matches Ok(v) && v@ == old(self).values()
                &&& final(self).spec_has_error() == old(self).spec_has_error()
            },
            !old(self).complete() ==> {
                &&& r matches Err(e) && is_io_error(e, old(self).spec_end_error())
                &&& final(self).spec_has_error()
            },
            final(self).spec_has_incorrect() == (old(self).spec_has_incorrect()
                || spec_has_incorrect_bool(old(self).raw_values())),
    {
        let mut out: Vec<bool> = Vec::new();
        let ghost raws0 = self.raw_values();
        loop
            invariant
                out@.len() + self.raw_values().len() == raws0.len(),
                raws0 == old(self).raw_values(),
                self.raw_values() == raws0.skip(out@.len() as int),
                out@ == raws0.take(out@.len() as int).map_values(|raw: u8| spec_bool_of(raw)),
                self.complete() == old(self).complete(),
                self.spec_has_error() == old(self).spec_has_error(),
                self.spec_end_error() == old(self).spec_end_error(),
                self.spec_has_incorrect() == (old(self).spec_has_incorrect()
                    || spec_has_incorrect_bool(raws0.take(out@.len() as int))),
            decreases self.spec_rest_elements(),
        {
            let ghost before = self.raw_values();
            match self.next() {
                None => {
                    assert(raws0.take(out@.len() as int) =~= raws0);
                    assert(out@ =~= raws0.map_values(|raw: u8| spec_bool_of(raw)));
                    return Ok(out);
                },
                Some(Ok(v)) => {
                    let ghost n = out@.len();
                    out.push(v);
                    assert(raws0.skip(n as int + 1) =~= raws0.skip(n as int).drop_first());
                    assert(raws0.take(n as int + 1) =~= raws0.take(n as int).push(raws0[n as int]));
                    assert(out@ =~= raws0.take(out@.len() as int).map_values(|raw: u8| spec_bool_of(raw)));
                    assert(spec_has_incorrect_bool(raws0.take(n as int + 1)) == (spec_has_incorrect_bool(raws0.take(n as int)) || !spec_is_correct_bool(raws0[n as int]))) by {
                        let t = raws0.take(n as int + 1);
                        if !spec_is_correct_bool(raws0[n as int]) {
                            assert(!spec_is_correct_bool(t[n as int]));
                        }
                        if spec_has_incorrect_bool(raws0.take(n as int)) {
                            let k = choose|k: int| 0 <= k < n && !spec_is_correct_bool(#[trigger] raws0.take(n as int)[k]);
                            assert(!spec_is_correct_bool(t[k]));
                        }
                        if spec_has_incorrect_bool(t) {
                            let k = choose|k: int| 0 <= k < t.len() && !spec_is_correct_bool(#[trigger] t[k]);
                            if k < n {
                                assert(!spec_is_correct_bool(raws0.take(n as int)[k]));
                            }
                        }
                    }
                },
                Some(Err(e)) => {
                    assert(before.len() == 0);
                    assert(raws0.take(out@.len() as int) =~= raws0);
                    return Err(e);
                },
            }
        }
    }
}

impl ArrayAttributeValues<i32> {
    /// Reads all rest elements, stopping at the first error.
    pub fn collect_values(&mut self) -> (r: Result<Vec<i32>>)
        ensures
            final(self).spec_rest_elements() == 0 || final(self).spec_has_error(),
            old(self).complete() ==> {
                &&& r matches Ok(v) && v@ == old(self).values()
                &&& final(self).spec_has_error() == old(self).spec_has_error()
            },
            !old(self).complete() ==> {
                &&& r matches Err(e) && is_io_error(e, old(self).spec_end_error())
                &&& final(self).spec_has_error()
            },
    {
        let mut out: Vec<i32> = Vec::new();
        loop
            invariant
                out@ + self.values() == old(self).values(),
                self.complete() == old(self).complete(),
                self.spec_has_error() == old(self).spec_has_error(),
                self.spec_end_error() == old(self).spec_end_error(),
            decreases self.spec_rest_elements(),
        {
            match self.next() {
                None => {
                    assert(out@ =~= old(self).values());
                    return Ok(out);
                },
                Some(Ok(v)) => {
                    let ghost o = out@;
                    out.push(v);
                    assert(out@ + self.values() =~= o + seq![v] + self.values());
                },
                Some(Err(e)) => {
                    return Err(e);
                },
            }
        }
    }
}

impl ArrayAttributeValues<i64> {
    /// Reads all rest elements, stopping at the first error.
    pub fn collect_values(&mut self) -> (r: Result<Vec<i64>>)
        ensures
            final(self).spec_rest_elements() == 0 || final(self).spec_has_error(),
            old(self).complete() ==> {
                &&& r matches Ok(v) && v@ == old(self).values()
                &&& final(self).spec_has_error() == old(self).spec_has_error()
            },
            !old(self).complete() ==> {
                &&& r matches Err(e) && is_io_error(e, old(self).spec_end_error())
                &&& final(self).spec_has_error()
            },
    {
        let mut out: Vec<i64> = Vec::new();
        loop
            invariant
                out@ + self.values() == old(self).values(),
                self.complete() == old(self).complete(),
                self.spec_has_error() == old(self).spec_has_error(),
                self.spec_end_error() == old(self).spec_end_error(),
            decreases self.spec_rest_elements(),
        {
            match self.next() {
                None => {
                    assert(out@ =~= old(self).values());
                    return Ok(out);
                },
                Some(Ok(v)) => {
                    let ghost o = out@;
                    out.push(v);
                    assert(out@ + self.values() =~= o + seq![v] + self.values());
                },
                Some(Err(e)) => {
                    return Err(e);
                },
            }
        }
    }
}

impl ArrayAttributeValues<u32> {
    /// Reads all rest elements, stopping at the first error.
    pub fn collect_values(&mut self) -> (r: Result<Vec<u32>>)
        ensures
            final(self).spec_rest_elements() == 0 || final(self).spec_has_error(),
            old(self).complete() ==> {
                &&& r matches Ok(v) && v@ == old(self).values()
                &&& final(self).spec_has_error() == old(self).spec_has_error()
            },
            !old(self).complete() ==> {
                &&& r matches Err(e) && is_io_error(e, old(self).spec_end_error())
                &&& final(self).spec_has_error()
            },
    {
        let mut out: Vec<u32> = Vec::new();
        loop
            invariant
                out@ + self.values() == old(self).values(),
                self.complete() == old(self).complete(),
                self.spec_has_error() == old(self).spec_has_error(),
                self.spec_end_error() == old(self).spec_end_error(),
            decreases self.spec_rest_elements(),
        {
            match self.next() {
                None => {
                    assert(out@ =~= old(self).values());
                    return Ok(out);
                },
                Some(Ok(v)) => {
                    let ghost o = out@;
                    out.push(v);
                    assert(out@ + self.values() =~= o + seq![v] + self.values());
                },
                Some(Err(e)) => {
                    return Err(e);
                },
            }
        }
    }
}

impl ArrayAttributeValues<u64> {
    /// Reads all rest elements, stopping at the first error.
    pub fn collect_values(&mut self) -> (r: Result<Vec<u64>>)
        ensures
            final(self).spec_rest_elements() == 0 || final(self).spec_has_error(),
            old(self).complete() ==> {
                &&& r matches Ok(v) && v@ == old(self).values()
                &&& final(self).spec_has_error() == old(self).spec_has_error()
            },
            !old(self).complete() ==> {
                &&& r matches Err(e) && is_io_error(e, old(self).spec_end_error())
                &&& final(self).spec_has_error()
            },
    {
        let mut out: Vec<u64> = Vec::new();
        loop
            invariant
                out@ + self.values() == old(self).values(),
                self.complete() == old(self).complete(),
                self.spec_has_error() == old(self).spec_has_error(),
                self.spec_end_error() == old(self).spec_end_error(),
            decreases self.spec_rest_elements(),
        {
            match self.next() {
                None => {
                    assert(out@ =~= old(self).values());
                    return Ok(out);
                },
                Some(Ok(v)) => {
                    let ghost o = out@;
                    out.push(v);
                    assert(out@ + self.values() =~= o + seq![v] + self.values());
                },
                Some(Err(e)) => {
                    return Err(e);
                },
            }
        }
    }
}

} // verus!
