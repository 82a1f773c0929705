//! Node attributes.

pub use self::array::{
    spec_bools_of, spec_decoded_stream, zlib_decoding,
    is_io_error, spec_bool_of, spec_has_incorrect_bool, spec_i32_values, spec_i64_values,
    spec_is_correct_bool, spec_u32_values, spec_u64_values, ArrayAttributeValues,
    BooleanArrayAttributeValues,
};
pub use self::layout::{
    fails_with, fails_with_broken_zlib, is_attr_position, spec_array_outcome,
    spec_bool_array_outcome, spec_loads_array_bool, spec_loads_array_f32, spec_loads_array_f64,
    spec_loads_array_i32, spec_loads_array_i64, spec_loads_attribute, spec_loads_bool,
    spec_loads_single, spec_loads_special, spec_loads_value, spec_payload, spec_truncated,
    spec_warnings_after,
};
pub(crate) use self::loader::std_string_from_utf8;
pub use self::loader::spec_utf8_error_debug;
pub use self::loader::{
    collects_bools, collects_i32, collects_i64, collects_u32, collects_u64,
    is_unexpected_attribute, read_utf8, reads_utf8, unexpected_attribute, vec_result_view,
    LoadAttribute,
};

mod array;
pub mod iter;
mod layout;
mod loader;
pub mod loaders;
mod value;

use vstd::prelude::*;

use crate::low::v7400::{spec_from_type_code, AttributeValue};
use crate::pull_parser::error::{ErrorContainer, OperationError, Warning};
use crate::pull_parser::reader::{lemma_consumed_none, lemma_consumed_trans, spec_consumed, Reader};
use crate::pull_parser::v7400::{spec_headroom, Parser};
use crate::pull_parser::{ParserSource, Result, SyntacticPosition};
use crate::stream::IoError;

use self::iter::{BorrowedIter, BorrowedIterBuffered, OwnedIter, OwnedIterBuffered};
use self::loaders::{BufferedLoader, DirectLoader};
use self::value::load_value;

verus! {

/// Node attributes reader.
#[derive(Debug)]
pub struct Attributes<'a> {
    /// Total number of attributes of the current node.
    total_count: u64,
    /// Rest number of attributes of the current node.
    rest_count: u64,
    /// Beginning offset of the next attribute (if available).
    ///
    /// This is almost same as "end offset of the previous attribute (if
    /// available)".
    next_attr_start_offset: u64,
    /// Parser.
    parser: &'a mut Parser,
}

/// Parsing stopped on the error `c`: `r` is that error at the position of the
/// attribute, and the parser is aborted there.
pub open spec fn spec_stopped<T>(
    q: Parser,
    r: Result<T>,
    c: ErrorContainer,
    byte_pos: int,
    start: u64,
    path: Seq<(usize, String)>,
    index: usize,
) -> bool {
    &&& q.spec_aborted()
    &&& q.spec_abort_position() matches Some(a) && is_attr_position(a, byte_pos, start, path, index)
    &&& r matches Err(e) && e.container() == c && (e.spec_position() matches Some(p)
        && is_attr_position(p, byte_pos, start, path, index))
}

/// What loading the next attribute with `loader` does, from `old` to `new`,
/// returning `r` (see `spec_attr_step`).
pub open spec fn spec_load_next<'a, V: LoadAttribute>(
    old: Attributes<'a>,
    new: Attributes<'a>,
    loader: V,
    r: Result<Option<V::Output>>,
) -> bool {
    &&& new.spec_total_count() == old.spec_total_count()
    &&& spec_attr_step(
        old.spec_parser(),
        old.spec_total_count(),
        old.spec_rest_count(),
        old.spec_next_offset(),
        new.spec_parser(),
        new.spec_rest_count(),
        new.spec_next_offset(),
        loader,
        r,
    )
}

/// What loading the next attribute with `loader` does: from the parser `p`,
/// with `rest` attributes left out of `total` and the next one at offset
/// `next`, to the parser `q` with `rest2` left and the next one at `next2`,
/// returning `r`.
///
/// A parser which cannot continue gives its operation error. With no
/// attribute left, the result is `Ok(None)`. Otherwise the rest of the
/// previous attribute is skipped, and the next one is loaded as
/// `spec_loads_attribute` states; on an error the parser is aborted at the
/// attribute's position.
pub open spec fn spec_attr_step<V: LoadAttribute>(
    p: Parser,
    total: u64,
    rest: u64,
    next: u64,
    q: Parser,
    rest2: u64,
    next2: u64,
    loader: V,
    r: Result<Option<V::Output>>,
) -> bool {
    if !p.spec_running() {
        &&& q == p
        &&& rest2 == rest
        &&& next2 == next
        &&& r matches Err(e) && e.spec_position() is None && e.container()
            == ErrorContainer::Operation(
            if p.spec_aborted() {
                OperationError::AlreadyAborted
            } else {
                OperationError::AlreadyFinished
            },
        )
    } else if rest == 0 {
        &&& q == p
        &&& rest2 == 0
        &&& next2 == next
        &&& r == Ok::<Option<V::Output>, crate::pull_parser::Error>(None)
    } else {
        spec_attr_started(p, total, rest, next, q, rest2, next2, loader, r)
    }
}

/// What loading the next attribute does once the parser is known to be able
/// to continue and some attribute is left (see `spec_attr_step`).
pub open spec fn spec_attr_started<V: LoadAttribute>(
    p: Parser,
    total: u64,
    rest: u64,
    next: u64,
    q: Parser,
    rest2: u64,
    next2: u64,
    loader: V,
    r: Result<Option<V::Output>>,
) -> bool {
    let rd = p.spec_reader();
    let rd2 = q.spec_reader();
    let start = next;
    let index = (total - rest) as usize;
    let path = p.spec_node_path();
    let d: nat = if rd.spec_position() < start {
        (start - rd.spec_position()) as nat
    } else {
        0
    };
    &&& q.same_document(&p)
    &&& rd2.spec_seekable() == rd.spec_seekable()
    &&& if d > rd.spec_rest().len() {
        &&& rd2.spec_rest() == Seq::<u8>::empty()
        &&& rd2.spec_position() == if rd.spec_seekable() {
            start as nat
        } else {
            rd.spec_position() + rd.spec_rest().len()
        }
        &&& rest2 == rest
        &&& q.spec_warnings() == p.spec_warnings()
        &&& spec_stopped(
            q,
            r,
            ErrorContainer::Io(IoError::UnexpectedEof),
            rd2.spec_position() as int,
            start,
            path,
            index,
        )
    } else {
        let b = rd.spec_rest().skip(d as int);
        let typed = b.len() >= 1 && spec_from_type_code(b[0]) is Some;
        &&& rest2 == if typed {
            (rest - 1) as u64
        } else {
            rest
        }
        &&& spec_loaded(
            loader,
            b,
            p.spec_warnings_critical(),
            rd,
            p.spec_warnings(),
            q,
            r,
            d,
            next2,
            start,
            path,
            index,
        )
    }
}

/// The attribute stored at the start of `b`, `d` bytes after the position of
/// the reader `rd` before, was loaded: `q` is the parser after, `r` the result
/// and `new_next` the offset of the next attribute.
pub open spec fn spec_loaded<V: LoadAttribute>(
    loader: V,
    b: Seq<u8>,
    critical: bool,
    rd: Reader,
    warnings: Seq<(Warning, SyntacticPosition)>,
    q: Parser,
    r: Result<Option<V::Output>>,
    d: nat,
    new_next: u64,
    start: u64,
    path: Seq<(usize, String)>,
    index: usize,
) -> bool {
    exists|lr: Result<V::Output>, n: nat, warned: bool, next: nat|
        #![trigger spec_loads_attribute(loader, b, critical, lr, n, warned, next)]
        {
            &&& spec_loads_attribute(loader, b, critical, lr, n, warned, next)
            &&& spec_consumed(rd, q.spec_reader(), d + n)
            &&& spec_warnings_after(
                warnings,
                q.spec_warnings(),
                warned,
                q.spec_reader().spec_position() as int,
                start,
                path,
                index,
            )
            &&& match lr {
                Ok(o) => {
                    &&& r == Ok::<Option<V::Output>, crate::pull_parser::Error>(Some(o))
                    &&& q.spec_running()
                    &&& new_next == rd.spec_position() + d + next
                },
                Err(le) => spec_stopped(
                    q,
                    r,
                    le.container(),
                    q.spec_reader().spec_position() as int,
                    start,
                    path,
                    index,
                ),
            }
        }
}

impl<'a> Attributes<'a> {
    /// The parser.
    pub closed spec fn spec_parser(&self) -> Parser {
        *self.parser
    }

    /// The total number of attributes.
    pub closed spec fn spec_total_count(&self) -> u64 {
        self.total_count
    }

    /// The number of attributes not read yet.
    pub closed spec fn spec_rest_count(&self) -> u64 {
        self.rest_count
    }

    /// The beginning offset of the next attribute.
    pub closed spec fn spec_next_offset(&self) -> u64 {
        self.next_attr_start_offset
    }

    /// `self` is `other` with nothing read.
    pub open spec fn unchanged(&self, other: &Attributes<'a>) -> bool {
        &&& self.spec_parser() == other.spec_parser()
        &&& self.spec_total_count() == other.spec_total_count()
        &&& self.spec_rest_count() == other.spec_rest_count()
        &&& self.spec_next_offset() == other.spec_next_offset()
    }

    /// The index of the next attribute.
    pub open spec fn spec_next_index(&self) -> usize {
        (self.spec_total_count() - self.spec_rest_count()) as usize
    }

    /// Well-formedness: no more attributes left than there are, and the next
    /// attribute offset within reach of the parser.
    pub open spec fn wf(&self) -> bool {
        &&& self.spec_rest_count() <= self.spec_total_count()
        &&& self.spec_parser().wf()
        &&& self.spec_parser().spec_running() ==> self.spec_next_offset()
            <= self.spec_parser().spec_reader().spec_position()
            + self.spec_parser().spec_reader().spec_rest().len() + spec_headroom()
    }

    /// Creates a new `Attributes` for the current node of the parser.
    pub(crate) fn from_parser(parser: &'a mut Parser) -> (r: Self)
        requires
            old(parser).wf(),
        ensures
            r.wf(),
            r.spec_parser() == *old(parser),
            r.spec_total_count() == old(parser).spec_attributes_count(),
            r.spec_rest_count() == r.spec_total_count(),
            r.spec_next_offset() == old(parser).spec_reader().spec_position(),
    {
        let total_count = parser.current_attributes_count();
        let pos = parser.reader_position();
        Self { total_count, rest_count: total_count, next_attr_start_offset: pos, parser }
    }

    /// Returns the total number of attributes.
    pub fn total_count(&self) -> (r: u64)
        ensures
            r == self.spec_total_count(),
    {
        self.total_count
    }

    /// Returns the number of the rest attributes.
    pub fn rest_count(&self) -> (r: u64)
        ensures
            r == self.spec_rest_count(),
    {
        self.rest_count
    }

    /// Returns the syntactic position of the attribute currently reading.
    fn position(&self, start_pos: u64, index: usize) -> (p: SyntacticPosition)
        ensures
            is_attr_position(
                p,
                self.spec_parser().spec_reader().spec_position() as int,
                start_pos,
                self.spec_parser().spec_node_path(),
                index,
            ),
    {
        self.parser.position().with_attribute(start_pos, index)
    }

    /// Lets loader load the next node attribute.
    ///
    /// Returns `Ok(None)` when no attribute is left.
    pub fn load_next<V: LoadAttribute>(&mut self, loader: V) -> (r: Result<Option<V::Output>>)
        requires
            old(self).wf(),
        ensures
            final(self).wf(),
            spec_load_next(*old(self), *final(self), loader, r),
    {
        load_step(
            self.parser,
            self.total_count,
            &mut self.rest_count,
            &mut self.next_attr_start_offset,
            loader,
        )
    }

    /// Lets loader load the next node attribute, with buffered I/O.
    ///
    /// This prefers the loader's `load_binary_buffered` and
    /// `load_string_buffered` to `load_binary` and `load_string`: it loads as
    /// [`Self::load_next`] does with the loader wrapped in a
    /// [`BufferedLoader`].
    pub fn load_next_buffered<V: LoadAttribute>(&mut self, loader: V) -> (r: Result<
        Option<V::Output>,
    >)
        requires
            old(self).wf(),
        ensures
            final(self).wf(),
            spec_load_next(*old(self), *final(self), BufferedLoader(loader), r),
    {
        load_step(
            self.parser,
            self.total_count,
            &mut self.rest_count,
            &mut self.next_attr_start_offset,
            BufferedLoader(loader),
        )
    }

    /// Creates an iterator emitting attribute values, loading each attribute
    /// with the next of the given loaders.
    pub fn iter<'s, V: LoadAttribute>(&'s mut self, loaders: Vec<V>) -> (r: BorrowedIter<'s, 'a, V>)
        requires
            old(self).wf(),
        ensures
            r.spec_attributes() == *old(self),
            r.spec_loaders() == loaders@,
    {
        BorrowedIter::new(self, loaders)
    }

    /// Creates an iterator emitting attribute values with buffered I/O.
    pub fn iter_buffered<'s, V: LoadAttribute>(&'s mut self, loaders: Vec<V>) -> (r:
        BorrowedIterBuffered<'s, 'a, V>)
        requires
            old(self).wf(),
        ensures
            r.spec_attributes() == *old(self),
            r.spec_loaders() == loaders@,
    {
        BorrowedIterBuffered::new(self, loaders)
    }

    /// Creates an iterator emitting attribute values, consuming the
    /// attributes reader.
    pub fn into_iter<V: LoadAttribute>(self, loaders: Vec<V>) -> (r: OwnedIter<'a, V>)
        requires
            self.wf(),
        ensures
            r.spec_attributes() == self,
            r.spec_loaders() == loaders@,
    {
        OwnedIter::new(self, loaders)
    }

    /// Creates an iterator emitting attribute values with buffered I/O,
    /// consuming the attributes reader.
    pub fn into_iter_buffered<V: LoadAttribute>(self, loaders: Vec<V>) -> (r: OwnedIterBuffered<
        'a,
        V,
    >)
        requires
            self.wf(),
        ensures
            r.spec_attributes() == self,
            r.spec_loaders() == loaders@,
    {
        OwnedIterBuffered::new(self, loaders)
    }
}

} // verus!

verus! {

/// A parser that stopped (on an error or at the end of the document) stays
/// as it is: loading an attribute gives an operation error and reads
/// nothing.
pub proof fn law_stopped_parser_loads_nothing<'a, V: LoadAttribute>(
    a0: Attributes<'a>,
    a1: Attributes<'a>,
    loader: V,
    r: Result<Option<V::Output>>,
)
    requires
        spec_load_next(a0, a1, loader, r),
        !a0.spec_parser().spec_running(),
    ensures
        a1.unchanged(&a0),
        r matches Err(e) && (e.container() matches ErrorContainer::Operation(_)),
{
}

/// Loading an attribute counts at most one attribute as read, keeps the
/// total, never gives `Ok(None)` while attributes are left on a parser that
/// can continue, and leaves the parser able to continue when it succeeds.
pub proof fn law_load_next_counts<'a, V: LoadAttribute>(
    a0: Attributes<'a>,
    a1: Attributes<'a>,
    loader: V,
    r: Result<Option<V::Output>>,
)
    requires
        a0.wf(),
        spec_load_next(a0, a1, loader, r),
    ensures
        a1.spec_total_count() == a0.spec_total_count(),
        a1.spec_rest_count() <= a0.spec_rest_count() <= a1.spec_rest_count() + 1,
        r == Ok::<Option<V::Output>, crate::pull_parser::Error>(None) <==> (
        a0.spec_parser().spec_running() && a0.spec_rest_count() == 0),
        r matches Ok(Some(_)) ==> a1.spec_rest_count() + 1 == a0.spec_rest_count(),
        r is Ok ==> a1.spec_parser().spec_running(),
{
    if a0.spec_parser().spec_running() && a0.spec_rest_count() > 0 {
        let p = a0.spec_parser();
        let rd = p.spec_reader();
        let start = a0.spec_next_offset();
        let d: nat = if rd.spec_position() < start {
            (start - rd.spec_position()) as nat
        } else {
            0
        };
        if d <= rd.spec_rest().len() {
            let b = rd.spec_rest().skip(d as int);
            let q = a1.spec_parser();
            let (lr, n, warned, next) = choose|lr: Result<V::Output>, n: nat, warned: bool, next: nat|
                #![trigger spec_loads_attribute(loader, b, p.spec_warnings_critical(), lr, n, warned, next)]
                {
                    &&& spec_loads_attribute(loader, b, p.spec_warnings_critical(), lr, n, warned, next)
                    &&& spec_consumed(rd, q.spec_reader(), d + n)
                    &&& spec_warnings_after(
                        p.spec_warnings(),
                        q.spec_warnings(),
                        warned,
                        q.spec_reader().spec_position() as int,
                        start,
                        p.spec_node_path(),
                        a0.spec_next_index(),
                    )
                    &&& match lr {
                        Ok(o) => {
                            &&& r == Ok::<Option<V::Output>, crate::pull_parser::Error>(Some(o))
                            &&& q.spec_running()
                            &&& a1.spec_next_offset() == rd.spec_position() + d + next
                        },
                        Err(le) => spec_stopped(
                            q,
                            r,
                            le.container(),
                            q.spec_reader().spec_position() as int,
                            start,
                            p.spec_node_path(),
                            a0.spec_next_index(),
                        ),
                    }
                };
            if r is Ok {
                assert(lr is Ok);
                if b.len() == 0 || spec_from_type_code(b[0]) is None {
                    assert(lr is Err);
                }
            }
        }
    }
}

/// The number of attributes loaded in a run of results: the `Ok(Some(_))`
/// ones.
pub open spec fn spec_loaded_count<T>(results: Seq<Result<Option<T>>>) -> nat
    decreases results.len(),
{
    if results.len() == 0 {
        0
    } else {
        spec_loaded_count(results.drop_last()) + if results.last() matches Ok(Some(_)) {
            1nat
        } else {
            0nat
        }
    }
}

/// Over a run of `load_next` calls, none of which fails, the total count
/// never changes, the rest count never increases, and it goes down by the
/// number of attributes loaded: from a reader just obtained (nothing read
/// yet), the rest count is the total less the attributes loaded.
pub proof fn law_load_next_run<'a, V: LoadAttribute>(
    run: Seq<Attributes<'a>>,
    loaders: Seq<V>,
    results: Seq<Result<Option<V::Output>>>,
)
    requires
        run.len() == loaders.len() + 1,
        results.len() == loaders.len(),
        forall|i: int| 0 <= i < run.len() ==> #[trigger] run[i].wf(),
        forall|i: int|
            0 <= i < loaders.len() ==> spec_load_next(
                run[i],
                run[i + 1],
                #[trigger] loaders[i],
                results[i],
            ),
        forall|i: int| 0 <= i < results.len() ==> #[trigger] results[i] is Ok,
    ensures
        forall|i: int|
            0 <= i < run.len() ==> #[trigger] run[i].spec_total_count() == run[0].spec_total_count(),
        forall|i: int, j: int|
            0 <= i <= j < run.len() ==> #[trigger] run[j].spec_rest_count()
                <= #[trigger] run[i].spec_rest_count(),
        run.last().spec_rest_count() + spec_loaded_count(results) == run[0].spec_rest_count(),
        run[0].spec_rest_count() == run[0].spec_total_count() ==> run.last().spec_rest_count()
            == run.last().spec_total_count() - spec_loaded_count(results),
    decreases loaders.len(),
{
    let n = loaders.len() as int;
    if n > 0 {
        let run1 = run.drop_last();
        let loaders1 = loaders.drop_last();
        let results1 = results.drop_last();
        assert forall|i: int| 0 <= i < loaders1.len() implies spec_load_next(
            run1[i],
            run1[i + 1],
            #[trigger] loaders1[i],
            results1[i],
        ) by {
            assert(loaders1[i] == loaders[i]);
            assert(spec_load_next(run[i], run[i + 1], loaders[i], results[i]));
        }
        assert forall|i: int| 0 <= i < results1.len() implies #[trigger] results1[i] is Ok by {
            assert(results[i] is Ok);
        }
        assert forall|i: int| 0 <= i < run1.len() implies #[trigger] run1[i].wf() by {
            assert(run[i].wf());
        }
        law_load_next_run(run1, loaders1, results1);
        assert(spec_load_next(run[n - 1], run[n], loaders[n - 1], results[n - 1]));
        assert(run[n - 1].wf());
        assert(results[n - 1] is Ok);
        law_load_next_counts(run[n - 1], run[n], loaders[n - 1], results[n - 1]);
        assert(run1.last() == run[n - 1]);
        assert(results.drop_last() == results1);
        assert forall|i: int| 0 <= i < run.len() implies #[trigger] run[i].spec_total_count()
            == run[0].spec_total_count() by {
            if i < n {
                assert(run1[i] == run[i]);
                assert(run1[i].spec_total_count() == run1[0].spec_total_count());
            }
        }
        assert forall|i: int, j: int| 0 <= i <= j < run.len() implies #[trigger] run[j].spec_rest_count()
            <= #[trigger] run[i].spec_rest_count() by {
            if j < n {
                assert(run1[i] == run[i] && run1[j] == run[j]);
                assert(run1[j].spec_rest_count() <= run1[i].spec_rest_count());
            } else if i < n {
                assert(run1[i] == run[i] && run1[n - 1] == run[n - 1]);
                assert(run1[n - 1].spec_rest_count() <= run1[i].spec_rest_count());
            }
        }
    }
}

/// A load that fails on a parser that could continue aborts it for good:
/// every later load gives the operation error `AlreadyAborted` and changes
/// nothing, and so does every later event (see `spec_next_event`).
pub proof fn law_failed_load_aborts<'a, V: LoadAttribute, W: LoadAttribute>(
    a0: Attributes<'a>,
    a1: Attributes<'a>,
    loader: V,
    r: Result<Option<V::Output>>,
    a2: Attributes<'a>,
    loader2: W,
    r2: Result<Option<W::Output>>,
)
    requires
        a0.wf(),
        a0.spec_parser().spec_running(),
        spec_load_next(a0, a1, loader, r),
        r is Err,
        spec_load_next(a1, a2, loader2, r2),
    ensures
        a1.spec_parser().spec_aborted(),
        !a1.spec_parser().spec_running(),
        a2.unchanged(&a1),
        r2 matches Err(e) && e.container() == ErrorContainer::Operation(
            OperationError::AlreadyAborted,
        ),
{
    let p = a0.spec_parser();
    let q = a1.spec_parser();
    if a0.spec_rest_count() > 0 {
        let rd = p.spec_reader();
        let start = a0.spec_next_offset();
        let d: nat = if rd.spec_position() < start {
            (start - rd.spec_position()) as nat
        } else {
            0
        };
        if d <= rd.spec_rest().len() {
            let b = rd.spec_rest().skip(d as int);
            let (lr, n, warned, next) = choose|lr: Result<V::Output>, n: nat, warned: bool, next: nat|
                #![trigger spec_loads_attribute(loader, b, p.spec_warnings_critical(), lr, n, warned, next)]
                {
                    &&& spec_loads_attribute(loader, b, p.spec_warnings_critical(), lr, n, warned, next)
                    &&& spec_consumed(rd, q.spec_reader(), d + n)
                    &&& spec_warnings_after(
                        p.spec_warnings(),
                        q.spec_warnings(),
                        warned,
                        q.spec_reader().spec_position() as int,
                        start,
                        p.spec_node_path(),
                        a0.spec_next_index(),
                    )
                    &&& match lr {
                        Ok(o) => {
                            &&& r == Ok::<Option<V::Output>, crate::pull_parser::Error>(Some(o))
                            &&& q.spec_running()
                            &&& a1.spec_next_offset() == rd.spec_position() + d + next
                        },
                        Err(le) => spec_stopped(
                            q,
                            r,
                            le.container(),
                            q.spec_reader().spec_position() as int,
                            start,
                            p.spec_node_path(),
                            a0.spec_next_index(),
                        ),
                    }
                };
            assert(lr is Err);
        }
    }
    q.lemma_health();
}

/// Loading an attribute keeps every warning emitted before.
pub proof fn law_load_next_keeps_warnings<'a, V: LoadAttribute>(
    a0: Attributes<'a>,
    a1: Attributes<'a>,
    loader: V,
    r: Result<Option<V::Output>>,
)
    requires
        spec_load_next(a0, a1, loader, r),
    ensures
        a0.spec_parser().spec_warnings().len() <= a1.spec_parser().spec_warnings().len(),
        a1.spec_parser().spec_warnings().take(a0.spec_parser().spec_warnings().len() as int)
            == a0.spec_parser().spec_warnings(),
{
    let w0 = a0.spec_parser().spec_warnings();
    let w1 = a1.spec_parser().spec_warnings();
    if w1 == w0 {
        assert(w1.take(w0.len() as int) =~= w0);
    }
}

/// Loads the next attribute of the current node of the parser, with `rest`
/// attributes left out of `total` and the next at offset `next`.
fn load_step<V: LoadAttribute>(
    parser: &mut Parser,
    total: u64,
    rest: &mut u64,
    next_offset: &mut u64,
    loader: V,
) -> (r: Result<Option<V::Output>>)
    requires
        old(parser).wf(),
        *old(rest) <= total,
        old(parser).spec_running() ==> *old(next_offset) <= old(parser).spec_reader().spec_position()
            + old(parser).spec_reader().spec_rest().len() + spec_headroom(),
    ensures
        final(parser).wf(),
        *final(rest) <= total,
        final(parser).spec_running() ==> *final(next_offset) <= final(parser).spec_reader().spec_position()
            + final(parser).spec_reader().spec_rest().len() + spec_headroom(),
        spec_attr_step(*old(parser), total, *old(rest), *old(next_offset), *final(parser), *final(rest), *final(next_offset), loader, r),
{
    match parser.ensure_continuable() {
        Ok(()) => {},
        Err(e) => return Err(e),
    }
    if *rest == 0 {
        return Ok(None);
    }
    let start_pos = *next_offset;
    let attr_index = (total - *rest) as usize;
    let ghost p0 = *parser;
    // Skip the previous attribute value if it remains.
    if parser.reader_position() < start_pos {
        let _ = parser.skip_to(start_pos);
    }
    let ghost p1 = *parser;
    proof {
        lemma_consumed_none(p0.spec_reader());
    }
    let ghost mut n: nat = 0;
    let ghost mut warned = false;
    let ghost mut next: nat = 0;
    let res = match parser.parse_attribute_type() {
        Err(e) => {
            proof {
                n = if p1.spec_reader().spec_rest().len() >= 1 {
                    1
                } else {
                    0
                };
            }
            Err(e)
        },
        Ok(ty) => {
            // Update this count after parsing the type, so that
            // `total_count - rest_count` is the attribute index while
            // parsing it.
            *rest = *rest - 1;
            let body_start = parser.reader_position();
            let ghost p2 = *parser;
            let (lr, rel_next, Ghost(vn), Ghost(vw)) = load_value(
                parser,
                ty,
                loader,
                start_pos,
                attr_index,
            );
            proof {
                n = 1 + vn;
                warned = vw;
                next = 1 + rel_next as nat;
                lemma_consumed_trans(p1.spec_reader(), p2.spec_reader(), parser.spec_reader(), 1, vn);
                assert(p1.spec_reader().spec_rest().skip(1) == p2.spec_reader().spec_rest());
            }
            if lr.is_ok() {
                *next_offset = body_start + rel_next;
            }
            lr
        },
    };
    let ghost p3 = *parser;
    proof {
        let d: nat = (p1.spec_reader().spec_position() - p0.spec_reader().spec_position()) as nat;
        if p1.spec_reader().spec_rest().len() == 0 {
            lemma_consumed_none(p1.spec_reader());
        }
        if spec_consumed(p0.spec_reader(), p1.spec_reader(), d) {
            lemma_consumed_trans(p0.spec_reader(), p1.spec_reader(), p3.spec_reader(), d, n);
        } else {
            assert(res is Err);
        }
    }
    match res {
        Ok(v) => {
            assert(spec_loads_attribute(
                loader,
                p1.spec_reader().spec_rest(),
                p0.spec_warnings_critical(),
                res,
                n,
                warned,
                next,
            ));
            Ok(Some(v))
        },
        Err(e) => {
            let err_pos = parser.position().with_attribute(start_pos, attr_index);
            parser.set_aborted(err_pos.clone());
            assert(spec_loads_attribute(
                loader,
                p1.spec_reader().spec_rest(),
                p0.spec_warnings_critical(),
                res,
                n,
                warned,
                next,
            ));
            Err(e.and_position(err_pos))
        },
    }
}


/// Loading the attributes left of the current node one by one with the
/// direct loader, after the values `acc` were loaded: from the parser `p`
/// (with `rest` attributes left out of `total`, the next at offset `next`),
/// the parser ends as `q` and the result is `r`, all the values or the first
/// error. `fuel` bounds the steps.
pub open spec fn spec_loads_all(
    p: Parser,
    total: u64,
    rest: u64,
    next: u64,
    acc: Seq<AttributeValue>,
    q: Parser,
    r: Result<Seq<AttributeValue>>,
    fuel: nat,
) -> bool
    decreases fuel,
{
    exists|p2: Parser, rest2: u64, next2: u64, lr: Result<Option<AttributeValue>>|
        #![trigger spec_attr_step(p, total, rest, next, p2, rest2, next2, DirectLoader, lr)]
        {
            &&& spec_attr_step(p, total, rest, next, p2, rest2, next2, DirectLoader, lr)
            &&& match lr {
                Err(e) => q == p2 && r == Err::<Seq<AttributeValue>, crate::pull_parser::Error>(e),
                Ok(None) => q == p2 && r == Ok::<Seq<AttributeValue>, crate::pull_parser::Error>(acc),
                Ok(Some(v)) => fuel > 0 && spec_loads_all(
                    p2,
                    total,
                    rest2,
                    next2,
                    acc.push(v),
                    q,
                    r,
                    (fuel - 1) as nat,
                ),
            }
        }
}

/// Loads all the attributes of the current node with the direct loader.
pub(crate) fn load_all_direct(parser: &mut Parser) -> (r: Result<Vec<AttributeValue>>)
    requires
        old(parser).wf(),
    ensures
        final(parser).wf(),
        exists|f: nat|
            #[trigger] spec_loads_all(
                *old(parser),
                old(parser).spec_attributes_count(),
                old(parser).spec_attributes_count(),
                old(parser).spec_reader().spec_position() as u64,
                Seq::empty(),
                *final(parser),
                vec_result_view(r),
                f,
            ),
        r is Ok ==> {
            &&& final(parser).same_document(old(parser))
            &&& final(parser).spec_running()
            &&& final(parser).spec_reader().spec_rest().len() <= old(parser).spec_reader().spec_rest().len()
        },
{
    let ghost p0 = *parser;
    let total = parser.current_attributes_count();
    let pos = parser.reader_position();
    let mut rest = total;
    let mut next = pos;
    let mut out: Vec<AttributeValue> = Vec::new();
    let ghost mut k: nat = 0;
    loop
        invariant
            p0 == *old(parser),
            parser.wf(),
            rest <= total,
            parser.spec_running() ==> next <= parser.spec_reader().spec_position()
                + parser.spec_reader().spec_rest().len() + spec_headroom(),
            total == p0.spec_attributes_count(),
            pos == p0.spec_reader().spec_position(),
            k == 0 ==> *parser == p0 && rest == total && next == pos && out@ == Seq::<AttributeValue>::empty(),
            k > 0 ==> parser.spec_running() && parser.same_document(&p0),
            parser.spec_reader().spec_rest().len() <= p0.spec_reader().spec_rest().len(),
            forall|q: Parser, r: Result<Seq<AttributeValue>>, f: nat|
                #[trigger] spec_loads_all(*parser, total, rest, next, out@, q, r, f) ==> spec_loads_all(
                    p0,
                    total,
                    total,
                    pos,
                    Seq::empty(),
                    q,
                    r,
                    f + k,
                ),
        decreases rest,
    {
        let ghost pa = *parser;
        let ghost rest0 = rest;
        let ghost next0 = next;
        let ghost out0 = out@;
        let res = load_step(parser, total, &mut rest, &mut next, DirectLoader);
        match res {
            Ok(Some(v)) => {
                out.push(v);
                proof {
                    assert forall|q: Parser, r: Result<Seq<AttributeValue>>, f: nat|
                        #[trigger] spec_loads_all(*parser, total, rest, next, out@, q, r, f) implies spec_loads_all(
                            p0,
                            total,
                            total,
                            pos,
                            Seq::empty(),
                            q,
                            r,
                            f + k + 1,
                        ) by {
                        assert(out@ == out0.push(v));
                        assert(spec_loads_all(pa, total, rest0, next0, out0, q, r, f + 1));
                    }
                    k = k + 1;
                }
            },
            Ok(None) => {
                proof {
                    assert(spec_loads_all(
                        pa,
                        total,
                        rest0,
                        next0,
                        out@,
                        *parser,
                        Ok::<Seq<AttributeValue>, crate::pull_parser::Error>(out@),
                        0,
                    ));
                    assert(p0.spec_reader().spec_position() as u64 == pos);
                    assert(spec_loads_all(
                        p0,
                        total,
                        total,
                        pos,
                        Seq::empty(),
                        *parser,
                        Ok::<Seq<AttributeValue>, crate::pull_parser::Error>(out@),
                        0 + k,
                    ));
                }
                return Ok(out);
            },
            Err(e) => {
                proof {
                    assert(spec_loads_all(
                        pa,
                        total,
                        rest0,
                        next0,
                        out0,
                        *parser,
                        Err::<Seq<AttributeValue>, crate::pull_parser::Error>(e),
                        0,
                    ));
                    assert(p0.spec_reader().spec_position() as u64 == pos);
                    assert(spec_loads_all(
                        p0,
                        total,
                        total,
                        pos,
                        Seq::empty(),
                        *parser,
                        Err::<Seq<AttributeValue>, crate::pull_parser::Error>(e),
                        0 + k,
                    ));
                }
                return Err(e);
            },
        }
    }
}

} // verus!
