//! Node attribute iterators.
//!
//! Each iterator loads the next attributes with the given loaders, one loader
//! per attribute, in order; it stops when either runs out.

use vstd::prelude::*;

use crate::pull_parser::reader::spec_min;
use crate::pull_parser::v7400::attribute::loaders::BufferedLoader;
use crate::pull_parser::v7400::attribute::{
    law_load_next_counts, spec_load_next, Attributes, LoadAttribute,
};
use crate::pull_parser::Result;

verus! {

/// The result of an iterator step, as the result of `load_next`.
pub open spec fn spec_transposed<T>(r: Option<Result<T>>) -> Result<Option<T>> {
    match r {
        None => Ok(None),
        Some(Ok(v)) => Ok(Some(v)),
        Some(Err(e)) => Err(e),
    }
}

/// One step of an attributes iterator, from attributes `a0` and loaders `l0`
/// to `a1` and `l1`, giving `r`: without a loader left nothing happens;
/// otherwise the first loader loads the next attribute, through a
/// [`BufferedLoader`] (so with its buffered binary and string methods) if
/// `buffered`.
pub open spec fn spec_iter_step<'r, V: LoadAttribute>(
    a0: Attributes<'r>,
    a1: Attributes<'r>,
    l0: Seq<V>,
    l1: Seq<V>,
    r: Option<Result<V::Output>>,
    buffered: bool,
) -> bool {
    if l0.len() == 0 {
        &&& r is None
        &&& a1.unchanged(&a0)
        &&& l1 == l0
    } else {
        &&& l1 == l0.drop_first()
        &&& if buffered {
            spec_load_next(a0, a1, BufferedLoader(l0[0]), spec_transposed(r))
        } else {
            spec_load_next(a0, a1, l0[0], spec_transposed(r))
        }
    }
}

/// The size hint of an attributes iterator: both bounds are the smaller of
/// the numbers of attributes and of loaders left.
pub open spec fn spec_size_hint(rest_count: u64, loaders: nat) -> (usize, Option<usize>) {
    let n: usize = if (rest_count as usize) < loaders {
        rest_count as usize
    } else {
        loaders as usize
    };
    (n, Some(n))
}

/// Over a run of iterator steps, none of which fails, from `r` attributes
/// and `k` loaders left on a parser that can continue: the steps give an
/// item exactly while fewer than the smaller of `r` and `k` were given, and
/// after `i` steps the attributes left are `r` less the items given, and the
/// loaders left `k` less the steps, as far as there were loaders.
pub proof fn law_iter_run<'r, V: LoadAttribute>(
    run: Seq<Attributes<'r>>,
    loaders: Seq<Seq<V>>,
    items: Seq<Option<Result<V::Output>>>,
    buffered: bool,
)
    requires
        run.len() == items.len() + 1,
        loaders.len() == run.len(),
        forall|i: int| 0 <= i < run.len() ==> #[trigger] run[i].wf(),
        forall|i: int|
            0 <= i < items.len() ==> spec_iter_step(
                run[i],
                run[i + 1],
                loaders[i],
                loaders[i + 1],
                #[trigger] items[i],
                buffered,
            ),
        forall|i: int| 0 <= i < items.len() ==> !(#[trigger] items[i] matches Some(Err(_))),
        run[0].spec_parser().spec_running(),
    ensures
        forall|i: int|
            0 <= i < items.len() ==> (#[trigger] items[i] is Some <==> i < spec_min(
                run[0].spec_rest_count() as int,
                loaders[0].len() as int,
            )),
        forall|i: int|
            0 <= i < run.len() ==> {
                &&& #[trigger] run[i].spec_rest_count() == run[0].spec_rest_count() - spec_min(
                    i,
                    spec_min(run[0].spec_rest_count() as int, loaders[0].len() as int),
                )
                &&& loaders[i].len() == loaders[0].len() - spec_min(i, loaders[0].len() as int)
                &&& run[i].spec_parser().spec_running()
            },
    decreases items.len(),
{
    let n = items.len() as int;
    if n > 0 {
        let run1 = run.drop_last();
        let loaders1 = loaders.drop_last();
        let items1 = items.drop_last();
        assert forall|i: int| 0 <= i < run1.len() implies #[trigger] run1[i].wf() by {
            assert(run[i].wf());
        }
        assert forall|i: int| 0 <= i < items1.len() implies spec_iter_step(
            run1[i],
            run1[i + 1],
            loaders1[i],
            loaders1[i + 1],
            #[trigger] items1[i],
            buffered,
        ) by {
            assert(items1[i] == items[i]);
            assert(spec_iter_step(run[i], run[i + 1], loaders[i], loaders[i + 1], items[i], buffered));
        }
        assert forall|i: int| 0 <= i < items1.len() implies !(#[trigger] items1[i] matches Some(Err(_))) by {
            assert(items1[i] == items[i]);
            assert(!(items[i] matches Some(Err(_))));
        }
        law_iter_run(run1, loaders1, items1, buffered);
        let r0 = run[0].spec_rest_count() as int;
        let k0 = loaders[0].len() as int;
        let m = spec_min(r0, k0);
        let a = run[n - 1];
        let b = run[n];
        assert(run1[n - 1] == a && loaders1[n - 1] == loaders[n - 1] && run1[0] == run[0] && loaders1[0] == loaders[0]);
        assert(a.spec_rest_count() == r0 - spec_min(n - 1, m));
        assert(loaders[n - 1].len() == k0 - spec_min(n - 1, k0));
        assert(a.spec_parser().spec_running());
        assert(a.wf());
        assert(spec_iter_step(a, b, loaders[n - 1], loaders[n], items[n - 1], buffered));
        assert(!(items[n - 1] matches Some(Err(_))));
        if loaders[n - 1].len() > 0 {
            if buffered {
                law_load_next_counts(
                    a,
                    b,
                    BufferedLoader(loaders[n - 1][0]),
                    spec_transposed(items[n - 1]),
                );
            } else {
                law_load_next_counts(a, b, loaders[n - 1][0], spec_transposed(items[n - 1]));
            }
        }
        assert forall|i: int| 0 <= i < items.len() implies (#[trigger] items[i] is Some <==> i < m) by {
            if i < n - 1 {
                assert(items1[i] == items[i]);
            }
        }
        assert forall|i: int| 0 <= i < run.len() implies {
            &&& #[trigger] run[i].spec_rest_count() == r0 - spec_min(i, m)
            &&& loaders[i].len() == k0 - spec_min(i, k0)
            &&& run[i].spec_parser().spec_running()
        } by {
            if i < n {
                assert(run1[i] == run[i] && loaders1[i] == loaders[i]);
            }
        }
    }
}

/// Loads the next attribute with the first loader left, with buffered I/O
/// or not.
fn load_next<'r, V: LoadAttribute>(
    attributes: &mut Attributes<'r>,
    loaders: &mut Vec<V>,
    buffered: bool,
) -> (r: Option<Result<V::Output>>)
    requires
        old(attributes).wf(),
    ensures
        final(attributes).wf(),
        spec_iter_step(*old(attributes), *final(attributes), old(loaders)@, final(loaders)@, r, buffered),
{
    if loaders.len() == 0 {
        return None;
    }
    let loader = loaders.remove(0);
    let res = if buffered {
        attributes.load_next_buffered(loader)
    } else {
        attributes.load_next(loader)
    };
    match res {
        Ok(None) => None,
        Ok(Some(v)) => Some(Ok(v)),
        Err(e) => Some(Err(e)),
    }
}

/// Creates the size hint from the numbers of attributes and loaders left.
fn make_size_hint(rest_count: u64, loaders: usize) -> (r: (usize, Option<usize>))
    ensures
        r == spec_size_hint(rest_count, loaders as nat),
{
    let attrs_rest = rest_count as usize;
    let n = if attrs_rest < loaders {
        attrs_rest
    } else {
        loaders
    };
    (n, Some(n))
}

/// Node attributes iterator.
#[derive(Debug)]
pub struct BorrowedIter<'a, 'r, V> {
    /// Attributes.
    attributes: &'a mut Attributes<'r>,
    /// Loaders left, in order.
    loaders: Vec<V>,
}

impl<'a, 'r, V: LoadAttribute> BorrowedIter<'a, 'r, V> {
    /// The attributes.
    pub closed spec fn spec_attributes(&self) -> Attributes<'r> {
        *self.attributes
    }

    /// The loaders left, in order.
    pub closed spec fn spec_loaders(&self) -> Seq<V> {
        self.loaders@
    }

    /// Creates a new iterator.
    pub(crate) fn new(attributes: &'a mut Attributes<'r>, loaders: Vec<V>) -> (r: Self)
        requires
            old(attributes).wf(),
        ensures
            r.spec_attributes() == *old(attributes),
            r.spec_loaders() == loaders@,
    {
        Self { attributes, loaders }
    }

    /// Loads the next attribute with the next loader.
    pub fn next(&mut self) -> (r: Option<Result<V::Output>>)
        requires
            old(self).spec_attributes().wf(),
        ensures
            final(self).spec_attributes().wf(),
            spec_iter_step(
                old(self).spec_attributes(),
                final(self).spec_attributes(),
                old(self).spec_loaders(),
                final(self).spec_loaders(),
                r,
                false,
            ),
    {
        load_next(self.attributes, &mut self.loaders, false)
    }

    /// Returns the bounds on the number of attributes left to load.
    pub fn size_hint(&self) -> (r: (usize, Option<usize>))
        ensures
            r == spec_size_hint(
                self.spec_attributes().spec_rest_count(),
                self.spec_loaders().len(),
            ),
    {
        make_size_hint(self.attributes.rest_count(), self.loaders.len())
    }
}

/// Node attributes iterator with buffered I/O (the source is in memory, so
/// this loads as [`BorrowedIter`] does).
#[derive(Debug)]
pub struct BorrowedIterBuffered<'a, 'r, V> {
    /// Attributes.
    attributes: &'a mut Attributes<'r>,
    /// Loaders left, in order.
    loaders: Vec<V>,
}

impl<'a, 'r, V: LoadAttribute> BorrowedIterBuffered<'a, 'r, V> {
    /// The attributes.
    pub closed spec fn spec_attributes(&self) -> Attributes<'r> {
        *self.attributes
    }

    /// The loaders left, in order.
    pub closed spec fn spec_loaders(&self) -> Seq<V> {
        self.loaders@
    }

    /// Creates a new iterator.
    pub(crate) fn new(attributes: &'a mut Attributes<'r>, loaders: Vec<V>) -> (r: Self)
        requires
            old(attributes).wf(),
        ensures
            r.spec_attributes() == *old(attributes),
            r.spec_loaders() == loaders@,
    {
        Self { attributes, loaders }
    }

    /// Loads the next attribute with the next loader.
    pub fn next(&mut self) -> (r: Option<Result<V::Output>>)
        requires
            old(self).spec_attributes().wf(),
        ensures
            final(self).spec_attributes().wf(),
            spec_iter_step(
                old(self).spec_attributes(),
                final(self).spec_attributes(),
                old(self).spec_loaders(),
                final(self).spec_loaders(),
                r,
                true,
            ),
    {
        load_next(self.attributes, &mut self.loaders, true)
    }

    /// Returns the bounds on the number of attributes left to load.
    pub fn size_hint(&self) -> (r: (usize, Option<usize>))
        ensures
            r == spec_size_hint(
                self.spec_attributes().spec_rest_count(),
                self.spec_loaders().len(),
            ),
    {
        make_size_hint(self.attributes.rest_count(), self.loaders.len())
    }
}

/// Node attributes iterator owning the attributes.
#[derive(Debug)]
pub struct OwnedIter<'r, V> {
    /// Attributes.
    attributes: Attributes<'r>,
    /// Loaders left, in order.
    loaders: Vec<V>,
}

impl<'r, V: LoadAttribute> OwnedIter<'r, V> {
    /// The attributes.
    pub closed spec fn spec_attributes(&self) -> Attributes<'r> {
        self.attributes
    }

    /// The loaders left, in order.
    pub closed spec fn spec_loaders(&self) -> Seq<V> {
        self.loaders@
    }

    /// Creates a new iterator.
    pub(crate) fn new(attributes: Attributes<'r>, loaders: Vec<V>) -> (r: Self)
        requires
            attributes.wf(),
        ensures
            r.spec_attributes() == attributes,
            r.spec_loaders() == loaders@,
    {
        Self { attributes, loaders }
    }

    /// Loads the next attribute with the next loader.
    pub fn next(&mut self) -> (r: Option<Result<V::Output>>)
        requires
            old(self).spec_attributes().wf(),
        ensures
            final(self).spec_attributes().wf(),
            spec_iter_step(
                old(self).spec_attributes(),
                final(self).spec_attributes(),
                old(self).spec_loaders(),
                final(self).spec_loaders(),
                r,
                false,
            ),
    {
        load_next(&mut self.attributes, &mut self.loaders, false)
    }

    /// Returns the bounds on the number of attributes left to load.
    pub fn size_hint(&self) -> (r: (usize, Option<usize>))
        ensures
            r == spec_size_hint(
                self.spec_attributes().spec_rest_count(),
                self.spec_loaders().len(),
            ),
    {
        make_size_hint(self.attributes.rest_count(), self.loaders.len())
    }
}

/// Node attributes iterator owning the attributes, with buffered I/O (the
/// source is in memory, so this loads as [`OwnedIter`] does).
#[derive(Debug)]
pub struct OwnedIterBuffered<'r, V> {
    /// Attributes.
    attributes: Attributes<'r>,
    /// Loaders left, in order.
    loaders: Vec<V>,
}

impl<'r, V: LoadAttribute> OwnedIterBuffered<'r, V> {
    /// The attributes.
    pub closed spec fn spec_attributes(&self) -> Attributes<'r> {
        self.attributes
    }

    /// The loaders left, in order.
    pub closed spec fn spec_loaders(&self) -> Seq<V> {
        self.loaders@
    }

    /// Creates a new iterator.
    pub(crate) fn new(attributes: Attributes<'r>, loaders: Vec<V>) -> (r: Self)
        requires
            attributes.wf(),
        ensures
            r.spec_attributes() == attributes,
            r.spec_loaders() == loaders@,
    {
        Self { attributes, loaders }
    }

    /// Loads the next attribute with the next loader.
    pub fn next(&mut self) -> (r: Option<Result<V::Output>>)
        requires
            old(self).spec_attributes().wf(),
        ensures
            final(self).spec_attributes().wf(),
            spec_iter_step(
                old(self).spec_attributes(),
                final(self).spec_attributes(),
                old(self).spec_loaders(),
                final(self).spec_loaders(),
                r,
                true,
            ),
    {
        load_next(&mut self.attributes, &mut self.loaders, true)
    }

    /// Returns the bounds on the number of attributes left to load.
    pub fn size_hint(&self) -> (r: (usize, Option<usize>))
        ensures
            r == spec_size_hint(
                self.spec_attributes().spec_rest_count(),
                self.spec_loaders().len(),
            ),
    {
        make_size_hint(self.attributes.rest_count(), self.loaders.len())
    }
}

} // verus!
