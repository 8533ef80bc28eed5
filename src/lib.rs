//! Fallible mapping over optional values and iterators: combinators that apply
//! a function returning a `Result` and fold absence or per-item failure into a
//! single composable result.
use vstd::prelude::*;
use vstd::std_specs::iter::IteratorSpec;

verus! {

/// A container that holds zero or one value of type `T`.
pub trait ExtractOption<T>: Sized {
    /// The value the container holds, if any.
    spec fn extracted(self) -> Option<T>;

    /// Consume the container, giving its value as an `Option`.
    fn extract(self) -> (r: Option<T>)
        ensures
            r == self.extracted(),
    ;
}

impl<T> ExtractOption<T> for Option<T> {
    open spec fn extracted(self) -> Option<T> {
        self
    }

    fn extract(self) -> (r: Option<T>) {
        self
    }
}

/// What `try_map` returns for the outcome `y` of the mapped function: a value
/// is wrapped as present, an error is passed on unchanged.
pub open spec fn present_of<U, E>(y: Result<U, E>) -> Result<Option<U>, E> {
    match y {
        Ok(u) => Ok(Some(u)),
        Err(e) => Err(e),
    }
}

/// Fallible combinators on an optional container.
///
/// Each method consumes the container. The function handed in is a `FnOnce`,
/// so it runs at most once; it runs only when the container's state calls for
/// it, and its error is passed on unchanged.
pub trait FallibleMapExt<T, E>: Sized {
    /// The container's value, if any.
    spec fn option_view(self) -> Option<T>;

    /// Map `f` over the value. An absent value gives `Ok(None)` and `f` is not
    /// called; a present `x` gives `f(x)` with its value wrapped in `Some`.
    fn try_map<F, U>(self, f: F) -> (r: Result<Option<U>, E>)
        where
            F: FnOnce(T) -> Result<U, E>,
        requires
            self.option_view() is Some ==> f.requires((self.option_view()->0,)),
        ensures
            self.option_view() is None ==> r == Ok::<Option<U>, E>(None),
            self.option_view() is Some ==> exists|y: Result<U, E>|
                #[trigger] f.ensures((self.option_view()->0,), y) && r == present_of(y),
    ;

    /// The value if present; otherwise whatever `f()` gives. `f` is called
    /// only on absence.
    fn try_unwrap_or<F>(self, f: F) -> (r: Result<T, E>)
        where
            F: FnOnce() -> Result<T, E>,
        requires
            self.option_view() is None ==> f.requires(()),
        ensures
            self.option_view() is Some ==> r == Ok::<T, E>(self.option_view()->0),
            self.option_view() is None ==> f.ensures((), r),
    ;

    /// Chain a fallible lookup that may itself find nothing. An absent value
    /// gives `Ok(None)` and `f` is not called; a present `x` gives `f(x)`.
    fn try_and_then<F, U>(self, f: F) -> (r: Result<Option<U>, E>)
        where
            F: FnOnce(T) -> Result<Option<U>, E>,
        requires
            self.option_view() is Some ==> f.requires((self.option_view()->0,)),
        ensures
            self.option_view() is None ==> r == Ok::<Option<U>, E>(None),
            self.option_view() is Some ==> f.ensures((self.option_view()->0,), r),
    ;
}

impl<C, T, E> FallibleMapExt<T, E> for C where C: ExtractOption<T> {
    open spec fn option_view(self) -> Option<T> {
        self.extracted()
    }

    fn try_map<F, U>(self, f: F) -> (r: Result<Option<U>, E>)
        where
            F: FnOnce(T) -> Result<U, E>,
    {
        match self.extract() {
            Some(x) => {
                let y = f(x);
                match y {
                    Ok(u) => Ok(Some(u)),
                    Err(e) => Err(e),
                }
            },
            None => Ok(None),
        }
    }

    fn try_unwrap_or<F>(self, f: F) -> (r: Result<T, E>)
        where
            F: FnOnce() -> Result<T, E>,
    {
        match self.extract() {
            Some(x) => Ok(x),
            None => f(),
        }
    }

    fn try_and_then<F, U>(self, f: F) -> (r: Result<Option<U>, E>)
        where
            F: FnOnce(T) -> Result<Option<U>, E>,
    {
        match self.extract() {
            Some(x) => f(x),
            None => Ok(None),
        }
    }
}

/// `f` may give a value on `x`.
pub open spec fn may_succeed<T, B, E, F: FnMut(T) -> Result<B, E>>(f: F, x: T) -> bool {
    exists|b: B| #[trigger] f.ensures((x,), Ok::<B, E>(b))
}

/// Item `k` of `items` may fail with `e` under `f`, and every item before it
/// may give a value.
pub open spec fn first_failure_at<T, B, E, F: FnMut(T) -> Result<B, E>>(
    f: F,
    items: Seq<T>,
    k: int,
    e: E,
) -> bool {
    &&& 0 <= k < items.len()
    &&& f.ensures((items[k],), Err::<B, E>(e))
    &&& forall|i: int| 0 <= i < k ==> may_succeed(f, #[trigger] items[i])
}

/// `r` is an outcome of collecting `f` over `items` in order, stopping at the
/// first failure: either every item gave a value and `r` holds them in order,
/// or some item gave the error in `r` and every item before it gave a value.
pub open spec fn collect_outcome<T, B, E, F: FnMut(T) -> Result<B, E>>(
    f: F,
    items: Seq<T>,
    r: Result<Vec<B>, E>,
) -> bool {
    &&& r is Ok ==> {
        &&& r->Ok_0@.len() == items.len()
        &&& forall|i: int| 0 <= i < items.len() ==> #[trigger] f.ensures((items[i],), Ok::<B, E>(r->Ok_0@[i]))
    }
    &&& r is Err ==> exists|k: int| #[trigger] first_failure_at(f, items, k, r->Err_0)
}

/// A lazy adaptor that applies a fallible function to each item of an
/// underlying iterator, one item per call of `next`.
pub struct FallibleMapIterator<I, F, B, E> {
    iter: I,
    f: F,
    _marker: std::marker::PhantomData<(B, E)>,
}

impl<I, F, B, E> FallibleMapIterator<I, F, B, E> {
    /// The underlying iterator.
    pub closed spec fn source(self) -> I {
        self.iter
    }

    /// The function applied to each item.
    pub closed spec fn func(self) -> F {
        self.f
    }

    /// Wrap `iter` so that each of its items is passed through `f`. Nothing is
    /// consumed and `f` is not called.
    pub fn new(iter: I, f: F) -> (r: Self)
        ensures
            r.source() == iter,
            r.func() == f,
    {
        FallibleMapIterator { iter, f, _marker: std::marker::PhantomData }
    }
}

impl<I, F, B, E> FallibleMapIterator<I, F, B, E>
where
    I: Iterator,
    F: FnMut(I::Item) -> Result<B, E>,
{
    /// Pull one item from the underlying iterator and apply the function to
    /// it. Gives `None` once the underlying iterator is exhausted; a failure
    /// on one item does not end the sequence.
    pub fn next(&mut self) -> (r: Option<Result<B, E>>)
        requires
            forall|x: I::Item| #[trigger] old(self).func().requires((x,)),
        ensures
            final(self).func() == old(self).func(),
            final(self).source().obeys_prophetic_iter_laws() == old(self).source().obeys_prophetic_iter_laws(),
            old(self).source().obeys_prophetic_iter_laws() ==> {
                &&& final(self).source().decrease() is Some <==> old(self).source().decrease() is Some
                &&& old(self).source().remaining().len() > 0 && final(self).source().decrease() is Some
                    ==> decreases_to!(old(self).source().decrease()->0 => final(self).source().decrease()->0)
            },
            old(self).source().obeys_prophetic_iter_laws() && old(self).source().remaining().len() > 0 ==> {
                &&& final(self).source().remaining() == old(self).source().remaining().drop_first()
                &&& r is Some
                &&& old(self).func().ensures((old(self).source().remaining()[0],), r->0)
            },
            old(self).source().obeys_prophetic_iter_laws() && old(self).source().remaining().len() == 0 ==> {
                &&& final(self).source().remaining() == old(self).source().remaining()
                &&& r is None
            },
    {
        broadcast use vstd::function::group_function_axioms;

        let item = self.iter.next();
        match item {
            Some(x) => {
                assert(old(self).func().requires((x,)));
                assert(self.f == old(self).func());
                Some((self.f)(x))
            },
            None => None,
        }
    }

    /// Run the function over every remaining item in order and gather the
    /// values. The first failure ends the run at once: no later item is
    /// pulled or passed to the function, and that error is returned. The
    /// source must come to an end, with a known termination measure.
    pub fn collect(self) -> (r: Result<Vec<B>, E>)
        requires
            self.source().obeys_prophetic_iter_laws(),
            self.source().decrease() is Some,
            forall|x: I::Item| #[trigger] self.func().requires((x,)),
        ensures
            collect_outcome(self.func(), self.source().remaining(), r),
    {
        let ghost items = self.source().remaining();
        let ghost f = self.func();
        let mut it = self;
        let mut out: Vec<B> = Vec::new();
        loop
            invariant
                it.source().obeys_prophetic_iter_laws(),
                it.source().decrease() is Some,
                it.func() == f,
                f == self.func(),
                items == self.source().remaining(),
                forall|x: I::Item| #[trigger] f.requires((x,)),
                out@.len() <= items.len(),
                it.source().remaining() == items.skip(out@.len() as int),
                forall|i: int| 0 <= i < out@.len() ==> #[trigger] f.ensures((items[i],), Ok::<B, E>(out@[i])),
            decreases it.source().decrease()->0,
        {
            let ghost n = out@.len() as int;
            match it.next() {
                Some(Ok(b)) => {
                    out.push(b);
                    assert(items.skip(n).drop_first() =~= items.skip(n + 1));
                },
                Some(Err(e)) => {
                    assert(forall|i: int| 0 <= i < n ==> may_succeed(f, #[trigger] items[i])) by {
                        assert forall|i: int| 0 <= i < n implies may_succeed(f, #[trigger] items[i]) by {
                            assert(f.ensures((items[i],), Ok::<B, E>(out@[i])));
                        }
                    }
                    assert(first_failure_at::<I::Item, B, E, F>(f, items, n, e));
                    assert(exists|k: int| first_failure_at::<I::Item, B, E, F>(f, items, k, e));
                    let ghost r = Err::<Vec<B>, E>(e);
                    assert(r->Err_0 == e);
                    assert(collect_outcome(f, items, r));
                    return Err(e);
                },
                None => {
                    assert(out@.len() == items.len());
                    return Ok(out);
                },
            }
        }
    }
}

/// Gives every iterator a lazy fallible map.
pub trait FallibleMapIteratorExt: Iterator {
    /// Wrap this iterator so that each item is passed through `f` as it is
    /// pulled. Nothing is consumed and `f` is not called yet.
    fn try_map<B, F, E>(self, f: F) -> (r: FallibleMapIterator<Self, F, B, E>)
        where
            Self: Sized,
            F: FnMut(Self::Item) -> Result<B, E>,
        ensures
            r.source() == self,
            r.func() == f,
    ;
}

impl<I> FallibleMapIteratorExt for I where I: Iterator {
    fn try_map<B, F, E>(self, f: F) -> (r: FallibleMapIterator<Self, F, B, E>)
        where
            Self: Sized,
            F: FnMut(Self::Item) -> Result<B, E>,
    {
        FallibleMapIterator::new(self, f)
    }
}

/// When every item of `items` can only succeed under `f`, collecting `f` over
/// `items` succeeds with one value per item, in order: value `i` is an outcome
/// of `f` on item `i`.
pub proof fn lemma_collect_all_succeed<T, B, E, F: FnMut(T) -> Result<B, E>>(
    f: F,
    items: Seq<T>,
    r: Result<Vec<B>, E>,
)
    requires
        forall|i: int, y: Result<B, E>| 0 <= i < items.len() && #[trigger] f.ensures((items[i],), y) ==> y is Ok,
        collect_outcome(f, items, r),
    ensures
        r is Ok,
        r->Ok_0@.len() == items.len(),
        forall|i: int| 0 <= i < items.len() ==> #[trigger] f.ensures((items[i],), Ok::<B, E>(r->Ok_0@[i])),
{
    if r is Err {
        let k = choose|k: int| first_failure_at(f, items, k, r->Err_0);
        assert(f.ensures((items[k],), Err::<B, E>(r->Err_0)));
    }
}

} // verus!
