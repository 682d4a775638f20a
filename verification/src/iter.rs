//! Iterators whose polls may yield nothing without being finished, and the
//! adapters that turn them into plain sequences of values.

use crate::lemmas::{lemma_search_emits, lemma_searched_while_any, lemma_skipped};
use crate::script::{
    accepts, computes, emitted, ends_within, found, head, may_pass, on_any, on_equal, rest,
    searched_while, settles_within, skipped, unless, yielded, Outcome,
};
use core::ops::{Deref, DerefMut};
use vstd::prelude::*;
use vstd::std_specs::cmp::PartialEqSpec;

verus! {

/// Represents an iterator that can return nothing with the expectation that
/// it will return something in the future.
///
/// One poll returns `Ok(Some(v))` for a value, `Ok(None)` when nothing is
/// there on this poll, and `Err(e)` for a failure. None of the three ends the
/// iterator by itself: whether a failure does is up to the adapter that the
/// iterator is wrapped in.
pub trait FallibleIterator {
    type SomeItem;

    type Error;

    /// The outcomes in store: what the coming polls return, in order. Past
    /// its end nothing is known of a poll. An implementation that does not
    /// say what it has in store has nothing in store.
    open spec fn script(&self) -> Seq<Outcome<Self::SomeItem, Self::Error>> {
        Seq::empty()
    }

    /// Polls once. While an outcome is in store, the poll returns the first
    /// and leaves the others. Once none is, what a poll returns is up to the
    /// implementation.
    fn some_next(&mut self) -> (polled: Result<Option<Self::SomeItem>, Self::Error>)
        ensures
            old(self).script().len() > 0 ==> {
                &&& polled == old(self).script()[0]
                &&& final(self).script() == old(self).script().skip(1)
            },
    ;

    /// Polls this iterator until it returns a value, and hands the value
    /// out. Hands out `None` where it finds a failure first. It goes on
    /// polling over the polls that yield nothing, and polls as far as the
    /// outcome that it ends on and no further.
    ///
    /// A value or a failure has to be in store.
    fn seek_next(&mut self) -> (item: Option<Self::SomeItem>)
        requires
            settles_within(old(self).script(), on_any()),
        ensures
            item == found(old(self).script(), on_any()),
            final(self).script() == rest(old(self).script(), on_any()),
            item == head(emitted(old(self).script(), on_any())),
            item is Some ==> emitted(final(self).script(), on_any()) == emitted(
                old(self).script(),
                on_any(),
            ).skip(1),
    {
        let ghost start = self.script();
        let ghost mut polls: int = 0;
        proof {
            lemma_skipped(start, on_any());
        }
        loop
            invariant
                start == old(self).script(),
                self.script() == start.skip(polls),
                0 <= polls <= skipped(start, on_any()) < start.len(),
            decreases skipped(start, on_any()) - polls,
        {
            proof {
                lemma_skipped(start, on_any());
                lemma_search_emits(start, on_any());
            }
            match self.some_next() {
                Ok(Some(t)) => return Some(t),
                Err(_) => return None,
                Ok(None) => {},
            }
            proof {
                polls = polls + 1;
            }
        }
    }

    /// Converts this iterator into one that skips the polls that yield
    /// nothing and ends when any failure is returned.
    fn fuse_err(self) -> (fused: FuseIterAlways<Self>) where Self: Sized + 'static
        ensures
            fused.inner == self,
    {
        FuseIterAlways { inner: self }
    }

    /// Converts this iterator into one that skips the polls that yield
    /// nothing. It ends when the specified failure is returned, and all other
    /// failures are skipped.
    fn fuse_err_on(self, error: <Self as FallibleIterator>::Error) -> (fused: FuseIterVariant<
        Self,
    >) where Self: Sized + 'static, Self::Error: PartialEq + 'static
        ensures
            fused.inner == self,
            fused.variant == error,
    {
        FuseIterVariant { inner: self, variant: error }
    }

    /// Converts this iterator into one that skips the polls that yield
    /// nothing. After a failure it goes on while the closure answers `true`,
    /// and ends when the closure answers `false`.
    fn fuse_err_when<F>(self, f: F) -> (fused: FuseIterClosure<Self, F>) where
        Self: Sized + 'static,
        F: Fn(Self::Error) -> bool + 'static,

        ensures
            fused.inner == self,
            fused.cond == f,
    {
        FuseIterClosure { inner: self, cond: f }
    }
}

/// Skips the polls that yield nothing, and ends on the first failure.
#[derive(Debug)]
pub struct FuseIterAlways<I> where I: FallibleIterator {
    pub inner: I,
}

impl<I> FuseIterAlways<I> where I: FallibleIterator {
    /// The outcomes that the wrapped iterator has in store.
    pub open spec fn script(&self) -> Seq<Outcome<I::SomeItem, I::Error>> {
        self.inner.script()
    }

    /// Hands out the next value of the wrapped iterator, or `None` where a
    /// failure comes first. It polls as far as the outcome that it ends on
    /// and no further.
    ///
    /// A value or a failure has to be in store.
    pub fn next(&mut self) -> (item: Option<I::SomeItem>)
        requires
            settles_within(old(self).script(), on_any()),
        ensures
            item == found(old(self).script(), on_any()),
            final(self).script() == rest(old(self).script(), on_any()),
            item == head(emitted(old(self).script(), on_any())),
            item is Some ==> emitted(final(self).script(), on_any()) == emitted(
                old(self).script(),
                on_any(),
            ).skip(1),
    {
        self.inner.seek_next()
    }
}

/// Skips the polls that yield nothing, and the failures other than one. Ends
/// on the first failure equal to that one.
#[derive(Debug, Hash)]
pub struct FuseIterVariant<I> where I: FallibleIterator, I::Error: PartialEq {
    pub inner: I,
    pub variant: I::Error,
}

impl<I> FuseIterVariant<I> where I: FallibleIterator, I::Error: PartialEq {
    /// The outcomes that the wrapped iterator has in store.
    pub open spec fn script(&self) -> Seq<Outcome<I::SomeItem, I::Error>> {
        self.inner.script()
    }

    /// Polls the wrapped iterator until a value or a failure equal to the
    /// chosen one, and hands out the value, or `None` for that failure. It
    /// polls as far as the outcome that it ends on and no further.
    ///
    /// A value or a failure equal to the chosen one has to be in store, and
    /// `==` on the failures has to be the one that contracts speak of.
    pub fn next(&mut self) -> (item: Option<I::SomeItem>)
        requires
            I::Error::obeys_eq_spec(),
            settles_within(old(self).script(), on_equal(old(self).variant)),
        ensures
            final(self).variant == old(self).variant,
            item == found(old(self).script(), on_equal(old(self).variant)),
            final(self).script() == rest(old(self).script(), on_equal(old(self).variant)),
            item == head(emitted(old(self).script(), on_equal(old(self).variant))),
            item is Some ==> emitted(final(self).script(), on_equal(old(self).variant))
                == emitted(old(self).script(), on_equal(old(self).variant)).skip(1),
    {
        let ghost start = self.script();
        let ghost halts = on_equal(self.variant);
        let ghost mut polls: int = 0;
        proof {
            lemma_skipped(start, halts);
        }
        loop
            invariant
                I::Error::obeys_eq_spec(),
                start == old(self).script(),
                self.variant == old(self).variant,
                halts == on_equal(self.variant),
                self.script() == start.skip(polls),
                0 <= polls <= skipped(start, halts) < start.len(),
            decreases skipped(start, halts) - polls,
        {
            proof {
                lemma_skipped(start, halts);
                lemma_search_emits(start, halts);
            }
            match self.inner.some_next() {
                Ok(Some(t)) => return Some(t),
                Err(e) if e == self.variant => return None,
                Err(_) | Ok(None) => {},
            }
            proof {
                polls = polls + 1;
            }
        }
    }
}

/// Skips the polls that yield nothing, and the failures for which the
/// closure answers `true`. Ends on the first failure for which it answers
/// `false`.
pub struct FuseIterClosure<I, F> where I: FallibleIterator, F: Fn(I::Error) -> bool {
    pub inner: I,
    pub cond: F,
}

impl<I, F> FuseIterClosure<I, F> where I: FallibleIterator, F: Fn(I::Error) -> bool {
    /// The outcomes that the wrapped iterator has in store.
    pub open spec fn script(&self) -> Seq<Outcome<I::SomeItem, I::Error>> {
        self.inner.script()
    }

    /// Polls the wrapped iterator until a value or a failure for which the
    /// closure answers `false`, and hands out the value, or `None` for such a
    /// failure. It polls as far as the outcome that it ends on and no
    /// further. Whatever predicate the closure computes, the search is the
    /// one under the policy that halts on the failures that the predicate
    /// rejects.
    ///
    /// The closure has to accept every failure in store, and some outcome in
    /// store has to end the search whatever the closure answers.
    pub fn next(&mut self) -> (item: Option<I::SomeItem>)
        requires
            accepts(old(self).cond, old(self).script()),
            ends_within(old(self).cond, old(self).script()),
        ensures
            final(self).cond == old(self).cond,
            ({
                let polls = old(self).script().len() - final(self).script().len();
                &&& searched_while(old(self).cond, old(self).script(), polls)
                &&& final(self).script() == old(self).script().skip(polls)
                &&& item == yielded(old(self).script()[polls - 1])
            }),
            forall|keep: spec_fn(I::Error) -> bool| #[trigger]
                computes(old(self).cond, keep) ==> {
                    &&& item == found(old(self).script(), unless(keep))
                    &&& final(self).script() == rest(old(self).script(), unless(keep))
                    &&& item == head(emitted(old(self).script(), unless(keep)))
                    &&& item is Some ==> emitted(final(self).script(), unless(keep)) == emitted(
                        old(self).script(),
                        unless(keep),
                    ).skip(1)
                },
    {
        let ghost start = self.script();
        let ghost bound = choose|i: int|
            0 <= i < start.len() && !may_pass(self.cond, #[trigger] start[i]);
        let ghost mut polls: int = 0;
        loop
            invariant
                start == old(self).script(),
                self.cond == old(self).cond,
                0 <= polls <= bound < start.len(),
                !may_pass(self.cond, start[bound]),
                self.script() == start.skip(polls),
                forall|j: int| 0 <= j < polls ==> may_pass(self.cond, #[trigger] start[j]),
                accepts(self.cond, start),
            decreases bound - polls,
        {
            match self.inner.some_next() {
                Ok(Some(t)) => {
                    proof {
                        assert(self.script() == start.skip(polls + 1));
                        lemma_searched_while_any(self.cond, start, polls + 1);
                    }
                    return Some(t);
                },
                Err(e) => {
                    if !(self.cond)(e) {
                        proof {
                            assert(self.script() == start.skip(polls + 1));
                            lemma_searched_while_any(self.cond, start, polls + 1);
                        }
                        return None;
                    }
                },
                Ok(None) => {},
            }
            proof {
                polls = polls + 1;
            }
        }
    }
}

/// A wrapper that hands out what it holds by reference, and that turns an
/// iterator that it holds into an [`IntoIter`].
pub struct W<T>(T);

impl<T> View for W<T> {
    type V = T;

    closed spec fn view(&self) -> T {
        self.0
    }
}

impl<T> W<T> {
    /// Wraps `value`.
    pub fn new(value: T) -> (w: Self)
        ensures
            w@ == value,
    {
        W(value)
    }
}

impl<T> DerefMut for W<T> {
    #[inline]
    fn deref_mut(&mut self) -> (held: &mut T)
        ensures
            *held == old(self)@,
            final(self)@ == *final(held),
    {
        &mut self.0
    }
}

impl<T> Deref for W<T> {
    type Target = T;

    #[inline]
    fn deref(&self) -> (held: &T)
        ensures
            *held == self@,
    {
        &self.0
    }
}

impl<FI> W<FI> where FI: FallibleIterator {
    /// Turns the wrapper into an [`IntoIter`] that holds it.
    pub fn into_iter(self) -> (iter: IntoIter<Self>)
        ensures
            iter@ == self,
    {
        IntoIter { inner: self }
    }
}

/// What [`W::into_iter`] makes of a wrapped iterator.
pub struct IntoIter<FI> {
    inner: FI,
}

impl<FI> View for IntoIter<FI> {
    type V = FI;

    closed spec fn view(&self) -> FI {
        self.inner
    }
}

} // verus!
