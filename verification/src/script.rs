//! The outcomes that an iterator has in store, as a sequence, and what a
//! search for the next value finds in it.
//!
//! One poll returns `Ok(Some(v))` for a value, `Ok(None)` when nothing is
//! there on this poll, and `Err(e)` for a failure. A search polls until an
//! outcome settles it: a value always does, nothing never does, and a failure
//! does where the policy halts on it. A policy is the set of failures that it
//! halts on, given as a predicate.
//!
//! The derived sequence of a script is what search after search hands out
//! until one ends on a failure: the values that come before the first failure
//! that the policy halts on.

use vstd::prelude::*;
use vstd::std_specs::cmp::PartialEqSpec;

verus! {

/// What one poll returns.
pub type Outcome<T, E> = Result<Option<T>, E>;

/// The policy that halts on every failure.
pub open spec fn on_any<E>() -> spec_fn(E) -> bool {
    |e: E| true
}

/// The policy that halts on the failures that `==` finds equal to `sentinel`.
pub open spec fn on_equal<E: PartialEq>(sentinel: E) -> spec_fn(E) -> bool {
    |e: E| e.eq_spec(&sentinel)
}

/// The policy that halts on the failures that `keep` rejects.
pub open spec fn unless<E>(keep: spec_fn(E) -> bool) -> spec_fn(E) -> bool {
    |e: E| !keep(e)
}

/// Whether `outcome` is a failure that the policy halts on.
pub open spec fn halts_at<T, E>(outcome: Outcome<T, E>, halts: spec_fn(E) -> bool) -> bool {
    outcome matches Err(e) && halts(e)
}

/// Whether `outcome` ends a search: it is a value, or a failure that the
/// policy halts on.
pub open spec fn settles<T, E>(outcome: Outcome<T, E>, halts: spec_fn(E) -> bool) -> bool {
    outcome matches Ok(Some(_)) || halts_at(outcome, halts)
}

/// What a search that ended on `outcome` hands out: the value, or nothing
/// where it ended on a failure.
pub open spec fn yielded<T, E>(outcome: Outcome<T, E>) -> Option<T> {
    match outcome {
        Ok(item) => item,
        Err(_) => None,
    }
}

/// Index of the first element of `s` that satisfies `pred`, or `s.len()`
/// where none does.
pub open spec fn first_index<A>(s: Seq<A>, pred: spec_fn(A) -> bool) -> int
    decreases s.len(),
{
    if s.len() == 0 || pred(s[0]) {
        0
    } else {
        1 + first_index(s.skip(1), pred)
    }
}

/// The number of outcomes at the front of `script` that a search passes
/// over: the index of the first one that settles it, or `script.len()` where
/// none does.
pub open spec fn skipped<T, E>(script: Seq<Outcome<T, E>>, halts: spec_fn(E) -> bool) -> int {
    first_index(script, |o: Outcome<T, E>| settles(o, halts))
}

/// What a search over `script` finds: the value that it ends on, or nothing
/// where it ends on a failure.
pub open spec fn found<T, E>(script: Seq<Outcome<T, E>>, halts: spec_fn(E) -> bool) -> Option<T> {
    yielded(script[skipped(script, halts)])
}

/// What a search over `script` leaves: the outcomes after the one that it
/// ends on.
pub open spec fn rest<T, E>(script: Seq<Outcome<T, E>>, halts: spec_fn(E) -> bool) -> Seq<
    Outcome<T, E>,
> {
    script.skip(skipped(script, halts) + 1)
}

/// The first element of `s`, where it has one.
pub open spec fn head<A>(s: Seq<A>) -> Option<A> {
    if s.len() > 0 {
        Some(s[0])
    } else {
        None
    }
}

/// Whether a search over `script` comes to an end: some outcome in it
/// settles the search.
pub open spec fn settles_within<T, E>(
    script: Seq<Outcome<T, E>>,
    halts: spec_fn(E) -> bool,
) -> bool {
    exists|i: int| 0 <= i < script.len() && settles(#[trigger] script[i], halts)
}

/// Index of the first failure in `script` that the policy halts on, or
/// `script.len()` where there is none.
pub open spec fn first_halt<T, E>(script: Seq<Outcome<T, E>>, halts: spec_fn(E) -> bool) -> int {
    first_index(script, |o: Outcome<T, E>| halts_at(o, halts))
}

/// The values in `script`, in order.
pub open spec fn produced<T, E>(script: Seq<Outcome<T, E>>) -> Seq<T> {
    script.filter_map(|o: Outcome<T, E>| yielded(o))
}

/// The derived sequence: the values in `script` that come before the first
/// failure that the policy halts on.
pub open spec fn emitted<T, E>(script: Seq<Outcome<T, E>>, halts: spec_fn(E) -> bool) -> Seq<T> {
    produced(script.take(first_halt(script, halts)))
}

/// The outcomes of `script` that settle a search, in order: what is left of
/// it without the polls that yield nothing and the failures that the policy
/// does not halt on.
pub open spec fn settling<T, E>(script: Seq<Outcome<T, E>>, halts: spec_fn(E) -> bool) -> Seq<
    Outcome<T, E>,
> {
    script.filter(|o: Outcome<T, E>| settles(o, halts))
}

/// The number of polls that the first `count` searches over `script` make,
/// each search going on where the one before it ended.
pub open spec fn consumed<T, E>(
    script: Seq<Outcome<T, E>>,
    halts: spec_fn(E) -> bool,
    count: int,
) -> int
    decreases count,
{
    if count <= 0 {
        0
    } else {
        skipped(script, halts) + 1 + consumed(rest(script, halts), halts, count - 1)
    }
}

/// What the first `count` searches over `script` leave.
pub open spec fn after<T, E>(
    script: Seq<Outcome<T, E>>,
    halts: spec_fn(E) -> bool,
    count: int,
) -> Seq<Outcome<T, E>> {
    script.skip(consumed(script, halts, count))
}

/// The number of outcomes in `script` up to and including its `count`-th
/// value, or `script.len()` where it has fewer values.
pub open spec fn reach<T, E>(script: Seq<Outcome<T, E>>, count: int) -> int
    decreases script.len(),
{
    if count <= 0 || script.len() == 0 {
        0
    } else if script[0] matches Ok(Some(_)) {
        1 + reach(script.skip(1), count - 1)
    } else {
        1 + reach(script.skip(1), count)
    }
}

/// Whether the search may go on after `outcome`: nothing was there, or it is
/// a failure on which `cond` may answer `true`.
pub open spec fn may_pass<T, E, F: Fn(E) -> bool>(cond: F, outcome: Outcome<T, E>) -> bool {
    match outcome {
        Ok(Some(_)) => false,
        Ok(None) => true,
        Err(e) => cond.ensures((e,), true),
    }
}

/// Whether the search may end on `outcome`: it is a value, or a failure on
/// which `cond` may answer `false`.
pub open spec fn may_end<T, E, F: Fn(E) -> bool>(cond: F, outcome: Outcome<T, E>) -> bool {
    match outcome {
        Ok(Some(_)) => true,
        Ok(None) => false,
        Err(e) => cond.ensures((e,), false),
    }
}

/// Whether `cond` may be called on every failure in `script`.
pub open spec fn accepts<T, E, F: Fn(E) -> bool>(cond: F, script: Seq<Outcome<T, E>>) -> bool {
    forall|j: int|
        0 <= j < script.len() ==> (#[trigger] script[j] matches Err(e) ==> cond.requires((e,)))
}

/// Whether a search over `script` that `cond` decides comes to an end
/// whatever `cond` answers: after some outcome it may not go on.
pub open spec fn ends_within<T, E, F: Fn(E) -> bool>(cond: F, script: Seq<Outcome<T, E>>) -> bool {
    exists|i: int| 0 <= i < script.len() && !may_pass(cond, #[trigger] script[i])
}

/// Whether `cond` computes `keep`: on a failure it answers nothing but what
/// `keep` says.
pub open spec fn computes<E, F: Fn(E) -> bool>(cond: F, keep: spec_fn(E) -> bool) -> bool {
    forall|e: E, b: bool| #[trigger] cond.ensures((e,), b) ==> b == keep(e)
}

/// A search that `cond` decides may have made `polls` polls: it may go on
/// after each outcome but the last polled, and may end on that one.
pub open spec fn searched_while<T, E, F: Fn(E) -> bool>(
    cond: F,
    script: Seq<Outcome<T, E>>,
    polls: int,
) -> bool {
    &&& 0 < polls <= script.len()
    &&& forall|j: int| 0 <= j < polls - 1 ==> may_pass(cond, #[trigger] script[j])
    &&& may_end(cond, script[polls - 1])
}

} // verus!
