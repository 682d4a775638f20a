//! What holds of searches over a script: where a search ends, what it does to
//! the derived sequence, and how far a run of searches polls.

use crate::script::{
    after, computes, consumed, emitted, ends_within, first_halt, first_index, found, halts_at,
    head, may_pass, on_equal, produced, reach, rest, searched_while, settles, settles_within,
    settling, skipped, unless, yielded, Outcome,
};
use vstd::prelude::*;
use vstd::std_specs::cmp::PartialEqSpec;

verus! {

/// `first_index` is in range, nothing before it satisfies `pred`, and the
/// element at it does.
pub proof fn lemma_first_index<A>(s: Seq<A>, pred: spec_fn(A) -> bool)
    ensures
        0 <= first_index(s, pred) <= s.len(),
        forall|j: int| 0 <= j < first_index(s, pred) ==> !pred(#[trigger] s[j]),
        first_index(s, pred) < s.len() ==> pred(s[first_index(s, pred)]),
    decreases s.len(),
{
    if s.len() != 0 && !pred(s[0]) {
        let tail = s.skip(1);
        lemma_first_index(tail, pred);
        assert forall|j: int| 0 <= j < first_index(s, pred) implies !pred(#[trigger] s[j]) by {
            if j > 0 {
                assert(s[j] == tail[j - 1]);
            }
        }
    }
}

/// An index with nothing before it that satisfies `pred`, and which is the
/// end of `s` or satisfies `pred` itself, is `first_index`.
pub proof fn lemma_first_index_is<A>(s: Seq<A>, pred: spec_fn(A) -> bool, i: int)
    requires
        0 <= i <= s.len(),
        forall|j: int| 0 <= j < i ==> !pred(#[trigger] s[j]),
        i < s.len() ==> pred(s[i]),
    ensures
        first_index(s, pred) == i,
{
    lemma_first_index(s, pred);
}

/// `skipped` is in range, no outcome before it settles the search, and the
/// one at it does. It is short of the end exactly where the search comes to
/// an end.
pub proof fn lemma_skipped<T, E>(script: Seq<Outcome<T, E>>, halts: spec_fn(E) -> bool)
    ensures
        0 <= skipped(script, halts) <= script.len(),
        forall|j: int| 0 <= j < skipped(script, halts) ==> !settles(#[trigger] script[j], halts),
        skipped(script, halts) < script.len() ==> settles(script[skipped(script, halts)], halts),
        settles_within(script, halts) <==> skipped(script, halts) < script.len(),
{
    let pred = |o: Outcome<T, E>| settles(o, halts);
    lemma_first_index(script, pred);
    assert forall|j: int| 0 <= j < skipped(script, halts) implies !settles(
        #[trigger] script[j],
        halts,
    ) by {
        assert(!pred(script[j]));
    }
    if settles_within(script, halts) {
        let i = choose|i: int| 0 <= i < script.len() && settles(#[trigger] script[i], halts);
        assert(pred(script[i]));
    }
}

/// An outcome that settles the search, with none before it that does, is
/// where the search ends.
pub proof fn lemma_skipped_is<T, E>(script: Seq<Outcome<T, E>>, halts: spec_fn(E) -> bool, i: int)
    requires
        0 <= i < script.len(),
        forall|j: int| 0 <= j < i ==> !settles(#[trigger] script[j], halts),
        settles(script[i], halts),
    ensures
        settles_within(script, halts),
        skipped(script, halts) == i,
{
    lemma_first_index_is(script, |o: Outcome<T, E>| settles(o, halts), i);
}

/// `first_halt` is in range, the policy halts on no outcome before it, and
/// it does on the one at it.
pub proof fn lemma_first_halt<T, E>(script: Seq<Outcome<T, E>>, halts: spec_fn(E) -> bool)
    ensures
        0 <= first_halt(script, halts) <= script.len(),
        forall|j: int|
            0 <= j < first_halt(script, halts) ==> !halts_at(#[trigger] script[j], halts),
        first_halt(script, halts) < script.len() ==> halts_at(
            script[first_halt(script, halts)],
            halts,
        ),
{
    let pred = |o: Outcome<T, E>| halts_at(o, halts);
    lemma_first_index(script, pred);
    assert forall|j: int| 0 <= j < first_halt(script, halts) implies !halts_at(
        #[trigger] script[j],
        halts,
    ) by {
        assert(!pred(script[j]));
    }
}

/// An index with no failure before it that the policy halts on, and which is
/// the end of the script or such a failure itself, is `first_halt`.
pub proof fn lemma_first_halt_is<T, E>(
    script: Seq<Outcome<T, E>>,
    halts: spec_fn(E) -> bool,
    i: int,
)
    requires
        0 <= i <= script.len(),
        forall|j: int| 0 <= j < i ==> !halts_at(#[trigger] script[j], halts),
        i < script.len() ==> halts_at(script[i], halts),
    ensures
        first_halt(script, halts) == i,
{
    lemma_first_index_is(script, |o: Outcome<T, E>| halts_at(o, halts), i);
}

/// Dropping outcomes that come before the first halting failure moves that
/// failure forward by as many places.
pub proof fn lemma_first_halt_skip<T, E>(
    script: Seq<Outcome<T, E>>,
    halts: spec_fn(E) -> bool,
    k: int,
)
    requires
        0 <= k <= first_halt(script, halts),
    ensures
        first_halt(script.skip(k), halts) == first_halt(script, halts) - k,
{
    let tail = script.skip(k);
    let cut = first_halt(script, halts);
    lemma_first_halt(script, halts);
    assert forall|j: int| 0 <= j < cut - k implies !halts_at(#[trigger] tail[j], halts) by {
        assert(tail[j] == script[j + k]);
    }
    lemma_first_halt_is(tail, halts, cut - k);
}

/// The values of a single outcome: the value, if it is one.
pub proof fn lemma_produced_one<T, E>(outcome: Outcome<T, E>)
    ensures
        produced(seq![outcome]) == match yielded(outcome) {
            Some(v) => seq![v],
            None => Seq::empty(),
        },
{
    let one = seq![outcome];
    assert(produced(one.drop_last()) == Seq::<T>::empty());
}

/// The values of two scripts on end are the values of the first, then those
/// of the second.
pub proof fn lemma_produced_add<T, E>(a: Seq<Outcome<T, E>>, b: Seq<Outcome<T, E>>)
    ensures
        produced(a + b) == produced(a) + produced(b),
    decreases b.len(),
{
    if b.len() > 0 {
        lemma_produced_add(a, b.drop_last());
        assert((a + b).drop_last() == a + b.drop_last());
    }
}

/// A script has no values exactly where none of its outcomes is a value.
pub proof fn lemma_produced_none<T, E>(script: Seq<Outcome<T, E>>)
    ensures
        produced(script).len() == 0 <==> forall|j: int|
            0 <= j < script.len() ==> !(#[trigger] script[j] matches Ok(Some(_))),
    decreases script.len(),
{
    if script.len() != 0 {
        let front = script.drop_last();
        lemma_produced_none(front);
        if produced(script).len() == 0 {
            assert forall|j: int| 0 <= j < script.len() implies !(#[trigger] script[j] matches Ok(
                Some(_),
            )) by {
                if j < front.len() {
                    assert(front[j] == script[j]);
                }
            }
        }
        if forall|j: int| 0 <= j < script.len() ==> !(#[trigger] script[j] matches Ok(Some(_))) {
            assert forall|j: int| 0 <= j < front.len() implies !(#[trigger] front[j] matches Ok(
                Some(_),
            )) by {
                assert(front[j] == script[j]);
            }
        }
    }
}

/// What one search does to the derived sequence: it finds its head, and
/// where there is one, the derived sequence of what the search leaves is its
/// tail.
pub proof fn lemma_search_emits<T, E>(script: Seq<Outcome<T, E>>, halts: spec_fn(E) -> bool)
    requires
        settles_within(script, halts),
    ensures
        found(script, halts) == head(emitted(script, halts)),
        found(script, halts) is Some ==> emitted(rest(script, halts), halts) == emitted(
            script,
            halts,
        ).skip(1),
{
    let n = skipped(script, halts);
    let cut = first_halt(script, halts);
    lemma_skipped(script, halts);
    lemma_first_halt(script, halts);
    let front = script.take(n);
    assert forall|j: int| 0 <= j < front.len() implies !(#[trigger] front[j] matches Ok(
        Some(_),
    )) by {
        assert(!settles(script[j], halts));
    }
    lemma_produced_none(front);
    if script[n] is Ok {
        let tail = script.skip(n + 1);
        lemma_first_halt_skip(script, halts, n + 1);
        assert(script.take(cut) == front + seq![script[n]] + tail.take(cut - n - 1));
        lemma_produced_add(front + seq![script[n]], tail.take(cut - n - 1));
        lemma_produced_add(front, seq![script[n]]);
        lemma_produced_one(script[n]);
    }
}

/// The derived sequence, from the first outcome on: nothing where the policy
/// halts on it, else its value, where it is one, and then the derived
/// sequence of the others.
pub proof fn lemma_emitted_unfold<T, E>(script: Seq<Outcome<T, E>>, halts: spec_fn(E) -> bool)
    requires
        script.len() > 0,
    ensures
        emitted(script, halts) == if halts_at(script[0], halts) {
            Seq::empty()
        } else {
            produced(seq![script[0]]) + emitted(script.skip(1), halts)
        },
{
    let tail = script.skip(1);
    if !halts_at(script[0], halts) {
        let cut = first_halt(tail, halts);
        lemma_first_halt(tail, halts);
        assert(script.take(1 + cut) == seq![script[0]] + tail.take(cut));
        lemma_produced_add(seq![script[0]], tail.take(cut));
    }
}

/// The outcomes that settle no search leave no trace: the derived sequence
/// is that of the script without the polls that yield nothing and the
/// failures that the policy does not halt on.
pub proof fn lemma_emitted_of_settling<T, E>(script: Seq<Outcome<T, E>>, halts: spec_fn(E) -> bool)
    ensures
        emitted(settling(script, halts), halts) == emitted(script, halts),
    decreases script.len(),
{
    let pred = |o: Outcome<T, E>| settles(o, halts);
    if script.len() == 0 {
        assert(script.filter(pred) == script) by {
            reveal(Seq::filter);
        }
    } else {
        let first = script[0];
        let tail = script.skip(1);
        assert(script == seq![first] + tail);
        tail.lemma_filter_prepend(first, pred);
        lemma_emitted_of_settling(tail, halts);
        lemma_emitted_unfold(script, halts);
        lemma_produced_one(first);
        if settles(first, halts) {
            let kept = settling(script, halts);
            assert(kept.skip(1) == settling(tail, halts));
            lemma_emitted_unfold(kept, halts);
        }
    }
}

/// Where the derived sequence is empty, a search ends if and only if the
/// policy halts on some failure in the script.
pub proof fn lemma_emitted_none<T, E>(script: Seq<Outcome<T, E>>, halts: spec_fn(E) -> bool)
    requires
        emitted(script, halts).len() == 0,
    ensures
        settles_within(script, halts) <==> first_halt(script, halts) < script.len(),
{
    let cut = first_halt(script, halts);
    let front = script.take(cut);
    lemma_first_halt(script, halts);
    lemma_produced_none(front);
    if settles_within(script, halts) && cut == script.len() {
        let i = choose|i: int| 0 <= i < script.len() && settles(#[trigger] script[i], halts);
        assert(front[i] == script[i]);
    }
}

/// A script with a value in its derived sequence has an outcome that settles
/// a search.
pub proof fn lemma_emitted_some<T, E>(script: Seq<Outcome<T, E>>, halts: spec_fn(E) -> bool)
    requires
        emitted(script, halts).len() > 0,
    ensures
        settles_within(script, halts),
{
    let front = script.take(first_halt(script, halts));
    lemma_first_halt(script, halts);
    lemma_produced_none(front);
    let j = choose|j: int| 0 <= j < front.len() && (#[trigger] front[j] matches Ok(Some(_)));
    assert(settles(script[j], halts));
}

/// The derived sequence, search by search. The search that follows `k`
/// others finds the value at `k` of the derived sequence. The search that
/// follows as many others as the derived sequence has values finds nothing
/// and has polled as far as the first failure that the policy halts on; where
/// the script has no such failure, that search runs off the script.
pub proof fn lemma_nth_search<T, E>(script: Seq<Outcome<T, E>>, halts: spec_fn(E) -> bool, k: int)
    requires
        0 <= k <= emitted(script, halts).len(),
    ensures
        0 <= consumed(script, halts, k) <= script.len(),
        k < emitted(script, halts).len() ==> {
            &&& settles_within(after(script, halts, k), halts)
            &&& found(after(script, halts, k), halts) == Some(emitted(script, halts)[k])
        },
        k == emitted(script, halts).len() && first_halt(script, halts) < script.len() ==> {
            &&& settles_within(after(script, halts, k), halts)
            &&& found(after(script, halts, k), halts) is None
            &&& consumed(script, halts, k + 1) == first_halt(script, halts) + 1
        },
        k == emitted(script, halts).len() && first_halt(script, halts) == script.len()
            ==> !settles_within(after(script, halts, k), halts),
    decreases k,
{
    lemma_first_halt(script, halts);
    lemma_skipped(script, halts);
    let n = skipped(script, halts);
    if k == 0 {
        assert(script.skip(0) == script);
        if emitted(script, halts).len() > 0 {
            lemma_emitted_some(script, halts);
            lemma_search_emits(script, halts);
        } else {
            lemma_emitted_none(script, halts);
            if first_halt(script, halts) < script.len() {
                lemma_search_emits(script, halts);
                assert(consumed(rest(script, halts), halts, 0) == 0);
            }
        }
    } else {
        lemma_emitted_some(script, halts);
        lemma_search_emits(script, halts);
        let tail = rest(script, halts);
        lemma_first_halt_skip(script, halts, n + 1);
        lemma_nth_search(tail, halts, k - 1);
        let c = consumed(tail, halts, k - 1);
        assert(tail.skip(c) == script.skip(n + 1 + c));
    }
}

/// Past a run of outcomes without a value and the value that follows it,
/// one value fewer is left to reach.
pub proof fn lemma_reach_skip<T, E>(script: Seq<Outcome<T, E>>, count: int, n: int)
    requires
        count > 0,
        0 <= n < script.len(),
        forall|j: int| 0 <= j < n ==> !(#[trigger] script[j] matches Ok(Some(_))),
        script[n] matches Ok(Some(_)),
    ensures
        reach(script, count) == n + 1 + reach(script.skip(n + 1), count - 1),
    decreases n,
{
    let tail = script.skip(1);
    if n > 0 {
        assert forall|j: int| 0 <= j < n - 1 implies !(#[trigger] tail[j] matches Ok(Some(_))) by {
            assert(tail[j] == script[j + 1]);
        }
        lemma_reach_skip(tail, count, n - 1);
        assert(tail.skip(n) == script.skip(n + 1));
    }
}

/// No buffering: to hand out the first `count` values of the derived
/// sequence, the searches poll exactly as far as the `count`-th value in the
/// script.
pub proof fn lemma_consumed_is_reach<T, E>(
    script: Seq<Outcome<T, E>>,
    halts: spec_fn(E) -> bool,
    count: int,
)
    requires
        0 <= count <= emitted(script, halts).len(),
    ensures
        consumed(script, halts, count) == reach(script, count),
    decreases count,
{
    if count > 0 {
        lemma_emitted_some(script, halts);
        lemma_search_emits(script, halts);
        lemma_skipped(script, halts);
        let n = skipped(script, halts);
        assert forall|j: int| 0 <= j < n implies !(#[trigger] script[j] matches Ok(Some(_))) by {
            assert(!settles(script[j], halts));
        }
        lemma_reach_skip(script, count, n);
        lemma_consumed_is_reach(rest(script, halts), halts, count - 1);
    }
}

/// Halting on the failures equal to a sentinel is halting on the failures
/// that "differs from the sentinel" rejects.
pub proof fn lemma_on_equal_is_unless<E: PartialEq>(sentinel: E)
    ensures
        on_equal(sentinel) == unless(|e: E| !e.eq_spec(&sentinel)),
{
}

/// Where the closure computes `keep`, a search ends whatever the closure
/// answers if it ends under the policy that halts on the failures that
/// `keep` rejects.
pub proof fn lemma_ends_within<T, E, F: Fn(E) -> bool>(
    cond: F,
    keep: spec_fn(E) -> bool,
    script: Seq<Outcome<T, E>>,
)
    requires
        computes(cond, keep),
        settles_within(script, unless(keep)),
    ensures
        ends_within(cond, script),
{
    let i = choose|i: int| 0 <= i < script.len() && settles(#[trigger] script[i], unless(keep));
    assert(!may_pass(cond, script[i]));
}

/// Where the closure computes `keep`, a search that it decides is the search
/// under the policy that halts on the failures that `keep` rejects: it makes
/// the same polls, and so finds the head of the same derived sequence and
/// leaves the same.
pub proof fn lemma_searched_while<T, E, F: Fn(E) -> bool>(
    cond: F,
    keep: spec_fn(E) -> bool,
    script: Seq<Outcome<T, E>>,
    polls: int,
)
    requires
        computes(cond, keep),
        searched_while(cond, script, polls),
    ensures
        settles_within(script, unless(keep)),
        polls == skipped(script, unless(keep)) + 1,
        yielded(script[polls - 1]) == found(script, unless(keep)),
        script.skip(polls) == rest(script, unless(keep)),
        yielded(script[polls - 1]) == head(emitted(script, unless(keep))),
        yielded(script[polls - 1]) is Some ==> emitted(script.skip(polls), unless(keep))
            == emitted(script, unless(keep)).skip(1),
{
    let halts = unless(keep);
    assert forall|j: int| 0 <= j < polls - 1 implies !settles(#[trigger] script[j], halts) by {
        assert(may_pass(cond, script[j]));
    }
    lemma_skipped_is(script, halts, polls - 1);
    lemma_search_emits(script, halts);
}

/// A search that the closure decides is, for every predicate that the
/// closure computes, the search under the policy that halts on the failures
/// that the predicate rejects.
pub proof fn lemma_searched_while_any<T, E, F: Fn(E) -> bool>(
    cond: F,
    script: Seq<Outcome<T, E>>,
    polls: int,
)
    requires
        searched_while(cond, script, polls),
    ensures
        forall|keep: spec_fn(E) -> bool| #[trigger]
            computes(cond, keep) ==> {
                &&& yielded(script[polls - 1]) == found(script, unless(keep))
                &&& script.skip(polls) == rest(script, unless(keep))
                &&& yielded(script[polls - 1]) == head(emitted(script, unless(keep)))
                &&& yielded(script[polls - 1]) is Some ==> emitted(
                    script.skip(polls),
                    unless(keep),
                ) == emitted(script, unless(keep)).skip(1)
            },
{
    assert forall|keep: spec_fn(E) -> bool| #[trigger] computes(cond, keep) implies {
        &&& yielded(script[polls - 1]) == found(script, unless(keep))
        &&& script.skip(polls) == rest(script, unless(keep))
        &&& yielded(script[polls - 1]) == head(emitted(script, unless(keep)))
        &&& yielded(script[polls - 1]) is Some ==> emitted(script.skip(polls), unless(keep))
            == emitted(script, unless(keep)).skip(1)
    } by {
        lemma_searched_while(cond, keep, script, polls);
    }
}

} // verus!
