use fallible::iter::FallibleIterator;
use fallible::scripted::Scripted;
use std::cell::RefCell;
use std::rc::Rc;

const X: &str = "x";
const Y: &str = "y";

type Polled = Result<Option<i32>, &'static str>;

fn script() -> Vec<Polled> {
    vec![Ok(Some(1)), Ok(None), Ok(Some(2)), Err(X), Ok(Some(3))]
}

struct A;

impl FallibleIterator for A {
    type SomeItem = ();
    type Error = ();

    fn some_next(&mut self) -> Result<Option<()>, ()> {
        Ok(Some(()))
    }
}

/// Counts its polls, and yields nothing on every one of them but the last of
/// each round of four.
struct Sparse {
    polls: u32,
}

impl FallibleIterator for Sparse {
    type SomeItem = u32;
    type Error = u32;

    fn some_next(&mut self) -> Result<Option<u32>, u32> {
        self.polls += 1;
        if self.polls % 4 == 0 {
            Ok(Some(self.polls))
        } else {
            Ok(None)
        }
    }
}

#[test]
fn name() {
    let a = A;
    let mut fused = a.fuse_err();
    for _ in 0..1000 {
        assert_eq!(fused.next(), Some(()));
    }
}

#[test]
fn fuse_err_ends_at_the_first_failure() {
    let mut fused = Scripted::new(script()).fuse_err();
    assert_eq!(fused.next(), Some(1));
    assert_eq!(fused.next(), Some(2));
    assert_eq!(fused.next(), None);
}

#[test]
fn fuse_err_goes_on_past_a_failure_when_asked_again() {
    let mut fused = Scripted::new(script()).fuse_err();
    assert_eq!(fused.next(), Some(1));
    assert_eq!(fused.next(), Some(2));
    assert_eq!(fused.next(), None);
    assert_eq!(fused.next(), Some(3));
    assert_eq!(fused.inner.remaining(), 0);
}

#[test]
fn fuse_err_on_ends_at_the_sentinel() {
    let mut fused = Scripted::new(script()).fuse_err_on(X);
    assert_eq!(fused.next(), Some(1));
    assert_eq!(fused.next(), Some(2));
    assert_eq!(fused.next(), None);
    assert_eq!(fused.inner.remaining(), 1);
}

#[test]
fn fuse_err_on_absorbs_other_failures() {
    let mut fused = Scripted::new(script()).fuse_err_on(Y);
    assert_eq!(fused.next(), Some(1));
    assert_eq!(fused.next(), Some(2));
    assert_eq!(fused.next(), Some(3));
    assert_eq!(fused.inner.remaining(), 0);
}

#[test]
fn fuse_err_when_absorbs_while_the_closure_says_so() {
    let outcomes: Vec<Polled> = vec![Err(X), Err(X), Ok(Some(1))];
    let mut fused = Scripted::new(outcomes).fuse_err_when(|_| true);
    assert_eq!(fused.next(), Some(1));
    assert_eq!(fused.inner.remaining(), 0);
}

#[test]
fn fuse_err_when_ends_when_the_closure_says_no() {
    let outcomes: Vec<Polled> =
        vec![Err(Y), Ok(Some(4)), Ok(None), Err(Y), Ok(Some(5)), Err(X), Ok(Some(6))];
    let mut fused = Scripted::new(outcomes).fuse_err_when(|e| e != X);
    assert_eq!(fused.next(), Some(4));
    assert_eq!(fused.next(), Some(5));
    assert_eq!(fused.next(), None);
    assert_eq!(fused.inner.remaining(), 1);
}

#[test]
fn fuse_err_when_agrees_with_fuse_err_on() {
    let outcomes = || -> Vec<Polled> {
        vec![Ok(None), Err(Y), Ok(Some(7)), Err(Y), Err(Y), Ok(Some(8)), Ok(None), Err(X), Ok(Some(9))]
    };
    let mut by_value = Scripted::new(outcomes()).fuse_err_on(X);
    let mut by_closure = Scripted::new(outcomes()).fuse_err_when(|e| e != X);
    for expected in [Some(7), Some(8), None] {
        assert_eq!(by_value.next(), expected);
        assert_eq!(by_closure.next(), expected);
        assert_eq!(by_value.inner.remaining(), by_closure.inner.remaining());
    }
}

#[test]
fn fuse_err_skips_empty_polls() {
    let outcomes: Vec<Polled> =
        vec![Ok(None), Ok(None), Ok(Some(10)), Ok(None), Ok(Some(20)), Ok(None), Err(Y)];
    let mut fused = Scripted::new(outcomes).fuse_err();
    assert_eq!(fused.next(), Some(10));
    assert_eq!(fused.next(), Some(20));
    assert_eq!(fused.next(), None);
    assert_eq!(fused.inner.remaining(), 0);
}

#[test]
fn fuse_err_gives_nothing_when_a_failure_comes_first() {
    let outcomes: Vec<Polled> = vec![Ok(None), Err(X), Ok(Some(1))];
    let mut fused = Scripted::new(outcomes).fuse_err();
    assert_eq!(fused.next(), None);
    assert_eq!(fused.inner.remaining(), 1);
}

#[test]
fn a_search_polls_no_further_than_where_it_ends() {
    let mut fused = Scripted::new(script()).fuse_err();
    assert_eq!(fused.inner.remaining(), 5);
    assert_eq!(fused.next(), Some(1));
    assert_eq!(fused.inner.remaining(), 4);
    assert_eq!(fused.next(), Some(2));
    assert_eq!(fused.inner.remaining(), 2);
    assert_eq!(fused.next(), None);
    assert_eq!(fused.inner.remaining(), 1);
}

#[test]
fn absorbed_outcomes_count_as_polls() {
    let mut fused = Scripted::new(script()).fuse_err_on(Y);
    assert_eq!(fused.next(), Some(1));
    assert_eq!(fused.inner.remaining(), 4);
    assert_eq!(fused.next(), Some(2));
    assert_eq!(fused.inner.remaining(), 2);
    assert_eq!(fused.next(), Some(3));
    assert_eq!(fused.inner.remaining(), 0);
}

#[test]
fn each_value_costs_the_polls_up_to_it() {
    let mut fused = Sparse { polls: 0 }.fuse_err_when(|_| false);
    assert_eq!(fused.next(), Some(4));
    assert_eq!(fused.inner.polls, 4);
    assert_eq!(fused.next(), Some(8));
    assert_eq!(fused.inner.polls, 8);
}

#[test]
fn the_closure_sees_each_failure_once_and_in_order() {
    let seen = Rc::new(RefCell::new(Vec::new()));
    let log = Rc::clone(&seen);
    let outcomes: Vec<Polled> = vec![Err("a"), Ok(None), Err("b"), Ok(Some(1)), Err("c"), Err(X)];
    let mut fused = Scripted::new(outcomes).fuse_err_when(move |e| {
        log.borrow_mut().push(e);
        e != X
    });
    assert_eq!(fused.next(), Some(1));
    assert_eq!(*seen.borrow(), vec!["a", "b"]);
    assert_eq!(fused.next(), None);
    assert_eq!(*seen.borrow(), vec!["a", "b", "c", X]);
}

#[test]
fn seek_next_finds_the_next_value() {
    let mut scripted = Scripted::new(script());
    assert_eq!(scripted.seek_next(), Some(1));
    assert_eq!(scripted.seek_next(), Some(2));
    assert_eq!(scripted.remaining(), 2);
}

#[test]
fn seek_next_gives_nothing_on_a_failure() {
    let outcomes: Vec<Polled> = vec![Ok(None), Err(Y), Ok(Some(1))];
    let mut scripted = Scripted::new(outcomes);
    assert_eq!(scripted.seek_next(), None);
    assert_eq!(scripted.remaining(), 1);
    assert_eq!(scripted.seek_next(), Some(1));
}

#[test]
fn some_next_plays_the_outcomes_back_in_order() {
    let mut scripted = Scripted::new(script());
    assert_eq!(scripted.remaining(), 5);
    assert_eq!(scripted.some_next(), Ok(Some(1)));
    assert_eq!(scripted.some_next(), Ok(None));
    assert_eq!(scripted.some_next(), Ok(Some(2)));
    assert_eq!(scripted.some_next(), Err(X));
    assert_eq!(scripted.some_next(), Ok(Some(3)));
    assert_eq!(scripted.remaining(), 0);
}

#[test]
fn a_used_up_script_yields_nothing() {
    let outcomes: Vec<Polled> = vec![Err(X)];
    let mut scripted = Scripted::new(outcomes);
    assert_eq!(scripted.some_next(), Err(X));
    assert_eq!(scripted.some_next(), Ok(None));
    assert_eq!(scripted.some_next(), Ok(None));
    assert_eq!(scripted.remaining(), 0);
}

#[test]
fn the_adapters_hold_what_they_were_given() {
    let fused = Scripted::new(script()).fuse_err_on(Y);
    assert_eq!(fused.variant, Y);
    assert_eq!(fused.inner.remaining(), 5);
    let fused = Scripted::new(script()).fuse_err_when(|e| e == Y);
    assert!((fused.cond)(Y));
    assert!(!(fused.cond)(X));
    assert_eq!(fused.inner.remaining(), 5);
    let fused = Scripted::new(script()).fuse_err();
    assert_eq!(fused.inner.remaining(), 5);
}
