//! An iterator that plays back a list of outcomes.

use crate::iter::FallibleIterator;
use crate::script::Outcome;
use vstd::prelude::*;

verus! {

/// Plays back a list of outcomes, one for each poll, in order. Once the list
/// is used up, every poll yields nothing.
pub struct Scripted<T, E> {
    outcomes: Vec<Outcome<T, E>>,
}

impl<T, E> Scripted<T, E> {
    /// An iterator whose polls return `outcomes`, first to last.
    pub fn new(outcomes: Vec<Outcome<T, E>>) -> (scripted: Self)
        ensures
            scripted.script() == outcomes@,
    {
        Scripted { outcomes }
    }

    /// The number of outcomes that are still in store.
    pub fn remaining(&self) -> (n: usize)
        ensures
            n == self.script().len(),
    {
        self.outcomes.len()
    }
}

impl<T, E> FallibleIterator for Scripted<T, E> {
    type SomeItem = T;

    type Error = E;

    closed spec fn script(&self) -> Seq<Outcome<T, E>> {
        self.outcomes@
    }

    fn some_next(&mut self) -> (polled: Result<Option<T>, E>)
        ensures
            old(self).script().len() == 0 ==> {
                &&& polled == Ok::<Option<T>, E>(None)
                &&& final(self).script().len() == 0
            },
    {
        if self.outcomes.len() == 0 {
            Ok(None)
        } else {
            self.outcomes.remove(0)
        }
    }
}

} // verus!
