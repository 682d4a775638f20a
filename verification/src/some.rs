//! Conversions that give nothing instead of a reason, and a helper for
//! chaining calls.

use vstd::prelude::*;

verus! {

/// Like the [`Into`] and [`TryInto`] traits, but failable with no given
/// reason. The reason to use this would be when a conversion is not
/// possible but the program should not stop because of it.
pub trait SomeInto<T> {
    /// Whether `some_into` returns what `some_into_spec` says. An
    /// implementation that does not say so promises nothing.
    open spec fn obeys_some_into_spec() -> bool {
        false
    }

    /// What the conversion gives, as a function of the value alone.
    open spec fn some_into_spec(&self) -> Option<T> {
        None
    }

    /// Converts the value into either something or nothing.
    #[must_use]
    fn some_into(self) -> (converted: Option<T>)
        ensures
            Self::obeys_some_into_spec() ==> converted == self.some_into_spec(),
    ;
}

/// Like the [`From`] and [`TryFrom`] traits, but failable with no given
/// reason. Is the mirror of the [`SomeInto`] trait.
pub trait SomeFrom<T>: Sized {
    /// Whether `some_from` returns what `some_from_spec` says. An
    /// implementation that does not say so promises nothing.
    open spec fn obeys_some_from_spec() -> bool {
        false
    }

    /// What the conversion gives, as a function of the value alone.
    open spec fn some_from_spec(value: T) -> Option<Self> {
        None
    }

    /// Converts the value into either something or nothing.
    fn some_from(value: T) -> (converted: Option<Self>)
        ensures
            Self::obeys_some_from_spec() ==> converted == Self::some_from_spec(value),
    ;
}

/// Every conversion from `U` is a conversion into `T`.
impl<U, T: SomeFrom<U>> SomeInto<T> for U {
    open spec fn obeys_some_into_spec() -> bool {
        T::obeys_some_from_spec()
    }

    open spec fn some_into_spec(&self) -> Option<T> {
        T::some_from_spec(*self)
    }

    /// Hands back what `T::some_from` returns for the value.
    fn some_into(self) -> (converted: Option<T>)
        ensures
            call_ensures(T::some_from, (self,), converted),
    {
        T::some_from(self)
    }
}

/// A trait for chaining functions when you just need to make a call.
///
/// Also useful when you need to destructure something.
pub trait MoveIt {
    /// Calls `f` on the value and hands back what `f` returns.
    ///
    /// `f` has to accept the value.
    #[inline]
    fn move_it<F, U>(self, f: F) -> (out: U) where Self: Sized, F: FnOnce(Self) -> U
        requires
            f.requires((self,)),
        ensures
            f.ensures((self,), out),
    {
        f(self)
    }
}

impl<T> MoveIt for T {

}

} // verus!
