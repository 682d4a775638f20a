//! Small additions to the standard library: conversions that may come up
//! empty, a helper for chaining calls, and iterators whose polls may yield
//! nothing without being finished.

pub mod iter;
pub mod lemmas;
pub mod script;
pub mod scripted;
pub mod some;
