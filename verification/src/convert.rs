//! Conversion helpers of the perf event host interface.

use vstd::prelude::*;

verus! {

/// A wrapper through which conversions between guest and host types are
/// written.
#[derive(Debug)]
pub struct Wrap<T>(pub T);

impl<T> Wrap<T> {
    /// Wraps `value`.
    pub fn new(value: T) -> (r: Self)
        ensures
            r.0 == value,
    {
        Wrap(value)
    }

    /// The wrapped value.
    pub fn into_inner(self) -> (r: T)
        ensures
            r == self.0,
    {
        self.0
    }
}

/// Errors of the conversions of guest perf event settings.
#[derive(Debug)]
pub enum ConvertError {
    /// An option that the kernel this was built for does not support.
    UnsupportedOption(String),
}

} // verus!
