use vstd::prelude::*;

verus! {

/// Why a duration text such as `1h2m30s` could not be read.
#[derive(Debug, Clone, Copy, PartialEq, Eq, Structural)]
pub enum TimerSyntax {
    /// The text does not end with a unit (`h`, `m` or `s`, in either case).
    MissingUnit,
    /// A unit follows no digits.
    NullValue(char),
    /// A character is neither a digit nor a unit.
    NotADigit(char),
}

/// Errors of the library.
#[derive(Debug, Clone, Copy, PartialEq, Eq, Structural)]
pub enum Error {
    /// A duration text could not be read.
    ParseTimer(TimerSyntax),
    /// A duration does not fit in `usize` seconds.
    TimerOverflow,
    /// Drawing a tick took the whole tick, so the countdown can no longer keep time.
    RenderTime,
}

} // verus!
