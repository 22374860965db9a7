//! The small vocabulary that the adaptors share.

use vstd::prelude::*;

verus! {

/// Where a seek is counted from.
#[derive(Debug, Clone, Copy, PartialEq, Eq)]
pub enum SeekFrom {
    /// An offset from the start of the stream.
    Start(u64),
    /// An offset from the end of the stream.
    End(i64),
    /// An offset from the current position.
    Current(i64),
}

/// A seek to a position before the start of a stream, or past what a position can hold.
#[derive(Debug, Clone, Copy, PartialEq, Eq)]
pub struct InvalidSeek;

/// Whether an operation has come to a result yet.
#[derive(Debug, PartialEq, Eq)]
pub enum Poll<T> {
    /// The result is there.
    Ready(T),
    /// The operation goes on; it has to be polled again.
    Pending,
}

/// The smaller of two numbers.
pub open spec fn smaller(a: int, b: int) -> int {
    if a <= b {
        a
    } else {
        b
    }
}

/// `x` moved into the range from `low` to `high`.
pub open spec fn clamped(x: int, low: int, high: int) -> int {
    if x < low {
        low
    } else if x > high {
        high
    } else {
        x
    }
}

} // verus!
