//! Adaptors around one stream.

pub mod async_io;
pub mod in_memory;
pub mod limiter;

pub use async_io::{AdapterState, AsyncIoAdapter, FetchStep, ReadFailure};
pub use limiter::Limiter;

use vstd::prelude::*;

verus! {

/// A stream of which it is known how far it reaches.
pub trait KnownExpanse {
    /// The number of bytes from one end of the stream to the other.
    spec fn expanse(&self) -> nat;

    /// The number of bytes from one end of the stream to the other.
    fn full_length(&self) -> (len: usize)
        ensures
            len == self.expanse(),
    ;
}

} // verus!
