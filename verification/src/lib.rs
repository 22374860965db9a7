//! Adaptors over byte streams: a window on a stream, a blocking stream read from
//! asynchronous code, and a file whose length is known in advance.
//!
//! This crate decides; it does no input or output of its own. Where an adaptor stands
//! around a stream that only its user can read or write, each operation comes as a
//! pair: one function says what to ask of the stream, the other takes what the stream
//! answered. Over the in-memory [`Cursor`] the operations are whole.

pub mod cursor;
pub mod file_adaptors;
pub mod io;
pub mod laws;
pub mod operation_laws;
pub mod read_buf;
pub mod stream_adaptors;

pub use cursor::{Cursor, CursorState};
pub use file_adaptors::{FixedLengthFile, Served};
pub use io::{InvalidSeek, Poll, SeekFrom};
pub use stream_adaptors::{AsyncIoAdapter, FetchStep, KnownExpanse, Limiter, ReadFailure};
