//! A file whose length is known in advance.

use crate::cursor::{Cursor, CursorState};
use crate::io::{InvalidSeek, SeekFrom};
use crate::read_buf;
use crate::stream_adaptors::KnownExpanse;
use tokio::io::ReadBuf;
use vstd::prelude::*;

verus! {

/// A file of a fixed length: either its bytes in memory, or a handle `F` to a file of
/// that length elsewhere.
///
/// An operation on the bytes in memory is done here. One on a file elsewhere is left to
/// whoever can use the handle.
#[derive(Debug)]
pub enum FixedLengthFile<F> {
    /// The bytes.
    Immediate(Cursor),
    /// The handle, and the length of the file.
    Paging(F, usize),
}

/// What came of an operation on a [`FixedLengthFile`].
#[derive(Debug, PartialEq, Eq)]
pub enum Served<T> {
    /// It was done in memory, with this result.
    Immediate(T),
    /// It has to be done through the handle. Nothing has changed.
    Paging,
}

impl<F> FixedLengthFile<F> {
    /// The bytes and the position, of a file in memory.
    pub open spec fn memory(self) -> Option<CursorState> {
        match self {
            FixedLengthFile::Immediate(cursor) => Some(cursor@),
            FixedLengthFile::Paging(_, _) => None,
        }
    }

    /// The handle and the length, of a file elsewhere.
    pub open spec fn handle(self) -> Option<(F, usize)> {
        match self {
            FixedLengthFile::Immediate(_) => None,
            FixedLengthFile::Paging(file, len) => Some((file, len)),
        }
    }

    /// The file elsewhere that was opened as `file` and turned out to be `on_disk` bytes
    /// long, which must be the length `len` that is expected of it.
    pub fn opened(file: F, len: usize, on_disk: u64) -> (r: Self)
        requires
            len == on_disk as usize,
        ensures
            r == FixedLengthFile::Paging(file, len),
            on_disk <= usize::MAX ==> r.expanse() == on_disk,
    {
        FixedLengthFile::Paging(file, len)
    }

    /// The same file for another kind of handle. A file in memory has none, and is the
    /// result as it is; of a file elsewhere the parts are handed out, for the handle to
    /// be converted.
    pub fn with_other_handle<G>(self) -> (r: Result<FixedLengthFile<G>, (F, usize)>)
        ensures
            match self {
                FixedLengthFile::Immediate(cursor) => r == Ok::<FixedLengthFile<G>, (F, usize)>(
                    FixedLengthFile::Immediate(cursor),
                ),
                FixedLengthFile::Paging(file, len) => r == Err::<FixedLengthFile<G>, (F, usize)>(
                    (file, len),
                ),
            },
    {
        match self {
            FixedLengthFile::Immediate(cursor) => Ok(FixedLengthFile::Immediate(cursor)),
            FixedLengthFile::Paging(file, len) => Err((file, len)),
        }
    }

    /// Reads bytes at the position into the front of `buf`.
    pub fn read(&mut self, buf: &mut [u8]) -> (r: Served<usize>)
        ensures
            final(self).handle() == old(self).handle(),
            final(self).expanse() == old(self).expanse(),
            match (*old(self), *final(self)) {
                (FixedLengthFile::Immediate(before), FixedLengthFile::Immediate(after)) => {
                    let left = before@.bytes.len() - before@.pos;
                    let n = if left <= 0 {
                        0
                    } else if left < old(buf)@.len() as int {
                        left
                    } else {
                        old(buf)@.len() as int
                    };
                    &&& r == Served::Immediate(n as usize)
                    &&& after@.bytes == before@.bytes
                    &&& after@.pos == before@.pos + n
                    &&& final(buf)@.len() == old(buf)@.len()
                    &&& forall|i: int|
                        0 <= i < final(buf)@.len() ==> #[trigger] final(buf)@[i] == if i < n {
                            before@.bytes[before@.pos + i]
                        } else {
                            old(buf)@[i]
                        }
                },
                (FixedLengthFile::Paging(file, len), FixedLengthFile::Paging(same, same_len)) => {
                    &&& file == same
                    &&& len == same_len
                    &&& r is Paging
                },
                _ => false,
            },
            match old(self).memory() {
                Some(state) => {
                    let n = state.transfer_len(old(buf)@.len() as int);
                    &&& r == Served::Immediate(n as usize)
                    &&& final(self).memory() == Some(state.advanced(n))
                    &&& final(buf)@ == state.upcoming(n) + old(buf)@.skip(n)
                },
                None => {
                    &&& r == Served::<usize>::Paging
                    &&& final(self).memory() is None
                    &&& final(buf)@ == old(buf)@
                },
            },
    {
        match self {
            FixedLengthFile::Immediate(cursor) => Served::Immediate(cursor.read(buf)),
            FixedLengthFile::Paging(_, _) => Served::Paging,
        }
    }

    /// Moves the position. The result is the new position.
    pub fn seek(&mut self, op: SeekFrom) -> (r: Served<Result<u64, InvalidSeek>>)
        ensures
            final(self).handle() == old(self).handle(),
            final(self).expanse() == old(self).expanse(),
            match (*old(self), *final(self)) {
                (FixedLengthFile::Immediate(before), FixedLengthFile::Immediate(after)) => {
                    let to = match op {
                        SeekFrom::Start(n) => n as int,
                        SeekFrom::End(n) => before@.bytes.len() + n,
                        SeekFrom::Current(n) => before@.pos + n,
                    };
                    &&& after@.bytes == before@.bytes
                    &&& 0 <= to <= u64::MAX ==> after@.pos == to && r == Served::Immediate(
                        Ok::<u64, InvalidSeek>(to as u64),
                    )
                    &&& !(0 <= to <= u64::MAX) ==> after@.pos == before@.pos && r
                        == Served::Immediate(Err::<u64, InvalidSeek>(InvalidSeek))
                },
                (FixedLengthFile::Paging(file, len), FixedLengthFile::Paging(same, same_len)) => {
                    &&& file == same
                    &&& len == same_len
                    &&& r is Paging
                },
                _ => false,
            },
            match old(self).memory() {
                Some(state) => {
                    &&& r == Served::Immediate(state.seek_result(op))
                    &&& final(self).memory() == Some(state.sought(op))
                },
                None => {
                    &&& r == Served::<Result<u64, InvalidSeek>>::Paging
                    &&& final(self).memory() is None
                },
            },
    {
        match self {
            FixedLengthFile::Immediate(cursor) => Served::Immediate(cursor.seek(op)),
            FixedLengthFile::Paging(_, _) => Served::Paging,
        }
    }

    /// Writes the front of `data` over the bytes at the position. What does not fit
    /// before the end is not written.
    pub fn write(&mut self, data: &[u8]) -> (r: Served<usize>)
        ensures
            final(self).handle() == old(self).handle(),
            final(self).expanse() == old(self).expanse(),
            match (*old(self), *final(self)) {
                (FixedLengthFile::Immediate(before), FixedLengthFile::Immediate(after)) => {
                    let left = before@.bytes.len() - before@.pos;
                    let n = if left <= 0 {
                        0
                    } else if left < data@.len() as int {
                        left
                    } else {
                        data@.len() as int
                    };
                    &&& r == Served::Immediate(n as usize)
                    &&& after@.pos == before@.pos + n
                    &&& after@.bytes.len() == before@.bytes.len()
                    &&& forall|j: int|
                        0 <= j < before@.bytes.len() ==> #[trigger] after@.bytes[j] == if before@.pos
                            <= j < before@.pos + n {
                            data@[j - before@.pos]
                        } else {
                            before@.bytes[j]
                        }
                },
                (FixedLengthFile::Paging(file, len), FixedLengthFile::Paging(same, same_len)) => {
                    &&& file == same
                    &&& len == same_len
                    &&& r is Paging
                },
                _ => false,
            },
            match old(self).memory() {
                Some(state) => {
                    let n = state.transfer_len(data@.len() as int);
                    &&& r == Served::Immediate(n as usize)
                    &&& final(self).memory() == Some(state.overwritten(data@.take(n)))
                },
                None => {
                    &&& r == Served::<usize>::Paging
                    &&& final(self).memory() is None
                },
            },
    {
        match self {
            FixedLengthFile::Immediate(cursor) => Served::Immediate(cursor.write(data)),
            FixedLengthFile::Paging(_, _) => Served::Paging,
        }
    }

    /// Makes sure that what was written has arrived, as bytes in memory always have.
    pub fn flush(&mut self) -> (r: Served<()>)
        ensures
            *final(self) == *old(self),
            r == match old(self).memory() {
                Some(_) => Served::Immediate(()),
                None => Served::Paging,
            },
            *old(self) is Immediate <==> r is Immediate,
    {
        match self {
            FixedLengthFile::Immediate(_) => Served::Immediate(()),
            FixedLengthFile::Paging(_, _) => Served::Paging,
        }
    }

    /// Appends bytes at the position to `buf`, as many as there are and fit.
    pub fn poll_read(&mut self, buf: &mut ReadBuf<'_>) -> (r: Served<()>)
        ensures
            final(self).handle() == old(self).handle(),
            final(self).expanse() == old(self).expanse(),
            match (*old(self), *final(self)) {
                (FixedLengthFile::Immediate(before), FixedLengthFile::Immediate(after)) => {
                    let filled = read_buf::filled(*old(buf)).len();
                    let left = before@.bytes.len() - before@.pos;
                    let n = if left <= 0 {
                        0
                    } else if left < read_buf::capacity(*old(buf)) - filled {
                        left
                    } else {
                        read_buf::capacity(*old(buf)) - filled
                    };
                    &&& r == Served::Immediate(())
                    &&& after@.bytes == before@.bytes
                    &&& after@.pos == before@.pos + n
                    &&& read_buf::filled(*final(buf)).len() == filled + n
                    &&& forall|i: int|
                        filled <= i < filled + n ==> #[trigger] read_buf::filled(*final(buf))[i]
                            == before@.bytes[before@.pos + i - filled]
                },
                (FixedLengthFile::Paging(file, len), FixedLengthFile::Paging(same, same_len)) => {
                    &&& file == same
                    &&& len == same_len
                    &&& r is Paging
                },
                _ => false,
            },
            match old(self).memory() {
                Some(state) => {
                    let room = read_buf::capacity(*old(buf)) - read_buf::filled(*old(buf)).len();
                    let n = state.transfer_len(room);
                    &&& r == Served::Immediate(())
                    &&& final(self).memory() == Some(state.advanced(n))
                    &&& read_buf::filled(*final(buf)) == read_buf::filled(*old(buf))
                        + state.upcoming(n)
                    &&& read_buf::capacity(*final(buf)) == read_buf::capacity(*old(buf))
                    &&& n == 0 ==> *final(buf) == *old(buf)
                    &&& n > 0 ==> read_buf::initialized(*final(buf)) == read_buf::front_replaced(
                        read_buf::initialized(*old(buf)),
                        read_buf::filled(*final(buf)),
                    )
                },
                None => {
                    &&& r == Served::<()>::Paging
                    &&& final(self).memory() is None
                    &&& *final(buf) == *old(buf)
                },
            },
    {
        match self {
            FixedLengthFile::Immediate(cursor) => {
                cursor.read_into(buf);
                Served::Immediate(())
            },
            FixedLengthFile::Paging(_, _) => Served::Paging,
        }
    }

    /// Starts to move the position, which for bytes in memory is done at once.
    pub fn start_seek(&mut self, op: SeekFrom) -> (r: Served<Result<(), InvalidSeek>>)
        ensures
            final(self).handle() == old(self).handle(),
            final(self).expanse() == old(self).expanse(),
            match (*old(self), *final(self)) {
                (FixedLengthFile::Immediate(before), FixedLengthFile::Immediate(after)) => {
                    let to = match op {
                        SeekFrom::Start(n) => n as int,
                        SeekFrom::End(n) => before@.bytes.len() + n,
                        SeekFrom::Current(n) => before@.pos + n,
                    };
                    &&& after@.bytes == before@.bytes
                    &&& 0 <= to <= u64::MAX ==> after@.pos == to && r == Served::Immediate(
                        Ok::<(), InvalidSeek>(()),
                    )
                    &&& !(0 <= to <= u64::MAX) ==> after@.pos == before@.pos && r
                        == Served::Immediate(Err::<(), InvalidSeek>(InvalidSeek))
                },
                (FixedLengthFile::Paging(file, len), FixedLengthFile::Paging(same, same_len)) => {
                    &&& file == same
                    &&& len == same_len
                    &&& r is Paging
                },
                _ => false,
            },
            match old(self).memory() {
                Some(state) => {
                    &&& r == Served::Immediate(
                        if state.seek_valid(op) {
                            Ok::<(), InvalidSeek>(())
                        } else {
                            Err(InvalidSeek)
                        },
                    )
                    &&& final(self).memory() == Some(state.sought(op))
                },
                None => {
                    &&& r == Served::<Result<(), InvalidSeek>>::Paging
                    &&& final(self).memory() is None
                },
            },
    {
        match self {
            FixedLengthFile::Immediate(cursor) => match cursor.seek(op) {
                Ok(_) => Served::Immediate(Ok(())),
                Err(e) => Served::Immediate(Err(e)),
            },
            FixedLengthFile::Paging(_, _) => Served::Paging,
        }
    }

    /// The position that the last seek led to, and what was read and written since.
    pub fn poll_complete(&mut self) -> (r: Served<u64>)
        ensures
            *final(self) == *old(self),
            r == match old(self).memory() {
                Some(state) => Served::Immediate(state.pos as u64),
                None => Served::Paging,
            },
            match *old(self) {
                FixedLengthFile::Immediate(cursor) => r matches Served::Immediate(pos) && pos
                    == cursor@.pos,
                FixedLengthFile::Paging(_, _) => r is Paging,
            },
    {
        match self {
            FixedLengthFile::Immediate(cursor) => Served::Immediate(cursor.position()),
            FixedLengthFile::Paging(_, _) => Served::Paging,
        }
    }

    /// Writes as [`Self::write`] does, which for bytes in memory is done at once.
    pub fn poll_write(&mut self, data: &[u8]) -> (r: Served<usize>)
        ensures
            final(self).handle() == old(self).handle(),
            final(self).expanse() == old(self).expanse(),
            match (*old(self), *final(self)) {
                (FixedLengthFile::Immediate(before), FixedLengthFile::Immediate(after)) => {
                    let left = before@.bytes.len() - before@.pos;
                    let n = if left <= 0 {
                        0
                    } else if left < data@.len() as int {
                        left
                    } else {
                        data@.len() as int
                    };
                    &&& r == Served::Immediate(n as usize)
                    &&& after@.pos == before@.pos + n
                    &&& after@.bytes.len() == before@.bytes.len()
                    &&& forall|j: int|
                        0 <= j < before@.bytes.len() ==> #[trigger] after@.bytes[j] == if before@.pos
                            <= j < before@.pos + n {
                            data@[j - before@.pos]
                        } else {
                            before@.bytes[j]
                        }
                },
                (FixedLengthFile::Paging(file, len), FixedLengthFile::Paging(same, same_len)) => {
                    &&& file == same
                    &&& len == same_len
                    &&& r is Paging
                },
                _ => false,
            },
            match old(self).memory() {
                Some(state) => {
                    let n = state.transfer_len(data@.len() as int);
                    &&& r == Served::Immediate(n as usize)
                    &&& final(self).memory() == Some(state.overwritten(data@.take(n)))
                },
                None => {
                    &&& r == Served::<usize>::Paging
                    &&& final(self).memory() is None
                },
            },
    {
        self.write(data)
    }

    /// Makes sure that what was written has arrived, as bytes in memory always have.
    pub fn poll_flush(&mut self) -> (r: Served<()>)
        ensures
            *final(self) == *old(self),
            r == match old(self).memory() {
                Some(_) => Served::Immediate(()),
                None => Served::Paging,
            },
            *old(self) is Immediate <==> r is Immediate,
    {
        self.flush()
    }

    /// Ends the writing, after what was written has arrived.
    pub fn poll_shutdown(&mut self) -> (r: Served<()>)
        ensures
            *final(self) == *old(self),
            r == match old(self).memory() {
                Some(_) => Served::Immediate(()),
                None => Served::Paging,
            },
            *old(self) is Immediate <==> r is Immediate,
    {
        self.poll_flush()
    }
}

impl<F> KnownExpanse for FixedLengthFile<F> {
    open spec fn expanse(&self) -> nat {
        match self {
            FixedLengthFile::Immediate(cursor) => cursor@.bytes.len(),
            FixedLengthFile::Paging(_, len) => *len as nat,
        }
    }

    fn full_length(&self) -> (len: usize)
        ensures
            match *self {
                FixedLengthFile::Immediate(cursor) => len == cursor@.bytes.len(),
                FixedLengthFile::Paging(_, known) => len == known,
            },
    {
        match self {
            FixedLengthFile::Immediate(cursor) => cursor.get_ref().len(),
            FixedLengthFile::Paging(_, len) => *len,
        }
    }
}

} // verus!
