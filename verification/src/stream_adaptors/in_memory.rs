//! A window on bytes in memory, whose operations need no other stream.

use super::Limiter;
use crate::cursor::{Cursor, CursorState};
use crate::io::{InvalidSeek, Poll, SeekFrom};
use crate::read_buf;
use tokio::io::ReadBuf;
use vstd::prelude::*;
use vstd::slice::slice_subrange;

verus! {

/// What a window on bytes in memory holds.
#[verifier::ext_equal]
pub struct WindowState {
    /// The bytes, and the position in them.
    pub source: CursorState,
    /// The position in the bytes at which the window starts.
    pub start: int,
    /// The length of the window.
    pub len: int,
    /// The position within the window.
    pub pos: int,
}

impl WindowState {
    /// The position does not lie outside the window, nor the window at a negative
    /// position.
    pub open spec fn wf(self) -> bool {
        &&& 0 <= self.pos <= self.len
        &&& 0 <= self.start
    }

    /// The position in the bytes is where the position within the window says.
    pub open spec fn in_step(self) -> bool {
        self.source.pos == self.start + self.pos
    }

    /// How many bytes one transfer of at most `want` bytes moves.
    pub open spec fn transfer_len(self, want: int) -> int {
        self.source.transfer_len(crate::io::smaller(self.len - self.pos, want))
    }

    /// The bytes that a read of at most `want` bytes gives.
    pub open spec fn read_bytes(self, want: int) -> Seq<u8> {
        self.source.upcoming(self.transfer_len(want))
    }

    /// The state after a read of at most `want` bytes.
    pub open spec fn after_read(self, want: int) -> Self {
        let n = self.transfer_len(want);
        WindowState { source: self.source.advanced(n), pos: self.pos + n, ..self }
    }

    /// The state after a write of as much of `data` as fits.
    pub open spec fn after_write(self, data: Seq<u8>) -> Self {
        let n = self.transfer_len(data.len() as int);
        WindowState { source: self.source.overwritten(data.take(n)), pos: self.pos + n, ..self }
    }

    /// The position in the bytes at which the window ends, be it because of its length or
    /// because the bytes end there.
    pub open spec fn end(self) -> int {
        crate::io::smaller(self.start + self.len, self.source.bytes.len() as int)
    }

    /// The bytes that lie in the window.
    pub open spec fn contents(self) -> Seq<u8> {
        if self.start <= self.end() {
            self.source.bytes.subrange(self.start, self.end())
        } else {
            Seq::empty()
        }
    }
}

impl Limiter<Cursor> {
    /// What this window holds.
    pub open spec fn state(self) -> WindowState {
        WindowState {
            source: self.source_stream@,
            start: self.start_pos as int,
            len: self.max_len as int,
            pos: self.internal_pos as int,
        }
    }

    /// The seek in the bytes that a seek within the window becomes.
    pub open spec fn relative_seek(self, op: SeekFrom) -> SeekFrom {
        SeekFrom::Current(self.seek_diff(op) as i64)
    }

    /// Where a seek within the window leads to a position in the bytes, that position
    /// lies in the window or at its end.
    pub open spec fn relative_seek_stays(self, op: SeekFrom) -> bool {
        self.source_stream@.seek_valid(self.relative_seek(op)) ==> self.in_window(
            self.source_stream@.seek_target(self.relative_seek(op)),
        )
    }

    /// Reads bytes of the window into the front of `buf` and returns their number.
    pub fn read(&mut self, buf: &mut [u8]) -> (n: usize)
        requires
            old(self).wf(),
        ensures
            n == old(self).state().transfer_len(old(buf)@.len() as int),
            final(self).state() == old(self).state().after_read(old(buf)@.len() as int),
            final(buf)@ == old(self).state().read_bytes(old(buf)@.len() as int) + old(buf)@.skip(
                n as int,
            ),
            ({
                let rest = old(self).max_len - old(self).internal_pos;
                let left = old(self).source_stream@.bytes.len() - old(self).source_stream@.pos;
                &&& n <= rest
                &&& n <= old(buf)@.len()
                &&& left <= 0 ==> n == 0
                &&& left > 0 ==> n <= left
                &&& n == rest || n == old(buf)@.len() || n == left || left < 0
            }),
            final(self).max_len == old(self).max_len,
            final(self).start_pos == old(self).start_pos,
            final(self).internal_pos == old(self).internal_pos + n,
            final(self).source_stream@.pos == old(self).source_stream@.pos + n,
            final(self).source_stream@.bytes == old(self).source_stream@.bytes,
            final(buf)@.len() == old(buf)@.len(),
            forall|i: int|
                0 <= i < final(buf)@.len() ==> #[trigger] final(buf)@[i] == if i < n {
                    old(self).source_stream@.bytes[old(self).source_stream@.pos + i]
                } else {
                    old(buf)@[i]
                },
            final(self).wf(),
    {
        match self.begin_transfer(buf.len()) {
            None => {
                assert(buf@ =~= self.state().read_bytes(buf@.len() as int) + buf@.skip(0));
                0
            },
            Some(allowed) => {
                let (front, _) = buf.split_at_mut(allowed);
                let n: usize = self.source_stream.read(front);
                let _ = self.finish_transfer::<()>(Ok(n));
                n
            },
        }
    }

    /// Writes the front of `data` into the window and returns its length. What does not
    /// fit is not written.
    pub fn write(&mut self, data: &[u8]) -> (n: usize)
        requires
            old(self).wf(),
        ensures
            n == old(self).state().transfer_len(data@.len() as int),
            final(self).state() == old(self).state().after_write(data@),
            ({
                let rest = old(self).max_len - old(self).internal_pos;
                let left = old(self).source_stream@.bytes.len() - old(self).source_stream@.pos;
                &&& n <= rest
                &&& n <= data@.len()
                &&& left <= 0 ==> n == 0
                &&& left > 0 ==> n <= left
                &&& n == rest || n == data@.len() || n == left || left < 0
            }),
            final(self).max_len == old(self).max_len,
            final(self).start_pos == old(self).start_pos,
            final(self).internal_pos == old(self).internal_pos + n,
            final(self).source_stream@.pos == old(self).source_stream@.pos + n,
            final(self).source_stream@.bytes.len() == old(self).source_stream@.bytes.len(),
            forall|j: int|
                0 <= j < old(self).source_stream@.bytes.len()
                    ==> #[trigger] final(self).source_stream@.bytes[j] == if old(
                    self,
                ).source_stream@.pos <= j < old(self).source_stream@.pos + n {
                    data@[j - old(self).source_stream@.pos]
                } else {
                    old(self).source_stream@.bytes[j]
                },
            final(self).wf(),
    {
        match self.begin_transfer(data.len()) {
            None => {
                assert(self.source_stream@.overwritten(data@.take(0)) =~= self.source_stream@);
                0
            },
            Some(allowed) => {
                let front: &[u8] = slice_subrange(data, 0, allowed);
                let n: usize = self.source_stream.write(front);
                assert(front@.take(n as int) =~= data@.take(n as int));
                let _ = self.finish_transfer::<()>(Ok(n));
                n
            },
        }
    }

    /// Reads bytes of the window into `buf`, after what is filled of it.
    pub fn poll_read(&mut self, buf: &mut ReadBuf<'_>)
        requires
            old(self).wf(),
        ensures
            ({
                let room = read_buf::capacity(*old(buf)) - read_buf::filled(*old(buf)).len();
                &&& final(self).state() == old(self).state().after_read(room)
                &&& read_buf::filled(*final(buf)) == read_buf::filled(*old(buf))
                    + old(self).state().read_bytes(room)
                &&& read_buf::capacity(*final(buf)) == read_buf::capacity(*old(buf))
                &&& if old(self).allowance(room) == 0 {
                    *final(buf) == *old(buf)
                } else {
                    read_buf::initialized(*final(buf)) == read_buf::filled(*final(buf))
                        + read_buf::zero_extended(
                        read_buf::initialized(*old(buf)),
                        read_buf::filled(*old(buf)).len() + old(self).allowance(room),
                    ).skip(read_buf::filled(*final(buf)).len() as int)
                }
            }),
            ({
                let filled = read_buf::filled(*old(buf)).len();
                let n = read_buf::filled(*final(buf)).len() - filled;
                let room = read_buf::capacity(*old(buf)) - filled;
                let rest = old(self).max_len - old(self).internal_pos;
                let left = old(self).source_stream@.bytes.len() - old(self).source_stream@.pos;
                &&& 0 <= n <= rest
                &&& n <= room
                &&& left <= 0 ==> n == 0
                &&& left > 0 ==> n <= left
                &&& n == rest || n == room || n == left || left < 0
                &&& final(self).max_len == old(self).max_len
                &&& final(self).start_pos == old(self).start_pos
                &&& final(self).internal_pos == old(self).internal_pos + n
                &&& final(self).source_stream@.pos == old(self).source_stream@.pos + n
                &&& final(self).source_stream@.bytes == old(self).source_stream@.bytes
                &&& forall|i: int|
                    filled <= i < filled + n ==> #[trigger] read_buf::filled(*final(buf))[i] == old(
                        self,
                    ).source_stream@.bytes[old(self).source_stream@.pos + i - filled]
            }),
            final(self).wf(),
    {
        let ghost before = *buf;
        match self.begin_poll_read(buf) {
            None => {
                assert(read_buf::filled(before) + Seq::<u8>::empty() =~= read_buf::filled(before));
            },
            Some(allowed) => {
                let unfilled: &mut [u8] = read_buf::initialize_unfilled_to(buf, allowed);
                proof {
                    self.source_stream.lemma_ranges();
                }
                let n: usize = self.source_stream.read(unfilled);
                let ghost filled = read_buf::filled(before);
                assert(read_buf::initialized(*buf).take(filled.len() + n) =~= filled
                    + old(self).source_stream@.upcoming(n as int));
                assert(read_buf::initialized(*buf) =~= filled + old(self).source_stream@.upcoming(
                    n as int,
                ) + read_buf::zero_extended(
                    read_buf::initialized(before),
                    filled.len() + allowed,
                ).skip(filled.len() + n));
                let _ = self.finish_poll_read::<()>(buf, Poll::Ready(Ok(n)));
            },
        }
    }

    /// Moves the position within the window, and returns the new position in the bytes.
    pub fn seek(&mut self, op: SeekFrom) -> (r: Result<u64, InvalidSeek>)
        requires
            old(self).wf(),
            old(self).seek_fits(op),
            old(self).relative_seek_stays(op),
        ensures
            r == old(self).source_stream@.seek_result(old(self).relative_seek(op)),
            final(self).source_stream@ == old(self).source_stream@.sought(
                old(self).relative_seek(op),
            ),
            final(self).max_len == old(self).max_len,
            final(self).start_pos == old(self).start_pos,
            final(self).internal_pos == match r {
                Ok(pos) => pos - old(self).start_pos,
                Err(_) => old(self).internal_pos as int,
            },
            final(self).source_stream@.bytes == old(self).source_stream@.bytes,
            ({
                let point = match op {
                    SeekFrom::Start(n) => n as int,
                    SeekFrom::End(n) => old(self).max_len + n,
                    SeekFrom::Current(n) => old(self).internal_pos + n,
                };
                old(self).max_len <= i64::MAX && old(self).start_pos + old(self).max_len <= u64::MAX
                    && old(self).source_stream@.pos == old(self).start_pos
                    + old(self).internal_pos ==> {
                    &&& r is Ok
                    &&& 0 <= point <= old(self).max_len ==> final(self).internal_pos == point
                    &&& point < 0 ==> final(self).internal_pos == 0
                    &&& point > old(self).max_len ==> final(self).internal_pos == old(
                        self,
                    ).max_len
                    &&& final(self).source_stream@.pos == final(self).start_pos
                        + final(self).internal_pos
                }
            }),
            final(self).wf(),
    {
        let relative: SeekFrom = self.start_seek(op);
        let outcome: Result<u64, InvalidSeek> = self.source_stream.seek(relative);
        self.finish_seek(outcome)
    }
}

} // verus!
