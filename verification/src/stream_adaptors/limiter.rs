//! A window of limited length on a stream.

use super::KnownExpanse;
use crate::io::{Poll, SeekFrom};
use crate::read_buf;
use tokio::io::ReadBuf;
use vstd::prelude::*;

verus! {

/// A window on a stream: `max_len` bytes of it, of which the first is at `start_pos`.
///
/// The stream is expected to stand at `start_pos` when the window is made, and to be
/// moved by the window's own operations alone.
#[derive(Debug, Clone)]
pub struct Limiter<S> {
    /// The length of the window.
    pub max_len: usize,
    /// The position within the window.
    pub internal_pos: usize,
    /// The position in the stream at which the window starts.
    pub start_pos: u64,
    /// The stream.
    pub source_stream: S,
}

/// What reinterpreting the bits of `x` as a signed number gives.
pub open spec fn signed(x: int) -> int {
    if x <= i64::MAX {
        x
    } else {
        x - 0x1_0000_0000_0000_0000
    }
}

impl<S> Limiter<S> {
    /// The position within the window does not lie past its end.
    pub open spec fn wf(self) -> bool {
        self.internal_pos <= self.max_len
    }

    /// How many bytes lie between the position and the end of the window.
    pub open spec fn rest(self) -> int {
        self.max_len - self.internal_pos
    }

    /// How many bytes one transfer of at most `requested` bytes may move.
    pub open spec fn allowance(self, requested: int) -> int {
        crate::io::smaller(self.rest(), requested)
    }

    /// The window with its position at `pos`.
    pub open spec fn at(self, pos: int) -> Self {
        Limiter { internal_pos: pos as usize, ..self }
    }

    /// The signed sum that a seek forms, of where it counts from and how far it goes.
    pub open spec fn seek_sum(self, op: SeekFrom) -> int {
        match op {
            SeekFrom::Start(n) => 0,
            SeekFrom::End(n) => signed(self.max_len as int) + n,
            SeekFrom::Current(n) => signed(self.internal_pos as int) + n,
        }
    }

    /// The position within the window that a seek goes to.
    pub open spec fn seek_point(self, op: SeekFrom) -> int {
        let wanted = match op {
            SeekFrom::Start(n) => n as int,
            _ => if self.seek_sum(op) < 0 {
                0
            } else {
                self.seek_sum(op)
            },
        };
        crate::io::smaller(self.max_len as int, wanted)
    }

    /// How far a seek moves the stream.
    pub open spec fn seek_diff(self, op: SeekFrom) -> int {
        signed(self.seek_point(op)) - signed(self.internal_pos as int)
    }

    /// The arithmetic of a seek stays within the range of `i64`.
    pub open spec fn seek_fits(self, op: SeekFrom) -> bool {
        &&& i64::MIN <= self.seek_sum(op) <= i64::MAX
        &&& i64::MIN <= self.seek_diff(op) <= i64::MAX
    }

    /// Whether a position of the stream lies in the window or at its end.
    pub open spec fn in_window(self, pos: int) -> bool {
        &&& self.start_pos + self.max_len <= u64::MAX
        &&& self.start_pos <= pos <= self.start_pos + self.max_len
    }

    /// The window after a transfer that the stream answered with `outcome`.
    pub open spec fn after_transfer<E>(self, outcome: Result<usize, E>) -> Self {
        match outcome {
            Ok(n) => self.at(self.internal_pos + n),
            Err(_) => self,
        }
    }

    /// The window after a seek that the stream answered with `outcome`.
    pub open spec fn after_seek<E>(self, outcome: Result<u64, E>) -> Self {
        match outcome {
            Ok(pos) => self.at(pos - self.start_pos),
            Err(_) => self,
        }
    }

    /// A window of `limit` bytes on a stream that stands at `start_pos`.
    pub fn take(start_pos: u64, source_stream: S, limit: usize) -> (r: Self)
        ensures
            r == (Limiter { max_len: limit, internal_pos: 0, start_pos, source_stream }),
            r.wf(),
    {
        Self { max_len: limit, internal_pos: 0, start_pos, source_stream }
    }

    /// How many bytes lie between the position and the end of the window.
    pub fn remaining_len(&self) -> (n: usize)
        requires
            self.wf(),
        ensures
            n == self.rest(),
            n == self.max_len - self.internal_pos,
    {
        self.max_len - self.internal_pos
    }

    /// How many of `requested_length` bytes a transfer may move.
    pub fn limit_length(&self, requested_length: usize) -> (n: usize)
        requires
            self.wf(),
        ensures
            n == self.allowance(requested_length as int),
            self.internal_pos + n <= self.max_len,
            n <= requested_length,
            self.internal_pos + n == self.max_len || n == requested_length,
    {
        let remaining: usize = self.remaining_len();
        if remaining <= requested_length {
            remaining
        } else {
            requested_length
        }
    }

    /// Moves the position `len` bytes on, which have to lie in the window.
    pub fn push_cursor(&mut self, len: usize)
        requires
            old(self).wf(),
            len <= old(self).rest(),
        ensures
            *final(self) == old(self).at(old(self).internal_pos + len),
            final(self).internal_pos == old(self).internal_pos + len,
            final(self).max_len == old(self).max_len,
            final(self).start_pos == old(self).start_pos,
            final(self).source_stream == old(self).source_stream,
            final(self).wf(),
    {
        self.internal_pos = self.internal_pos + len;
    }

    /// The stream.
    pub fn into_inner(self) -> (r: S)
        ensures
            r == self.source_stream,
    {
        self.source_stream
    }

    /// Turns a seek within the window into the distance by which the stream has to move.
    /// A target before the window is taken to its start, one past it to its end.
    pub fn convert_seek_request_to_relative(&self, op: SeekFrom) -> (diff: i64)
        requires
            self.wf(),
            self.seek_fits(op),
        ensures
            diff == self.seek_diff(op),
            self.max_len <= i64::MAX ==> {
                let point = match op {
                    SeekFrom::Start(n) => n as int,
                    SeekFrom::End(n) => self.max_len + n,
                    SeekFrom::Current(n) => self.internal_pos + n,
                };
                &&& 0 <= point <= self.max_len ==> self.internal_pos + diff == point
                &&& point < 0 ==> self.internal_pos + diff == 0
                &&& point > self.max_len ==> self.internal_pos + diff == self.max_len
            },
    {
        let cur: u64 = self.internal_pos as u64;
        let max_len: u64 = self.max_len as u64;
        let wanted: u64 = match op {
            SeekFrom::Start(new_point) => new_point,
            SeekFrom::End(from_end) => not_below_zero(to_signed(max_len) + from_end),
            SeekFrom::Current(from_cur) => not_below_zero(to_signed(cur) + from_cur),
        };
        let new_point: u64 = if wanted <= max_len {
            wanted
        } else {
            max_len
        };
        to_signed(new_point) - to_signed(cur)
    }

    /// The distance by which a seek moves the stream, or nothing where the arithmetic
    /// leaves the range of `i64`.
    pub fn checked_seek(&self, op: SeekFrom) -> (r: Option<i64>)
        requires
            self.wf(),
        ensures
            match r {
                Some(diff) => self.seek_fits(op) && diff == self.seek_diff(op),
                None => !self.seek_fits(op),
            },
            self.max_len <= i64::MAX ==> {
                let point = match op {
                    SeekFrom::Start(n) => n as int,
                    SeekFrom::End(n) => self.max_len + n,
                    SeekFrom::Current(n) => self.internal_pos + n,
                };
                match r {
                    Some(diff) => {
                        &&& op is Start || point <= i64::MAX
                        &&& 0 <= point <= self.max_len ==> self.internal_pos + diff == point
                        &&& point < 0 ==> self.internal_pos + diff == 0
                        &&& point > self.max_len ==> self.internal_pos + diff == self.max_len
                    },
                    None => op !is Start && point > i64::MAX,
                }
            },
    {
        let cur: u64 = self.internal_pos as u64;
        let max_len: u64 = self.max_len as u64;
        let sum: Option<i64> = match op {
            SeekFrom::Start(_) => Some(0),
            SeekFrom::End(from_end) => to_signed(max_len).checked_add(from_end),
            SeekFrom::Current(from_cur) => to_signed(cur).checked_add(from_cur),
        };
        match sum {
            None => None,
            Some(sum) => {
                let wanted: u64 = match op {
                    SeekFrom::Start(new_point) => new_point,
                    _ => not_below_zero(sum),
                };
                let new_point: u64 = if wanted <= max_len {
                    wanted
                } else {
                    max_len
                };
                to_signed(new_point).checked_sub(to_signed(cur))
            },
        }
    }

    /// Whether a position of the stream is one that [`Self::interpret_new_pos`] takes.
    pub fn accepts_position(&self, new_pos: u64) -> (r: bool)
        ensures
            r == self.in_window(new_pos as int),
            r <==> {
                &&& self.start_pos <= new_pos <= self.start_pos + self.max_len
                &&& self.start_pos + self.max_len <= u64::MAX
            },
    {
        match self.start_pos.checked_add(self.max_len as u64) {
            Some(end) => self.start_pos <= new_pos && new_pos <= end,
            None => false,
        }
    }

    /// Takes over the position in the window from the position of the stream.
    pub fn interpret_new_pos(&mut self, new_pos: u64)
        requires
            old(self).in_window(new_pos as int),
        ensures
            *final(self) == old(self).at(new_pos - old(self).start_pos),
            final(self).start_pos + final(self).internal_pos == new_pos,
            final(self).max_len == old(self).max_len,
            final(self).start_pos == old(self).start_pos,
            final(self).source_stream == old(self).source_stream,
            final(self).wf(),
    {
        self.internal_pos = (new_pos - self.start_pos) as usize;
    }

    /// Starts to read or write up to `requested` bytes: how many to ask of the stream,
    /// or nothing where the transfer is over with no bytes moved and the stream is not
    /// asked.
    pub fn begin_transfer(&self, requested: usize) -> (r: Option<usize>)
        requires
            self.wf(),
        ensures
            match r {
                Some(n) => 0 < n && n == self.allowance(requested as int),
                None => self.allowance(requested as int) == 0,
            },
            match r {
                Some(n) => {
                    &&& self.internal_pos + n <= self.max_len
                    &&& n <= requested
                    &&& self.internal_pos + n == self.max_len || n == requested
                },
                None => requested == 0 || self.internal_pos == self.max_len,
            },
    {
        let allowed: usize = self.limit_length(requested);
        if allowed == 0 {
            None
        } else {
            Some(allowed)
        }
    }

    /// Ends a read or a write with what the stream answered, which is the answer of the
    /// window too. A failed transfer leaves the position as it was.
    pub fn finish_transfer<E>(&mut self, outcome: Result<usize, E>) -> (r: Result<usize, E>)
        requires
            old(self).wf(),
            outcome matches Ok(n) ==> n <= old(self).rest(),
        ensures
            r == outcome,
            *final(self) == old(self).after_transfer(outcome),
            final(self).internal_pos == match outcome {
                Ok(n) => old(self).internal_pos + n,
                Err(_) => old(self).internal_pos as int,
            },
            final(self).max_len == old(self).max_len,
            final(self).start_pos == old(self).start_pos,
            final(self).source_stream == old(self).source_stream,
            final(self).wf(),
    {
        if let Ok(n) = &outcome {
            if *n > 0 {
                self.push_cursor(*n);
            }
        }
        outcome
    }

    /// Ends a poll of a write with what the stream answered. While the write is pending
    /// the position stays as it was.
    pub fn finish_poll_write<E>(&mut self, polled: Poll<Result<usize, E>>) -> (r: Poll<
        Result<usize, E>,
    >)
        requires
            old(self).wf(),
            polled matches Poll::Ready(Ok(n)) ==> n <= old(self).rest(),
        ensures
            r == polled,
            match polled {
                Poll::Ready(outcome) => *final(self) == old(self).after_transfer(outcome),
                Poll::Pending => *final(self) == *old(self),
            },
            final(self).internal_pos == match polled {
                Poll::Ready(Ok(n)) => old(self).internal_pos + n,
                _ => old(self).internal_pos as int,
            },
            final(self).max_len == old(self).max_len,
            final(self).start_pos == old(self).start_pos,
            final(self).source_stream == old(self).source_stream,
            final(self).wf(),
    {
        match polled {
            Poll::Pending => Poll::Pending,
            Poll::Ready(outcome) => Poll::Ready(self.finish_transfer(outcome)),
        }
    }

    /// Starts a poll of a read into `buf`: makes sure that the bytes that may be read
    /// are initialized, and says how many they are, or nothing where the read is over
    /// with no bytes moved and the stream is not asked.
    pub fn begin_poll_read(&self, buf: &mut ReadBuf<'_>) -> (r: Option<usize>)
        requires
            self.wf(),
        ensures
            match r {
                Some(n) => {
                    &&& 0 < n
                    &&& n == self.allowance(read_buf::capacity(*old(buf)) - read_buf::filled(*old(buf)).len())
                    &&& read_buf::filled(*final(buf)) == read_buf::filled(*old(buf))
                    &&& read_buf::capacity(*final(buf)) == read_buf::capacity(*old(buf))
                    &&& read_buf::initialized(*final(buf)) == read_buf::filled(*old(buf))
                        + read_buf::zero_extended(
                        read_buf::initialized(*old(buf)),
                        read_buf::filled(*old(buf)).len() + n,
                    ).skip(read_buf::filled(*old(buf)).len() as int)
                },
                None => {
                    &&& self.allowance(read_buf::capacity(*old(buf)) - read_buf::filled(*old(buf)).len()) == 0
                    &&& *final(buf) == *old(buf)
                },
            },
            ({
                let room = read_buf::capacity(*old(buf)) - read_buf::filled(*old(buf)).len();
                match r {
                    Some(n) => {
                        &&& self.internal_pos + n <= self.max_len
                        &&& n <= room
                        &&& self.internal_pos + n == self.max_len || n == room
                        &&& read_buf::filled(*old(buf)).len() + n <= read_buf::initialized(
                            *final(buf),
                        ).len()
                    },
                    None => room == 0 || self.internal_pos == self.max_len,
                }
            }),
    {
        let allowed: usize = self.limit_length(read_buf::remaining(buf));
        if allowed == 0 {
            return None;
        }
        let ghost filled = read_buf::filled(*buf);
        let ghost extended = read_buf::zero_extended(
            read_buf::initialized(*buf),
            filled.len() + allowed,
        );
        let unfilled: &mut [u8] = read_buf::initialize_unfilled_to(buf, allowed);
        assert(filled + unfilled@ + extended.skip(filled.len() + allowed) =~= filled
            + extended.skip(filled.len() as int));
        Some(allowed)
    }

    /// Ends a poll of a read with what the stream answered, where `Ok` holds the number
    /// of bytes that it put after the filled part of `buf`. They become part of it.
    pub fn finish_poll_read<E>(
        &mut self,
        buf: &mut ReadBuf<'_>,
        polled: Poll<Result<usize, E>>,
    ) -> (r: Poll<Result<(), E>>)
        requires
            old(self).wf(),
            polled matches Poll::Ready(Ok(n)) ==> {
                &&& n <= old(self).rest()
                &&& read_buf::filled(*old(buf)).len() + n <= read_buf::initialized(*old(buf)).len()
            },
        ensures
            match polled {
                Poll::Ready(Ok(n)) => {
                    &&& r == Poll::<Result<(), E>>::Ready(Ok(()))
                    &&& *final(self) == old(self).at(old(self).internal_pos + n)
                    &&& n == 0 ==> *final(buf) == *old(buf)
                    &&& n > 0 ==> {
                        &&& read_buf::filled(*final(buf)) == read_buf::initialized(*old(buf)).take(
                            read_buf::filled(*old(buf)).len() + n,
                        )
                        &&& read_buf::initialized(*final(buf)) == read_buf::initialized(*old(buf))
                        &&& read_buf::capacity(*final(buf)) == read_buf::capacity(*old(buf))
                    }
                },
                Poll::Ready(Err(e)) => {
                    &&& r == Poll::<Result<(), E>>::Ready(Err(e))
                    &&& *final(self) == *old(self)
                    &&& *final(buf) == *old(buf)
                },
                Poll::Pending => {
                    &&& r == Poll::<Result<(), E>>::Pending
                    &&& *final(self) == *old(self)
                    &&& *final(buf) == *old(buf)
                },
            },
            final(self).internal_pos == match polled {
                Poll::Ready(Ok(n)) => old(self).internal_pos + n,
                _ => old(self).internal_pos as int,
            },
            final(self).max_len == old(self).max_len,
            final(self).start_pos == old(self).start_pos,
            final(self).source_stream == old(self).source_stream,
            final(self).wf(),
    {
        match polled {
            Poll::Pending => Poll::Pending,
            Poll::Ready(Err(e)) => Poll::Ready(Err(e)),
            Poll::Ready(Ok(n)) => {
                if n > 0 {
                    read_buf::advance(buf, n);
                    self.push_cursor(n);
                }
                Poll::Ready(Ok(()))
            },
        }
    }

    /// Starts a seek within the window: the seek to ask of the stream.
    pub fn start_seek(&self, op: SeekFrom) -> (r: SeekFrom)
        requires
            self.wf(),
            self.seek_fits(op),
        ensures
            r == SeekFrom::Current(self.seek_diff(op) as i64),
            self.max_len <= i64::MAX ==> {
                let point = match op {
                    SeekFrom::Start(n) => n as int,
                    SeekFrom::End(n) => self.max_len + n,
                    SeekFrom::Current(n) => self.internal_pos + n,
                };
                &&& r matches SeekFrom::Current(diff)
                &&& 0 <= point <= self.max_len ==> self.internal_pos + diff == point
                &&& point < 0 ==> self.internal_pos + diff == 0
                &&& point > self.max_len ==> self.internal_pos + diff == self.max_len
            },
    {
        SeekFrom::Current(self.convert_seek_request_to_relative(op))
    }

    /// Ends a seek with the position that the stream answered, which is the answer of
    /// the window too: it is counted from the start of the stream. A failed seek leaves
    /// the position as it was.
    pub fn finish_seek<E>(&mut self, outcome: Result<u64, E>) -> (r: Result<u64, E>)
        requires
            old(self).wf(),
            outcome matches Ok(pos) ==> old(self).in_window(pos as int),
        ensures
            r == outcome,
            *final(self) == old(self).after_seek(outcome),
            final(self).internal_pos == match outcome {
                Ok(pos) => pos - old(self).start_pos,
                Err(_) => old(self).internal_pos as int,
            },
            final(self).max_len == old(self).max_len,
            final(self).start_pos == old(self).start_pos,
            final(self).source_stream == old(self).source_stream,
            final(self).wf(),
    {
        if let Ok(pos) = &outcome {
            self.interpret_new_pos(*pos);
        }
        outcome
    }

    /// Ends a poll of a seek with what the stream answered. While the seek is pending
    /// the position stays as it was.
    pub fn poll_complete<E>(&mut self, polled: Poll<Result<u64, E>>) -> (r: Poll<
        Result<u64, E>,
    >)
        requires
            old(self).wf(),
            polled matches Poll::Ready(Ok(pos)) ==> old(self).in_window(pos as int),
        ensures
            r == polled,
            match polled {
                Poll::Ready(outcome) => *final(self) == old(self).after_seek(outcome),
                Poll::Pending => *final(self) == *old(self),
            },
            final(self).internal_pos == match polled {
                Poll::Ready(Ok(pos)) => pos - old(self).start_pos,
                _ => old(self).internal_pos as int,
            },
            final(self).max_len == old(self).max_len,
            final(self).start_pos == old(self).start_pos,
            final(self).source_stream == old(self).source_stream,
            final(self).wf(),
    {
        match polled {
            Poll::Pending => Poll::Pending,
            Poll::Ready(outcome) => Poll::Ready(self.finish_seek(outcome)),
        }
    }
}

impl<S> KnownExpanse for Limiter<S> {
    open spec fn expanse(&self) -> nat {
        self.max_len as nat
    }

    fn full_length(&self) -> (len: usize)
        ensures
            len == self.max_len,
    {
        self.max_len
    }
}

/// `x`, or zero in place of a negative number.
fn not_below_zero(x: i64) -> (r: u64)
    ensures
        r == if x < 0 {
            0
        } else {
            x as int
        },
{
    if x < 0 {
        0
    } else {
        x as u64
    }
}

/// Reinterprets the bits of `x` as a signed number.
fn to_signed(x: u64) -> (r: i64)
    ensures
        r == signed(x as int),
{
    let r: i64 = x as i64;
    proof {
        assert(x <= 0x7fff_ffff_ffff_ffff ==> x as i64 == x) by (bit_vector);
        assert(x > 0x7fff_ffff_ffff_ffff ==> x as i64 == x - 0x1_0000_0000_0000_0000) by (bit_vector);
    }
    r
}

} // verus!
