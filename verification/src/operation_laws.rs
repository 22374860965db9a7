//! What each single operation comes to, byte by byte and field by field, and what follows
//! from that for a stream as a whole.

use crate::cursor::{Cursor, CursorState};
use crate::file_adaptors::FixedLengthFile;
use crate::io::{InvalidSeek, SeekFrom};
use crate::stream_adaptors::async_io::{AdapterState, ReadFailure};
use crate::stream_adaptors::in_memory::WindowState;
use crate::stream_adaptors::{KnownExpanse, Limiter};
use vstd::prelude::*;

verus! {

// ---------------------------------------------------------------- numbers

/// The smaller of two numbers is one of them, and neither is below it.
pub proof fn law_smaller(a: int, b: int)
    ensures
        crate::io::smaller(a, b) <= a,
        crate::io::smaller(a, b) <= b,
        crate::io::smaller(a, b) == a || crate::io::smaller(a, b) == b,
{
}

/// A number moved into a range lies in it, and is as near to the number as the range
/// allows.
pub proof fn law_clamped(x: int, low: int, high: int)
    requires
        low <= high,
    ensures
        low <= crate::io::clamped(x, low, high) <= high,
        low <= x <= high ==> crate::io::clamped(x, low, high) == x,
        x < low ==> crate::io::clamped(x, low, high) == low,
        x > high ==> crate::io::clamped(x, low, high) == high,
{
}

/// Reinterpreting the bits of a number gives one in the range of `i64` that differs from it
/// by nothing, or by all that 64 bits can count.
pub proof fn law_signed(x: int)
    requires
        0 <= x <= u64::MAX,
    ensures
        i64::MIN <= crate::stream_adaptors::limiter::signed(x) <= i64::MAX,
        x <= i64::MAX ==> crate::stream_adaptors::limiter::signed(x) == x,
        x > i64::MAX ==> crate::stream_adaptors::limiter::signed(x) + u64::MAX + 1 == x,
{
}

// ---------------------------------------------------------------- windows

/// A window is well formed exactly if its position does not lie past its end; it reaches
/// as far as its length says, and what is left of it is what lies ahead of the position.
pub proof fn law_window_is_its_fields<S>(limiter: Limiter<S>)
    ensures
        limiter.wf() <==> limiter.internal_pos <= limiter.max_len,
        limiter.expanse() == limiter.max_len,
        limiter.rest() == limiter.max_len - limiter.internal_pos,
{
}

/// What a window allows of a transfer is no more than is left of it, no more than was
/// requested, and one of the two. A stream that answers no more than it was asked for
/// never brings the position past the end of the window.
pub proof fn law_allowance_is_within_both_limits<S>(
    limiter: Limiter<S>,
    requested: int,
    answered: usize,
)
    requires
        limiter.internal_pos <= limiter.max_len,
        0 <= requested,
    ensures
        0 <= limiter.allowance(requested),
        limiter.internal_pos + limiter.allowance(requested) <= limiter.max_len,
        limiter.allowance(requested) <= requested,
        limiter.internal_pos + limiter.allowance(requested) == limiter.max_len
            || limiter.allowance(requested) == requested,
        limiter.allowance(requested) == 0 <==> requested == 0 || limiter.internal_pos
            == limiter.max_len,
        answered <= limiter.allowance(requested) ==> {
            let after = limiter.after_transfer::<()>(Ok(answered));
            &&& after.internal_pos == limiter.internal_pos + answered
            &&& after.internal_pos <= after.max_len
            &&& after.max_len == limiter.max_len
            &&& after.start_pos == limiter.start_pos
            &&& after.source_stream == limiter.source_stream
        },
{
}

/// A transfer of `n` bytes moves the position by `n` and changes nothing else; a failed
/// one changes nothing.
pub proof fn law_transfer_moves_the_position_alone<S, E>(limiter: Limiter<S>, n: usize, error: E)
    requires
        limiter.internal_pos + n <= limiter.max_len,
    ensures
        ({
            let after = limiter.after_transfer::<E>(Ok(n));
            &&& after.internal_pos == limiter.internal_pos + n
            &&& after.max_len == limiter.max_len
            &&& after.start_pos == limiter.start_pos
            &&& after.source_stream == limiter.source_stream
        }),
        limiter.after_transfer::<E>(Err(error)) == limiter,
{
}

/// Two transfers one after the other come to the same as one of both their bytes.
pub proof fn law_transfers_add_up<S>(limiter: Limiter<S>, n: usize, m: usize, both: usize)
    requires
        both == n + m,
        limiter.internal_pos + both <= limiter.max_len,
    ensures
        limiter.after_transfer::<()>(Ok(n)).after_transfer::<()>(Ok(m))
            == limiter.after_transfer::<()>(Ok(both)),
        limiter.after_transfer::<()>(Ok(0)) == limiter,
{
}

/// A finished seek changes nothing of a window but its position, which is then where the
/// stream stands, counted from the start of the window; a failed seek changes nothing.
pub proof fn law_seek_moves_the_position_alone<S, E>(limiter: Limiter<S>, pos: u64, error: E)
    requires
        limiter.start_pos <= pos <= limiter.start_pos + limiter.max_len,
    ensures
        ({
            let after = limiter.after_seek::<E>(Ok(pos));
            &&& after.start_pos + after.internal_pos == pos
            &&& after.max_len == limiter.max_len
            &&& after.start_pos == limiter.start_pos
            &&& after.source_stream == limiter.source_stream
        }),
        limiter.after_seek::<E>(Err(error)) == limiter,
{
}

/// A window moved to a position is the same window, at that position.
pub proof fn law_window_at_a_position<S>(limiter: Limiter<S>, pos: int)
    requires
        0 <= pos <= limiter.max_len,
    ensures
        limiter.at(pos).internal_pos == pos,
        limiter.at(pos).max_len == limiter.max_len,
        limiter.at(pos).start_pos == limiter.start_pos,
        limiter.at(pos).source_stream == limiter.source_stream,
{
}

/// A position of the stream counts as in the window exactly from its start to its end,
/// both of which the stream must be able to stand at.
pub proof fn law_window_covers_its_stretch<S>(limiter: Limiter<S>, pos: int)
    ensures
        limiter.in_window(pos) <==> {
            &&& limiter.start_pos <= pos
            &&& pos - limiter.start_pos <= limiter.max_len
            &&& limiter.start_pos + limiter.max_len <= u64::MAX
        },
{
}

/// In a window that `i64` can measure, a seek brings the position to the requested point
/// if that lies in the window, to its start if the point lies before it, and to its end
/// if the point lies past it. It fits unless the point is past what `i64` can hold.
pub proof fn law_seek_distance<S>(limiter: Limiter<S>, op: SeekFrom)
    requires
        limiter.internal_pos <= limiter.max_len <= i64::MAX,
    ensures
        ({
            let point = match op {
                SeekFrom::Start(n) => n as int,
                SeekFrom::End(n) => limiter.max_len + n,
                SeekFrom::Current(n) => limiter.internal_pos + n,
            };
            let reached = limiter.internal_pos + limiter.seek_diff(op);
            &&& 0 <= point <= limiter.max_len ==> reached == point
            &&& point < 0 ==> reached == 0
            &&& point > limiter.max_len ==> reached == limiter.max_len
            &&& reached == limiter.seek_point(op)
            &&& limiter.seek_fits(op) <==> (op is Start || point <= i64::MAX)
        }),
{
}

/// In a window of any length, what a seek counts from, where it goes and how far that is
/// are numbers whose bits were reinterpreted as signed, and the seek fits exactly if the
/// sum and the distance do.
pub proof fn law_seek_arithmetic<S>(limiter: Limiter<S>, op: SeekFrom)
    requires
        limiter.internal_pos <= limiter.max_len,
    ensures
        ({
            let wrap = |x: int| if x > i64::MAX { x - u64::MAX - 1 } else { x };
            let cur = wrap(limiter.internal_pos as int);
            let sum = match op {
                SeekFrom::Start(_) => 0,
                SeekFrom::End(n) => wrap(limiter.max_len as int) + n,
                SeekFrom::Current(n) => cur + n,
            };
            let wanted = match op {
                SeekFrom::Start(n) => n as int,
                _ => if sum > 0 { sum } else { 0 },
            };
            let point = limiter.seek_point(op);
            &&& wanted <= limiter.max_len ==> point == wanted
            &&& wanted > limiter.max_len ==> point == limiter.max_len
            &&& limiter.seek_diff(op) == wrap(point) - cur
            &&& limiter.seek_fits(op) <==> i64::MIN <= sum <= i64::MAX && i64::MIN <= wrap(point)
                - cur <= i64::MAX
        }),
{
}

/// A seek, as the stream and the window make it together: the stream, in step with the
/// window, moves by the distance it is told, and the window takes over where it then
/// stands. Afterwards the window is what it was but for its position, which is the
/// requested point, or the end of the window nearest to it, and stream and window are in
/// step.
pub proof fn law_seek_as_a_whole<S, E>(limiter: Limiter<S>, op: SeekFrom, stream_pos: int)
    requires
        limiter.internal_pos <= limiter.max_len <= i64::MAX,
        limiter.start_pos + limiter.max_len <= u64::MAX,
        stream_pos == limiter.start_pos + limiter.internal_pos,
    ensures
        ({
            let point = match op {
                SeekFrom::Start(n) => n as int,
                SeekFrom::End(n) => limiter.max_len + n,
                SeekFrom::Current(n) => limiter.internal_pos + n,
            };
            let landed = stream_pos + limiter.seek_diff(op);
            let after = limiter.after_seek::<E>(Ok(landed as u64));
            &&& limiter.in_window(landed)
            &&& after.max_len == limiter.max_len
            &&& after.start_pos == limiter.start_pos
            &&& after.source_stream == limiter.source_stream
            &&& landed == after.start_pos + after.internal_pos
            &&& 0 <= point <= limiter.max_len ==> after.internal_pos == point
            &&& point < 0 ==> after.internal_pos == 0
            &&& point > limiter.max_len ==> after.internal_pos == limiter.max_len
            &&& after == limiter.at(limiter.seek_point(op))
        }),
{
}

// ---------------------------------------------------------------- bytes in memory

/// One transfer on bytes in memory moves all that was wanted or all that is left, which is
/// nothing only where nothing was wanted or nothing is left.
pub proof fn law_memory_transfer_length(cursor: CursorState, want: int)
    requires
        0 <= cursor.pos,
        0 <= want,
    ensures
        ({
            let n = cursor.transfer_len(want);
            &&& 0 <= n <= want
            &&& cursor.pos >= cursor.bytes.len() ==> n == 0
            &&& cursor.pos < cursor.bytes.len() ==> {
                &&& cursor.pos + n <= cursor.bytes.len()
                &&& n == want || cursor.pos + n == cursor.bytes.len()
            }
            &&& n == 0 <==> want == 0 || cursor.pos >= cursor.bytes.len()
        }),
        cursor.pos < cursor.bytes.len() ==> cursor.pos + cursor.available()
            == cursor.bytes.len(),
        cursor.pos >= cursor.bytes.len() ==> cursor.available() == 0,
{
}

/// A read of `n` bytes gives each byte from the position on, moves the position past them,
/// and leaves the bytes as they are.
pub proof fn law_memory_read(cursor: CursorState, n: int)
    requires
        0 <= cursor.pos,
        0 <= n,
        n == 0 || cursor.pos + n <= cursor.bytes.len(),
    ensures
        cursor.upcoming(n).len() == n,
        forall|i: int| 0 <= i < n ==> #[trigger] cursor.upcoming(n)[i] == cursor.bytes[cursor.pos + i],
        cursor.advanced(n).bytes == cursor.bytes,
        cursor.advanced(n).pos == cursor.pos + n,
{
}

/// A write puts each byte of `data` in its place, moves the position past them, and
/// leaves all other bytes, and their number, as they are.
pub proof fn law_memory_write(cursor: CursorState, data: Seq<u8>)
    requires
        0 <= cursor.pos,
        data.len() == 0 || cursor.pos + data.len() <= cursor.bytes.len(),
    ensures
        ({
            let after = cursor.overwritten(data);
            &&& after.pos == cursor.pos + data.len()
            &&& after.bytes.len() == cursor.bytes.len()
            &&& forall|i: int| 0 <= i < data.len() ==> after.bytes[cursor.pos + i] == #[trigger] data[i]
            &&& forall|j: int|
                0 <= j < cursor.bytes.len() && (j < cursor.pos || cursor.pos + data.len() <= j)
                    ==> #[trigger] after.bytes[j] == cursor.bytes[j]
        }),
{
    let after = cursor.overwritten(data);
    assert forall|i: int| 0 <= i < data.len() implies after.bytes[cursor.pos + i]
        == #[trigger] data[i] by {
        assert(after.bytes[cursor.pos + i] == data[cursor.pos + i - cursor.pos]);
    }
}

/// A seek counts from the start, the end or the position, as it says. It returns where it
/// leads and goes there, unless that is before the start or past what a position can
/// hold: then it fails and moves nothing. The bytes stay as they are.
pub proof fn law_memory_seek(cursor: CursorState, op: SeekFrom)
    requires
        0 <= cursor.pos <= u64::MAX,
    ensures
        cursor.sought(op).bytes == cursor.bytes,
        match op {
            SeekFrom::Start(n) => {
                &&& cursor.seek_result(op) == Ok::<u64, InvalidSeek>(n)
                &&& cursor.sought(op).pos == n
            },
            SeekFrom::End(n) => {
                let to = cursor.bytes.len() + n;
                &&& 0 <= to <= u64::MAX ==> {
                    &&& cursor.seek_result(op) == Ok::<u64, InvalidSeek>(to as u64)
                    &&& cursor.sought(op).pos == to
                }
                &&& !(0 <= to <= u64::MAX) ==> {
                    &&& cursor.seek_result(op) == Err::<u64, InvalidSeek>(InvalidSeek)
                    &&& cursor.sought(op).pos == cursor.pos
                }
            },
            SeekFrom::Current(n) => {
                let to = cursor.pos + n;
                &&& 0 <= to <= u64::MAX ==> {
                    &&& cursor.seek_result(op) == Ok::<u64, InvalidSeek>(to as u64)
                    &&& cursor.sought(op).pos == to
                }
                &&& !(0 <= to <= u64::MAX) ==> {
                    &&& cursor.seek_result(op) == Err::<u64, InvalidSeek>(InvalidSeek)
                    &&& cursor.sought(op).pos == cursor.pos
                }
            },
        },
        cursor.seek_valid(op) <==> cursor.seek_result(op) is Ok,
        cursor.seek_valid(op) ==> cursor.seek_target(op) == cursor.sought(op).pos,
{
}

/// After a seek to `k` bytes before the end, wherever the position was, exactly `k` bytes
/// are left to read, and a read of more gives just these.
pub proof fn law_memory_seek_before_the_end(cursor: CursorState, k: int, want: int)
    requires
        0 <= k <= cursor.bytes.len(),
        cursor.bytes.len() <= u64::MAX,
        k <= i64::MAX,
        k <= want,
    ensures
        ({
            let after = cursor.sought(SeekFrom::End((-k) as i64));
            &&& after.available() == k
            &&& after.transfer_len(want) == k
            &&& after.upcoming(k) == cursor.bytes.subrange(
                cursor.bytes.len() - k,
                cursor.bytes.len() as int,
            )
        }),
{
    let after = cursor.sought(SeekFrom::End((-k) as i64));
    assert(after.upcoming(k) =~= cursor.bytes.subrange(
        cursor.bytes.len() - k,
        cursor.bytes.len() as int,
    ));
}

/// The bytes in memory after reads of at most so many bytes each.
pub open spec fn after_memory_reads(cursor: CursorState, wants: Seq<nat>) -> CursorState
    decreases wants.len(),
{
    if wants.len() == 0 {
        cursor
    } else {
        let before = after_memory_reads(cursor, wants.drop_last());
        before.advanced(before.transfer_len(wants.last() as int))
    }
}

/// What such reads give.
pub open spec fn bytes_of_memory_reads(cursor: CursorState, wants: Seq<nat>) -> Seq<u8>
    decreases wants.len(),
{
    if wants.len() == 0 {
        Seq::empty()
    } else {
        let before = after_memory_reads(cursor, wants.drop_last());
        bytes_of_memory_reads(cursor, wants.drop_last()) + before.upcoming(
            before.transfer_len(wants.last() as int),
        )
    }
}

/// Reads one after the other, each of at least one byte, give the bytes from the position
/// on, in order and without a gap. As many reads as there are bytes left reach the end,
/// and then they have given all of them.
pub proof fn law_memory_reads_reach_the_end(cursor: CursorState, wants: Seq<nat>)
    requires
        0 <= cursor.pos <= cursor.bytes.len(),
        forall|i: int| 0 <= i < wants.len() ==> wants[i] > 0,
    ensures
        ({
            let after = after_memory_reads(cursor, wants);
            &&& after.bytes == cursor.bytes
            &&& cursor.pos <= after.pos <= cursor.bytes.len()
            &&& bytes_of_memory_reads(cursor, wants) == cursor.bytes.subrange(
                cursor.pos,
                after.pos,
            )
            &&& after.pos == cursor.bytes.len() || after.pos >= cursor.pos + wants.len()
            &&& wants.len() >= cursor.bytes.len() - cursor.pos ==> bytes_of_memory_reads(
                cursor,
                wants,
            ) == cursor.bytes.subrange(cursor.pos, cursor.bytes.len() as int)
        }),
    decreases wants.len(),
{
    if wants.len() == 0 {
        assert(bytes_of_memory_reads(cursor, wants) =~= cursor.bytes.subrange(
            cursor.pos,
            cursor.pos,
        ));
    } else {
        let before = after_memory_reads(cursor, wants.drop_last());
        let want = wants.last() as int;
        assert(want > 0);
        law_memory_reads_reach_the_end(cursor, wants.drop_last());
        law_memory_transfer_length(before, want);
        assert(bytes_of_memory_reads(cursor, wants) =~= cursor.bytes.subrange(
            cursor.pos,
            before.pos + before.transfer_len(want),
        ));
    }
}

// ---------------------------------------------------------------- windows on bytes in memory

/// What a window on bytes in memory holds is what its fields say.
pub proof fn law_window_state_is_its_fields(limiter: Limiter<Cursor>)
    ensures
        limiter.state().source == limiter.source_stream@,
        limiter.state().start == limiter.start_pos,
        limiter.state().len == limiter.max_len,
        limiter.state().pos == limiter.internal_pos,
        limiter.state().wf() <==> limiter.internal_pos <= limiter.max_len,
        limiter.state().in_step() <==> limiter.source_stream@.pos == limiter.start_pos
            + limiter.internal_pos,
{
}

/// A transfer through a window on bytes in memory moves all that was wanted, all that is
/// left of the window, or all that is left of the bytes, and never more than any of them.
/// A read gives just these bytes and moves both positions past them.
pub proof fn law_window_transfer(window: WindowState, want: int)
    requires
        0 <= window.pos <= window.len,
        0 <= window.source.pos,
        0 <= want,
    ensures
        ({
            let n = window.transfer_len(want);
            let after = window.after_read(want);
            let left = window.source.bytes.len() - window.source.pos;
            &&& 0 <= n <= want
            &&& window.pos + n <= window.len
            &&& left <= 0 ==> n == 0
            &&& left > 0 ==> n <= left
            &&& n == want || window.pos + n == window.len || n == left || left < 0
            &&& window.read_bytes(want).len() == n
            &&& forall|i: int|
                0 <= i < n ==> #[trigger] window.read_bytes(want)[i]
                    == window.source.bytes[window.source.pos + i]
            &&& after.source.bytes == window.source.bytes
            &&& after.source.pos == window.source.pos + n
            &&& after.pos == window.pos + n
            &&& after.len == window.len
            &&& after.start == window.start
        }),
{
}

/// A write through a window on bytes in memory puts the front of `data` in its place, as
/// much as a read of so many bytes would give, and leaves every other byte as it is.
pub proof fn law_window_write(window: WindowState, data: Seq<u8>)
    requires
        0 <= window.pos <= window.len,
        0 <= window.source.pos,
    ensures
        ({
            let n = window.transfer_len(data.len() as int);
            let after = window.after_write(data);
            &&& after.source.pos == window.source.pos + n
            &&& after.pos == window.pos + n
            &&& after.len == window.len
            &&& after.start == window.start
            &&& after.source.bytes.len() == window.source.bytes.len()
            &&& forall|j: int|
                0 <= j < window.source.bytes.len() ==> #[trigger] after.source.bytes[j] == if window.source.pos
                    <= j < window.source.pos + n {
                    data[j - window.source.pos]
                } else {
                    window.source.bytes[j]
                }
        }),
{
}

/// The contents of a window that starts within the bytes are the bytes from its start on,
/// up to its length or to the end of the bytes.
pub proof fn law_window_contents(window: WindowState)
    requires
        0 <= window.start <= window.source.bytes.len(),
        0 <= window.len,
    ensures
        window.contents().len() <= window.len,
        window.start + window.contents().len() <= window.source.bytes.len(),
        window.contents().len() == window.len || window.start + window.contents().len()
            == window.source.bytes.len(),
        window.end() == window.start + window.contents().len(),
        forall|i: int|
            0 <= i < window.contents().len() ==> #[trigger] window.contents()[i]
                == window.source.bytes[window.start + i],
{
}

/// A seek in a window on bytes in memory that is in step succeeds: the bytes are then at
/// the requested point of the window, or at the end of the window nearest to it.
pub proof fn law_window_seek(limiter: Limiter<Cursor>, op: SeekFrom)
    requires
        limiter.internal_pos <= limiter.max_len <= i64::MAX,
        limiter.start_pos + limiter.max_len <= u64::MAX,
        limiter.source_stream@.pos == limiter.start_pos + limiter.internal_pos,
    ensures
        ({
            let point = match op {
                SeekFrom::Start(n) => n as int,
                SeekFrom::End(n) => limiter.max_len + n,
                SeekFrom::Current(n) => limiter.internal_pos + n,
            };
            let reached = if point < 0 {
                0
            } else if point > limiter.max_len {
                limiter.max_len as int
            } else {
                point
            };
            let after = limiter.source_stream@.sought(limiter.relative_seek(op));
            &&& limiter.relative_seek_stays(op)
            &&& limiter.source_stream@.seek_result(limiter.relative_seek(op)) == Ok::<
                u64,
                InvalidSeek,
            >((limiter.start_pos + reached) as u64)
            &&& after.pos == limiter.start_pos + reached
            &&& after.bytes == limiter.source_stream@.bytes
        }),
{
}

/// A seek in a window on bytes in memory, in step or not, moves the bytes by just the
/// distance of the seek. It may be made unless that leads to a position outside the window.
pub proof fn law_window_seek_is_relative(limiter: Limiter<Cursor>, op: SeekFrom)
    requires
        i64::MIN <= limiter.seek_diff(op) <= i64::MAX,
    ensures
        ({
            let to = limiter.source_stream@.pos + limiter.seek_diff(op);
            let after = limiter.source_stream@.sought(limiter.relative_seek(op));
            let outside = to < limiter.start_pos || to > limiter.start_pos + limiter.max_len
                || limiter.start_pos + limiter.max_len > u64::MAX;
            &&& limiter.relative_seek(op) is Current
            &&& 0 <= to <= u64::MAX ==> after.pos == to
            &&& !(0 <= to <= u64::MAX) ==> after.pos == limiter.source_stream@.pos
            &&& limiter.relative_seek_stays(op) <==> !(0 <= to <= u64::MAX && outside)
        }),
{
}

// ---------------------------------------------------------------- buffers

/// Extending the initialized part of a buffer with zeros keeps what it held, adds nothing
/// but zeros, and adds no more than it takes.
pub proof fn law_zero_extension(init: Seq<u8>, end: int)
    requires
        0 <= end,
    ensures
        ({
            let extended = crate::read_buf::zero_extended(init, end);
            &&& extended.len() >= init.len()
            &&& extended.len() >= end
            &&& extended.len() == init.len() || extended.len() == end
            &&& forall|i: int| 0 <= i < init.len() ==> #[trigger] extended[i] == init[i]
            &&& forall|i: int| init.len() <= i < extended.len() ==> #[trigger] extended[i] == 0
        }),
{
}

/// Replacing the front of the initialized part keeps what lies past it.
pub proof fn law_front_replacement(init: Seq<u8>, front: Seq<u8>)
    ensures
        ({
            let replaced = crate::read_buf::front_replaced(init, front);
            &&& replaced.len() >= front.len()
            &&& replaced.len() >= init.len()
            &&& replaced.len() == front.len() || replaced.len() == init.len()
            &&& forall|i: int| 0 <= i < front.len() ==> #[trigger] replaced[i] == front[i]
            &&& forall|i: int|
                front.len() <= i < init.len() ==> #[trigger] replaced[i] == init[i]
        }),
{
}

// ---------------------------------------------------------------- files of fixed length

/// A file in memory is its bytes and its position and has their number as its length; one
/// elsewhere is its handle and its length.
pub proof fn law_file_is_in_memory_or_elsewhere<F>(cursor: Cursor, handle: F, len: usize)
    ensures
        ({
            let file = FixedLengthFile::<F>::Immediate(cursor);
            &&& file.memory() == Some(cursor@)
            &&& file.handle() is None
            &&& file.expanse() == cursor@.bytes.len()
        }),
        ({
            let file = FixedLengthFile::Paging(handle, len);
            &&& file.memory() is None
            &&& file.handle() == Some((handle, len))
            &&& file.expanse() == len
        }),
{
}

// ---------------------------------------------------------------- blocking streams

/// A new adapter has the stream, nothing ready, no worker, and the message still to send.
/// An adapter is well formed exactly if either the stream is here, or a worker's lease is
/// out and nothing is ready.
pub proof fn law_adapter_is_its_fields<S>(inner: S, state: AdapterState<S>)
    ensures
        AdapterState::fresh(inner).inner == Some(inner),
        AdapterState::fresh(inner).ready.len() == 0,
        AdapterState::<S>::fresh(inner).lease is None,
        AdapterState::<S>::fresh(inner).armed,
        state.wf() <==> (state.inner is Some && state.lease is None) || (state.inner is None
            && state.lease is Some && state.ready.len() == 0),
{
}

/// A poll takes all that is ready or all that fits, from the front; the rest stays ready,
/// in order, and nothing else changes.
pub proof fn law_poll_takes_from_the_front<S>(state: AdapterState<S>, room: int)
    requires
        0 <= room,
    ensures
        ({
            let taken = state.taken(room);
            let after = state.served(room);
            &&& taken.len() <= room
            &&& taken.len() == room || taken.len() == state.ready.len()
            &&& taken.len() + after.ready.len() == state.ready.len()
            &&& forall|i: int| 0 <= i < taken.len() ==> #[trigger] taken[i] == state.ready[i]
            &&& forall|i: int|
                0 <= i < after.ready.len() ==> #[trigger] after.ready[i] == state.ready[taken.len()
                    + i]
            &&& after.inner == state.inner
            &&& after.lease == state.lease
            &&& after.armed == state.armed
        }),
{
}

/// Lending the stream takes it away and puts a lease out, and changes nothing else.
pub proof fn law_lending<S>(state: AdapterState<S>, wanted: nat)
    ensures
        state.lent(wanted).inner is None,
        state.lent(wanted).lease == Some(wanted),
        state.lent(wanted).ready == state.ready,
        state.lent(wanted).armed == state.armed,
{
}

/// After a worker's read of `n` bytes, the bytes that are ready are those that were before,
/// followed by the first `n` of the lease: every one of them, in order. If there were none
/// the end of the stream is told, unless it was told before.
pub proof fn law_worker_read_some<S, E>(
    state: AdapterState<S>,
    source: S,
    lease: Seq<u8>,
    n: usize,
)
    requires
        n <= lease.len(),
    ensures
        ({
            let outcome = Ok::<usize, ReadFailure<E>>(n);
            let message = crate::stream_adaptors::async_io::message(outcome);
            let after = state.handed_back(
                source,
                crate::stream_adaptors::async_io::published(lease, outcome),
                message is Some,
            );
            &&& after.ready.len() == state.ready.len() + n
            &&& forall|i: int| 0 <= i < state.ready.len() ==> #[trigger] after.ready[i] == state.ready[i]
            &&& forall|i: int|
                0 <= i < n ==> after.ready[state.ready.len() + i] == #[trigger] lease[i]
            &&& after.inner == Some(source)
            &&& after.lease is None
            &&& n == 0 ==> message == Some(Ok::<(), E>(()))
            &&& n > 0 ==> message is None
            &&& after.armed == (state.armed && n > 0)
        }),
{
}

/// After a worker's read that was interrupted nothing more is ready and nothing is told.
pub proof fn law_worker_was_interrupted<S, E>(state: AdapterState<S>, source: S, lease: Seq<u8>)
    ensures
        ({
            let outcome = Err::<usize, ReadFailure<E>>(ReadFailure::Interrupted);
            let message = crate::stream_adaptors::async_io::message(outcome);
            let after = state.handed_back(
                source,
                crate::stream_adaptors::async_io::published(lease, outcome),
                message is Some,
            );
            &&& after.ready.len() == state.ready.len()
            &&& forall|i: int| 0 <= i < state.ready.len() ==> #[trigger] after.ready[i] == state.ready[i]
            &&& after.inner == Some(source)
            &&& after.lease is None
            &&& message is None
            &&& after.armed == state.armed
        }),
{
}

/// After a worker's read that failed the whole lease is ready, and that error is told,
/// unless an end was told before.
pub proof fn law_worker_failed<S, E>(state: AdapterState<S>, source: S, lease: Seq<u8>, error: E)
    ensures
        ({
            let outcome = Err::<usize, ReadFailure<E>>(ReadFailure::Failed(error));
            let message = crate::stream_adaptors::async_io::message(outcome);
            let after = state.handed_back(
                source,
                crate::stream_adaptors::async_io::published(lease, outcome),
                message is Some,
            );
            &&& after.ready.len() == state.ready.len() + lease.len()
            &&& forall|i: int| 0 <= i < state.ready.len() ==> #[trigger] after.ready[i] == state.ready[i]
            &&& forall|i: int|
                0 <= i < lease.len() ==> after.ready[state.ready.len() + i] == #[trigger] lease[i]
            &&& after.inner == Some(source)
            &&& after.lease is None
            &&& message == Some(Err::<(), E>(error))
            &&& !after.armed
        }),
{
}

/// One thing that happens while a blocking stream is read.
pub enum StreamEvent {
    /// A poll takes what is ready into a buffer with room for so many bytes.
    Poll(nat),
    /// A worker gets the stream to read so many bytes.
    Lend(nat),
    /// A worker's read put so many bytes at the front of its lease.
    Read(Seq<u8>, usize),
    /// A worker's read was interrupted.
    Interrupted(Seq<u8>),
}

/// The state after an event. The stream itself is of no interest here.
pub open spec fn after_event(state: AdapterState<()>, event: StreamEvent) -> AdapterState<()> {
    match event {
        StreamEvent::Poll(room) => state.served(room as int),
        StreamEvent::Lend(wanted) => state.lent(wanted),
        StreamEvent::Read(lease, n) => {
            let outcome = Ok::<usize, ReadFailure<()>>(n);
            state.handed_back(
                (),
                crate::stream_adaptors::async_io::published(lease, outcome),
                crate::stream_adaptors::async_io::message(outcome) is Some,
            )
        },
        StreamEvent::Interrupted(lease) => {
            let outcome = Err::<usize, ReadFailure<()>>(ReadFailure::Interrupted);
            state.handed_back(
                (),
                crate::stream_adaptors::async_io::published(lease, outcome),
                crate::stream_adaptors::async_io::message(outcome) is Some,
            )
        },
    }
}

/// The state of a new adapter after several events.
pub open spec fn after_events(events: Seq<StreamEvent>) -> AdapterState<()>
    decreases events.len(),
{
    if events.len() == 0 {
        AdapterState::fresh(())
    } else {
        after_event(after_events(events.drop_last()), events.last())
    }
}

/// What polls took during the events.
pub open spec fn taken_by_polls(events: Seq<StreamEvent>) -> Seq<u8>
    decreases events.len(),
{
    if events.len() == 0 {
        Seq::empty()
    } else {
        taken_by_polls(events.drop_last()) + match events.last() {
            StreamEvent::Poll(room) => after_events(events.drop_last()).taken(room as int),
            _ => Seq::empty(),
        }
    }
}

/// How many bytes of the stream workers have read.
pub open spec fn bytes_read(events: Seq<StreamEvent>) -> int
    decreases events.len(),
{
    if events.len() == 0 {
        0
    } else {
        bytes_read(events.drop_last()) + match events.last() {
            StreamEvent::Read(_, n) => n as int,
            _ => 0,
        }
    }
}

/// Each read that came out well put the next bytes of `stream` at the front of its lease.
pub open spec fn reads_follow(stream: Seq<u8>, events: Seq<StreamEvent>) -> bool
    decreases events.len(),
{
    events.len() > 0 ==> {
        let before = bytes_read(events.drop_last());
        &&& reads_follow(stream, events.drop_last())
        &&& events.last() matches StreamEvent::Read(lease, n) ==> {
            &&& n <= lease.len()
            &&& before + n <= stream.len()
            &&& forall|i: int| 0 <= i < n ==> #[trigger] lease[i] == stream[before + i]
        }
    }
}

/// Whatever the leases and however the reads come out, if they give the bytes of a stream
/// one after the other then polls have taken, together with what is ready, exactly the
/// bytes of the stream that were read: all of them, in order, and nothing else. So when
/// the stream was read to its end and nothing is ready, polls have taken the stream.
pub proof fn law_polls_take_the_stream(stream: Seq<u8>, events: Seq<StreamEvent>)
    requires
        reads_follow(stream, events),
    ensures
        0 <= bytes_read(events) <= stream.len(),
        taken_by_polls(events) + after_events(events).ready == stream.subrange(
            0,
            bytes_read(events),
        ),
        bytes_read(events) == stream.len() && after_events(events).ready.len() == 0
            ==> taken_by_polls(events) == stream,
    decreases events.len(),
{
    if events.len() == 0 {
        assert(taken_by_polls(events) + after_events(events).ready =~= stream.subrange(0, 0));
    } else {
        law_polls_take_the_stream(stream, events.drop_last());
        let before = after_events(events.drop_last());
        let after = after_events(events);
        let so_far = taken_by_polls(events.drop_last());
        let known = stream.subrange(0, bytes_read(events.drop_last()));
        assert(so_far + before.ready == known);
        match events.last() {
            StreamEvent::Poll(room) => {
                law_poll_takes_from_the_front(before, room as int);
                assert(before.taken(room as int) + after.ready =~= before.ready);
                assert(so_far + before.taken(room as int) + after.ready =~= so_far
                    + before.ready);
            },
            StreamEvent::Lend(wanted) => {
                law_lending(before, wanted);
                assert(taken_by_polls(events) =~= so_far);
            },
            StreamEvent::Read(lease, n) => {
                law_worker_read_some::<(), ()>(before, (), lease, n);
                assert(taken_by_polls(events) =~= so_far);
                assert(after.ready =~= before.ready + lease.take(n as int));
                assert(so_far + after.ready =~= known + lease.take(n as int));
                assert(known + lease.take(n as int) =~= stream.subrange(0, bytes_read(events)));
            },
            StreamEvent::Interrupted(lease) => {
                law_worker_was_interrupted::<(), ()>(before, (), lease);
                assert(taken_by_polls(events) =~= so_far);
                assert(after.ready =~= before.ready);
            },
        }
    }
    if bytes_read(events) == stream.len() && after_events(events).ready.len() == 0 {
        assert(taken_by_polls(events) + after_events(events).ready =~= taken_by_polls(events));
        assert(stream.subrange(0, bytes_read(events)) =~= stream);
    }
}

} // verus!
