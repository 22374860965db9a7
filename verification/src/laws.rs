//! What holds of the adaptors over several operations.

use crate::cursor::{Cursor, CursorState};
use crate::file_adaptors::FixedLengthFile;
use crate::io::SeekFrom;
use crate::stream_adaptors::async_io::AdapterState;
use crate::stream_adaptors::in_memory::WindowState;
use crate::stream_adaptors::{KnownExpanse, Limiter};
use vstd::prelude::*;

verus! {

/// The position within a window that a seek asks for, before it is taken into the window.
pub open spec fn requested_point<S>(limiter: Limiter<S>, op: SeekFrom) -> int {
    match op {
        SeekFrom::Start(n) => n as int,
        SeekFrom::End(n) => limiter.max_len + n,
        SeekFrom::Current(n) => limiter.internal_pos + n,
    }
}

/// What a seek counts from is a number that `i64` can hold.
pub open spec fn base_is_signed<S>(limiter: Limiter<S>, op: SeekFrom) -> bool {
    match op {
        SeekFrom::Start(_) => true,
        SeekFrom::End(_) => limiter.max_len <= i64::MAX,
        SeekFrom::Current(_) => limiter.internal_pos <= i64::MAX,
    }
}

/// A seek within a window goes to the requested position, or to the end of the window
/// that is nearest to it.
pub proof fn law_seek_is_taken_into_the_window<S>(limiter: Limiter<S>, op: SeekFrom)
    requires
        limiter.wf(),
        base_is_signed(limiter, op),
    ensures
        limiter.seek_point(op) == crate::io::clamped(
            requested_point(limiter, op),
            0,
            limiter.max_len as int,
        ),
{
}

/// A stream that stands where the window says, and moves as a seek within the window
/// tells it to, comes to stand in the window, at the position that the seek goes to. The
/// window then has that position, and is otherwise what it was.
pub proof fn law_seek_lands<S, E>(limiter: Limiter<S>, op: SeekFrom, stream_pos: int)
    requires
        limiter.wf(),
        limiter.start_pos + limiter.max_len <= u64::MAX,
        stream_pos == limiter.start_pos + limiter.internal_pos,
        limiter.seek_point(op) <= i64::MAX <==> limiter.internal_pos <= i64::MAX,
    ensures
        ({
            let landed = stream_pos + limiter.seek_diff(op);
            let after = limiter.after_seek::<E>(Ok(landed as u64));
            &&& limiter.in_window(landed)
            &&& landed == limiter.start_pos + limiter.seek_point(op)
            &&& after.internal_pos == limiter.seek_point(op)
            &&& after.max_len == limiter.max_len
            &&& after.start_pos == limiter.start_pos
            &&& after.source_stream == limiter.source_stream
            &&& after == limiter.at(limiter.seek_point(op))
            &&& after.wf()
        }),
{
}

/// A seek to `n` bytes before the end of a window leaves `n` bytes of it.
pub proof fn law_seek_from_the_end_leaves_so_many<S>(limiter: Limiter<S>, n: int)
    requires
        limiter.wf(),
        limiter.max_len <= i64::MAX,
        0 <= n <= limiter.max_len,
    ensures
        limiter.at(limiter.seek_point(SeekFrom::End((-n) as i64))).rest() == n,
{
}

/// A seek by no distance from the current position moves nothing.
pub proof fn law_seek_by_nothing_stays<S>(limiter: Limiter<S>)
    requires
        limiter.wf(),
        limiter.internal_pos <= i64::MAX,
    ensures
        limiter.seek_fits(SeekFrom::Current(0)),
        limiter.seek_diff(SeekFrom::Current(0)) == 0,
{
}

/// Where a seek goes that counts from the start or the end of a window does not depend on
/// the position.
pub proof fn law_seek_from_an_end_is_absolute<S>(limiter: Limiter<S>, op: SeekFrom, pos: int)
    requires
        op !is Current,
        0 <= pos <= limiter.max_len,
    ensures
        limiter.at(pos).seek_point(op) == limiter.seek_point(op),
{
}

/// A seek by some distance that stays within the window is undone by a seek back by the
/// same distance.
pub proof fn law_seek_back_undoes<S>(limiter: Limiter<S>, distance: i64)
    requires
        limiter.wf(),
        limiter.internal_pos <= i64::MAX,
        0 <= limiter.internal_pos + distance <= limiter.max_len,
        limiter.internal_pos + distance <= i64::MAX,
    ensures
        ({
            let back = SeekFrom::Current((-distance) as i64);
            let away = limiter.at(limiter.seek_point(SeekFrom::Current(distance)));
            &&& limiter.seek_fits(SeekFrom::Current(distance))
            &&& limiter.seek_diff(SeekFrom::Current(distance)) == distance
            &&& away.wf()
            &&& away.seek_fits(back)
            &&& away.seek_diff(back) == -distance
            &&& away.at(away.seek_point(back)) == limiter
        }),
{
}

/// In a window that `i64` can measure, every seek by a distance that keeps the sum within
/// `i64` fits.
pub proof fn law_seek_fits<S>(limiter: Limiter<S>, op: SeekFrom)
    requires
        limiter.wf(),
        limiter.max_len <= i64::MAX,
        op !is Start ==> requested_point(limiter, op) <= i64::MAX,
    ensures
        limiter.seek_fits(op),
{
}

/// The window after transfers of the given numbers of bytes, one after the other.
pub open spec fn after_transfers<S>(limiter: Limiter<S>, moved: Seq<usize>) -> Limiter<S>
    decreases moved.len(),
{
    if moved.len() == 0 {
        limiter
    } else {
        after_transfers(limiter, moved.drop_last()).after_transfer::<()>(Ok(moved.last()))
    }
}

/// Each transfer moved no more bytes than the window allowed at the time.
pub open spec fn within_allowance<S>(limiter: Limiter<S>, moved: Seq<usize>) -> bool
    decreases moved.len(),
{
    moved.len() > 0 ==> {
        &&& within_allowance(limiter, moved.drop_last())
        &&& moved.last() <= after_transfers(limiter, moved.drop_last()).rest()
    }
}

/// The sum of the numbers.
pub open spec fn total(moved: Seq<usize>) -> int
    decreases moved.len(),
{
    if moved.len() == 0 {
        0
    } else {
        total(moved.drop_last()) + moved.last()
    }
}

/// However many transfers are made through a window, together they move no more than was
/// left of it, and the position is always within it.
pub proof fn law_transfers_stay_within_the_limit<S>(limiter: Limiter<S>, moved: Seq<usize>)
    requires
        limiter.wf(),
        within_allowance(limiter, moved),
    ensures
        after_transfers(limiter, moved).wf(),
        after_transfers(limiter, moved).internal_pos == limiter.internal_pos + total(moved),
        total(moved) <= limiter.rest(),
        after_transfers(limiter, moved) == limiter.at(limiter.internal_pos + total(moved)),
    decreases moved.len(),
{
    if moved.len() > 0 {
        law_transfers_stay_within_the_limit(limiter, moved.drop_last());
    }
}

/// A window that is in step stays in step, whether it is read or written.
pub proof fn law_transfers_keep_in_step(window: WindowState, want: int, data: Seq<u8>)
    requires
        window.wf(),
        window.in_step(),
        0 <= want,
    ensures
        window.after_read(want).in_step(),
        window.after_read(want).wf(),
        window.after_write(data).in_step(),
        window.after_write(data).wf(),
{
}

/// A seek within a window on bytes in memory that is in step succeeds, and leaves it in
/// step at the position that the seek goes to.
pub proof fn law_seek_keeps_in_step(limiter: Limiter<Cursor>, op: SeekFrom)
    requires
        limiter.wf(),
        limiter.state().in_step(),
        limiter.seek_fits(op),
        limiter.start_pos + limiter.max_len <= u64::MAX,
        limiter.seek_point(op) <= i64::MAX <==> limiter.internal_pos <= i64::MAX,
    ensures
        limiter.relative_seek_stays(op),
        ({
            let source = limiter.source_stream@.sought(limiter.relative_seek(op));
            let sought = WindowState { source, pos: limiter.seek_point(op), ..limiter.state() };
            &&& limiter.source_stream@.seek_result(limiter.relative_seek(op)) == Ok::<
                u64,
                crate::io::InvalidSeek,
            >((limiter.start_pos + limiter.seek_point(op)) as u64)
            &&& sought.in_step()
            &&& sought.wf()
        }),
{
    law_seek_lands::<Cursor, ()>(limiter, op, limiter.source_stream@.pos);
}

/// A read through a window that is in step gives the bytes that lie in the window at the
/// position, and none from outside it.
pub proof fn law_window_reads_its_contents(window: WindowState, want: int)
    requires
        window.wf(),
        window.in_step(),
        0 <= want,
    ensures
        ({
            let n = window.transfer_len(want);
            &&& n == crate::io::smaller(
                want,
                if window.pos < window.contents().len() {
                    window.contents().len() - window.pos
                } else {
                    0
                },
            )
            &&& window.read_bytes(want) == if n == 0 {
                Seq::empty()
            } else {
                window.contents().subrange(window.pos, window.pos + n)
            }
            &&& window.after_read(want).contents() == window.contents()
        }),
{
    let n = window.transfer_len(want);
    if n > 0 {
        assert(window.read_bytes(want) =~= window.contents().subrange(
            window.pos,
            window.pos + n,
        ));
    }
}

/// A write through a window that is in step changes no byte outside the window, nor the
/// number of bytes.
pub proof fn law_window_writes_stay_inside(window: WindowState, data: Seq<u8>)
    requires
        window.wf(),
        window.in_step(),
    ensures
        window.after_write(data).source.bytes.len() == window.source.bytes.len(),
        forall|i: int|
            0 <= i < window.source.bytes.len() && !(window.start <= i < window.start + window.len)
                ==> window.after_write(data).source.bytes[i] == window.source.bytes[i],
{
}

/// What was written through a window is what a read gives after the position was moved
/// back to where the write began.
pub proof fn law_window_reads_back_what_was_written(window: WindowState, data: Seq<u8>)
    requires
        window.wf(),
        window.in_step(),
    ensures
        ({
            let n = window.transfer_len(data.len() as int);
            let written = window.after_write(data);
            let rewound = WindowState {
                source: CursorState { bytes: written.source.bytes, pos: window.source.pos },
                pos: window.pos,
                ..written
            };
            &&& rewound.in_step()
            &&& rewound.transfer_len(n) == n
            &&& rewound.read_bytes(n) == data.take(n)
        }),
{
    let n = window.transfer_len(data.len() as int);
    let written = window.after_write(data);
    let rewound = WindowState {
        source: CursorState { bytes: written.source.bytes, pos: window.source.pos },
        pos: window.pos,
        ..written
    };
    assert(rewound.read_bytes(n) =~= data.take(n));
}

/// The window after reads of at most so many bytes each, one after the other.
pub open spec fn after_reads(window: WindowState, wants: Seq<nat>) -> WindowState
    decreases wants.len(),
{
    if wants.len() == 0 {
        window
    } else {
        after_reads(window, wants.drop_last()).after_read(wants.last() as int)
    }
}

/// The bytes that such reads give.
pub open spec fn bytes_of_reads(window: WindowState, wants: Seq<nat>) -> Seq<u8>
    decreases wants.len(),
{
    if wants.len() == 0 {
        Seq::empty()
    } else {
        bytes_of_reads(window, wants.drop_last()) + after_reads(
            window,
            wants.drop_last(),
        ).read_bytes(wants.last() as int)
    }
}

/// The sum of the numbers.
pub open spec fn total_wanted(wants: Seq<nat>) -> nat
    decreases wants.len(),
{
    if wants.len() == 0 {
        0
    } else {
        total_wanted(wants.drop_last()) + wants.last()
    }
}

/// Reads one after the other through a window that is in step give the bytes of the window
/// from the position on, in order and without a gap: as many as were asked for, or all
/// there are.
pub proof fn law_reads_give_the_window(window: WindowState, wants: Seq<nat>)
    requires
        window.wf(),
        window.in_step(),
        window.pos <= window.contents().len(),
    ensures
        ({
            let after = after_reads(window, wants);
            &&& after.wf()
            &&& after.in_step()
            &&& after.contents() == window.contents()
            &&& after.pos == crate::io::smaller(
                window.pos + total_wanted(wants),
                window.contents().len() as int,
            )
            &&& bytes_of_reads(window, wants) == window.contents().subrange(window.pos, after.pos)
        }),
    decreases wants.len(),
{
    if wants.len() == 0 {
        assert(bytes_of_reads(window, wants) =~= window.contents().subrange(
            window.pos,
            window.pos,
        ));
    } else {
        let before = after_reads(window, wants.drop_last());
        let want = wants.last() as int;
        law_reads_give_the_window(window, wants.drop_last());
        law_window_reads_its_contents(before, want);
        law_transfers_keep_in_step(before, want, Seq::empty());
        assert(bytes_of_reads(window, wants) =~= window.contents().subrange(
            window.pos,
            before.after_read(want).pos,
        ));
    }
}

/// What was written at a position of bytes in memory is what a read at that position
/// gives.
pub proof fn law_read_gives_back_what_was_written(cursor: CursorState, data: Seq<u8>)
    requires
        0 <= cursor.pos,
    ensures
        ({
            let n = cursor.transfer_len(data.len() as int);
            let written = cursor.overwritten(data.take(n));
            let rewound = CursorState { bytes: written.bytes, pos: cursor.pos };
            &&& rewound.transfer_len(n) == n
            &&& rewound.upcoming(n) == data.take(n)
        }),
{
    let n = cursor.transfer_len(data.len() as int);
    let written = cursor.overwritten(data.take(n));
    let rewound = CursorState { bytes: written.bytes, pos: cursor.pos };
    assert(rewound.upcoming(n) =~= data.take(n));
}

/// No operation on bytes in memory makes them more or fewer, and only a write changes
/// them.
pub proof fn law_length_in_memory_is_fixed(cursor: CursorState, n: int, data: Seq<u8>, op: SeekFrom)
    ensures
        cursor.advanced(n).bytes == cursor.bytes,
        cursor.sought(op).bytes == cursor.bytes,
        cursor.overwritten(data).bytes.len() == cursor.bytes.len(),
{
}

/// A file of known length has the same length after its handle was exchanged for one of
/// another kind, and the same bytes if they are in memory.
pub proof fn law_other_handle_keeps_the_length<F, G>(file: FixedLengthFile<F>, handle: G)
    ensures
        ({
            let converted = match file {
                FixedLengthFile::Immediate(cursor) => FixedLengthFile::<G>::Immediate(cursor),
                FixedLengthFile::Paging(_, len) => FixedLengthFile::Paging(handle, len),
            };
            &&& converted.expanse() == file.expanse()
            &&& converted.memory() == file.memory()
        }),
{
}

/// One thing that happens to an [`AdapterState`].
pub enum AdapterStep<S> {
    /// A poll takes what is ready into a buffer with room for so many bytes.
    Serve(nat),
    /// A worker gets the stream to read so many bytes.
    Lend(nat),
    /// A worker hands the stream back, with these bytes, and perhaps with word that there
    /// are no more.
    HandBack(S, Seq<u8>, bool),
}

/// The state after one step.
pub open spec fn after_step<S>(state: AdapterState<S>, step: AdapterStep<S>) -> AdapterState<S> {
    match step {
        AdapterStep::Serve(room) => state.served(room as int),
        AdapterStep::Lend(wanted) => state.lent(wanted),
        AdapterStep::HandBack(source, bytes, ended) => state.handed_back(source, bytes, ended),
    }
}

/// The state after several steps.
pub open spec fn after_steps<S>(
    state: AdapterState<S>,
    steps: Seq<AdapterStep<S>>,
) -> AdapterState<S>
    decreases steps.len(),
{
    if steps.len() == 0 {
        state
    } else {
        after_step(after_steps(state, steps.drop_last()), steps.last())
    }
}

/// Each of several steps is one that the adapter takes in the state it is then in: the
/// stream is lent only when it is here and nothing is ready, and handed back only by the
/// worker who has it.
pub open spec fn allowed<S>(state: AdapterState<S>, steps: Seq<AdapterStep<S>>) -> bool
    decreases steps.len(),
{
    steps.len() > 0 ==> {
        let before = after_steps(state, steps.drop_last());
        &&& allowed(state, steps.drop_last())
        &&& match steps.last() {
            AdapterStep::Serve(_) => true,
            AdapterStep::Lend(_) => before.inner is Some && before.ready.len() == 0,
            AdapterStep::HandBack(_, bytes, _) => before.lease is Some && bytes.len()
                <= before.lease->Some_0,
        }
    }
}

/// At all times the stream is either here or with the one worker whose lease is out, and
/// while it is with a worker no bytes are ready.
pub proof fn law_stream_is_lent_to_one_worker<S>(
    state: AdapterState<S>,
    steps: Seq<AdapterStep<S>>,
)
    requires
        state.wf(),
        allowed(state, steps),
    ensures
        after_steps(state, steps).wf(),
    decreases steps.len(),
{
    if steps.len() > 0 {
        law_stream_is_lent_to_one_worker(state, steps.drop_last());
    }
}

/// The bytes that polls took during several steps.
pub open spec fn delivered<S>(state: AdapterState<S>, steps: Seq<AdapterStep<S>>) -> Seq<u8>
    decreases steps.len(),
{
    if steps.len() == 0 {
        Seq::empty()
    } else {
        let before = after_steps(state, steps.drop_last());
        delivered(state, steps.drop_last()) + match steps.last() {
            AdapterStep::Serve(room) => before.taken(room as int),
            _ => Seq::empty(),
        }
    }
}

/// The bytes that workers handed back during several steps.
pub open spec fn produced<S>(steps: Seq<AdapterStep<S>>) -> Seq<u8>
    decreases steps.len(),
{
    if steps.len() == 0 {
        Seq::empty()
    } else {
        produced(steps.drop_last()) + match steps.last() {
            AdapterStep::HandBack(_, bytes, _) => bytes,
            _ => Seq::empty(),
        }
    }
}

/// How many messages that the stream has ended are sent during several steps.
pub open spec fn messages<S>(state: AdapterState<S>, steps: Seq<AdapterStep<S>>) -> nat
    decreases steps.len(),
{
    if steps.len() == 0 {
        0
    } else {
        let before = after_steps(state, steps.drop_last());
        messages(state, steps.drop_last()) + match steps.last() {
            AdapterStep::HandBack(_, _, ended) => if before.armed && ended {
                1nat
            } else {
                0
            },
            _ => 0,
        }
    }
}

/// What polls take, followed by what is still ready, is what was ready at first, followed
/// by what workers handed back: between the workers and the polls no byte is lost, made
/// up, or out of order. So once nothing is ready, everything has been taken.
pub proof fn law_bytes_pass_in_order<S>(state: AdapterState<S>, steps: Seq<AdapterStep<S>>)
    ensures
        delivered(state, steps) + after_steps(state, steps).ready == state.ready + produced(steps),
        after_steps(state, steps).ready.len() == 0 ==> delivered(state, steps) == state.ready
            + produced(steps),
    decreases steps.len(),
{
    if steps.len() == 0 {
        assert(delivered(state, steps) + state.ready =~= state.ready + produced(steps));
    } else {
        let before = after_steps(state, steps.drop_last());
        law_bytes_pass_in_order(state, steps.drop_last());
        let so_far = delivered(state, steps.drop_last());
        let read = produced(steps.drop_last());
        match steps.last() {
            AdapterStep::Serve(room) => {
                assert(before.taken(room as int) + before.served(room as int).ready
                    =~= before.ready);
                assert(so_far + before.taken(room as int) + before.served(room as int).ready
                    =~= so_far + before.ready);
                assert(produced(steps) =~= read);
            },
            AdapterStep::Lend(_) => {
                assert(delivered(state, steps) =~= so_far);
                assert(produced(steps) =~= read);
            },
            AdapterStep::HandBack(_, bytes, _) => {
                assert(delivered(state, steps) =~= so_far);
                assert(so_far + (before.ready + bytes) =~= so_far + before.ready + bytes);
                assert(state.ready + read + bytes =~= state.ready + (read + bytes));
            },
        }
    }
    if after_steps(state, steps).ready.len() == 0 {
        assert(delivered(state, steps) + after_steps(state, steps).ready =~= delivered(
            state,
            steps,
        ));
    }
}

/// Of a new adapter over a stream that workers have read whole, `data`, polls have taken
/// exactly `data` by the time that nothing is ready.
pub proof fn law_stream_is_read_whole<S>(source: S, data: Seq<u8>, steps: Seq<AdapterStep<S>>)
    requires
        produced(steps) == data,
        after_steps(AdapterState::fresh(source), steps).ready.len() == 0,
    ensures
        delivered(AdapterState::fresh(source), steps) == data,
{
    law_bytes_pass_in_order(AdapterState::fresh(source), steps);
    assert(AdapterState::fresh(source).ready + data =~= data);
}

/// Once the message was sent, it stays sent.
proof fn lemma_never_armed_again<S>(state: AdapterState<S>, steps: Seq<AdapterStep<S>>)
    ensures
        after_steps(state, steps).armed ==> state.armed,
    decreases steps.len(),
{
    if steps.len() > 0 {
        lemma_never_armed_again(state, steps.drop_last());
    }
}

/// At most one message that the stream has ended is ever sent, and once it is sent, it is
/// known to have been.
pub proof fn law_message_is_sent_once<S>(state: AdapterState<S>, steps: Seq<AdapterStep<S>>)
    ensures
        messages(state, steps) <= 1,
        messages(state, steps) == 1 <==> state.armed && !after_steps(state, steps).armed,
    decreases steps.len(),
{
    if steps.len() > 0 {
        law_message_is_sent_once(state, steps.drop_last());
        lemma_never_armed_again(state, steps.drop_last());
    }
}

} // verus!
