//! A blocking stream read from asynchronous code.

use crate::io::Poll;
use crate::read_buf;
use tokio::io::ReadBuf;
use vstd::prelude::*;

verus! {

/// A blocking stream that asynchronous code reads.
///
/// A poll of a read takes what bytes are ready. Where none are, it looks for the message
/// that the stream has ended; where there is none either, it lends the stream to a
/// worker, together with a lease of so many bytes to read. The worker hands the stream
/// back along with the bytes, which are then ready.
///
/// The message passes through a channel of its own, which the user of this type holds:
/// [`Self::do_write`] says what to send, once, and [`Self::poll_fetch`] takes what
/// polling the channel gave.
pub struct AsyncIoAdapter<S> {
    inner: Option<S>,
    ready: Vec<u8>,
    lease: Option<usize>,
    armed: bool,
}

/// What an [`AsyncIoAdapter`] holds.
#[verifier::ext_equal]
pub struct AdapterState<S> {
    /// The stream, unless a worker has it.
    pub inner: Option<S>,
    /// The bytes that were read of the stream and not yet taken.
    pub ready: Seq<u8>,
    /// The number of bytes that the worker which has the stream may read.
    pub lease: Option<nat>,
    /// Whether the message that the stream has ended is still to be sent.
    pub armed: bool,
}

/// Why a read of the stream gave no bytes.
#[derive(Debug)]
pub enum ReadFailure<E> {
    /// It was interrupted and is to be tried again.
    Interrupted,
    /// It failed.
    Failed(E),
}

/// How a poll goes on that found no bytes ready.
#[derive(Debug)]
pub enum FetchStep<S, E> {
    /// The stream has ended, or failed.
    Ready(Result<(), E>),
    /// A worker is reading already.
    Pending,
    /// A worker has to read up to so many bytes of the stream.
    Fetch(S, usize),
}

/// The bytes of a lease that become ready when the worker's read came out as `outcome`.
/// Where the read failed the lease stays whole.
pub open spec fn published<E>(lease: Seq<u8>, outcome: Result<usize, ReadFailure<E>>) -> Seq<u8> {
    match outcome {
        Ok(n) => lease.take(n as int),
        Err(ReadFailure::Interrupted) => Seq::empty(),
        Err(ReadFailure::Failed(_)) => lease,
    }
}

/// The message that the outcome of a worker's read gives rise to.
pub open spec fn message<E>(outcome: Result<usize, ReadFailure<E>>) -> Option<Result<(), E>> {
    match outcome {
        Ok(n) => if n == 0 {
            Some(Ok(()))
        } else {
            None
        },
        Err(ReadFailure::Interrupted) => None,
        Err(ReadFailure::Failed(e)) => Some(Err(e)),
    }
}

impl<S> AdapterState<S> {
    /// The state of an adapter that was just made for `inner`.
    pub open spec fn fresh(inner: S) -> Self {
        AdapterState { inner: Some(inner), ready: Seq::empty(), lease: None, armed: true }
    }

    /// The stream is with a worker exactly while a lease is out, and no bytes are ready
    /// meanwhile.
    pub open spec fn wf(self) -> bool {
        &&& self.inner is Some <==> self.lease is None
        &&& self.lease is Some ==> self.ready.len() == 0
    }

    /// How many bytes a poll takes into a buffer with room for `room` more.
    pub open spec fn taken_len(self, room: int) -> int {
        crate::io::smaller(self.ready.len() as int, room)
    }

    /// The bytes that a poll takes into a buffer with room for `room` more.
    pub open spec fn taken(self, room: int) -> Seq<u8> {
        self.ready.take(self.taken_len(room))
    }

    /// The state after a poll took bytes into a buffer with room for `room` more.
    pub open spec fn served(self, room: int) -> Self {
        AdapterState { ready: self.ready.skip(self.taken_len(room)), ..self }
    }

    /// The state after a worker got the stream to read up to `wanted` bytes.
    pub open spec fn lent(self, wanted: nat) -> Self {
        AdapterState { inner: None, lease: Some(wanted), ..self }
    }

    /// The state after a worker handed the stream back with `bytes` read, and perhaps
    /// with word that there are no more.
    pub open spec fn handed_back(self, source: S, bytes: Seq<u8>, ended: bool) -> Self {
        AdapterState {
            inner: Some(source),
            ready: self.ready + bytes,
            lease: None,
            armed: self.armed && !ended,
        }
    }
}

impl<S> View for AsyncIoAdapter<S> {
    type V = AdapterState<S>;

    closed spec fn view(&self) -> AdapterState<S> {
        AdapterState {
            inner: self.inner,
            ready: self.ready@,
            lease: match self.lease {
                Some(len) => Some(len as nat),
                None => None,
            },
            armed: self.armed,
        }
    }
}

impl<S> AsyncIoAdapter<S> {
    /// Makes `inner` readable from asynchronous code.
    pub fn new(inner: S) -> (r: Self)
        ensures
            r@ == AdapterState::fresh(inner),
            r@.inner == Some(inner),
            r@.ready.len() == 0,
            r@.lease is None,
            r@.armed,
            r@.wf(),
    {
        AsyncIoAdapter { inner: Some(inner), ready: Vec::new(), lease: None, armed: true }
    }

    /// Whether the stream is here, and not with a worker.
    pub fn is_idle(&self) -> (r: bool)
        ensures
            r == (self@.inner is Some),
    {
        self.inner.is_some()
    }

    /// The stream, which must not be with a worker.
    pub fn into_inner(self) -> (r: S)
        requires
            self@.inner is Some,
        ensures
            self@.inner == Some(r),
    {
        self.inner.unwrap()
    }

    /// The first half of polling a read: appends the bytes that are ready to `buf`, as
    /// many as fit, and returns whether there were any. If so, the poll is over.
    pub fn poll_ready(&mut self, buf: &mut ReadBuf<'_>) -> (served: bool)
        requires
            old(self)@.wf(),
        ensures
            final(self)@.wf(),
            served == (old(self)@.ready.len() > 0),
            served ==> {
                let room = read_buf::capacity(*old(buf)) - read_buf::filled(*old(buf)).len();
                &&& final(self)@ == old(self)@.served(room)
                &&& read_buf::filled(*final(buf)) == read_buf::filled(*old(buf))
                    + old(self)@.taken(room)
                &&& read_buf::capacity(*final(buf)) == read_buf::capacity(*old(buf))
                &&& read_buf::initialized(*final(buf)) == read_buf::front_replaced(
                    read_buf::initialized(*old(buf)),
                    read_buf::filled(*final(buf)),
                )
            },
            !served ==> *final(self) == *old(self) && *final(buf) == *old(buf),
            served ==> {
                let room = read_buf::capacity(*old(buf)) - read_buf::filled(*old(buf)).len();
                let n = read_buf::filled(*final(buf)).len() - read_buf::filled(*old(buf)).len();
                &&& n == room || n == old(self)@.ready.len()
                &&& 0 <= n <= room
                &&& n <= old(self)@.ready.len()
                &&& read_buf::filled(*final(buf)) == read_buf::filled(*old(buf))
                    + old(self)@.ready.subrange(0, n)
                &&& final(self)@.ready == old(self)@.ready.subrange(
                    n,
                    old(self)@.ready.len() as int,
                )
                &&& final(self)@.inner == old(self)@.inner
                &&& final(self)@.lease == old(self)@.lease
                &&& final(self)@.armed == old(self)@.armed
            },
    {
        if self.ready.len() == 0 {
            return false;
        }
        let room: usize = read_buf::remaining(buf);
        let n: usize = if self.ready.len() <= room {
            self.ready.len()
        } else {
            room
        };
        let rest: Vec<u8> = self.ready.split_off(n);
        read_buf::put(buf, self.ready.as_slice());
        self.ready = rest;
        true
    }

    /// The second half of polling a read, for a buffer with room for `wanted` bytes
    /// where none were ready: takes what polling the channel gave, and lends the stream
    /// to a worker if there is no message and the stream is here.
    pub fn poll_fetch<E>(&mut self, wanted: usize, completion: Poll<Result<(), E>>) -> (r:
        FetchStep<S, E>)
        requires
            old(self)@.wf(),
            old(self)@.ready.len() == 0,
            wanted > 0,
        ensures
            final(self)@.wf(),
            match completion {
                Poll::Ready(outcome) => {
                    &&& r == FetchStep::<S, E>::Ready(outcome)
                    &&& final(self)@ == old(self)@
                },
                Poll::Pending => match old(self)@.inner {
                    None => {
                        &&& r == FetchStep::<S, E>::Pending
                        &&& final(self)@ == old(self)@
                    },
                    Some(source) => {
                        &&& r == FetchStep::<S, E>::Fetch(source, wanted)
                        &&& final(self)@ == old(self)@.lent(wanted as nat)
                        &&& final(self)@.inner is None
                        &&& final(self)@.lease == Some(wanted as nat)
                        &&& final(self)@.ready == old(self)@.ready
                        &&& final(self)@.armed == old(self)@.armed
                    },
                },
            },
    {
        match completion {
            Poll::Ready(outcome) => FetchStep::Ready(outcome),
            Poll::Pending => match self.inner.take() {
                None => FetchStep::Pending,
                Some(source) => {
                    self.lease = Some(wanted);
                    FetchStep::Fetch(source, wanted)
                },
            },
        }
    }

    /// Takes the stream back from a worker, with its lease and what its read came to.
    /// Returns the message to send, if there is one and none was sent before.
    ///
    /// A read that was interrupted leaves nothing; one that gave no bytes ends the
    /// stream; one that failed leaves the lease as it is, and its bytes stay ahead of
    /// the error.
    pub fn do_write<E>(
        &mut self,
        source: S,
        lease: Vec<u8>,
        outcome: Result<usize, ReadFailure<E>>,
    ) -> (r: Option<Result<(), E>>)
        requires
            old(self)@.wf(),
            old(self)@.lease == Some(lease@.len()),
            outcome matches Ok(n) ==> n <= lease@.len(),
        ensures
            final(self)@.wf(),
            final(self)@ == old(self)@.handed_back(
                source,
                published(lease@, outcome),
                message(outcome) is Some,
            ),
            r == if old(self)@.armed {
                message(outcome)
            } else {
                None
            },
            final(self)@.inner == Some(source),
            final(self)@.lease is None,
            final(self)@.ready == old(self)@.ready + match outcome {
                Ok(n) => lease@.subrange(0, n as int),
                Err(ReadFailure::Interrupted) => Seq::<u8>::empty(),
                Err(ReadFailure::Failed(_)) => lease@,
            },
            match outcome {
                Ok(n) => if n == 0 {
                    !final(self)@.armed && (r is Some <==> old(self)@.armed) && (r is Some ==> r
                        == Some(Ok::<(), E>(())))
                } else {
                    r is None && final(self)@.armed == old(self)@.armed
                },
                Err(ReadFailure::Interrupted) => r is None && final(self)@.armed == old(
                    self,
                )@.armed,
                Err(ReadFailure::Failed(e)) => !final(self)@.armed && (r is Some <==> old(
                    self,
                )@.armed) && (r is Some ==> r == Some(Err::<(), E>(e))),
            },
    {
        let mut lease = lease;
        self.inner = Some(source);
        self.lease = None;
        let ended: Option<Result<(), E>> = match outcome {
            Err(ReadFailure::Interrupted) => {
                lease.truncate(0);
                None
            },
            Err(ReadFailure::Failed(e)) => Some(Err(e)),
            Ok(n) => {
                lease.truncate(n);
                if n == 0 {
                    Some(Ok(()))
                } else {
                    None
                }
            },
        };
        self.ready.append(&mut lease);
        if ended.is_some() {
            if self.armed {
                self.armed = false;
                return ended;
            }
        }
        None
    }
}

} // verus!
