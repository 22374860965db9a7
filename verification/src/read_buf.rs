//! What the crate relies on of `tokio::io::ReadBuf`, the buffer that an asynchronous
//! read fills.
//!
//! Of such a buffer the first bytes are filled, these and perhaps some more are
//! initialized, and the rest up to its capacity may be uninitialized memory.

use tokio::io::ReadBuf;
use vstd::prelude::*;

verus! {

/// `tokio::io::ReadBuf`, of which nothing is visible but what the names below say.
#[verifier::external_type_specification]
#[verifier::external_body]
pub struct ExReadBuf<'a>(tokio::io::ReadBuf<'a>);

/// The bytes of the filled part.
pub uninterp spec fn filled(buf: ReadBuf<'_>) -> Seq<u8>;

/// The bytes of the initialized part, which starts with the filled part.
pub uninterp spec fn initialized(buf: ReadBuf<'_>) -> Seq<u8>;

/// The number of bytes that the buffer holds once it is full.
pub uninterp spec fn capacity(buf: ReadBuf<'_>) -> nat;

/// `n` zero bytes.
pub open spec fn zeros(n: nat) -> Seq<u8> {
    Seq::new(n, |i: int| 0u8)
}

/// The initialized part after it was extended with zeros to at least `end` bytes.
pub open spec fn zero_extended(init: Seq<u8>, end: int) -> Seq<u8> {
    if init.len() < end {
        init + zeros((end - init.len()) as nat)
    } else {
        init
    }
}

/// `init` after its front was replaced by `front`, which may be longer.
pub open spec fn front_replaced(init: Seq<u8>, front: Seq<u8>) -> Seq<u8> {
    if front.len() < init.len() {
        front + init.skip(front.len() as int)
    } else {
        front
    }
}

/// `tokio::io::ReadBuf::remaining`: the number of bytes of the capacity that are not
/// filled. It relies on the filled part being no longer than the capacity.
#[verifier::external_body]
pub(crate) fn remaining(buf: &ReadBuf<'_>) -> (n: usize)
    ensures
        n + filled(*buf).len() == capacity(*buf),
{
    buf.remaining()
}

/// `tokio::io::ReadBuf::initialize_unfilled_to`: makes sure that the first `n` unfilled
/// bytes are initialized, by writing zeros where they are not yet, and lends them out to
/// be overwritten. The initialized part is then the filled part, what was left in the
/// lent bytes, and what was initialized after them. It panics where fewer than `n` bytes
/// are unfilled.
#[verifier::external_body]
pub(crate) fn initialize_unfilled_to<'a>(buf: &'a mut ReadBuf<'_>, n: usize) -> (unfilled: &'a mut [u8])
    requires
        filled(*old(buf)).len() + n <= capacity(*old(buf)),
    ensures
        unfilled@ == zero_extended(
            initialized(*old(buf)),
            filled(*old(buf)).len() + n,
        ).subrange(filled(*old(buf)).len() as int, filled(*old(buf)).len() + n),
        filled(*final(buf)) == filled(*old(buf)),
        capacity(*final(buf)) == capacity(*old(buf)),
        initialized(*final(buf)) == filled(*old(buf)) + final(unfilled)@ + zero_extended(
            initialized(*old(buf)),
            filled(*old(buf)).len() + n,
        ).skip(filled(*old(buf)).len() + n),
{
    buf.initialize_unfilled_to(n)
}

/// `tokio::io::ReadBuf::advance`: makes the next `n` initialized bytes part of the
/// filled ones. It panics where fewer than `n` unfilled bytes are initialized.
#[verifier::external_body]
pub(crate) fn advance(buf: &mut ReadBuf<'_>, n: usize)
    requires
        filled(*old(buf)).len() + n <= initialized(*old(buf)).len(),
    ensures
        filled(*final(buf)) == initialized(*old(buf)).take(filled(*old(buf)).len() + n),
        capacity(*final(buf)) == capacity(*old(buf)),
        initialized(*final(buf)) == initialized(*old(buf)),
{
    buf.advance(n);
}

/// `bytes::BufMut::put` on a `tokio::io::ReadBuf`: appends `data` to the filled part.
/// It panics where fewer bytes are unfilled than `data` has.
#[verifier::external_body]
pub(crate) fn put(buf: &mut ReadBuf<'_>, data: &[u8])
    requires
        filled(*old(buf)).len() + data@.len() <= capacity(*old(buf)),
    ensures
        filled(*final(buf)) == filled(*old(buf)) + data@,
        capacity(*final(buf)) == capacity(*old(buf)),
        initialized(*final(buf)) == front_replaced(
            initialized(*old(buf)),
            filled(*old(buf)) + data@,
        ),
{
    bytes::BufMut::put(buf, data);
}

} // verus!
