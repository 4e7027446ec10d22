//! Trusted boundary to the fixed-capacity collections backing the transport:
//! a ring-buffer deque holds the outgoing bytes and an inline vector holds
//! the receive buffer, both of 512 bytes. Verus cannot take the queue
//! crate's own generic declarations, so each collection sits in an opaque
//! struct here; each wrapper makes one call into the queue crate, and its
//! contract states what that crate's source shows of the call, over the two
//! contents names below.

use vstd::prelude::*;
use arraydeque::ArrayDeque;
use arrayvec::ArrayVec;

verus! {

/// Capacity of each transport queue, in bytes.
pub const QUEUE_CAP: usize = 512;

/// The transmit queue: a fixed-capacity FIFO of 512 bytes, backed by the
/// ring-buffer deque crate.
#[verifier::external_body]
pub struct TxQueue {
    inner: ArrayDeque<[u8; 512]>,
}

/// The receive buffer: a fixed-capacity inline vector of 512 bytes, backed
/// by the array-vector crate.
#[verifier::external_body]
pub struct RxBuffer {
    inner: ArrayVec<[u8; 512]>,
}

/// The bytes a transmit queue holds, front first.
pub uninterp spec fn deque_contents(q: TxQueue) -> Seq<u8>;

/// The bytes a receive buffer holds, in arrival order.
pub uninterp spec fn avec_contents(v: RxBuffer) -> Seq<u8>;

/// Relies on ArrayDeque::new: a new deque is empty.
#[verifier::external_body]
pub(crate) fn deque_new() -> (q: TxQueue)
    ensures
        deque_contents(q) == Seq::<u8>::empty(),
{
    TxQueue { inner: ArrayDeque::new() }
}

/// Relies on ArrayDeque::len: the number of elements held.
#[verifier::external_body]
pub(crate) fn deque_len(q: &TxQueue) -> (n: usize)
    ensures
        n == deque_contents(*q).len(),
{
    q.inner.len()
}

/// Relies on ArrayDeque::is_empty: whether nothing is held.
#[verifier::external_body]
pub(crate) fn deque_is_empty(q: &TxQueue) -> (r: bool)
    ensures
        r == (deque_contents(*q).len() == 0),
{
    q.inner.is_empty()
}

/// Relies on ArrayDeque::is_full: the length has reached the capacity,
/// which for a deque over a 512-byte array is 512.
#[verifier::external_body]
pub(crate) fn deque_is_full(q: &TxQueue) -> (r: bool)
    ensures
        r == (deque_contents(*q).len() == QUEUE_CAP),
{
    q.inner.is_full()
}

/// Relies on ArrayDeque::push_back, saturating flavour: appends at the back
/// when there is room, else leaves the deque as it was and reports the
/// overflow, which this wrapper folds to `false`.
#[verifier::external_body]
pub(crate) fn deque_push_back(q: &mut TxQueue, b: u8) -> (pushed: bool)
    ensures
        deque_contents(*old(q)).len() < QUEUE_CAP ==> pushed && deque_contents(*final (q))
            == deque_contents(*old(q)).push(b),
        deque_contents(*old(q)).len() >= QUEUE_CAP ==> !pushed && deque_contents(*final (q))
            == deque_contents(*old(q)),
{
    q.inner.push_back(b).is_ok()
}

/// Relies on ArrayDeque::pop_front: removes and returns the front element,
/// or `None` when the deque is empty.
#[verifier::external_body]
pub(crate) fn deque_pop_front(q: &mut TxQueue) -> (r: Option<u8>)
    ensures
        deque_contents(*old(q)).len() == 0 ==> r is None && deque_contents(*final (q))
            == deque_contents(*old(q)),
        deque_contents(*old(q)).len() > 0 ==> r == Some(deque_contents(*old(q))[0])
            && deque_contents(*final (q)) == deque_contents(*old(q)).skip(1),
{
    q.inner.pop_front()
}

/// Relies on ArrayVec::new: a new vector is empty.
#[verifier::external_body]
pub(crate) fn avec_new() -> (v: RxBuffer)
    ensures
        avec_contents(v) == Seq::<u8>::empty(),
{
    RxBuffer { inner: ArrayVec::new() }
}

/// Relies on ArrayVec::is_empty: whether nothing is held.
#[verifier::external_body]
pub(crate) fn avec_is_empty(v: &RxBuffer) -> (r: bool)
    ensures
        r == (avec_contents(*v).len() == 0),
{
    v.inner.is_empty()
}

/// Relies on ArrayVec::is_full: the length has reached the capacity, which
/// for a vector over a 512-byte array is 512.
#[verifier::external_body]
pub(crate) fn avec_is_full(v: &RxBuffer) -> (r: bool)
    ensures
        r == (avec_contents(*v).len() == QUEUE_CAP),
{
    v.inner.is_full()
}

/// Relies on ArrayVec::try_push: appends at the end when there is room,
/// else leaves the vector as it was and reports the overflow, which this
/// wrapper folds to `false`.
#[verifier::external_body]
pub(crate) fn avec_try_push(v: &mut RxBuffer, b: u8) -> (pushed: bool)
    ensures
        avec_contents(*old(v)).len() < QUEUE_CAP ==> pushed && avec_contents(*final (v))
            == avec_contents(*old(v)).push(b),
        avec_contents(*old(v)).len() >= QUEUE_CAP ==> !pushed && avec_contents(*final (v))
            == avec_contents(*old(v)),
{
    v.inner.try_push(b).is_ok()
}

/// Relies on ArrayVec::as_slice: a view of all elements, in order.
#[verifier::external_body]
pub(crate) fn avec_as_slice(v: &RxBuffer) -> (r: &[u8])
    ensures
        r@ == avec_contents(*v),
{
    v.inner.as_slice()
}

/// Relies on ArrayVec::drain: removes the given leading range, here the
/// first `n` elements; the source panics when the range passes the length,
/// which the precondition rules out.
#[verifier::external_body]
pub(crate) fn avec_drain_prefix(v: &mut RxBuffer, n: usize)
    requires
        n <= avec_contents(*old(v)).len(),
    ensures
        avec_contents(*final (v)) == avec_contents(*old(v)).skip(n as int),
{
    v.inner.drain(0..n);
}

} // verus!
