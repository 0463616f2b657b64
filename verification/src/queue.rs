//! The FIFO of queued entries.
//!
//! The entries live in a `crossbeam::queue::SegQueue`. Verus does not read
//! that crate, so everything in this file is believed, not proved: the
//! contracts below restate what the queue's documentation and source say
//! of a queue that one owner holds exclusively.

use crate::publication::Publication;
use crossbeam::queue::SegQueue;
use vstd::prelude::*;

verus! {

#[verifier::external_type_specification]
#[verifier::external_body]
#[verifier::reject_recursive_types(T)]
pub struct ExSegQueue<T>(SegQueue<T>);

/// The entries that a queue holds, oldest first. Each entry is an offset
/// and the publication that was pushed under it.
pub uninterp spec fn queue_entries(q: SegQueue<(u64, Publication)>) -> Seq<(u64, Publication)>;

/// `SegQueue::new`: a queue without entries.
#[verifier::external_body]
pub(crate) fn queue_new() -> (q: SegQueue<(u64, Publication)>)
    ensures
        queue_entries(q) == Seq::<(u64, Publication)>::empty(),
{
    SegQueue::new()
}

/// `SegQueue::push`: the entry is added behind all the others. The queue
/// is unbounded, so the call always succeeds.
#[verifier::external_body]
pub(crate) fn queue_push(q: &mut SegQueue<(u64, Publication)>, offset: u64, item: Publication)
    ensures
        queue_entries(*final(q)) == queue_entries(*old(q)).push((offset, item)),
{
    q.push((offset, item));
}

/// `SegQueue::pop`: the oldest entry leaves the queue and is returned;
/// an empty queue gives `None` and stays as it is.
#[verifier::external_body]
pub(crate) fn queue_pop(q: &mut SegQueue<(u64, Publication)>) -> (head: Option<(u64, Publication)>)
    ensures
        queue_entries(*old(q)).len() == 0 ==> head.is_none() && queue_entries(*final(q))
            == queue_entries(*old(q)),
        queue_entries(*old(q)).len() > 0 ==> head == Some(queue_entries(*old(q)).first())
            && queue_entries(*final(q)) == queue_entries(*old(q)).drop_first(),
{
    q.pop()
}

/// `SegQueue::is_empty`: whether the queue holds no entry.
#[verifier::external_body]
pub(crate) fn queue_is_empty(q: &SegQueue<(u64, Publication)>) -> (empty: bool)
    ensures
        empty == (queue_entries(*q).len() == 0),
{
    q.is_empty()
}

} // verus!
