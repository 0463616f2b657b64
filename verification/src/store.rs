//! The store: queue, offset counter and the cell of the batch that is
//! checked out, behind the three operations push, batch and commit.

use crate::batch::{copy_of, Batch, Pending, StoreError};
use crate::laws::{law_acquire_keeps_well_formed, law_push_keeps_well_formed};
use crate::model::{payloads, Outstanding, StoreState};
use crate::publication::Publication;
use crate::queue::{queue_entries, queue_is_empty, queue_new, queue_pop, queue_push};
use crossbeam::queue::SegQueue;
use vstd::prelude::*;

verus! {

/// Marks a type as a place where publications are kept.
pub trait PublicationStore {

}

/// A buffer of publications that lives in memory.
#[derive(Debug)]
pub struct MemoryStore {
    items: SegQueue<(u64, Publication)>,
    offset: u64,
    pending: Pending<Publication>,
}

impl View for MemoryStore {
    type V = StoreState<Publication>;

    closed spec fn view(&self) -> StoreState<Publication> {
        StoreState {
            queue: queue_entries(self.items),
            next_offset: self.offset,
            outstanding: self.pending@,
        }
    }
}

/// A clone of a publication is that publication, so a copy of a batch of
/// publications is that batch.
proof fn lemma_copy_is_same(copy: Outstanding<Publication>, batch: Outstanding<Publication>)
    requires
        copy_of(copy, batch),
    ensures
        copy == batch,
{
    assert(copy.items =~= batch.items);
}

impl Default for MemoryStore {
    fn default() -> (store: Self)
        ensures
            store@ == StoreState::<Publication>::init(),
            store@.well_formed(),
    {
        MemoryStore { items: queue_new(), offset: 0, pending: Pending::Empty }
    }
}

impl MemoryStore {
    /// An empty store whose first publication will get offset 0.
    pub fn new() -> (store: Self)
        ensures
            store@ == StoreState::<Publication>::init(),
            store@.well_formed(),
    {
        Self::default()
    }

    /// Queues `item` under the next offset. Never fails; after the call
    /// a suspended consumer is to be woken once.
    pub fn push(&mut self, item: Publication)
        ensures
            final(self)@ == old(self)@.push(item),
            old(self)@.well_formed() ==> final(self)@.well_formed(),
    {
        let offset: u64 = self.offset;
        self.offset = offset.wrapping_add(1);
        queue_push(&mut self.items, offset, item);
        proof {
            if old(self)@.well_formed() {
                law_push_keeps_well_formed(old(self)@, item);
            }
        }
    }

    /// Whether a consumer that asks for a batch now has to be suspended
    /// first, until the next push wakes it.
    pub fn must_wait(&self) -> (wait: bool)
        ensures
            wait == self@.must_wait(),
    {
        match self.pending {
            Pending::Items { .. } => false,
            Pending::Empty => queue_is_empty(&self.items),
        }
    }

    /// Hands out a batch of at most `size` publications.
    ///
    /// While a batch is checked out, that batch is handed out again,
    /// whatever `size` is, and the queue is left alone. Otherwise the
    /// oldest `size` entries leave the queue, or all of them if there
    /// are fewer, and become the batch that is checked out. A batch
    /// formed from an empty queue, or with `size` 0, has no publications
    /// and offsets 0.
    pub fn batch(&mut self, size: usize) -> (handle: Result<Batch<Publication>, StoreError>)
        ensures
            final(self)@ == old(self)@.acquire(size as nat),
            handle matches Ok(batch) && batch@ == old(self)@.handed(size as nat),
            old(self)@.well_formed() ==> final(self)@.well_formed(),
    {
        proof {
            if old(self)@.well_formed() {
                law_acquire_keeps_well_formed(old(self)@, size as nat);
            }
        }
        if let Some(batch) = self.pending.replay() {
            proof {
                lemma_copy_is_same(batch@, self.pending@->0);
            }
            return Ok(batch);
        }
        let ghost queued = queue_entries(self.items);
        let mut drained: Vec<Publication> = Vec::new();
        let mut start: Option<u64> = None;
        let mut end: Option<u64> = None;
        while drained.len() < size
            invariant
                queued == old(self)@.queue,
                drained.len() <= size,
                drained.len() <= queued.len(),
                queue_entries(self.items) == queued.skip(drained.len() as int),
                drained@ == payloads(queued.take(drained.len() as int)),
                start == (if drained.len() == 0 {
                    None
                } else {
                    Some(queued.first().0)
                }),
                end == (if drained.len() == 0 {
                    None
                } else {
                    Some(queued[drained.len() - 1].0)
                }),
                self.offset == old(self).offset,
                self.pending == old(self).pending,
            ensures
                drained.len() == old(self)@.take_count(size as nat),
            decreases size - drained.len(),
        {
            match queue_pop(&mut self.items) {
                Some((offset, item)) => {
                    drained.push(item);
                    if start.is_none() {
                        start = Some(offset);
                    }
                    end = Some(offset);
                },
                None => {
                    break ;
                },
            }
        }
        let start: u64 = start.unwrap_or(0);
        let end: u64 = end.unwrap_or(0);
        let kept: Vec<Publication> = drained.clone();
        proof {
            assert(kept@ =~= drained@);
        }
        self.pending = Pending::Items { start, end, items: kept };
        Ok(Batch::new(drained, start, end))
    }

    /// One step of an acquisition, for a caller that suspends consumers.
    ///
    /// `woken` says whether the consumer has been suspended and woken
    /// since it asked. A consumer that has not, and finds nothing checked
    /// out and nothing queued, gets `Ok(None)`: it is to be suspended
    /// until a push wakes it, and then asks again with `woken` set. In
    /// every other case the batch is handed out as `batch` does it, also
    /// when the consumer was woken and the queue is empty again.
    pub fn poll_batch(&mut self, size: usize, woken: bool) -> (step: Result<
        Option<Batch<Publication>>,
        StoreError,
    >)
        ensures
            !woken && old(self)@.must_wait() ==> (step matches Ok(None)) && final(self)@ == old(
                self,
            )@,
            woken || !old(self)@.must_wait() ==> final(self)@ == old(self)@.acquire(size as nat)
                && (step matches Ok(Some(batch)) && batch@ == old(self)@.handed(size as nat)),
            old(self)@.well_formed() ==> final(self)@.well_formed(),
    {
        if !woken && self.must_wait() {
            return Ok(None);
        }
        match self.batch(size) {
            Ok(batch) => Ok(Some(batch)),
            Err(error) => Err(error),
        }
    }

    /// Acknowledges the batch that is checked out: the store forgets it
    /// and the next acquisition drains the queue again.
    pub fn commit(&mut self, batch: Batch<Publication>)
        ensures
            final(self)@ == old(self)@.commit(),
            old(self)@.well_formed() ==> final(self)@.well_formed(),
    {
        self.pending = Pending::Empty;
    }
}

} // verus!
