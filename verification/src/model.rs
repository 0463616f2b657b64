//! The buffer as a mathematical state machine.
//!
//! Contracts of the executable code are written over the types in this
//! file: a state is a sequence of queued entries, the next offset to hand
//! out and the batch that is checked out, if any. Each operation of the
//! store is one transition.

use vstd::prelude::*;

verus! {

/// A batch that is checked out and not yet committed.
pub struct Outstanding<T> {
    /// The publications of the batch, oldest first.
    pub items: Seq<T>,
    /// Offset of the first entry; 0 for a batch without entries.
    pub start: u64,
    /// Offset of the last entry; 0 for a batch without entries.
    pub end: u64,
}

/// Everything that the buffer remembers.
pub struct StoreState<T> {
    /// Entries that were pushed and not yet drained, oldest first.
    pub queue: Seq<(u64, T)>,
    /// The offset that the next push will get.
    pub next_offset: u64,
    /// The batch currently checked out.
    pub outstanding: Option<Outstanding<T>>,
}

/// The offset handed out after `offset`. The counter is 64 bits wide and
/// starts over at 0 once it has run through all of them.
pub open spec fn following(offset: u64) -> u64 {
    if offset == u64::MAX {
        0
    } else {
        (offset + 1) as u64
    }
}

/// The offset handed out `steps` pushes after `first`, counted round the
/// 64 bits of the counter.
pub open spec fn offset_after(first: u64, steps: nat) -> u64 {
    ((first + steps) % 0x1_0000_0000_0000_0000) as u64
}

/// Whether the entries carry offsets as one producer after the other got
/// them: each the one that follows its predecessor's.
pub open spec fn consecutive<T>(entries: Seq<(u64, T)>) -> bool {
    forall|i: int|
        0 <= i < entries.len() ==> (#[trigger] entries[i]).0 == offset_after(
            entries.first().0,
            i as nat,
        )
}

/// The publications of a run of entries, in the same order.
pub open spec fn payloads<T>(entries: Seq<(u64, T)>) -> Seq<T> {
    Seq::new(entries.len(), |i: int| entries[i].1)
}

/// The batch made of a run of drained entries.
pub open spec fn batch_of<T>(entries: Seq<(u64, T)>) -> Outstanding<T> {
    Outstanding {
        items: payloads(entries),
        start: if entries.len() == 0 {
            0
        } else {
            entries.first().0
        },
        end: if entries.len() == 0 {
            0
        } else {
            entries.last().0
        },
    }
}

impl<T> Outstanding<T> {
    /// Whether the offsets fit the publications: a batch without
    /// publications has offsets 0, and in any other the last offset is
    /// as many steps after the first as there are publications after the
    /// first one.
    pub open spec fn well_formed(self) -> bool {
        if self.items.len() == 0 {
            self.start == 0 && self.end == 0
        } else {
            self.end == offset_after(self.start, (self.items.len() - 1) as nat)
        }
    }
}

impl<T> StoreState<T> {
    /// What holds of every state that the operations can reach: the
    /// queued entries carry consecutive offsets, the counter stands one
    /// after the newest of them, and the batch that is checked out is
    /// well formed.
    pub open spec fn well_formed(self) -> bool {
        &&& consecutive(self.queue)
        &&& self.queue.len() > 0 ==> self.next_offset == offset_after(
            self.queue.first().0,
            self.queue.len(),
        )
        &&& self.outstanding matches Some(batch) ==> batch.well_formed()
    }

    /// A fresh buffer: nothing queued, nothing checked out, offsets start at 0.
    pub open spec fn init() -> Self {
        StoreState { queue: Seq::empty(), next_offset: 0, outstanding: None }
    }

    /// `item` is queued under the next offset.
    pub open spec fn push(self, item: T) -> Self {
        StoreState {
            queue: self.queue.push((self.next_offset, item)),
            next_offset: following(self.next_offset),
            outstanding: self.outstanding,
        }
    }

    /// How many entries a drain of at most `size` takes.
    pub open spec fn take_count(self, size: nat) -> nat {
        if size <= self.queue.len() {
            size
        } else {
            self.queue.len()
        }
    }

    /// The entries that a drain of at most `size` takes: the oldest ones.
    pub open spec fn drained(self, size: nat) -> Seq<(u64, T)> {
        self.queue.take(self.take_count(size) as int)
    }

    /// A consumer that finds this state has to be suspended until a push
    /// wakes it: nothing is checked out and nothing is queued.
    pub open spec fn must_wait(self) -> bool {
        self.outstanding is None && self.queue.len() == 0
    }

    /// Acquisition of a batch of at most `size` publications. With a batch
    /// checked out nothing changes; otherwise the oldest entries leave the
    /// queue and become the batch that is checked out.
    pub open spec fn acquire(self, size: nat) -> Self {
        match self.outstanding {
            Some(_) => self,
            None => StoreState {
                queue: self.queue.skip(self.take_count(size) as int),
                next_offset: self.next_offset,
                outstanding: Some(batch_of(self.drained(size))),
            },
        }
    }

    /// The batch that an acquisition of at most `size` hands to the consumer.
    pub open spec fn handed(self, size: nat) -> Outstanding<T> {
        match self.outstanding {
            Some(batch) => batch,
            None => batch_of(self.drained(size)),
        }
    }

    /// The batch that is checked out is acknowledged and forgotten.
    pub open spec fn commit(self) -> Self {
        StoreState { queue: self.queue, next_offset: self.next_offset, outstanding: None }
    }
}

} // verus!
