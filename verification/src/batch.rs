//! Batches: the handle a consumer works on, and the cell that remembers
//! what is checked out.

use crate::model::Outstanding;
use vstd::prelude::*;

verus! {

/// The error of an acquisition. No operation produces it today; it keeps
/// the signature open for a buffer that can shut down or time out.
#[derive(Debug)]
pub struct StoreError;

/// A batch in a consumer's hands: a copy of the publications that are
/// checked out, and the offsets of the first and the last of them.
#[derive(Debug)]
pub struct Batch<T> {
    items: Vec<T>,
    start: u64,
    end: u64,
}

impl<T> View for Batch<T> {
    type V = Outstanding<T>;

    closed spec fn view(&self) -> Outstanding<T> {
        Outstanding { items: self.items@, start: self.start, end: self.end }
    }
}

impl<T> Batch<T> {
    pub(crate) fn new(items: Vec<T>, start: u64, end: u64) -> (batch: Self)
        ensures
            batch@ == (Outstanding { items: items@, start, end }),
    {
        Batch { items, start, end }
    }

    /// Hands the publications over for processing. The handle keeps its
    /// offsets and is left without publications, so a second call gives
    /// an empty vector.
    pub fn take_items(&mut self) -> (items: Vec<T>)
        ensures
            items@ == old(self)@.items,
            final(self)@ == (Outstanding { items: Seq::empty(), ..old(self)@ }),
    {
        let mut items: Vec<T> = Vec::new();
        core::mem::swap(&mut self.items, &mut items);
        items
    }

    /// Offset of the first entry of the batch; 0 for a batch that was
    /// formed from an empty queue.
    pub fn start(&self) -> (offset: u64)
        ensures
            offset == self@.start,
    {
        self.start
    }

    /// Offset of the last entry of the batch; 0 for a batch that was
    /// formed from an empty queue.
    pub fn end(&self) -> (offset: u64)
        ensures
            offset == self@.end,
    {
        self.end
    }
}

/// Whether `copy` is what cloning every publication of `batch` can give:
/// the same offsets, and publication by publication a clone.
pub open spec fn copy_of<T: Clone>(copy: Outstanding<T>, batch: Outstanding<T>) -> bool {
    &&& copy.start == batch.start
    &&& copy.end == batch.end
    &&& copy.items.len() == batch.items.len()
    &&& forall|i: int| 0 <= i < batch.items.len() ==> cloned::<T>(batch.items[i], #[trigger] copy.items[i])
}

/// The cell of the batch that is checked out.
#[derive(Debug)]
pub enum Pending<T> {
    /// A batch was handed out and has not been committed.
    Items { start: u64, end: u64, items: Vec<T> },
    /// Nothing is checked out.
    Empty,
}

impl<T> View for Pending<T> {
    type V = Option<Outstanding<T>>;

    open spec fn view(&self) -> Option<Outstanding<T>> {
        match self {
            Pending::Items { start, end, items } => Some(
                Outstanding { items: items@, start: *start, end: *end },
            ),
            Pending::Empty => None,
        }
    }
}

impl<T> Default for Pending<T> {
    fn default() -> (pending: Self)
        ensures
            pending@ is None,
    {
        Pending::Empty
    }
}

impl<T: Clone> Pending<T> {
    /// A fresh handle on the batch that is checked out, if there is one.
    /// The cell keeps its batch; the handle gets clones.
    pub fn replay(&self) -> (handle: Option<Batch<T>>)
        ensures
            self@ is None <==> handle is None,
            handle matches Some(batch) ==> copy_of(batch@, self@->0),
    {
        match self {
            Pending::Items { start, end, items } => Some(Batch::new(items.clone(), *start, *end)),
            Pending::Empty => None,
        }
    }
}

} // verus!
