//! What holds of the buffer over whole histories.
//!
//! The store's operations are single transitions of the state machine in
//! `model`. The proofs here put transitions together: what an arbitrary
//! sequence of operations leads to, and what that says about the batches
//! a consumer sees.

use crate::model::{batch_of, following, offset_after, payloads, Outstanding, StoreState};
use vstd::prelude::*;

verus! {

/// One operation on the buffer.
pub enum Op<T> {
    /// A producer pushes a publication.
    Push(T),
    /// A consumer acquires a batch of at most so many publications.
    Acquire(nat),
    /// A consumer commits the batch that is checked out.
    Commit,
}

/// The state that `op` leads to from `state`.
pub open spec fn step<T>(state: StoreState<T>, op: Op<T>) -> StoreState<T> {
    match op {
        Op::Push(item) => state.push(item),
        Op::Acquire(size) => state.acquire(size),
        Op::Commit => state.commit(),
    }
}

/// The state of a fresh buffer after `ops`, applied in order.
pub open spec fn state_after<T>(ops: Seq<Op<T>>) -> StoreState<T>
    decreases ops.len(),
{
    if ops.len() == 0 {
        StoreState::init()
    } else {
        step(state_after(ops.drop_last()), ops.last())
    }
}

/// The publications that `ops` pushed, in the order of the pushes.
pub open spec fn pushed<T>(ops: Seq<Op<T>>) -> Seq<T>
    decreases ops.len(),
{
    if ops.len() == 0 {
        Seq::empty()
    } else {
        match ops.last() {
            Op::Push(item) => pushed(ops.drop_last()).push(item),
            _ => pushed(ops.drop_last()),
        }
    }
}

/// The publications of the batch that is checked out in `state`.
pub open spec fn in_hand<T>(state: StoreState<T>) -> Seq<T> {
    match state.outstanding {
        Some(batch) => batch.items,
        None => Seq::empty(),
    }
}

/// The publications of all the batches that `ops` committed, batch after
/// batch in the order of the commits.
pub open spec fn delivered<T>(ops: Seq<Op<T>>) -> Seq<T>
    decreases ops.len(),
{
    if ops.len() == 0 {
        Seq::empty()
    } else {
        match ops.last() {
            Op::Commit => delivered(ops.drop_last()) + in_hand(state_after(ops.drop_last())),
            _ => delivered(ops.drop_last()),
        }
    }
}

/// The publications that `state` still owes a consumer: those of the
/// batch that is checked out, then those in the queue.
pub open spec fn undelivered<T>(state: StoreState<T>) -> Seq<T> {
    in_hand(state) + payloads(state.queue)
}

/// The state after acquiring once for each of `sizes`, in order, with no
/// commit in between.
pub open spec fn acquire_each<T>(state: StoreState<T>, sizes: Seq<nat>) -> StoreState<T>
    decreases sizes.len(),
{
    if sizes.len() == 0 {
        state
    } else {
        acquire_each(state, sizes.drop_last()).acquire(sizes.last())
    }
}

/// An acquisition leaves checked out exactly the batch that it hands to
/// the consumer.
pub proof fn law_handed_batch_is_checked_out<T>(state: StoreState<T>, size: nat)
    ensures
        state.acquire(size).outstanding == Some(state.handed(size)),
{
}

/// While a batch is checked out, an acquisition of any size hands out
/// that batch and changes nothing: it drains no entry and forms no other
/// batch.
pub proof fn law_outstanding_batch_is_replayed<T>(state: StoreState<T>, size: nat)
    requires
        state.outstanding is Some,
    ensures
        state.acquire(size) == state,
        state.handed(size) == state.outstanding->0,
{
}

/// Replay is idempotent. After a first acquisition, any number of further
/// acquisitions without a commit, of whatever sizes, leave the state as
/// the first one left it, and each hands out the batch of the first one:
/// the same publications, the same first and last offset.
pub proof fn law_replay_is_idempotent<T>(state: StoreState<T>, first: nat, again: Seq<nat>)
    ensures
        acquire_each(state.acquire(first), again) == state.acquire(first),
        forall|i: int|
            0 <= i < again.len() ==> (#[trigger] acquire_each(
                state.acquire(first),
                again.take(i),
            )).handed(again[i]) == state.handed(first),
    decreases again.len(),
{
    let held = state.acquire(first);
    if again.len() > 0 {
        law_replay_is_idempotent(state, first, again.drop_last());
        assert forall|i: int| 0 <= i < again.len() implies (#[trigger] acquire_each(
            held,
            again.take(i),
        )).handed(again[i]) == state.handed(first) by {
            if i < again.len() - 1 {
                assert(again.drop_last().take(i) =~= again.take(i));
                assert(again.drop_last()[i] == again[i]);
            } else {
                assert(again.take(i) =~= again.drop_last());
            }
        }
    }
}

/// The batch that the operation at position `at` of `ops` hands out, if
/// that operation is an acquisition.
pub open spec fn handed_at<T>(ops: Seq<Op<T>>, at: int) -> Option<Outstanding<T>> {
    match ops[at] {
        Op::Acquire(size) => Some(state_after(ops.take(at)).handed(size)),
        _ => None,
    }
}

/// The state after the first `at + 1` operations is one step from the
/// state after the first `at`.
pub proof fn lemma_state_after_one_more<T>(ops: Seq<Op<T>>, at: int)
    requires
        0 <= at < ops.len(),
    ensures
        state_after(ops.take(at + 1)) == step(state_after(ops.take(at)), ops[at]),
{
    assert(ops.take(at + 1).drop_last() =~= ops.take(at));
}

/// At most one batch is in flight. Two acquisitions with no commit
/// between them hand out the same batch, whatever their sizes and
/// however many publications were pushed in between: a consumer never
/// gets another batch than the one that is checked out.
pub proof fn law_one_batch_between_commits<T>(ops: Seq<Op<T>>, earlier: int, later: int)
    requires
        0 <= earlier < later < ops.len(),
        ops[earlier] is Acquire,
        ops[later] is Acquire,
        forall|k: int| earlier < k < later ==> !(#[trigger] ops[k] is Commit),
    ensures
        handed_at(ops, later) == handed_at(ops, earlier),
        handed_at(ops, earlier) is Some,
    decreases later - earlier,
{
    lemma_state_after_one_more(ops, earlier);
    if later == earlier + 1 {
    } else {
        let between = later - 1;
        lemma_state_after_one_more(ops, between);
        lemma_batch_stays_checked_out(ops, earlier, between);
    }
}

/// From an acquisition on, up to the next commit, the batch that the
/// acquisition handed out is the one that is checked out.
pub proof fn lemma_batch_stays_checked_out<T>(ops: Seq<Op<T>>, earlier: int, upto: int)
    requires
        0 <= earlier <= upto < ops.len(),
        ops[earlier] is Acquire,
        forall|k: int| earlier < k <= upto ==> !(#[trigger] ops[k] is Commit),
    ensures
        state_after(ops.take(upto + 1)).outstanding == handed_at(ops, earlier),
    decreases upto - earlier,
{
    lemma_state_after_one_more(ops, upto);
    if upto > earlier {
        lemma_batch_stays_checked_out(ops, earlier, upto - 1);
        assert(!(ops[upto] is Commit));
    }
}

/// After a push nobody has to wait: there is something to hand out.
pub proof fn law_push_ends_the_wait<T>(state: StoreState<T>, item: T)
    ensures
        !state.push(item).must_wait(),
{
}

/// A push adds its publication behind everything that is still owed.
pub proof fn law_push_appends<T>(state: StoreState<T>, item: T)
    ensures
        undelivered(state.push(item)) == undelivered(state).push(item),
{
    assert(payloads(state.queue.push((state.next_offset, item))) =~= payloads(state.queue).push(
        item,
    ));
    assert(undelivered(state.push(item)) =~= undelivered(state).push(item));
}

/// An acquisition moves publications from the queue into the batch and
/// neither drops, repeats nor reorders any.
pub proof fn law_acquire_keeps_order<T>(state: StoreState<T>, size: nat)
    ensures
        undelivered(state.acquire(size)) == undelivered(state),
{
    if state.outstanding is None {
        let count = state.take_count(size) as int;
        assert(payloads(state.queue.take(count)) + payloads(state.queue.skip(count)) =~= payloads(
            state.queue,
        ));
        assert(undelivered(state.acquire(size)) =~= undelivered(state));
    }
}

/// No loss and no duplication. After any sequence of operations on a
/// fresh buffer, the publications of the committed batches, followed by
/// those of the batch that is checked out and those still queued, are
/// the publications that were pushed, each once and in the order of the
/// pushes.
pub proof fn law_nothing_lost_nothing_twice<T>(ops: Seq<Op<T>>)
    ensures
        delivered(ops) + undelivered(state_after(ops)) == pushed(ops),
    decreases ops.len(),
{
    if ops.len() == 0 {
        assert(payloads(StoreState::<T>::init().queue) =~= Seq::<T>::empty());
        assert(delivered(ops) + undelivered(state_after(ops)) =~= pushed(ops));
    } else {
        let before = ops.drop_last();
        let state = state_after(before);
        law_nothing_lost_nothing_twice(before);
        match ops.last() {
            Op::Push(item) => {
                law_push_appends(state, item);
                assert(delivered(before) + undelivered(state).push(item) =~= (delivered(before)
                    + undelivered(state)).push(item));
            },
            Op::Acquire(size) => {
                law_acquire_keeps_order(state, size);
            },
            Op::Commit => {
                assert((delivered(before) + in_hand(state)) + undelivered(state.commit()) =~= delivered(
                    before,
                ) + undelivered(state));
            },
        }
    }
}

/// Once everything is drained and committed, the committed batches put
/// end to end are the sequence of pushed publications.
pub proof fn law_drained_buffer_delivered_all<T>(ops: Seq<Op<T>>)
    requires
        state_after(ops).outstanding is None,
        state_after(ops).queue.len() == 0,
    ensures
        delivered(ops) == pushed(ops),
{
    law_nothing_lost_nothing_twice(ops);
    assert(undelivered(state_after(ops)) =~= Seq::<T>::empty());
    assert(delivered(ops) + Seq::<T>::empty() =~= delivered(ops));
}

/// Counting on from an offset that was itself counted from `first` is
/// counting from `first` in one go.
pub proof fn lemma_offset_after_adds(first: u64, steps: nat, more: nat)
    ensures
        offset_after(offset_after(first, steps), more) == offset_after(first, steps + more),
        offset_after(first, 0) == first,
        offset_after(first, 1) == following(first),
{
}

/// A push keeps a well-formed state well formed.
pub proof fn law_push_keeps_well_formed<T>(state: StoreState<T>, item: T)
    requires
        state.well_formed(),
    ensures
        state.push(item).well_formed(),
{
    let next = state.push(item);
    let count = state.queue.len();
    if count == 0 {
        lemma_offset_after_adds(state.next_offset, 0, 1);
        assert(next.queue.first().0 == state.next_offset);
    } else {
        let first = state.queue.first().0;
        lemma_offset_after_adds(first, count, 1);
        lemma_offset_after_adds(state.next_offset, 0, 1);
        assert(next.queue.first() == state.queue.first());
        assert forall|i: int| 0 <= i < next.queue.len() implies (#[trigger] next.queue[i]).0
            == offset_after(first, i as nat) by {
            if i < count {
                assert(next.queue[i] == state.queue[i]);
            }
        }
    }
}

/// An acquisition keeps a well-formed state well formed.
pub proof fn law_acquire_keeps_well_formed<T>(state: StoreState<T>, size: nat)
    requires
        state.well_formed(),
    ensures
        state.acquire(size).well_formed(),
{
    if state.outstanding is None {
        let next = state.acquire(size);
        let count = state.take_count(size);
        let taken = state.drained(size);
        if count > 0 {
            assert(taken.first() == state.queue[0]);
            assert(taken.last() == state.queue[count - 1]);
            assert(payloads(taken).len() == count);
        }
        assert(batch_of(taken).well_formed());
        if next.queue.len() > 0 {
            let first = state.queue.first().0;
            assert(next.queue.first() == state.queue[count as int]);
            assert forall|i: int| 0 <= i < next.queue.len() implies (#[trigger] next.queue[i]).0
                == offset_after(next.queue.first().0, i as nat) by {
                assert(next.queue[i] == state.queue[count + i]);
                lemma_offset_after_adds(first, count, i as nat);
            }
            lemma_offset_after_adds(first, count, next.queue.len());
        }
    }
}

/// Every operation keeps a well-formed state well formed.
pub proof fn law_step_keeps_well_formed<T>(state: StoreState<T>, op: Op<T>)
    requires
        state.well_formed(),
    ensures
        step(state, op).well_formed(),
{
    match op {
        Op::Push(item) => law_push_keeps_well_formed(state, item),
        Op::Acquire(size) => law_acquire_keeps_well_formed(state, size),
        Op::Commit => {},
    }
}

/// Every state that a fresh buffer can reach is well formed.
pub proof fn law_reachable_is_well_formed<T>(ops: Seq<Op<T>>)
    ensures
        state_after(ops).well_formed(),
    decreases ops.len(),
{
    if ops.len() > 0 {
        law_reachable_is_well_formed(ops.drop_last());
        law_step_keeps_well_formed(state_after(ops.drop_last()), ops.last());
    }
}

/// First in, first out within a batch. In a well-formed state with
/// nothing checked out, an acquisition takes the oldest entries. As long
/// as the counter does not start over inside the batch, the offsets of
/// these entries count up from the batch's first offset to its last one
/// without a gap: each lies between the two, and an older entry has the
/// smaller offset.
pub proof fn law_batch_is_first_in_first_out<T>(state: StoreState<T>, size: nat)
    requires
        state.well_formed(),
        state.outstanding is None,
        state.take_count(size) > 0,
        state.queue.first().0 + state.take_count(size) - 1 <= u64::MAX,
    ensures
        state.handed(size).items == payloads(state.drained(size)),
        state.handed(size).end == state.handed(size).start + state.take_count(size) - 1,
        forall|i: int|
            0 <= i < state.take_count(size) ==> (#[trigger] state.drained(size)[i]).0
                == state.handed(size).start + i,
        forall|i: int|
            0 <= i < state.take_count(size) ==> state.handed(size).start <= (
            #[trigger] state.drained(size)[i]).0 <= state.handed(size).end,
        forall|i: int, j: int|
            0 <= i < j < state.take_count(size) ==> (#[trigger] state.drained(size)[i]).0 < (
            #[trigger] state.drained(size)[j]).0,
{
    let taken = state.drained(size);
    let count = state.take_count(size) as int;
    assert(taken.first() == state.queue[0]);
    assert(taken.last() == state.queue[count - 1]);
    assert forall|i: int| 0 <= i < count implies (#[trigger] taken[i]).0 == state.handed(
        size,
    ).start + i by {
        assert(taken[i] == state.queue[i]);
    }
}

} // verus!
