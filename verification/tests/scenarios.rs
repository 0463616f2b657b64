use mqtt_publication_storage::batch::Batch;
use mqtt_publication_storage::publication::Publication;
use mqtt_publication_storage::store::MemoryStore;

fn ids(items: &[Publication]) -> Vec<usize> {
    let mut out = Vec::new();
    for item in items {
        out.push(item.id);
    }
    out
}

fn filled(count: usize) -> MemoryStore {
    let mut store = MemoryStore::new();
    for id in 0..count {
        store.push(Publication { id });
    }
    store
}

fn acquire(store: &mut MemoryStore, size: usize) -> Batch<Publication> {
    match store.batch(size) {
        Ok(batch) => batch,
        Err(error) => panic!("acquisition failed: {:?}", error),
    }
}

#[test]
fn five_pushed_come_out_as_one_batch() {
    let mut store = filled(5);
    let mut batch = acquire(&mut store, 10);
    assert_eq!(batch.start(), 0);
    assert_eq!(batch.end(), 4);
    assert_eq!(ids(&batch.take_items()), vec![0, 1, 2, 3, 4]);
    store.commit(batch);

    assert!(store.must_wait());
    assert!(matches!(store.poll_batch(10, false), Ok(None)));
    assert!(matches!(store.poll_batch(10, false), Ok(None)));

    store.push(Publication { id: 5 });
    assert!(!store.must_wait());
    let mut next = match store.poll_batch(10, false) {
        Ok(Some(batch)) => batch,
        other => panic!("expected a batch, got {:?}", other),
    };
    assert_eq!(next.start(), 5);
    assert_eq!(next.end(), 5);
    assert_eq!(ids(&next.take_items()), vec![5]);
}

#[test]
fn uncommitted_batch_is_replayed() {
    let mut store = filled(3);
    let mut first = acquire(&mut store, 2);
    assert_eq!(first.start(), 0);
    assert_eq!(first.end(), 1);
    assert_eq!(ids(&first.take_items()), vec![0, 1]);

    let mut second = acquire(&mut store, 2);
    assert_eq!(second.start(), 0);
    assert_eq!(second.end(), 1);
    assert_eq!(ids(&second.take_items()), vec![0, 1]);

    store.commit(second);
    let mut rest = acquire(&mut store, 2);
    assert_eq!(rest.start(), 2);
    assert_eq!(rest.end(), 2);
    assert_eq!(ids(&rest.take_items()), vec![2]);
}

#[test]
fn replay_ignores_the_size_asked_for() {
    let mut store = filled(6);
    let mut first = acquire(&mut store, 3);
    assert_eq!(ids(&first.take_items()), vec![0, 1, 2]);
    for size in [0usize, 1, 3, 4, 100, usize::MAX] {
        let mut again = acquire(&mut store, size);
        assert_eq!(again.start(), 0);
        assert_eq!(again.end(), 2);
        assert_eq!(ids(&again.take_items()), vec![0, 1, 2]);
    }
    store.commit(first);
    let mut rest = acquire(&mut store, usize::MAX);
    assert_eq!(rest.start(), 3);
    assert_eq!(rest.end(), 5);
    assert_eq!(ids(&rest.take_items()), vec![3, 4, 5]);
}

#[test]
fn replay_does_not_see_later_pushes() {
    let mut store = filled(2);
    let first = acquire(&mut store, 10);
    store.push(Publication { id: 2 });
    store.push(Publication { id: 3 });
    let mut again = acquire(&mut store, 10);
    assert_eq!(again.end(), 1);
    assert_eq!(ids(&again.take_items()), vec![0, 1]);
    store.commit(first);
    let mut next = acquire(&mut store, 10);
    assert_eq!(next.start(), 2);
    assert_eq!(next.end(), 3);
    assert_eq!(ids(&next.take_items()), vec![2, 3]);
}

#[test]
fn second_consumer_gets_no_other_batch_before_the_commit() {
    let mut store = MemoryStore::new();
    assert!(matches!(store.poll_batch(10, false), Ok(None)));
    store.push(Publication { id: 7 });
    let mut first = match store.poll_batch(10, true) {
        Ok(Some(batch)) => batch,
        other => panic!("expected a batch, got {:?}", other),
    };
    assert_eq!(first.start(), 0);
    assert_eq!(first.end(), 0);
    assert_eq!(ids(&first.take_items()), vec![7]);

    assert!(!store.must_wait());
    let mut seen_by_second = match store.poll_batch(10, false) {
        Ok(Some(batch)) => batch,
        other => panic!("expected the replay, got {:?}", other),
    };
    assert_eq!(ids(&seen_by_second.take_items()), vec![7]);

    store.commit(first);
    assert!(store.must_wait());
    assert!(matches!(store.poll_batch(10, false), Ok(None)));
}

#[test]
fn woken_consumer_does_not_wait_again() {
    let mut store = MemoryStore::new();
    assert!(store.must_wait());
    let mut batch = match store.poll_batch(5, true) {
        Ok(Some(batch)) => batch,
        other => panic!("expected an empty batch, got {:?}", other),
    };
    assert_eq!(batch.start(), 0);
    assert_eq!(batch.end(), 0);
    assert!(batch.take_items().is_empty());

    store.push(Publication { id: 1 });
    assert!(!store.must_wait());
    let mut replayed = acquire(&mut store, 5);
    assert!(replayed.take_items().is_empty());

    store.commit(batch);
    let mut next = acquire(&mut store, 5);
    assert_eq!(next.start(), 0);
    assert_eq!(next.end(), 0);
    assert_eq!(ids(&next.take_items()), vec![1]);
}

#[test]
fn batch_from_an_empty_queue_is_empty() {
    let mut store = MemoryStore::new();
    let mut batch = acquire(&mut store, 4);
    assert_eq!(batch.start(), 0);
    assert_eq!(batch.end(), 0);
    assert!(batch.take_items().is_empty());
}

#[test]
fn batch_of_size_zero_is_empty_and_drains_nothing() {
    let mut store = filled(2);
    let mut none = acquire(&mut store, 0);
    assert_eq!(none.start(), 0);
    assert_eq!(none.end(), 0);
    assert!(none.take_items().is_empty());
    store.commit(none);
    assert!(!store.must_wait());
    let mut all = acquire(&mut store, 2);
    assert_eq!(all.start(), 0);
    assert_eq!(all.end(), 1);
    assert_eq!(ids(&all.take_items()), vec![0, 1]);
}

#[test]
fn take_items_empties_the_handle() {
    let mut store = filled(3);
    let mut batch = acquire(&mut store, 3);
    assert_eq!(ids(&batch.take_items()), vec![0, 1, 2]);
    assert!(batch.take_items().is_empty());
    assert_eq!(batch.start(), 0);
    assert_eq!(batch.end(), 2);
}

#[test]
fn cycles_deliver_every_publication_once_and_in_order() {
    let mut store = MemoryStore::new();
    let mut delivered: Vec<usize> = Vec::new();
    let mut next_id = 0usize;
    for round in 0..6usize {
        for _ in 0..round {
            store.push(Publication { id: next_id });
            next_id += 1;
        }
        let mut batch = acquire(&mut store, 2);
        delivered.extend(ids(&batch.take_items()));
        store.commit(batch);
    }
    while !store.must_wait() {
        let mut batch = acquire(&mut store, 4);
        delivered.extend(ids(&batch.take_items()));
        store.commit(batch);
    }
    let pushed: Vec<usize> = (0..15).collect();
    assert_eq!(next_id, 15);
    assert_eq!(delivered, pushed);
}

#[test]
fn offsets_of_a_batch_count_up_without_a_gap() {
    let mut store = filled(10);
    let mut expected_start = 0u64;
    for size in [1usize, 4, 3, 2] {
        let mut batch = acquire(&mut store, size);
        let items = batch.take_items();
        assert_eq!(items.len(), size);
        assert_eq!(batch.start(), expected_start);
        assert_eq!(batch.end(), expected_start + size as u64 - 1);
        for (k, item) in items.iter().enumerate() {
            assert_eq!(item.id as u64, batch.start() + k as u64);
        }
        expected_start = batch.end() + 1;
        store.commit(batch);
    }
    assert!(store.must_wait());
}

#[test]
fn offsets_go_on_after_the_queue_ran_empty() {
    let mut store = filled(2);
    let first = acquire(&mut store, 5);
    store.commit(first);
    store.push(Publication { id: 40 });
    store.push(Publication { id: 41 });
    store.push(Publication { id: 42 });
    let mut batch = acquire(&mut store, 5);
    assert_eq!(batch.start(), 2);
    assert_eq!(batch.end(), 4);
    assert_eq!(ids(&batch.take_items()), vec![40, 41, 42]);
}

#[test]
fn queue_hands_entries_out_oldest_first() {
    let mut store = MemoryStore::new();
    for id in [9usize, 3, 7, 3, 1] {
        store.push(Publication { id });
    }
    let mut seen: Vec<(u64, usize)> = Vec::new();
    for _ in 0..5 {
        let mut batch = acquire(&mut store, 1);
        let items = batch.take_items();
        assert_eq!(items.len(), 1);
        assert_eq!(batch.start(), batch.end());
        seen.push((batch.start(), items[0].id));
        store.commit(batch);
    }
    assert_eq!(seen, vec![(0, 9), (1, 3), (2, 7), (3, 3), (4, 1)]);
    assert!(store.must_wait());
}

#[test]
fn a_long_queue_is_drained_in_order() {
    let mut store = filled(200);
    let mut batch = acquire(&mut store, 150);
    let expected: Vec<usize> = (0..150).collect();
    assert_eq!(batch.start(), 0);
    assert_eq!(batch.end(), 149);
    assert_eq!(ids(&batch.take_items()), expected);
    store.commit(batch);
    let mut rest = acquire(&mut store, 150);
    let expected: Vec<usize> = (150..200).collect();
    assert_eq!(rest.start(), 150);
    assert_eq!(rest.end(), 199);
    assert_eq!(ids(&rest.take_items()), expected);
}

#[test]
fn must_wait_only_with_nothing_queued_and_nothing_checked_out() {
    let mut store = MemoryStore::new();
    assert!(store.must_wait());
    store.push(Publication { id: 0 });
    assert!(!store.must_wait());
    let batch = acquire(&mut store, 1);
    assert!(!store.must_wait());
    store.commit(batch);
    assert!(store.must_wait());
}

#[test]
fn default_store_is_a_new_store() {
    let mut store = MemoryStore::default();
    assert!(store.must_wait());
    store.push(Publication { id: 3 });
    let mut batch = acquire(&mut store, 1);
    assert_eq!(batch.start(), 0);
    assert_eq!(ids(&batch.take_items()), vec![3]);
}

#[test]
fn commit_of_a_stale_handle_only_clears_the_cell() {
    let mut store = filled(3);
    let first = acquire(&mut store, 1);
    let replayed = acquire(&mut store, 1);
    store.commit(first);
    store.commit(replayed);
    let mut next = acquire(&mut store, 5);
    assert_eq!(next.start(), 1);
    assert_eq!(next.end(), 2);
    assert_eq!(ids(&next.take_items()), vec![1, 2]);
}

#[test]
fn woken_consumer_with_a_batch_checked_out_gets_the_replay() {
    let mut store = filled(4);
    let first = acquire(&mut store, 3);
    for woken in [false, true] {
        let mut again = match store.poll_batch(1, woken) {
            Ok(Some(batch)) => batch,
            other => panic!("expected the replay, got {:?}", other),
        };
        assert_eq!(again.start(), 0);
        assert_eq!(again.end(), 2);
        assert_eq!(ids(&again.take_items()), vec![0, 1, 2]);
    }
    store.commit(first);
    let mut last = acquire(&mut store, 3);
    assert_eq!(last.start(), 3);
    assert_eq!(last.end(), 3);
    assert_eq!(ids(&last.take_items()), vec![3]);
}

#[test]
fn waiting_consumer_leaves_the_store_untouched() {
    let mut store = MemoryStore::new();
    for _ in 0..3 {
        assert!(matches!(store.poll_batch(8, false), Ok(None)));
    }
    store.push(Publication { id: 11 });
    store.push(Publication { id: 12 });
    let mut batch = match store.poll_batch(8, false) {
        Ok(Some(batch)) => batch,
        other => panic!("expected a batch, got {:?}", other),
    };
    assert_eq!(batch.start(), 0);
    assert_eq!(batch.end(), 1);
    assert_eq!(ids(&batch.take_items()), vec![11, 12]);
}
