use mqtt_publication_storage::batch::{Pending, StoreError};
use mqtt_publication_storage::publication::Publication;

#[test]
fn empty_cell_replays_nothing() {
    let cell: Pending<String> = Pending::Empty;
    assert!(cell.replay().is_none());
}

#[test]
fn default_cell_is_empty() {
    let cell: Pending<u32> = Pending::default();
    assert!(matches!(cell, Pending::Empty));
    assert!(cell.replay().is_none());
}

#[test]
fn cell_replays_clones_and_keeps_its_batch() {
    let cell = Pending::Items {
        start: 17,
        end: 19,
        items: vec![String::from("a"), String::from("b"), String::from("c")],
    };
    for _ in 0..3 {
        let mut handle = match cell.replay() {
            Some(handle) => handle,
            None => panic!("a batch is checked out"),
        };
        assert_eq!(handle.start(), 17);
        assert_eq!(handle.end(), 19);
        assert_eq!(handle.take_items(), vec!["a", "b", "c"]);
        assert!(handle.take_items().is_empty());
    }
    match cell {
        Pending::Items { start, end, items } => {
            assert_eq!(start, 17);
            assert_eq!(end, 19);
            assert_eq!(items, vec!["a", "b", "c"]);
        }
        Pending::Empty => panic!("the cell lost its batch"),
    }
}

#[test]
fn publication_clone_keeps_the_id() {
    let publication = Publication { id: 42 };
    let copy = publication.clone();
    assert_eq!(copy.id, 42);
    assert_eq!(publication.id, 42);
}

#[test]
fn store_error_has_a_debug_form() {
    assert_eq!(format!("{:?}", StoreError), "StoreError");
}

struct Elsewhere;

impl mqtt_publication_storage::store::PublicationStore for Elsewhere {}

fn is_store<S: mqtt_publication_storage::store::PublicationStore>(_store: &S) -> bool {
    true
}

#[test]
fn any_type_can_be_marked_as_a_store() {
    assert!(is_store(&Elsewhere));
}
