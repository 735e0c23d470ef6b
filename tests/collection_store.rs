use hac_core_logic::collection_store::{
    valid_tree, CollectionStore, CollectionStoreAction, Directory, Request, RequestKind,
    RequestMethod, TreeEntry,
};

fn dir(id: u64, depth: usize, name: &str) -> TreeEntry {
    TreeEntry { depth, kind: RequestKind::Nested(Directory { id, name: name.to_string() }) }
}

fn req(id: u64, depth: usize, name: &str) -> TreeEntry {
    TreeEntry {
        depth,
        kind: RequestKind::Single(Request { id, name: name.to_string(), method: RequestMethod::Get }),
    }
}

fn sample() -> CollectionStore {
    let entries = vec![dir(1, 0, "DirA"), req(2, 1, "ReqX"), req(3, 0, "ReqY")];
    assert!(valid_tree(&entries));
    CollectionStore::new(entries)
}

#[test]
fn new_hovers_first_entry() {
    let store = sample();
    assert_eq!(store.get_hovered_request(), Some(1));
    assert!(store.get_selected_request().is_none());
    assert!(!store.is_dir_expanded(1));
    assert_eq!(store.get_requests().len(), 3);
}

#[test]
fn collapsed_directory_hides_children() {
    let store = sample();
    assert_eq!(store.visible_entries(), vec![0, 2]);
}

#[test]
fn hover_moves_over_visible_entries_and_clamps() {
    let mut store = sample();
    store.dispatch(CollectionStoreAction::HoverNext);
    assert_eq!(store.get_hovered_request(), Some(3));
    store.dispatch(CollectionStoreAction::HoverNext);
    assert_eq!(store.get_hovered_request(), Some(3));
    store.dispatch(CollectionStoreAction::HoverPrev);
    assert_eq!(store.get_hovered_request(), Some(1));
    store.dispatch(CollectionStoreAction::HoverPrev);
    assert_eq!(store.get_hovered_request(), Some(1));
}

#[test]
fn hover_next_many_times_stays_on_last() {
    let mut store = sample();
    store.dispatch(CollectionStoreAction::ToggleDirectory(1));
    for _ in 0..10 {
        store.dispatch(CollectionStoreAction::HoverNext);
    }
    assert_eq!(store.get_hovered_request(), Some(3));
}

#[test]
fn expanded_directory_shows_children() {
    let mut store = sample();
    store.dispatch(CollectionStoreAction::ToggleDirectory(1));
    assert!(store.is_dir_expanded(1));
    assert_eq!(store.visible_entries(), vec![0, 1, 2]);
    store.dispatch(CollectionStoreAction::HoverNext);
    assert_eq!(store.get_hovered_request(), Some(2));
}

#[test]
fn toggle_twice_restores_expansion() {
    let mut store = sample();
    store.dispatch(CollectionStoreAction::ToggleDirectory(1));
    store.dispatch(CollectionStoreAction::ToggleDirectory(1));
    assert!(!store.is_dir_expanded(1));
    store.dispatch(CollectionStoreAction::ToggleDirectory(42));
    assert!(store.is_dir_expanded(42));
    assert_eq!(store.get_dirs_expanded().get(&42), Some(&true));
}

#[test]
fn set_selected_request_replaces_and_clears() {
    let mut store = sample();
    let r = Request { id: 3, name: "ReqY".to_string(), method: RequestMethod::Post };
    store.dispatch(CollectionStoreAction::SetSelectedRequest(Some(r)));
    assert_eq!(store.get_selected_request().as_ref().map(|r| r.id), Some(3));
    store.dispatch(CollectionStoreAction::SetSelectedRequest(None));
    assert!(store.get_selected_request().is_none());
}

#[test]
fn find_hovered_request_resolves_entry() {
    let mut store = sample();
    assert_eq!(store.find_hovered_request().map(|e| e.kind.get_id()), Some(1));
    store.dispatch(CollectionStoreAction::HoverNext);
    let entry = store.find_hovered_request().unwrap();
    assert!(matches!(&entry.kind, RequestKind::Single(r) if r.name == "ReqY"));
}

#[test]
fn empty_tree_has_no_hover() {
    let mut store = CollectionStore::new(vec![]);
    store.dispatch(CollectionStoreAction::HoverNext);
    assert_eq!(store.get_hovered_request(), None);
    assert!(store.find_hovered_request().is_none());
}

#[test]
fn valid_tree_rejects_bad_listings() {
    assert!(!valid_tree(&vec![req(1, 0, "a"), req(1, 0, "b")]));
    assert!(!valid_tree(&vec![req(1, 0, "a"), req(2, 1, "b")]));
    assert!(!valid_tree(&vec![dir(1, 0, "a"), req(2, 2, "b")]));
    assert!(!valid_tree(&vec![req(1, 1, "a")]));
    assert!(valid_tree(&vec![dir(1, 0, "a"), dir(2, 1, "b"), req(3, 2, "c"), req(4, 0, "d")]));
}
