use clipvault::history::{History, NewEntry, MAX_UNPINNED_ENTRIES};

fn open_in_memory() -> History {
    History::new()
}

fn text_entry(text: &str) -> NewEntry {
    NewEntry {
        kind: "text",
        preview: text.to_string(),
        search_text: text.to_string(),
        content: Some(text.to_string()),
        image_path: None,
        file_list: None,
        thumbnail: None,
        hash: format!("hash-{text}"),
    }
}

#[test]
fn insert_and_list_returns_newest_first() {
    let mut conn = open_in_memory();
    conn.insert(&text_entry("first"), 1).unwrap();
    conn.insert(&text_entry("second"), 2).unwrap();

    let entries = conn.list(None);
    assert_eq!(entries.len(), 2);
    assert_eq!(entries[0].preview, "second");
    assert_eq!(entries[1].preview, "first");
}

#[test]
fn list_search_matches_search_text_case_insensitively() {
    let mut conn = open_in_memory();
    conn.insert(&text_entry("Hello World"), 1).unwrap();
    conn.insert(&text_entry("unrelated"), 2).unwrap();

    let entries = conn.list(Some("world"));
    assert_eq!(entries.len(), 1);
    assert_eq!(entries[0].preview, "Hello World");
}

#[test]
fn list_search_escapes_like_wildcards() {
    let mut conn = open_in_memory();
    conn.insert(&text_entry("100% done"), 1).unwrap();
    conn.insert(&text_entry("100x done"), 2).unwrap();

    // A literal '%' in the query should not act as a wildcard.
    let entries = conn.list(Some("100%"));
    assert_eq!(entries.len(), 1);
    assert_eq!(entries[0].preview, "100% done");
}

#[test]
fn pinned_entries_sort_before_unpinned_regardless_of_age() {
    let mut conn = open_in_memory();
    let older_id = conn.insert(&text_entry("older"), 1).unwrap().id;
    conn.insert(&text_entry("newer"), 2).unwrap();
    conn.set_pinned(older_id, true);

    let entries = conn.list(None);
    assert_eq!(entries[0].preview, "older");
    assert!(entries[0].pinned);
    assert_eq!(entries[1].preview, "newer");
}

#[test]
fn delete_removes_only_the_targeted_entry() {
    let mut conn = open_in_memory();
    let keep = conn.insert(&text_entry("keep"), 1).unwrap().id;
    let remove = conn.insert(&text_entry("remove"), 2).unwrap().id;

    conn.delete(remove);

    let entries = conn.list(None);
    assert_eq!(entries.len(), 1);
    assert_eq!(entries[0].id, keep);
}

#[test]
fn clear_unpinned_keeps_pinned_entries() {
    let mut conn = open_in_memory();
    let pinned = conn.insert(&text_entry("pinned"), 1).unwrap().id;
    conn.insert(&text_entry("not pinned"), 2).unwrap();
    conn.set_pinned(pinned, true);

    conn.clear_unpinned();

    let entries = conn.list(None);
    assert_eq!(entries.len(), 1);
    assert_eq!(entries[0].id, pinned);
}

#[test]
fn get_full_returns_none_for_missing_id() {
    let conn = open_in_memory();
    assert!(conn.get_full(999).is_none());
}

#[test]
fn get_full_round_trips_stored_fields() {
    let mut conn = open_in_memory();
    let id = conn.insert(&text_entry("round trip"), 1).unwrap().id;

    let full = conn.get_full(id).expect("entry should exist");
    assert_eq!(full.kind, "text");
    assert_eq!(full.content.as_deref(), Some("round trip"));
}

#[test]
fn last_hash_reflects_most_recent_insert() {
    let mut conn = open_in_memory();
    assert!(conn.last_hash().is_none());

    conn.insert(&text_entry("first"), 1).unwrap();
    assert_eq!(conn.last_hash().as_deref(), Some("hash-first"));

    conn.insert(&text_entry("second"), 2).unwrap();
    assert_eq!(conn.last_hash().as_deref(), Some("hash-second"));
}

#[test]
fn prune_keeps_all_pinned_but_caps_unpinned() {
    let mut conn = open_in_memory();

    for i in 0..(MAX_UNPINNED_ENTRIES + 5) {
        conn.insert(&text_entry(&format!("entry-{i}")), i).unwrap();
    }

    let count = conn.rows().len() as i64;
    assert_eq!(count, MAX_UNPINNED_ENTRIES);

    // The oldest entries should have been pruned, newest kept.
    let entries = conn.list(None);
    assert_eq!(
        entries[0].preview,
        format!("entry-{}", MAX_UNPINNED_ENTRIES + 4)
    );
}
