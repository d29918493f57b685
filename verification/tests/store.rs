use clipvault::history::{History, HistoryError, NewEntry, StoredEntry, LIST_LIMIT, MAX_UNPINNED_ENTRIES};

fn entry(text: &str) -> NewEntry {
    NewEntry {
        kind: "text",
        preview: text.to_string(),
        search_text: text.to_string(),
        content: Some(text.to_string()),
        image_path: None,
        file_list: None,
        thumbnail: None,
        hash: format!("hash-{text}"),
    }
}

fn row(id: i64, pinned: bool) -> StoredEntry {
    StoredEntry {
        id,
        kind: "text".to_string(),
        preview: format!("row-{id}"),
        search_text: format!("row-{id}"),
        content: None,
        image_path: None,
        file_list: None,
        thumbnail: None,
        hash: format!("h{id}"),
        pinned,
        created_at: id,
    }
}

#[test]
fn pruning_keeps_every_pinned_entry() {
    let mut h = History::new();
    let mut pinned = Vec::new();
    for i in 0..3 {
        let id = h.insert(&entry(&format!("keep-{i}")), i).unwrap().id;
        h.set_pinned(id, true);
        pinned.push(id);
    }
    let mut pruned_total = 0;
    for i in 0..(MAX_UNPINNED_ENTRIES + 20) {
        pruned_total += h.insert(&entry(&format!("e-{i}")), i).unwrap().pruned.len();
    }
    assert_eq!(pruned_total, 20);
    for id in pinned {
        assert!(h.get_full(id).is_some());
    }
    let unpinned = h.rows().iter().filter(|r| !r.pinned).count() as i64;
    assert_eq!(unpinned, MAX_UNPINNED_ENTRIES);
    // The oldest unpinned ones went first.
    assert!(h.rows().iter().all(|r| r.pinned || r.preview != "e-19"));
    assert!(h.rows().iter().any(|r| r.preview == "e-20"));
}

#[test]
fn list_is_limited_and_ordered() {
    let mut h = History::new();
    for i in 0..(LIST_LIMIT as i64 + 10) {
        h.insert(&entry(&format!("n{i}")), i).unwrap();
    }
    let l = h.list(None);
    assert_eq!(l.len(), LIST_LIMIT);
    assert!(l.windows(2).all(|w| w[0].id > w[1].id));
}

#[test]
fn search_treats_underscore_literally() {
    let mut h = History::new();
    h.insert(&entry("snake_case"), 1).unwrap();
    h.insert(&entry("snakeXcase"), 2).unwrap();
    let l = h.list(Some("e_c"));
    assert_eq!(l.len(), 1);
    assert_eq!(l[0].preview, "snake_case");
    assert_eq!(h.list(Some("")).len(), 2);
}

#[test]
fn thumbnails_are_listed_in_base64() {
    let mut h = History::new();
    let mut e = entry("img");
    e.thumbnail = Some(vec![1, 2, 3]);
    h.insert(&e, 1).unwrap();
    assert_eq!(h.list(None)[0].thumbnail.as_deref(), Some("AQID"));
}

#[test]
fn clear_unpinned_reports_removed_ids() {
    let mut h = History::new();
    let a = h.insert(&entry("a"), 1).unwrap().id;
    let b = h.insert(&entry("b"), 2).unwrap().id;
    let c = h.insert(&entry("c"), 3).unwrap().id;
    h.set_pinned(b, true);
    assert_eq!(h.clear_unpinned(), vec![a, c]);
    assert_eq!(h.rows().len(), 1);
}

#[test]
fn ids_are_not_reused_after_delete() {
    let mut h = History::new();
    let a = h.insert(&entry("a"), 1).unwrap().id;
    h.delete(a);
    let b = h.insert(&entry("b"), 2).unwrap().id;
    assert!(b > a);
    assert_eq!(h.last_id(), b);
}

#[test]
fn import_entry_keeps_pin_and_time() {
    let mut h = History::new();
    let id = h.import_entry(&entry("old"), true, 7).unwrap().id;
    let r = &h.rows()[0];
    assert_eq!(r.id, id);
    assert!(r.pinned);
    assert_eq!(r.created_at, 7);
}

#[test]
fn from_rows_checks_the_table_shape() {
    assert!(History::from_rows(vec![row(1, false), row(3, true)], 3).is_some());
    assert!(History::from_rows(vec![row(3, false), row(1, true)], 3).is_none());
    assert!(History::from_rows(vec![row(1, false)], 0).is_none());
    assert!(History::from_rows(vec![row(0, false)], 5).is_none());
    let h = History::from_rows(vec![row(1, false), row(2, false)], 9).unwrap();
    assert_eq!(h.last_id(), 9);
}

#[test]
fn exhausted_ids_refuse_new_entries() {
    let mut h = History::from_rows(vec![row(i64::MAX, false)], i64::MAX).unwrap();
    assert_eq!(h.insert(&entry("x"), 1).err(), Some(HistoryError::IdsExhausted));
    assert_eq!(h.rows().len(), 1);
}

#[test]
fn history_length_setting_prunes_oldest_unpinned() {
    let mut h = History::new();
    let a = h.insert(&entry("a"), 1).unwrap().id;
    let b = h.insert(&entry("b"), 2).unwrap().id;
    let c = h.insert(&entry("c"), 3).unwrap().id;
    h.set_pinned(a, true);
    let removed = h.set_max_unpinned(1);
    assert_eq!(removed, vec![b]);
    let ids: Vec<i64> = h.rows().iter().map(|r| r.id).collect();
    assert_eq!(ids, vec![a, c]);
    let d = h.insert(&entry("d"), 4).unwrap();
    assert_eq!(d.pruned, vec![c]);
    assert!(h.set_max_unpinned(0).is_empty());
}

#[test]
fn old_unpinned_entries_expire() {
    let day: i64 = 86_400_000;
    let mut h = History::new();
    let old = h.insert(&entry("old"), 0).unwrap().id;
    let old_pinned = h.insert(&entry("old pinned"), 0).unwrap().id;
    h.set_pinned(old_pinned, true);
    let recent = h.insert(&entry("recent"), 9 * day).unwrap().id;
    assert!(h.expire(10 * day, 0).is_empty());
    assert!(h.expire(day, 1).is_empty());
    assert_eq!(h.expire(10 * day, 2), vec![old]);
    let ids: Vec<i64> = h.rows().iter().map(|r| r.id).collect();
    assert_eq!(ids, vec![old_pinned, recent]);
}
