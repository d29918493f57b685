use clipvault::history::{History, NewEntry};
use clipvault::snippets::{Snippet, Snippets};
use clipvault::stats::stats;

#[test]
fn snippets_are_added_listed_and_deleted() {
    let mut s = Snippets::new();
    let a = s.add("first".to_string(), 10).unwrap();
    let b = s.add("second".to_string(), 20).unwrap();
    assert_eq!((a, b), (1, 2));
    let listed: Vec<String> = s.list().into_iter().map(|x| x.content).collect();
    assert_eq!(listed, vec!["second", "first"]);
    assert_eq!(s.content(a).as_deref(), Some("first"));
    s.delete(a);
    assert!(s.content(a).is_none());
    let c = s.add("third".to_string(), 30).unwrap();
    assert_eq!(c, 3);
    assert_eq!(s.items().len(), 2);
}

#[test]
fn snippets_load_only_when_consistent() {
    let item = |id: i64| Snippet { id, content: format!("s{id}"), created_at: id };
    assert!(Snippets::from_items(vec![item(1), item(3)], 3).is_some());
    assert!(Snippets::from_items(vec![item(3), item(1)], 3).is_none());
    assert!(Snippets::from_items(vec![item(4)], 3).is_none());
}

fn entry(kind: &'static str) -> NewEntry {
    NewEntry {
        kind,
        preview: kind.to_string(),
        search_text: kind.to_string(),
        content: None,
        image_path: None,
        file_list: None,
        thumbnail: None,
        hash: kind.to_string(),
    }
}

#[test]
fn stats_count_entries_by_kind() {
    let mut h = History::new();
    h.insert(&entry("text"), 50).unwrap();
    let img = h.insert(&entry("image"), 20).unwrap().id;
    h.insert(&entry("text"), 70).unwrap();
    h.insert(&entry("files"), 60).unwrap();
    h.set_pinned(img, true);
    let mut s = Snippets::new();
    s.add("x".to_string(), 1).unwrap();
    let st = stats(&h, &s, 4096);
    assert_eq!((st.total, st.text, st.images, st.files, st.pinned, st.snippets), (4, 2, 1, 1, 1, 1));
    assert_eq!(st.db_size_bytes, 4096);
    assert_eq!((st.oldest, st.newest), (Some(20), Some(70)));
    let empty = stats(&History::new(), &Snippets::new(), 0);
    assert_eq!((empty.total, empty.oldest, empty.newest), (0, None, None));
}
