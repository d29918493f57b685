use std::io::{Cursor, Write};

use clipvault::archive::{sevenz_listing, zip_listing};

fn zip_bytes(files: &[(&str, &[u8])], dirs: &[&str]) -> Vec<u8> {
    let mut w = zip::ZipWriter::new(Cursor::new(Vec::new()));
    for (name, data) in files {
        w.start_file(*name, zip::write::SimpleFileOptions::default()).unwrap();
        w.write_all(data).unwrap();
    }
    for d in dirs {
        w.add_directory(*d, zip::write::SimpleFileOptions::default()).unwrap();
    }
    w.finish().unwrap().into_inner()
}

#[test]
fn zip_members_are_listed_in_order() {
    let bytes = zip_bytes(&[("a.txt", b"hello"), ("b.bin", b"")], &["d/"]);
    let v = zip_listing(bytes).unwrap();
    let got: Vec<(String, u64, bool, String)> =
        v.into_iter().map(|e| (e.name, e.size_bytes, e.is_dir, e.crc32)).collect();
    assert_eq!(
        got,
        vec![
            ("a.txt".to_string(), 5, false, "3610a686".to_string()),
            ("b.bin".to_string(), 0, false, "00000000".to_string()),
            ("d/".to_string(), 0, true, "00000000".to_string()),
        ]
    );
}

#[test]
fn zip_listing_is_capped_and_rejects_garbage() {
    let names: Vec<String> = (0..205).map(|i| format!("f{i}.txt")).collect();
    let files: Vec<(&str, &[u8])> = names.iter().map(|n| (n.as_str(), &b"x"[..])).collect();
    let v = zip_listing(zip_bytes(&files, &[])).unwrap();
    assert_eq!(v.len(), 200);
    assert_eq!(v[199].name, "f199.txt");
    assert!(zip_listing(b"not a zip".to_vec()).is_none());
}

#[test]
fn sevenz_members_are_listed() {
    let mut w = sevenz_rust2::ArchiveWriter::new(Cursor::new(Vec::new())).unwrap();
    w.push_archive_entry(sevenz_rust2::ArchiveEntry::new_file("a.txt"), Some(&b"hello"[..]))
        .unwrap();
    let bytes = w.finish().unwrap().into_inner();
    let v = sevenz_listing(&bytes).unwrap();
    assert_eq!(v.len(), 1);
    assert_eq!(v[0].name, "a.txt");
    assert_eq!(v[0].size_bytes, 5);
    assert!(!v[0].is_dir);
    assert_eq!(v[0].crc32, "3610a686");
    assert!(sevenz_listing(b"not a 7z").is_none());
}
