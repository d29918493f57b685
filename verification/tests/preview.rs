use clipvault::preview::{
    file_too_large, pdf_text_preview, plain_text_preview, preview_file_meta,
    preview_kind_for_extension, read_zip_entries, text_preview_kind, zip_entry, ArchiveFormat,
    FileFacts, TextPreviewKind, MAX_TEXT_PREVIEW_BYTES,
};

#[test]
fn text_preview_kind_follows_extension_in_any_case() {
    assert_eq!(text_preview_kind("C:/docs/README.MD"), Some(TextPreviewKind::PlainText));
    assert_eq!(text_preview_kind("/tmp/report.Pdf"), Some(TextPreviewKind::Pdf));
    assert_eq!(text_preview_kind("/tmp/main.rs"), Some(TextPreviewKind::PlainText));
    assert_eq!(text_preview_kind("/tmp/photo.jpg"), None);
    assert_eq!(text_preview_kind("/tmp/noext"), None);
    assert_eq!(text_preview_kind("/tmp/.bashrc"), None);
    assert_eq!(text_preview_kind("/tmp/.md"), None);
    assert_eq!(text_preview_kind("/tmp/notes."), None);
    assert_eq!(text_preview_kind("Makefile"), None);
    assert_eq!(preview_kind_for_extension(Some("SVELTE".to_string())), Some(TextPreviewKind::PlainText));
    assert_eq!(preview_kind_for_extension(None), None);
}

#[test]
fn archive_format_follows_lowercased_name() {
    assert_eq!(read_zip_entries("C:/x/Backup.ZIP"), Some(ArchiveFormat::Zip));
    assert_eq!(read_zip_entries("a.7z"), Some(ArchiveFormat::SevenZip));
    assert_eq!(read_zip_entries("a.RaR"), Some(ArchiveFormat::Rar));
    assert_eq!(read_zip_entries("a.tar.gz"), None);
    assert_eq!(read_zip_entries("zip"), None);
}

#[test]
fn zip_entry_formats_crc() {
    let e = zip_entry("a.txt".to_string(), 12, false, Some(0xcbf43926));
    assert_eq!(e.crc32, "cbf43926");
    assert_eq!(e.size_bytes, 12);
    let e = zip_entry("dir/".to_string(), 0, true, None);
    assert_eq!(e.crc32, "-");
    assert!(e.is_dir);
    let e = zip_entry("big".to_string(), 1, false, Some(0x1_0000_00ff));
    assert_eq!(e.crc32, "000000ff");
}

#[test]
fn size_limit_applies_only_when_positive() {
    assert!(!file_too_large(Some(10 * 1024 * 1024), 0));
    assert!(file_too_large(Some(3 * 1024), 2));
    assert!(!file_too_large(Some(2 * 1024 + 1023), 2));
    assert!(!file_too_large(None, 2));
}

#[test]
fn plain_text_preview_caps_bytes() {
    let (t, tr) = plain_text_preview(b"hello \xff world");
    assert_eq!(t, "hello \u{fffd} world");
    assert!(!tr);
    let big = vec![b'a'; MAX_TEXT_PREVIEW_BYTES + 10];
    let (t, tr) = plain_text_preview(&big);
    assert!(tr);
    assert_eq!(t.len(), MAX_TEXT_PREVIEW_BYTES);
}

#[test]
fn pdf_text_preview_cuts_on_character_boundary() {
    assert!(pdf_text_preview("  \n ".to_string()).is_none());
    assert_eq!(pdf_text_preview("short".to_string()), Some(("short".to_string(), false)));
    let mut text = "a".repeat(MAX_TEXT_PREVIEW_BYTES - 1);
    text.push('é');
    text.push_str("tail");
    let (cut, tr) = pdf_text_preview(text).unwrap();
    assert!(tr);
    assert_eq!(cut.len(), MAX_TEXT_PREVIEW_BYTES - 1);
}

#[test]
fn file_preview_reports_what_was_read() {
    let missing = preview_file_meta("/tmp/gone.txt", None, None, 0);
    assert!(!missing.exists);
    assert_eq!(missing.name, "gone.txt");
    assert!(missing.sha1.is_none());

    let facts = FileFacts {
        size_bytes: Some(3),
        modified: Some(42),
        contents: b"abc".to_vec(),
        pdf_text: None,
    };
    let p = preview_file_meta("/a.txt", None, Some(facts), 0);
    assert!(p.exists && !p.too_large);
    assert_eq!(p.name, "a.txt");
    assert_eq!(p.sha1.as_deref(), Some("a9993e364706816aba3e25717850c26c9cd0d89d"));
    assert_eq!(p.crc32.as_deref(), Some("352441c2"));
    assert_eq!(p.text_preview.as_deref(), Some("abc"));
    assert_eq!(p.modified, Some(42));

    let facts = FileFacts { size_bytes: Some(5 * 1024), modified: None, contents: vec![], pdf_text: None };
    let p = preview_file_meta("/big.bin", None, Some(facts), 1);
    assert_eq!(p.name, "big.bin");
    assert!(p.exists && p.too_large);
    assert!(p.sha1.is_none() && p.crc32.is_none());
    assert_eq!(p.size_bytes, Some(5 * 1024));
    assert!(p.text_preview.is_none());

    let pdf = FileFacts {
        size_bytes: Some(4),
        modified: None,
        contents: b"%PDF".to_vec(),
        pdf_text: Some("  page text ".to_string()),
    };
    let p = preview_file_meta("/docs/r.PDF", None, Some(pdf), 0);
    assert_eq!(p.text_preview.as_deref(), Some("  page text "));
    assert!(!p.text_preview_truncated);

    let dotfile = FileFacts { size_bytes: Some(1), modified: None, contents: b"x".to_vec(), pdf_text: None };
    let p = preview_file_meta("/home/u/.bashrc", None, Some(dotfile), 0);
    assert_eq!(p.name, ".bashrc");
    assert!(p.text_preview.is_none());
    assert_eq!(preview_file_meta("/", None, None, 0).name, "/");
}

#[test]
fn network_share_paths_have_names_and_extensions() {
    assert_eq!(text_preview_kind("//server/share/notes.txt"), Some(TextPreviewKind::PlainText));
    assert_eq!(text_preview_kind("\\\\server\\share\\Report.PDF"), Some(TextPreviewKind::Pdf));
    let p = preview_file_meta("//server/share/report.pdf", None, None, 0);
    assert_eq!(p.name, "report.pdf");
    assert_eq!(read_zip_entries("A.ZIP"), Some(ArchiveFormat::Zip));
}
