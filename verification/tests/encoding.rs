use clipvault::capture::build_files_entry;
use clipvault::commands::{file_list_paths, image_preview, import_plan, ImportImage, ImportRecord};
use clipvault::encode::{decimal_i64, decimal_u64, hash_bytes, hex_u32, to_hex_lower};
use clipvault::history::FullEntry;
use clipvault::preview::{preview_file_meta, FileFacts, FilePreview};
use clipvault::search::{escape_like, like_match};
use clipvault::text::{chars_of, collapse_whitespace, join_strings, take_chars};

fn like(t: &str, p: &str) -> bool {
    like_match(&chars_of(t), &chars_of(p))
}

#[test]
fn hex_of_bytes_is_lowercase_two_digits_each() {
    assert_eq!(to_hex_lower(&[0x00, 0xab, 0xff, 0x10]), "00abff10");
    assert_eq!(to_hex_lower(&[]), "");
}

#[test]
fn hex_u32_pads_to_eight_digits() {
    assert_eq!(hex_u32(0xcbf43926), "cbf43926");
    assert_eq!(hex_u32(1), "00000001");
    assert_eq!(hex_u32(0), "00000000");
}

#[test]
fn decimal_formatting_matches_display() {
    assert_eq!(decimal_u64(0), "0");
    assert_eq!(decimal_u64(12345), "12345");
    assert_eq!(decimal_u64(u64::MAX), u64::MAX.to_string());
    assert_eq!(decimal_i64(-42), "-42");
    assert_eq!(decimal_i64(i64::MIN), i64::MIN.to_string());
    assert_eq!(decimal_i64(7), "7");
}

fn base64_of(bytes: &[u8]) -> String {
    let url = image_preview(bytes, false).image_data_url.unwrap();
    url.strip_prefix("data:image/png;base64,").unwrap().to_string()
}

fn thumbnail_record(encoded: &str) -> ImportRecord {
    ImportRecord {
        kind: "image".to_string(),
        preview: "p".to_string(),
        search_text: "p".to_string(),
        content: None,
        file_list: None,
        image_base64: Some(encoded.to_string()),
        image_is_thumbnail: true,
        pinned: false,
        created_at: 1,
    }
}

fn decoded(encoded: &str) -> Result<Vec<u8>, String> {
    match import_plan(thumbnail_record(encoded))?.unwrap().image {
        ImportImage::Thumbnail(b) => Ok(b),
        _ => panic!("a thumbnail was expected"),
    }
}

fn file_facts(contents: &[u8]) -> FilePreview {
    let facts = FileFacts {
        size_bytes: Some(contents.len() as u64),
        modified: None,
        contents: contents.to_vec(),
        pdf_text: None,
    };
    preview_file_meta("/tmp/f.bin", None, Some(facts), 0)
}

#[test]
fn base64_encodes_with_padding() {
    assert_eq!(base64_of(b""), "");
    assert_eq!(base64_of(b"a"), "YQ==");
    assert_eq!(base64_of(b"ab"), "YWI=");
    assert_eq!(base64_of(b"abc"), "YWJj");
    assert_eq!(base64_of(b"hello"), "aGVsbG8=");
    assert_eq!(base64_of(&[0xfb, 0xff]), "+/8=");
}

#[test]
fn base64_decodes_only_canonical_text() {
    assert_eq!(decoded("aGVsbG8=").unwrap(), b"hello".to_vec());
    assert!(decoded("aGVsbG8").is_err());
    assert!(decoded("aGVsbG9=").is_err());
    assert!(decoded("a b=").is_err());
}

#[test]
fn base64_round_trips_bytes() {
    let bytes: Vec<u8> = (0..=255u8).collect();
    assert_eq!(decoded(&base64_of(&bytes)).unwrap(), bytes);
}

#[test]
fn hash_bytes_is_sha256_hex() {
    assert_eq!(
        hash_bytes(b"abc"),
        "ba7816bf8f01cfea414140de5dae2223b00361a396177a9cb410ff61f20015ad"
    );
    assert_eq!(
        hash_bytes(b""),
        "e3b0c44298fc1c149afbf4c8996fb92427ae41e4649b934ca495991b7852b855"
    );
}

#[test]
fn sha1_and_crc32_known_values() {
    let abc = file_facts(b"abc");
    assert_eq!(abc.sha1.as_deref(), Some("a9993e364706816aba3e25717850c26c9cd0d89d"));
    assert_eq!(file_facts(b"123456789").crc32.as_deref(), Some("cbf43926"));
    assert_eq!(file_facts(b"").crc32.as_deref(), Some("00000000"));
}

#[test]
fn collapse_whitespace_joins_words_with_single_spaces() {
    assert_eq!(collapse_whitespace("  a \t b\n\nc  "), "a b c");
    assert_eq!(collapse_whitespace("   "), "");
    assert_eq!(collapse_whitespace("one"), "one");
    assert_eq!(collapse_whitespace("x\u{3000}y\u{a0}z"), "x y z");
}

#[test]
fn take_chars_counts_characters_not_bytes() {
    assert_eq!(take_chars("héllo", 2), "hé");
    assert_eq!(take_chars("ab", 5), "ab");
}

#[test]
fn join_strings_puts_separator_between_items() {
    let items = vec!["a".to_string(), "b".to_string(), "c".to_string()];
    assert_eq!(join_strings(&items, ", "), "a, b, c");
    assert_eq!(join_strings(&vec![], ", "), "");
    assert_eq!(join_strings(&vec!["only".to_string()], ", "), "only");
}

#[test]
fn escape_like_escapes_wildcards_and_backslash() {
    assert_eq!(escape_like("100%"), "%100\\%%");
    assert_eq!(escape_like("a_b\\c"), "%a\\_b\\\\c%");
    assert_eq!(escape_like(""), "%%");
}

#[test]
fn like_matching_follows_sql_rules() {
    assert!(like("Hello World", "%world%"));
    assert!(like("HELLO", "hello"));
    assert!(!like("hello", "hell"));
    assert!(like("hello", "h_llo"));
    assert!(like("100% done", "%100\\%%"));
    assert!(!like("100x done", "%100\\%%"));
    assert!(like("", "%"));
    assert!(!like("a", "a\\"));
    // Only ASCII letters are folded.
    assert!(!like("É", "é"));
    assert!(like("a_b", "%\\_%"));
    assert!(!like("ab", "%\\_%"));
}

fn files(paths: &[&str]) -> Vec<String> {
    paths.iter().map(|p| p.to_string()).collect()
}

fn listed_paths(json: &str) -> Result<Vec<String>, String> {
    let entry = FullEntry {
        kind: "files".to_string(),
        content: None,
        image_path: None,
        file_list: Some(json.to_string()),
        thumbnail: None,
    };
    file_list_paths(&entry)
}

#[test]
fn json_list_encoding_escapes_strings() {
    let entry = build_files_entry(files(&["a\"b", "c\\d", "\n\u{1}", "é"]));
    assert_eq!(entry.file_list.unwrap(), "[\"a\\\"b\",\"c\\\\d\",\"\\n\\u0001\",\"é\"]");
    assert_eq!(build_files_entry(Vec::new()).file_list.unwrap(), "[]");
}

#[test]
fn json_list_decoding_round_trips_and_reports_errors() {
    let items = vec!["C:\\x\\y.txt".to_string(), "z".to_string()];
    let text = build_files_entry(files(&["C:\\x\\y.txt", "z"])).file_list.unwrap();
    assert_eq!(listed_paths(&text).unwrap(), items);
    assert!(listed_paths("not json").is_err());
}
