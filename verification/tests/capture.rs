use clipvault::capture::{
    build_files_entry, build_image_entry, build_text_entry, image_needed, now_millis,
    read_clipboard, store_capture, timestamp_from_millis, TEXT_PREVIEW_CHARS,
};
use clipvault::encode::hash_bytes;
use clipvault::history::History;

fn file(path: &str) -> String {
    path.to_string()
}

fn bmp(width: u32, height: u32) -> Vec<u8> {
    let img = image::RgbImage::from_pixel(width, height, image::Rgb([10, 20, 30]));
    let mut bytes = Vec::new();
    image::DynamicImage::ImageRgb8(img)
        .write_to(&mut std::io::Cursor::new(&mut bytes), image::ImageFormat::Bmp)
        .unwrap();
    bytes
}

#[test]
fn text_entry_collapses_whitespace_in_preview() {
    let e = build_text_entry("  Hello \n\t world  ".to_string());
    assert_eq!(e.kind, "text");
    assert_eq!(e.preview, "Hello world");
    assert_eq!(e.search_text, "  Hello \n\t world  ");
    assert_eq!(e.content.as_deref(), Some("  Hello \n\t world  "));
    assert_eq!(e.hash, hash_bytes("  Hello \n\t world  ".as_bytes()));
    assert!(e.image_path.is_none() && e.file_list.is_none() && e.thumbnail.is_none());
}

#[test]
fn text_entry_preview_is_capped() {
    let long = "é".repeat(TEXT_PREVIEW_CHARS + 50);
    let e = build_text_entry(long.clone());
    assert_eq!(e.preview.chars().count(), TEXT_PREVIEW_CHARS);
    assert_eq!(e.search_text, long);
}

#[test]
fn files_entry_lists_names_and_keeps_paths_as_json() {
    let e = build_files_entry(vec![file("C:/d/a.txt"), file("/home/u/b.png")]);
    assert_eq!(e.kind, "files");
    assert_eq!(e.preview, "a.txt, b.png");
    assert_eq!(e.search_text, "a.txt, b.png");
    let json = e.file_list.clone().unwrap();
    assert_eq!(json, "[\"C:/d/a.txt\",\"/home/u/b.png\"]");
    assert_eq!(e.hash, hash_bytes(json.as_bytes()));
    assert!(e.content.is_none());
}

#[test]
fn clipboard_prefers_files_then_image_then_text() {
    let text = Some("hi".to_string());
    let files = Some(vec![file("/a")]);
    let e = read_clipboard(false, files, None, text.clone()).unwrap();
    assert_eq!(e.kind, "files");

    let img = build_image_entry(&bmp(2, 2), 0).unwrap().into_entry(Some("/i.png".to_string()));
    let e = read_clipboard(false, Some(vec![]), Some(img), text.clone()).unwrap();
    assert_eq!(e.kind, "image");

    let e = read_clipboard(false, None, None, text.clone()).unwrap();
    assert_eq!(e.kind, "text");

    assert!(read_clipboard(false, None, None, Some(" \n\t".to_string())).is_none());
    assert!(read_clipboard(false, None, None, None).is_none());
    assert!(read_clipboard(true, Some(vec![file("/a")]), None, text).is_none());
}

#[test]
fn bitmap_is_needed_only_without_files() {
    assert!(image_needed(false, &None));
    assert!(image_needed(false, &Some(vec![])));
    assert!(!image_needed(false, &Some(vec![file("/a")])));
    assert!(!image_needed(true, &None));
}

#[test]
fn image_entry_describes_size_and_hash() {
    let bytes = bmp(4, 3);
    let c = build_image_entry(&bytes, 0).unwrap();
    assert_eq!(c.preview(), "Immagine 4x3");
    assert_eq!((c.width(), c.height()), (4, 3));
    assert!(!c.too_big());
    assert_eq!(c.hash(), &hash_bytes(&bytes));
    assert_eq!(c.file_name(), &format!("{}.png", hash_bytes(&bytes)));
    let full = image::load_from_memory(&c.png_file().unwrap()).unwrap();
    assert_eq!((full.width(), full.height()), (4, 3));
    let thumb = image::load_from_memory(c.thumbnail()).unwrap();
    assert_eq!((thumb.width(), thumb.height()), (200, 150));
    let e = c.into_entry(Some("/images/x.png".to_string()));
    assert_eq!(e.kind, "image");
    assert_eq!(e.image_path.as_deref(), Some("/images/x.png"));
    assert_eq!(e.search_text, "Immagine 4x3");
    assert!(e.thumbnail.is_some());
}

#[test]
fn oversized_image_keeps_only_thumbnail() {
    let bytes = bmp(400, 400);
    let kb = bytes.len() / 1024;
    assert!(kb > 1);
    let c = build_image_entry(&bytes, 1).unwrap();
    assert!(c.too_big());
    assert_eq!(c.preview(), &format!("Immagine 400x400 ({kb} KB, non salvata per intero)"));
    let thumb = image::load_from_memory(c.thumbnail()).unwrap();
    assert_eq!((thumb.width(), thumb.height()), (200, 200));
    let e = c.into_entry(Some("/ignored.png".to_string()));
    assert!(e.image_path.is_none());
}

#[test]
fn not_a_bitmap_gives_no_image_entry() {
    assert!(build_image_entry(b"not an image", 0).is_none());
}

#[test]
fn repeated_capture_is_stored_once() {
    let mut h = History::new();
    let e = build_text_entry("same".to_string());
    let first = store_capture(&mut h, &e, 1).unwrap();
    assert_eq!(first.unwrap().id, 1);
    assert!(store_capture(&mut h, &e, 2).unwrap().is_none());
    assert_eq!(h.rows().len(), 1);
    let other = build_text_entry("other".to_string());
    assert_eq!(store_capture(&mut h, &other, 3).unwrap().unwrap().id, 2);
    assert_eq!(store_capture(&mut h, &e, 4).unwrap().unwrap().id, 3);
}

#[test]
fn timestamps_come_from_milliseconds() {
    assert_eq!(timestamp_from_millis(Some(1234)), 1234);
    assert_eq!(timestamp_from_millis(None), 0);
    assert!(now_millis() > 1_600_000_000_000);
}
