use base64::Engine;
use clipvault::commands::{
    autostart_change, copy_action, entry_path, export_entry, file_list_paths, full_entry,
    hotkey_changes, image_preview, import_plan, preview_source, stored_settings,
    thumbnail_from_png, png_to_bmp, CopyAction, ImportImage, ImportRecord, PathAction, PreviewSource,
};
use clipvault::encode::hash_bytes;
use clipvault::history::{FullEntry, History, NewEntry, StoredEntry};
use clipvault::window::{close_request_hides, toggle_main_window, tray_menu_action, TrayAction, WindowToggle};

fn full(kind: &str) -> FullEntry {
    FullEntry { kind: kind.to_string(), content: None, image_path: None, file_list: None, thumbnail: None }
}

fn standard_base64(bytes: &[u8]) -> String {
    base64::engine::general_purpose::STANDARD.encode(bytes)
}

fn png(width: u32, height: u32) -> Vec<u8> {
    let img = image::RgbImage::from_pixel(width, height, image::Rgb([1, 2, 3]));
    let mut bytes = Vec::new();
    image::DynamicImage::ImageRgb8(img)
        .write_to(&mut std::io::Cursor::new(&mut bytes), image::ImageFormat::Png)
        .unwrap();
    bytes
}

#[test]
fn full_entry_reports_missing_id() {
    let mut h = History::new();
    let e = NewEntry {
        kind: "text",
        preview: "p".to_string(),
        search_text: "p".to_string(),
        content: Some("p".to_string()),
        image_path: None,
        file_list: None,
        thumbnail: Some(vec![1, 2]),
        hash: "h".to_string(),
    };
    let id = h.insert(&e, 5).unwrap().id;
    let f = full_entry(&h, id).unwrap();
    assert_eq!(f.thumbnail, Some(vec![1, 2]));
    assert_eq!(full_entry(&h, id + 1).err().unwrap(), "entry not found");
}

#[test]
fn copy_action_per_kind() {
    let mut t = full("text");
    t.content = Some("hello".to_string());
    assert!(matches!(copy_action(t).unwrap(), CopyAction::Text(s) if s == "hello"));
    assert!(matches!(copy_action(full("text")).unwrap(), CopyAction::Text(s) if s.is_empty()));
    assert_eq!(
        copy_action(full("image")).err().unwrap(),
        "immagine troppo grande, non salvata per intero"
    );
    let mut f = full("files");
    f.file_list = Some("[\"/a\",\"/b\"]".to_string());
    assert!(matches!(copy_action(f).unwrap(), CopyAction::Files(v) if v == vec!["/a", "/b"]));
    assert_eq!(copy_action(full("files")).err().unwrap(), "missing file list");
    assert_eq!(copy_action(full("audio")).err().unwrap(), "unknown entry kind: audio");
}

#[test]
fn entry_path_for_open_and_reveal() {
    let mut i = full("image");
    i.image_path = Some("/img.png".to_string());
    assert_eq!(entry_path(i, PathAction::Open).unwrap(), "/img.png");
    let mut f = full("files");
    f.file_list = Some("[\"/first\",\"/second\"]".to_string());
    assert_eq!(entry_path(f, PathAction::Reveal).unwrap(), "/first");
    let mut e = full("files");
    e.file_list = Some("[]".to_string());
    assert_eq!(entry_path(e, PathAction::Open).err().unwrap(), "empty file list");
    assert_eq!(entry_path(full("text"), PathAction::Open).err().unwrap(), "cannot open entry kind: text");
    assert_eq!(entry_path(full("text"), PathAction::Reveal).err().unwrap(), "cannot reveal entry kind: text");
}

#[test]
fn file_list_paths_reports_parse_errors() {
    let mut f = full("files");
    f.file_list = Some("{oops".to_string());
    assert!(file_list_paths(&f).is_err());
}

#[test]
fn preview_source_per_kind() {
    let mut t = full("text");
    t.content = Some("body".to_string());
    match preview_source(t).unwrap() {
        PreviewSource::Ready(p) => {
            assert_eq!(p.kind, "text");
            assert_eq!(p.text.as_deref(), Some("body"));
        }
        _ => panic!("expected a ready preview"),
    }
    let mut i = full("image");
    i.image_path = Some("/full.png".to_string());
    i.thumbnail = Some(vec![9]);
    assert!(matches!(preview_source(i).unwrap(), PreviewSource::ImageFile(p) if p == "/full.png"));
    let mut th = full("image");
    th.thumbnail = Some(vec![1, 2, 3]);
    match preview_source(th).unwrap() {
        PreviewSource::Ready(p) => {
            assert!(p.image_is_thumbnail);
            assert_eq!(p.kind, "image");
            assert!(p.text.is_none() && p.files.is_none());
            assert_eq!(p.image_data_url.as_deref(), Some("data:image/png;base64,AQID"));
        }
        _ => panic!("expected the thumbnail"),
    }
    assert_eq!(
        preview_source(full("image")).err().unwrap(),
        "nessuna immagine disponibile per l'anteprima"
    );
    assert_eq!(preview_source(full("x")).err().unwrap(), "unknown entry kind: x");
}

#[test]
fn image_preview_is_a_png_data_url() {
    let p = image_preview(b"hi", false);
    assert_eq!(p.image_data_url.as_deref(), Some("data:image/png;base64,aGk="));
    assert!(!p.image_is_thumbnail);
}

#[test]
fn export_then_import_keeps_the_image_bytes() {
    let row = StoredEntry {
        id: 3,
        kind: "image".to_string(),
        preview: "Immagine 1x1".to_string(),
        search_text: "Immagine 1x1".to_string(),
        content: None,
        image_path: None,
        file_list: None,
        thumbnail: Some(vec![7, 8, 9, 10]),
        hash: "h".to_string(),
        pinned: true,
        created_at: 99,
    };
    let x = export_entry(&row, None);
    assert!(x.image_is_thumbnail);
    assert_eq!(x.image_base64.as_deref(), Some("BwgJCg=="));
    let rec = ImportRecord {
        kind: x.kind,
        preview: x.preview,
        search_text: x.search_text,
        content: x.content,
        file_list: x.file_list,
        image_base64: x.image_base64,
        image_is_thumbnail: x.image_is_thumbnail,
        pinned: x.pinned,
        created_at: x.created_at,
    };
    let plan = import_plan(rec).unwrap().unwrap();
    assert!(plan.pinned);
    assert_eq!(plan.created_at, 99);
    assert_eq!(plan.hash, hash_bytes(b"image-99-Immagine 1x1"));
    assert!(matches!(&plan.image, ImportImage::Thumbnail(b) if *b == vec![7, 8, 9, 10]));
    let e = plan.into_entry(None);
    assert_eq!(e.thumbnail, Some(vec![7, 8, 9, 10]));
    assert!(e.image_path.is_none());
}

#[test]
fn export_of_saved_image_carries_file_bytes() {
    let row = StoredEntry {
        id: 1,
        kind: "image".to_string(),
        preview: "p".to_string(),
        search_text: "s".to_string(),
        content: None,
        image_path: Some("/x.png".to_string()),
        file_list: None,
        thumbnail: Some(vec![1]),
        hash: "h".to_string(),
        pinned: false,
        created_at: 1,
    };
    let x = export_entry(&row, Some(b"png".to_vec()));
    assert_eq!(x.image_base64.as_deref(), Some("cG5n"));
    assert!(!x.image_is_thumbnail);
    assert!(export_entry(&row, None).image_base64.is_none());
}

#[test]
fn import_skips_unknown_kinds_and_rejects_bad_base64() {
    let rec = |kind: &str, image: Option<&str>, thumb: bool| ImportRecord {
        kind: kind.to_string(),
        preview: "p".to_string(),
        search_text: "s".to_string(),
        content: Some("c".to_string()),
        file_list: None,
        image_base64: image.map(|s| s.to_string()),
        image_is_thumbnail: thumb,
        pinned: false,
        created_at: -5,
    };
    assert!(import_plan(rec("audio", None, false)).unwrap().is_none());
    assert!(import_plan(rec("image", Some("!!"), false)).is_err());
    let plan = import_plan(rec("text", None, false)).unwrap().unwrap();
    assert_eq!(plan.hash, hash_bytes(b"text--5-c"));
    let bytes = png(3, 3);
    let plan = import_plan(rec("image", Some(&standard_base64(&bytes)), false)).unwrap().unwrap();
    match &plan.image {
        ImportImage::Full { bytes: b, file_name } => {
            assert_eq!(*b, bytes);
            assert_eq!(*file_name, format!("{}.png", hash_bytes(&bytes)));
        }
        _ => panic!("expected a full image"),
    }
    let e = plan.into_entry(Some("/saved.png".to_string()));
    assert_eq!(e.image_path.as_deref(), Some("/saved.png"));
    assert!(e.thumbnail.is_some());
}

#[test]
fn png_conversions() {
    let bytes = png(5, 2);
    let bmp = png_to_bmp(&bytes).unwrap();
    assert_eq!(&bmp[0..2], b"BM");
    let t = thumbnail_from_png(&bytes).unwrap();
    let img = image::load_from_memory(&t).unwrap();
    assert_eq!((img.width(), img.height()), (200, 80));
    assert!(thumbnail_from_png(b"nope").is_none());
    assert!(png_to_bmp(b"nope").is_err());
}

#[test]
fn settings_decisions() {
    assert_eq!(stored_settings(0, -3, -1), (1, 0, 0));
    assert_eq!(stored_settings(50, 2048, 30), (50, 2048, 30));
    assert_eq!(autostart_change(true, false), Some(true));
    assert_eq!(autostart_change(false, true), Some(false));
    assert_eq!(autostart_change(false, false), None);
    assert!(hotkey_changes("Ctrl+Alt+V", "Ctrl+Shift+V"));
    assert!(!hotkey_changes("Ctrl+Shift+V", "Ctrl+Shift+V"));
}

#[test]
fn window_decisions() {
    assert_eq!(toggle_main_window(false, Some(true)), WindowToggle::Nothing);
    assert_eq!(toggle_main_window(true, Some(true)), WindowToggle::Hide);
    assert_eq!(toggle_main_window(true, Some(false)), WindowToggle::ShowAndFocus);
    assert_eq!(toggle_main_window(true, None), WindowToggle::ShowAndFocus);
    assert_eq!(tray_menu_action("show"), TrayAction::ToggleMain);
    assert_eq!(tray_menu_action("settings"), TrayAction::ShowSettings);
    assert_eq!(tray_menu_action("quit"), TrayAction::Quit);
    assert_eq!(tray_menu_action("other"), TrayAction::Ignore);
    assert!(close_request_hides("main"));
    assert!(close_request_hides("settings"));
    assert!(!close_request_hides("viewer"));
}
