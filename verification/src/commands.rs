//! The decisions behind the user's commands: what copying, opening,
//! revealing or previewing an entry does, which settings are stored, and how
//! entries are written to and read back from an export file.

use vstd::prelude::*;
use crate::encode::{base64, base64_decode, base64_decode_error, base64_encode, decimal_signed, decimal_i64, hash_bytes, hex_lower, sha256};
use crate::history::{clone_opt_string, clone_string, FullEntry, History, NewEntry, Row, StoredEntry, full_of, has_id, opt_bytes, opt_chars};
use crate::json::{json_decode_string_list, json_parse_string_list, json_string_list};
use crate::preview::FilePreview;
use crate::raster::{fits_keeping_aspect, decode_guessing, encode_as, image_load_outcome, raster_encoding, raster_height, raster_width, thumbnail, RasterFormat, RasterOrigin};
use crate::capture::{fitted, THUMBNAIL_MAX};
use crate::text::{push_str, str_eq};

verus! {

/// How many entries and snippets an export or import handled.
pub struct ExportSummary {
    pub entries: i64,
    pub snippets: i64,
}

/// What the large preview shows of an entry.
pub struct PreviewData {
    pub kind: String,
    pub text: Option<String>,
    pub image_data_url: Option<String>,
    /// Set when the preview is a downscaled thumbnail rather than the
    /// full-resolution image (because it was too large to save in full).
    pub image_is_thumbnail: bool,
    pub files: Option<Vec<FilePreview>>,
}

/// The settings shown in the settings window.
pub struct Settings {
    pub max_history: i64,
    pub max_file_kb: i64,
    pub max_age_days: i64,
    pub autostart: bool,
    pub hotkey: String,
    pub language: String,
    pub version: String,
}

/// The three entry kinds are different words.
pub proof fn lemma_kinds_distinct()
    ensures
        "text"@ != "image"@,
        "text"@ != "files"@,
        "image"@ != "files"@,
{
    reveal_strlit("text");
    reveal_strlit("image");
    reveal_strlit("files");
    assert("text"@.len() != "image"@.len());
    assert("text"@.len() != "files"@.len());
    assert("image"@[0] != "files"@[0]);
}

/// The message for an entry kind that a command does not know.
pub open spec fn kind_message(prefix: Seq<char>, kind: Seq<char>) -> Seq<char> {
    prefix + kind
}

fn message(prefix: &str, kind: &str) -> (res: String)
    ensures
        res@ == kind_message(prefix@, kind@),
{
    let mut s = String::new();
    push_str(&mut s, prefix);
    push_str(&mut s, kind);
    assert(s@ =~= prefix@ + kind@);
    s
}

/// The stored entry with id `id`, or the message "entry not found".
pub fn full_entry(history: &History, id: i64) -> (res: Result<FullEntry, String>)
    ensures
        res is Ok <==> has_id(history@.rows, id),
        res matches Ok(f) ==> exists|k: int|
            0 <= k < history@.rows.len() && history@.rows[k].id == id && f@ == full_of(history@.rows[k]),
        res matches Err(m) ==> m@ == "entry not found"@,
{
    match history.get_full(id) {
        Some(f) => Ok(f),
        None => Err("entry not found".to_owned()),
    }
}

/// The text of an optional string, empty when there is none.
pub open spec fn opt_text(o: Option<String>) -> Seq<char> {
    match o {
        Some(s) => s@,
        None => Seq::empty(),
    }
}

/// The paths a file entry keeps as a JSON list: "missing file list" when it
/// keeps none, or the parser's message when the text is not such a list.
pub fn file_list_paths(entry: &FullEntry) -> (res: Result<Vec<String>, String>)
    ensures
        forall|v: Seq<Seq<char>>| #[trigger] json_string_list(v) == opt_text(entry.file_list) ==> (res matches Ok(p)
            && p@.map_values(|s: String| s@) == v),
        entry.file_list is None ==> (res matches Err(m) && m@ == "missing file list"@),
        entry.file_list matches Some(j) ==> match res {
            Ok(v) => json_parse_string_list(j@) == Ok::<Seq<Seq<char>>, Seq<char>>(
                v@.map_values(|s: String| s@),
            ),
            Err(m) => json_parse_string_list(j@) == Err::<Seq<Seq<char>>, Seq<char>>(m@),
        },
{
    match &entry.file_list {
        Some(j) => json_decode_string_list(j.as_str()),
        None => Err("missing file list".to_owned()),
    }
}

/// The message when an image entry kept only its thumbnail.
pub open spec fn image_not_saved_message() -> Seq<char> {
    "immagine troppo grande, non salvata per intero"@
}

/// What copying an entry back to the clipboard writes.
pub enum CopyAction {
    /// The text (empty when the entry keeps none).
    Text(String),
    /// The image saved at this path, converted to a bitmap.
    ImageFile(String),
    /// These files, as a file list.
    Files(Vec<String>),
}

/// What copying the entry writes to the clipboard: a text entry's content;
/// an image entry's saved file (an error when only the thumbnail was kept);
/// a file entry's paths; an error naming any other kind.
pub fn copy_action(entry: FullEntry) -> (res: Result<CopyAction, String>)
    ensures
        entry.kind@ == "text"@ ==> (res matches Ok(CopyAction::Text(t)) && t@ == match entry.content {
            Some(c) => c@,
            None => Seq::<char>::empty(),
        }),
        entry.kind@ == "image"@ ==> match entry.image_path {
            Some(p) => res matches Ok(CopyAction::ImageFile(q)) && q@ == p@,
            None => res matches Err(m) && m@ == image_not_saved_message(),
        },
        entry.kind@ == "files"@ ==> match entry.file_list {
            None => res matches Err(m) && m@ == "missing file list"@,
            Some(j) => match res {
                Ok(CopyAction::Files(v)) => json_parse_string_list(j@) == Ok::<Seq<Seq<char>>, Seq<char>>(
                    v@.map_values(|s: String| s@),
                ),
                Err(m) => json_parse_string_list(j@) == Err::<Seq<Seq<char>>, Seq<char>>(m@),
                _ => false,
            },
        },
        entry.kind@ != "text"@ && entry.kind@ != "image"@ && entry.kind@ != "files"@ ==> (res matches Err(m)
            && m@ == kind_message("unknown entry kind: "@, entry.kind@)),
{
    proof {
        lemma_kinds_distinct();
    }
    if str_eq(entry.kind.as_str(), "text") {
        let text = match entry.content {
            Some(c) => c,
            None => String::new(),
        };
        Ok(CopyAction::Text(text))
    } else if str_eq(entry.kind.as_str(), "image") {
        match entry.image_path {
            Some(p) => Ok(CopyAction::ImageFile(p)),
            None => Err("immagine troppo grande, non salvata per intero".to_owned()),
        }
    } else if str_eq(entry.kind.as_str(), "files") {
        match file_list_paths(&entry) {
            Ok(v) => Ok(CopyAction::Files(v)),
            Err(m) => Err(m),
        }
    } else {
        Err(message("unknown entry kind: ", entry.kind.as_str()))
    }
}

/// What re-encoding a saved PNG image as a bitmap gives: the message of the
/// decoding error, else what encoding the decoded image as BMP gives.
pub open spec fn png_as_bmp(png: Seq<u8>) -> Result<Seq<u8>, Seq<char>> {
    match image_load_outcome(png) {
        Some(m) => Err(m),
        None => raster_encoding(RasterOrigin::Guessed { bytes: png }, RasterFormat::Bmp),
    }
}

/// A saved PNG image re-encoded as a bitmap for the clipboard, or the
/// message of the decoding or encoding error.
pub fn png_to_bmp(png_bytes: &[u8]) -> (res: Result<Vec<u8>, String>)
    ensures
        match res {
            Ok(b) => png_as_bmp(png_bytes@) == Ok::<Seq<u8>, Seq<char>>(b@),
            Err(m) => png_as_bmp(png_bytes@) == Err::<Seq<u8>, Seq<char>>(m@),
        },
{
    let img = match decode_guessing(png_bytes) {
        Ok(img) => img,
        Err(m) => return Err(m),
    };
    encode_as(&img, RasterFormat::Bmp)
}

/// Whether an entry's file is opened with the default program or shown in
/// its folder.
#[derive(Debug, PartialEq, Eq, Clone, Copy)]
pub enum PathAction {
    Open,
    Reveal,
}

/// The start of the message for a kind that has no file to open or reveal.
pub open spec fn path_action_prefix(action: PathAction) -> Seq<char> {
    match action {
        PathAction::Open => "cannot open entry kind: "@,
        PathAction::Reveal => "cannot reveal entry kind: "@,
    }
}

/// The path that opening or revealing an entry acts on: an image entry's
/// saved file (an error when only the thumbnail was kept); the first path of
/// a file entry ("empty file list" when it has none); an error naming any
/// other kind.
pub fn entry_path(entry: FullEntry, action: PathAction) -> (res: Result<String, String>)
    ensures
        entry.kind@ == "image"@ ==> match entry.image_path {
            Some(p) => res matches Ok(q) && q@ == p@,
            None => res matches Err(m) && m@ == image_not_saved_message(),
        },
        entry.kind@ == "files"@ ==> match entry.file_list {
            None => res matches Err(m) && m@ == "missing file list"@,
            Some(j) => match json_parse_string_list(j@) {
                Ok(v) => if v.len() > 0 {
                    res matches Ok(q) && q@ == v[0]
                } else {
                    res matches Err(m) && m@ == "empty file list"@
                },
                Err(e) => res matches Err(m) && m@ == e,
            },
        },
        entry.kind@ != "image"@ && entry.kind@ != "files"@ ==> (res matches Err(m) && m@ == kind_message(
            path_action_prefix(action),
            entry.kind@,
        )),
{
    proof {
        lemma_kinds_distinct();
    }
    if str_eq(entry.kind.as_str(), "image") {
        match entry.image_path {
            Some(p) => Ok(p),
            None => Err("immagine troppo grande, non salvata per intero".to_owned()),
        }
    } else if str_eq(entry.kind.as_str(), "files") {
        let paths = match file_list_paths(&entry) {
            Ok(v) => v,
            Err(m) => return Err(m),
        };
        let ghost pv = paths@.map_values(|s: String| s@);
        let mut paths = paths;
        if paths.len() == 0 {
            Err("empty file list".to_owned())
        } else {
            let first = paths.swap_remove(0);
            assert(first@ == pv[0]);
            Ok(first)
        }
    } else {
        match action {
            PathAction::Open => Err(message("cannot open entry kind: ", entry.kind.as_str())),
            PathAction::Reveal => Err(message("cannot reveal entry kind: ", entry.kind.as_str())),
        }
    }
}

/// Where the large preview of an entry comes from.
pub enum PreviewSource {
    /// Everything is known: the preview itself.
    Ready(PreviewData),
    /// The full image saved at this path.
    ImageFile(String),
    /// These files, each to be previewed.
    Files(Vec<String>),
}

/// The data URL of a PNG image.
pub open spec fn png_data_url(bytes: Seq<u8>) -> Seq<char> {
    "data:image/png;base64,"@ + base64(bytes)
}

/// The preview of an image from its PNG bytes, marked when they are only
/// the thumbnail.
pub fn image_preview(bytes: &[u8], image_is_thumbnail: bool) -> (res: PreviewData)
    ensures
        res.kind@ == "image"@,
        res.text is None,
        res.image_data_url matches Some(u) && u@ == png_data_url(bytes@),
        res.image_is_thumbnail == image_is_thumbnail,
        res.files is None,
{
    let mut url = String::new();
    push_str(&mut url, "data:image/png;base64,");
    push_str(&mut url, base64_encode(bytes).as_str());
    PreviewData {
        kind: "image".to_owned(),
        text: None,
        image_data_url: Some(url),
        image_is_thumbnail,
        files: None,
    }
}

/// The preview of a file entry from the previews of its files.
pub fn files_preview(files: Vec<FilePreview>) -> (res: PreviewData)
    ensures
        res.kind@ == "files"@,
        res.text is None,
        res.image_data_url is None,
        !res.image_is_thumbnail,
        res.files == Some(files),
{
    PreviewData { kind: "files".to_owned(), text: None, image_data_url: None, image_is_thumbnail: false, files: Some(files) }
}

/// Where the large preview of an entry comes from: a text entry's content;
/// an image entry's saved file, or else its thumbnail (an error when it has
/// neither); a file entry's paths; an error naming any other kind.
pub fn preview_source(entry: FullEntry) -> (res: Result<PreviewSource, String>)
    ensures
        entry.kind@ == "text"@ ==> (res matches Ok(PreviewSource::Ready(p)) && p.kind@ == "text"@
            && opt_chars(p.text) == opt_chars(entry.content) && p.image_data_url is None
            && !p.image_is_thumbnail && p.files is None),
        entry.kind@ == "image"@ ==> match entry.image_path {
            Some(path) => res matches Ok(PreviewSource::ImageFile(q)) && q@ == path@,
            None => match entry.thumbnail {
                Some(t) => res matches Ok(PreviewSource::Ready(p)) && p.kind@ == "image"@ && p.text is None
                    && (p.image_data_url matches Some(u) && u@ == png_data_url(t@)) && p.image_is_thumbnail
                    && p.files is None,
                None => res matches Err(m) && m@ == "nessuna immagine disponibile per l'anteprima"@,
            },
        },
        entry.kind@ == "files"@ ==> match entry.file_list {
            None => res matches Err(m) && m@ == "missing file list"@,
            Some(j) => match res {
                Ok(PreviewSource::Files(v)) => json_parse_string_list(j@) == Ok::<
                    Seq<Seq<char>>,
                    Seq<char>,
                >(v@.map_values(|s: String| s@)),
                Err(m) => json_parse_string_list(j@) == Err::<Seq<Seq<char>>, Seq<char>>(m@),
                _ => false,
            },
        },
        entry.kind@ != "text"@ && entry.kind@ != "image"@ && entry.kind@ != "files"@ ==> (res matches Err(m)
            && m@ == kind_message("unknown entry kind: "@, entry.kind@)),
{
    proof {
        lemma_kinds_distinct();
    }
    if str_eq(entry.kind.as_str(), "text") {
        Ok(
            PreviewSource::Ready(
                PreviewData {
                    kind: "text".to_owned(),
                    text: entry.content,
                    image_data_url: None,
                    image_is_thumbnail: false,
                    files: None,
                },
            ),
        )
    } else if str_eq(entry.kind.as_str(), "image") {
        match entry.image_path {
            Some(p) => Ok(PreviewSource::ImageFile(p)),
            None => match &entry.thumbnail {
                Some(t) => Ok(PreviewSource::Ready(image_preview(t.as_slice(), true))),
                None => Err("nessuna immagine disponibile per l'anteprima".to_owned()),
            },
        }
    } else if str_eq(entry.kind.as_str(), "files") {
        match file_list_paths(&entry) {
            Ok(v) => Ok(PreviewSource::Files(v)),
            Err(m) => Err(m),
        }
    } else {
        Err(message("unknown entry kind: ", entry.kind.as_str()))
    }
}

/// The thumbnail of a PNG image: the image shrunk to fit `THUMBNAIL_MAX`
/// and encoded as PNG again; `None` when it cannot be decoded or encoded.
pub open spec fn png_thumbnail(png: Seq<u8>) -> Option<Seq<u8>> {
    if image_load_outcome(png) is None {
        match raster_encoding(fitted(RasterOrigin::Guessed { bytes: png }), RasterFormat::Png) {
            Ok(b) => Some(b),
            Err(_) => None,
        }
    } else {
        None
    }
}

/// A PNG image shrunk to fit `THUMBNAIL_MAX` and encoded as PNG again;
/// `None` when it cannot be decoded or encoded.
pub fn thumbnail_from_png(png_bytes: &[u8]) -> (res: Option<Vec<u8>>)
    ensures
        opt_bytes(res) == png_thumbnail(png_bytes@),
        res is Some ==> 1 <= raster_width(fitted(RasterOrigin::Guessed { bytes: png_bytes@ })) <= THUMBNAIL_MAX
            && 1 <= raster_height(fitted(RasterOrigin::Guessed { bytes: png_bytes@ })) <= THUMBNAIL_MAX,
        res is Some && raster_width(RasterOrigin::Guessed { bytes: png_bytes@ }) >= 1 && raster_height(
            RasterOrigin::Guessed { bytes: png_bytes@ },
        ) >= 1 ==> fits_keeping_aspect(
            raster_width(RasterOrigin::Guessed { bytes: png_bytes@ }) as int,
            raster_height(RasterOrigin::Guessed { bytes: png_bytes@ }) as int,
            THUMBNAIL_MAX as int,
            THUMBNAIL_MAX as int,
            raster_width(fitted(RasterOrigin::Guessed { bytes: png_bytes@ })) as int,
            raster_height(fitted(RasterOrigin::Guessed { bytes: png_bytes@ })) as int,
        ),
{
    let img = match decode_guessing(png_bytes) {
        Ok(img) => img,
        Err(_) => return None,
    };
    let thumb = thumbnail(&img, THUMBNAIL_MAX, THUMBNAIL_MAX);
    match encode_as(&thumb, RasterFormat::Png) {
        Ok(b) => Some(b),
        Err(_) => None,
    }
}

/// One entry as written to an export file.
pub struct ExportEntry {
    pub kind: String,
    pub preview: String,
    pub search_text: String,
    pub content: Option<String>,
    pub file_list: Option<String>,
    pub image_base64: Option<String>,
    pub image_is_thumbnail: bool,
    pub pinned: bool,
    pub created_at: i64,
}

/// Base64 of some optional bytes.
pub open spec fn opt_base64(b: Option<Seq<u8>>) -> Option<Seq<char>> {
    match b {
        Some(x) => Some(base64(x)),
        None => None,
    }
}

/// The image bytes an export carries for a row: the saved image file's
/// bytes (when it could be read) for a row that keeps one, else its thumbnail.
pub open spec fn exported_bytes(r: Row, image_file: Option<Seq<u8>>) -> Option<Seq<u8>> {
    if r.image_path is Some {
        image_file
    } else {
        r.thumbnail
    }
}

/// Whether `e` is the export record of the row `r`, whose saved image file
/// (if it keeps one) read as `image_file`: the row's texts, pin flag and
/// creation time, and its image bytes in Base64, marked as a thumbnail when
/// only the thumbnail was kept.
pub open spec fn is_export_of(e: ExportEntry, r: Row, image_file: Option<Seq<u8>>) -> bool {
    &&& e.kind@ == r.kind
    &&& e.preview@ == r.preview
    &&& e.search_text@ == r.search_text
    &&& opt_chars(e.content) == r.content
    &&& opt_chars(e.file_list) == r.file_list
    &&& e.pinned == r.pinned
    &&& e.created_at == r.created_at
    &&& opt_chars(e.image_base64) == opt_base64(exported_bytes(r, image_file))
    &&& e.image_is_thumbnail == (r.image_path is None && r.thumbnail is Some)
}

/// An export record read back as an import record, field for field.
pub open spec fn record_of(e: ExportEntry) -> ImportRecord {
    ImportRecord {
        kind: e.kind,
        preview: e.preview,
        search_text: e.search_text,
        content: e.content,
        file_list: e.file_list,
        image_base64: e.image_base64,
        image_is_thumbnail: e.image_is_thumbnail,
        pinned: e.pinned,
        created_at: e.created_at,
    }
}

/// The export record of a stored entry. An entry with a saved image carries
/// that file's bytes (`image_file`, `None` when it could not be read) in
/// Base64; an entry with only a thumbnail carries the thumbnail, marked as
/// such; other entries carry no image.
pub fn export_entry(entry: &StoredEntry, image_file: Option<Vec<u8>>) -> (res: ExportEntry)
    ensures
        is_export_of(res, entry@, opt_bytes(image_file)),
{
    let (image_base64, image_is_thumbnail) = match (&entry.image_path, &entry.thumbnail) {
        (Some(_), _) => (
            match &image_file {
                Some(b) => Some(base64_encode(b.as_slice())),
                None => None,
            },
            false,
        ),
        (None, Some(t)) => (Some(base64_encode(t.as_slice())), true),
        (None, None) => (None, false),
    };
    ExportEntry {
        kind: clone_string(&entry.kind),
        preview: clone_string(&entry.preview),
        search_text: clone_string(&entry.search_text),
        content: clone_opt_string(&entry.content),
        file_list: clone_opt_string(&entry.file_list),
        image_base64,
        image_is_thumbnail,
        pinned: entry.pinned,
        created_at: entry.created_at,
    }
}

/// One entry as read from an export file.
pub struct ImportRecord {
    pub kind: String,
    pub preview: String,
    pub search_text: String,
    pub content: Option<String>,
    pub file_list: Option<String>,
    pub image_base64: Option<String>,
    pub image_is_thumbnail: bool,
    pub pinned: bool,
    pub created_at: i64,
}

/// The image an imported entry brings.
pub enum ImportImage {
    NoImage,
    /// Only a thumbnail, kept as the entry's thumbnail.
    Thumbnail(Vec<u8>),
    /// The full image, to be saved under `file_name`.
    Full { bytes: Vec<u8>, file_name: String },
}

/// An imported entry, ready to be stored once its full image (if any) is
/// saved.
pub struct ImportPlan {
    pub kind: &'static str,
    pub preview: String,
    pub search_text: String,
    pub content: Option<String>,
    pub file_list: Option<String>,
    pub image: ImportImage,
    pub hash: String,
    pub pinned: bool,
    pub created_at: i64,
}

/// The text an imported entry's hash is computed from: kind, creation time
/// and content (the search text when there is no content), joined by '-'.
pub open spec fn import_hash_source(kind: Seq<char>, created_at: i64, content: Option<Seq<char>>, search_text: Seq<char>) -> Seq<char> {
    kind + "-"@ + decimal_signed(created_at as int) + "-"@ + match content {
        Some(c) => c,
        None => search_text,
    }
}

/// Whether a text is the Base64 encoding of some bytes.
pub open spec fn is_base64_of_some(e: Seq<char>) -> bool {
    exists|b: Seq<u8>| base64(b) == e
}

/// Whether the export file's kind is one this library stores.
pub open spec fn known_kind(kind: Seq<char>) -> bool {
    kind == "text"@ || kind == "image"@ || kind == "files"@
}

/// Whether an import record is taken in: its kind is one this library
/// stores and its image, if any, is valid Base64.
pub open spec fn import_accepts(record: ImportRecord) -> bool {
    known_kind(record.kind@) && !(record.image_base64 matches Some(e) && !is_base64_of_some(e@))
}

/// Whether `plan` is the entry plan for `record`: the record's kind, texts,
/// pin flag and creation time, the hash of its kind, time and content (or
/// search text), and its image decoded: as a thumbnail when marked so, else
/// as a full image saved under the hex SHA-256 of its bytes and ".png".
pub open spec fn is_plan_of(plan: ImportPlan, record: ImportRecord) -> bool {
    &&& plan.kind@ == record.kind@
    &&& plan.preview@ == record.preview@
    &&& plan.search_text@ == record.search_text@
    &&& opt_chars(plan.content) == opt_chars(record.content)
    &&& opt_chars(plan.file_list) == opt_chars(record.file_list)
    &&& plan.pinned == record.pinned
    &&& plan.created_at == record.created_at
    &&& plan.hash@ == hex_lower(sha256(vstd::utf8::encode_utf8(import_hash_source(
        record.kind@,
        record.created_at,
        opt_chars(record.content),
        record.search_text@,
    ))))
    &&& match record.image_base64 {
        None => plan.image is NoImage,
        Some(e) => if record.image_is_thumbnail {
            plan.image matches ImportImage::Thumbnail(b) && base64(b@) == e@
        } else {
            plan.image matches ImportImage::Full { bytes, file_name } && base64(bytes@) == e@
                && file_name@ == hex_lower(sha256(bytes@)) + ".png"@
        },
    }
}

/// The plan for importing one record: `None` (skipped) for an unknown
/// kind; the Base64 decoder's message when its image does not decode;
/// otherwise the record with its image decoded (a thumbnail as such, a
/// full image with the file name it is saved under: the hash of its bytes
/// and ".png") and its hash.
pub fn import_plan(record: ImportRecord) -> (res: Result<Option<ImportPlan>, String>)
    ensures
        !known_kind(record.kind@) ==> res == Ok::<Option<ImportPlan>, String>(None),
        known_kind(record.kind@) && !import_accepts(record) ==> (res matches Err(m) && m@ == base64_decode_error(
            record.image_base64->0@,
        )),
        import_accepts(record) ==> (res matches Ok(Some(plan)) && is_plan_of(plan, record)),
        (record.kind@ == "text"@ || record.kind@ == "image"@ || record.kind@ == "files"@) && record.image_base64
            is None ==> (res matches Ok(Some(plan)) && plan.kind@ == record.kind@),
        !(record.kind@ == "text"@ || record.kind@ == "image"@ || record.kind@ == "files"@) ==> res
            == Ok::<Option<ImportPlan>, String>(None),
{
    proof {
        lemma_kinds_distinct();
    }
    let kind: &'static str = if str_eq(record.kind.as_str(), "text") {
        "text"
    } else if str_eq(record.kind.as_str(), "image") {
        "image"
    } else if str_eq(record.kind.as_str(), "files") {
        "files"
    } else {
        return Ok(None);
    };
    let image = match &record.image_base64 {
        Some(encoded) => {
            let bytes = match base64_decode(encoded.as_str()) {
                Ok(b) => b,
                Err(m) => return Err(m),
            };
            if record.image_is_thumbnail {
                ImportImage::Thumbnail(bytes)
            } else {
                let mut file_name = hash_bytes(bytes.as_slice());
                push_str(&mut file_name, ".png");
                ImportImage::Full { bytes, file_name }
            }
        },
        None => ImportImage::NoImage,
    };
    let mut source = String::new();
    push_str(&mut source, kind);
    push_str(&mut source, "-");
    push_str(&mut source, decimal_i64(record.created_at).as_str());
    push_str(&mut source, "-");
    match &record.content {
        Some(c) => push_str(&mut source, c.as_str()),
        None => push_str(&mut source, record.search_text.as_str()),
    }
    proof {
        assert(source@ =~= import_hash_source(
            record.kind@,
            record.created_at,
            opt_chars(record.content),
            record.search_text@,
        ));
    }
    let hash = hash_bytes(source.as_str().as_bytes());
    Ok(
        Some(
            ImportPlan {
                kind,
                preview: record.preview,
                search_text: record.search_text,
                content: record.content,
                file_list: record.file_list,
                image,
                hash,
                pinned: record.pinned,
                created_at: record.created_at,
            },
        ),
    )
}

impl ImportPlan {
    /// The entry to store: a thumbnail-only image keeps its bytes as the
    /// thumbnail; a full image is stored at `full_image_path`, with a
    /// thumbnail made from it.
    pub fn into_entry(self, full_image_path: Option<String>) -> (res: NewEntry)
        ensures
            res.kind@ == self.kind@,
            res.preview@ == self.preview@,
            res.search_text@ == self.search_text@,
            opt_chars(res.content) == opt_chars(self.content),
            opt_chars(res.file_list) == opt_chars(self.file_list),
            res.hash@ == self.hash@,
            match self.image {
                ImportImage::NoImage => res.image_path is None && res.thumbnail is None,
                ImportImage::Thumbnail(b) => res.image_path is None && (res.thumbnail matches Some(t) && t@
                    == b@),
                ImportImage::Full { bytes, .. } => res.image_path == full_image_path && opt_bytes(res.thumbnail)
                    == png_thumbnail(bytes@),
            },
    {
        let (image_path, thumbnail) = match self.image {
            ImportImage::NoImage => (None, None),
            ImportImage::Thumbnail(b) => (None, Some(b)),
            ImportImage::Full { bytes, file_name: _ } => (full_image_path, thumbnail_from_png(bytes.as_slice())),
        };
        NewEntry {
            kind: self.kind,
            preview: self.preview,
            search_text: self.search_text,
            content: self.content,
            image_path,
            file_list: self.file_list,
            thumbnail,
            hash: self.hash,
        }
    }
}

/// The settings values that are stored: at least one history entry, and no
/// negative size limit or age.
pub fn stored_settings(max_history: i64, max_file_kb: i64, max_age_days: i64) -> (res: (i64, i64, i64))
    ensures
        res.0 == if max_history < 1 { 1 } else { max_history },
        res.1 == if max_file_kb < 0 { 0 } else { max_file_kb },
        res.2 == if max_age_days < 0 { 0 } else { max_age_days },
{
    (
        if max_history < 1 { 1 } else { max_history },
        if max_file_kb < 0 { 0 } else { max_file_kb },
        if max_age_days < 0 { 0 } else { max_age_days },
    )
}

/// Whether launching at login must be switched, and to what: only when the
/// wanted state differs from the current one (switching it off when it was
/// never on fails on Windows).
pub fn autostart_change(wanted: bool, currently_enabled: bool) -> (res: Option<bool>)
    ensures
        res == if wanted != currently_enabled { Some(wanted) } else { None::<bool> },
{
    if wanted != currently_enabled {
        Some(wanted)
    } else {
        None
    }
}

/// Whether a new global hotkey must be registered: only when it differs
/// from the current one.
pub fn hotkey_changes(new_hotkey: &str, old_hotkey: &str) -> (res: bool)
    ensures
        res == (new_hotkey@ != old_hotkey@),
{
    !str_eq(new_hotkey, old_hotkey)
}

} // verus!
