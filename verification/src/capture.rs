//! Turning what the clipboard holds into history entries: text, file lists
//! and bitmaps, each with its preview, search text and content hash; and the
//! decision whether a capture is new or repeats the last stored entry.

use vstd::prelude::*;
use crate::encode::{decimal, decimal_i64, decimal_u64, hash_bytes, hex_lower, sha256};
use crate::history::{History, HistoryError, Inserted, NewEntry, Row, pruned};
use crate::raster::{fits_keeping_aspect, decode_as, encode_as, image_decodes_as, image_height, image_width, raster_encoding, raster_height, raster_width, thumbnail, Raster, RasterFormat, RasterOrigin};
use crate::json::{json_encode_string_list, json_string_list};
use crate::preview::{file_name_fits, file_name_or_empty};
use crate::text::{char_is_whitespace, chars_of, is_white_space, collapse_whitespace, join, join_strings, prefix, push_str, take_chars, words};

verus! {

/// At most this many characters of a text entry are shown as its preview.
pub const TEXT_PREVIEW_CHARS: usize = 300;

/// The side of the square that image thumbnails fit in.
pub const THUMBNAIL_MAX: u32 = 200;


/// `std::time::SystemTime`.
#[verifier::external_type_specification]
#[verifier::external_body]
pub struct ExSystemTime(std::time::SystemTime);

/// `std::time::SystemTimeError`.
#[verifier::external_type_specification]
#[verifier::external_body]
pub struct ExSystemTimeError(std::time::SystemTimeError);

/// `SystemTime::now`: the current time of the system clock; nothing is
/// promised of its value.
#[verifier::external_body]
fn system_now() -> std::time::SystemTime {
    std::time::SystemTime::now()
}

/// `SystemTime::duration_since(UNIX_EPOCH)`: the time elapsed since the Unix
/// epoch, or an error for a clock set before it; nothing is promised of the
/// value.
#[verifier::external_body]
fn since_unix_epoch(t: &std::time::SystemTime) -> Result<std::time::Duration, std::time::SystemTimeError> {
    t.duration_since(std::time::UNIX_EPOCH)
}

/// `Duration::as_millis`: whole milliseconds; nothing is promised of a
/// duration's value here.
#[verifier::external_body]
fn duration_millis(d: &std::time::Duration) -> u128 {
    d.as_millis()
}

/// A capture timestamp from the milliseconds elapsed since the Unix epoch
/// (`None` for a clock before the epoch, which counts as zero), cut to 64
/// bits as `as i64` does.
pub fn timestamp_from_millis(elapsed: Option<u128>) -> (res: i64)
    ensures
        res == match elapsed {
            Some(ms) => ms as i64,
            None => 0i64,
        },
{
    match elapsed {
        Some(ms) => ms as i64,
        None => 0,
    }
}

/// The current time in milliseconds since the Unix epoch; the clock decides
/// the value.
pub fn now_millis() -> i64 {
    let now = system_now();
    let elapsed = match since_unix_epoch(&now) {
        Ok(d) => Some(duration_millis(&d)),
        Err(_) => None,
    };
    timestamp_from_millis(elapsed)
}

/// The preview of a text: its words joined by single spaces, at most
/// `TEXT_PREVIEW_CHARS` characters of it.
pub open spec fn text_preview(text: Seq<char>) -> Seq<char> {
    prefix(join(words(text), seq![' ']), TEXT_PREVIEW_CHARS as nat)
}

/// The content hash of a text: SHA-256 of its UTF-8 bytes, in lowercase hex.
pub open spec fn text_hash(text: Seq<char>) -> Seq<char> {
    hex_lower(sha256(vstd::utf8::encode_utf8(text)))
}

/// The entry for copied text: kind "text", the collapsed preview, the whole
/// text as search text and content, and its hash.
pub fn build_text_entry(text: String) -> (res: NewEntry)
    ensures
        res.kind@ == "text"@,
        res.preview@ == text_preview(text@),
        res.search_text@ == text@,
        res.content matches Some(c) && c@ == text@,
        res.image_path is None,
        res.file_list is None,
        res.thumbnail is None,
        res.hash@ == text_hash(text@),
        res.hash@.len() == 64,
{
    let hash = hash_bytes(text.as_str().as_bytes());
    let collapsed = collapse_whitespace(text.as_str());
    let preview = take_chars(collapsed.as_str(), TEXT_PREVIEW_CHARS);
    let search_text = text.clone();
    NewEntry {
        kind: "text",
        preview,
        search_text,
        content: Some(text),
        image_path: None,
        file_list: None,
        thumbnail: None,
        hash,
    }
}

/// The texts of some strings, in order.
pub open spec fn texts(v: Seq<String>) -> Seq<Seq<char>> {
    v.map_values(|s: String| s@)
}

/// Whether `names` are file names of `paths`, one for each, in order.
pub open spec fn names_fit(names: Seq<Seq<char>>, paths: Seq<Seq<char>>) -> bool {
    &&& names.len() == paths.len()
    &&& forall|k: int| 0 <= k < names.len() ==> file_name_fits(#[trigger] names[k], paths[k])
}

/// Whether `e` is the entry for the copied files at `paths`: kind "files",
/// their names joined by ", " as preview and search text, the paths as a
/// JSON array of strings, and the hash of that JSON text.
pub open spec fn is_files_entry(e: NewEntry, paths: Seq<Seq<char>>) -> bool {
    &&& e.kind@ == "files"@
    &&& exists|names: Seq<Seq<char>>| names_fit(names, paths) && e.preview@ == join(names, ", "@)
    &&& e.search_text@ == e.preview@
    &&& e.content is None
    &&& e.image_path is None
    &&& (e.file_list matches Some(j) && j@ == json_string_list(paths))
    &&& e.thumbnail is None
    &&& e.hash@ == text_hash(json_string_list(paths))
}

/// The entry for a copied file list, given the files' paths: kind "files",
/// the file names joined by ", " as preview and search text, the paths as a
/// JSON array of strings, and the hash of that JSON text.
pub fn build_files_entry(files: Vec<String>) -> (res: NewEntry)
    ensures
        is_files_entry(res, texts(files@)),
{
    let mut names: Vec<String> = Vec::new();
    let n = files.len();
    for i in 0..n
        invariant
            n == files@.len(),
            names@.len() == i,
            forall|k: int| 0 <= k < i ==> file_name_fits(#[trigger] names@[k]@, files@[k]@),
    {
        names.push(file_name_or_empty(files[i].as_str()));
    }
    let ghost ns = texts(names@);
    assert(names_fit(ns, texts(files@))) by {
        assert forall|k: int| 0 <= k < ns.len() implies file_name_fits(#[trigger] ns[k], texts(files@)[k]) by {
            assert(ns[k] == names@[k]@);
        }
    }
    let preview = join_strings(&names, ", ");
    assert(names@.map_values(|s: String| s@) == ns);
    let json = json_encode_string_list(&files);
    let hash = hash_bytes(json.as_str().as_bytes());
    let search_text = preview.clone();
    NewEntry {
        kind: "files",
        preview,
        search_text,
        content: None,
        image_path: None,
        file_list: Some(json),
        thumbnail: None,
        hash,
    }
}

/// The size in whole KiB of a bitmap of `len` bytes.
pub open spec fn size_kb(len: nat) -> int {
    (len / 1024) as int
}

/// Whether an image of `len` bytes exceeds the size limit (`max_file_kb`
/// of 0 or less means no limit), so that only its thumbnail is kept.
pub open spec fn image_too_big(len: nat, max_file_kb: i64) -> bool {
    max_file_kb > 0 && size_kb(len) > max_file_kb
}

/// The preview of an image entry: its size, and a note when only the
/// thumbnail was kept.
pub open spec fn image_preview(width: u32, height: u32, kb: int, too_big: bool) -> Seq<char> {
    let dims = "Immagine "@ + decimal(width as nat) + "x"@ + decimal(height as nat);
    if too_big {
        dims + " ("@ + decimal(kb as nat) + " KB, non salvata per intero)"@
    } else {
        dims
    }
}

/// The image a clipboard bitmap decodes to.
pub open spec fn bitmap_origin(bmp: Seq<u8>) -> RasterOrigin {
    RasterOrigin::Decoded { bytes: bmp, format: RasterFormat::Bmp }
}

/// An image shrunk to fit the `THUMBNAIL_MAX` square.
pub open spec fn fitted(img: RasterOrigin) -> RasterOrigin {
    RasterOrigin::Thumbnail { source: Box::new(img), width: THUMBNAIL_MAX, height: THUMBNAIL_MAX }
}

/// A decoded clipboard bitmap, ready to become an entry once the full image
/// is saved (or not, when it is too big).
pub struct ImageCapture {
    image: Raster,
    width: u32,
    height: u32,
    hash: String,
    too_big: bool,
    file_name: String,
    thumbnail: Vec<u8>,
    preview: String,
}

/// The mathematical value of an image capture.
pub struct ImageCaptureView {
    pub image: RasterOrigin,
    pub width: u32,
    pub height: u32,
    pub hash: Seq<char>,
    pub too_big: bool,
    pub file_name: Seq<char>,
    pub thumbnail: Seq<u8>,
    pub preview: Seq<char>,
}

impl View for ImageCapture {
    type V = ImageCaptureView;

    closed spec fn view(&self) -> ImageCaptureView {
        ImageCaptureView {
            image: self.image@,
            width: self.width,
            height: self.height,
            hash: self.hash@,
            too_big: self.too_big,
            file_name: self.file_name@,
            thumbnail: self.thumbnail@,
            preview: self.preview@,
        }
    }
}

/// Whether `c` is the capture prepared from the bitmap `bmp` under the size
/// limit `max_file_kb`.
pub open spec fn is_capture_of(c: ImageCaptureView, bmp: Seq<u8>, max_file_kb: i64) -> bool {
    &&& c.image == bitmap_origin(bmp)
    &&& c.width == raster_width(bitmap_origin(bmp))
    &&& c.height == raster_height(bitmap_origin(bmp))
    &&& c.hash == hex_lower(sha256(bmp))
    &&& c.too_big == image_too_big(bmp.len(), max_file_kb)
    &&& c.file_name == hex_lower(sha256(bmp)) + ".png"@
    &&& raster_encoding(fitted(bitmap_origin(bmp)), RasterFormat::Png) == Ok::<Seq<u8>, Seq<char>>(c.thumbnail)
    &&& 1 <= raster_width(fitted(bitmap_origin(bmp))) <= THUMBNAIL_MAX
    &&& 1 <= raster_height(fitted(bitmap_origin(bmp))) <= THUMBNAIL_MAX
    &&& (raster_width(bitmap_origin(bmp)) >= 1 && raster_height(bitmap_origin(bmp)) >= 1 ==> fits_keeping_aspect(
        raster_width(bitmap_origin(bmp)) as int,
        raster_height(bitmap_origin(bmp)) as int,
        THUMBNAIL_MAX as int,
        THUMBNAIL_MAX as int,
        raster_width(fitted(bitmap_origin(bmp))) as int,
        raster_height(fitted(bitmap_origin(bmp))) as int,
    ))
    &&& c.preview == image_preview(c.width, c.height, size_kb(bmp.len()), c.too_big)
}

/// Decodes a clipboard bitmap and prepares its entry: the hash of the
/// bitmap bytes, whether it exceeds the size limit, the PNG file name the
/// full image is saved under, a PNG thumbnail fitting `THUMBNAIL_MAX`, and
/// the preview with the image's size. `None` exactly when the bytes are not
/// a bitmap or the thumbnail cannot be encoded.
pub fn build_image_entry(bmp_bytes: &[u8], max_file_kb: i64) -> (res: Option<ImageCapture>)
    ensures
        res is Some <==> image_decodes_as(bmp_bytes@, RasterFormat::Bmp) && raster_encoding(
            fitted(bitmap_origin(bmp_bytes@)),
            RasterFormat::Png,
        ) is Ok,
        res matches Some(c) ==> is_capture_of(c@, bmp_bytes@, max_file_kb),
{
    let img = match decode_as(bmp_bytes, RasterFormat::Bmp) {
        Some(img) => img,
        None => return None,
    };
    let hash = hash_bytes(bmp_bytes);
    let kb: i64 = (bmp_bytes.len() / 1024) as i64;
    let too_big = max_file_kb > 0 && kb > max_file_kb;
    let thumb = thumbnail(&img, THUMBNAIL_MAX, THUMBNAIL_MAX);
    let thumbnail_bytes = match encode_as(&thumb, RasterFormat::Png) {
        Ok(b) => b,
        Err(_) => return None,
    };
    let width = image_width(&img);
    let height = image_height(&img);
    let mut preview = String::new();
    push_str(&mut preview, "Immagine ");
    push_str(&mut preview, decimal_u64(width as u64).as_str());
    push_str(&mut preview, "x");
    push_str(&mut preview, decimal_u64(height as u64).as_str());
    if too_big {
        push_str(&mut preview, " (");
        push_str(&mut preview, decimal_i64(kb).as_str());
        push_str(&mut preview, " KB, non salvata per intero)");
    }
    let mut file_name = hash.clone();
    push_str(&mut file_name, ".png");
    proof {
        assert(kb as int == size_kb(bmp_bytes@.len()));
        assert(preview@ =~= image_preview(width, height, size_kb(bmp_bytes@.len()), too_big));
    }
    let c = ImageCapture {
        image: img,
        width,
        height,
        hash,
        too_big,
        file_name,
        thumbnail: thumbnail_bytes,
        preview,
    };
    Some(c)
}

impl ImageCapture {
    /// The image's width in pixels.
    pub fn width(&self) -> (res: u32)
        ensures
            res == self@.width,
    {
        self.width
    }

    /// The image's height in pixels.
    pub fn height(&self) -> (res: u32)
        ensures
            res == self@.height,
    {
        self.height
    }

    /// The content hash of the bitmap.
    pub fn hash(&self) -> (res: &String)
        ensures
            res@ == self@.hash,
    {
        &self.hash
    }

    /// Whether the image exceeds the size limit, so that only its thumbnail is kept.
    pub fn too_big(&self) -> (res: bool)
        ensures
            res == self@.too_big,
    {
        self.too_big
    }

    /// The name of the PNG file the full image is saved under.
    pub fn file_name(&self) -> (res: &String)
        ensures
            res@ == self@.file_name,
    {
        &self.file_name
    }

    /// The PNG thumbnail.
    pub fn thumbnail(&self) -> (res: &Vec<u8>)
        ensures
            res@ == self@.thumbnail,
    {
        &self.thumbnail
    }

    /// The preview text.
    pub fn preview(&self) -> (res: &String)
        ensures
            res@ == self@.preview,
    {
        &self.preview
    }

    /// The full image encoded as PNG, the content of its saved file, or the
    /// message of the encoding error.
    pub fn png_file(&self) -> (res: Result<Vec<u8>, String>)
        ensures
            match res {
                Ok(b) => raster_encoding(self@.image, RasterFormat::Png) == Ok::<Seq<u8>, Seq<char>>(b@),
                Err(m) => raster_encoding(self@.image, RasterFormat::Png) == Err::<Seq<u8>, Seq<char>>(m@),
            },
    {
        encode_as(&self.image, RasterFormat::Png)
    }

    /// The entry for the captured image: kind "image", the preview as
    /// preview and search text, the saved file's path unless the image was
    /// too big, and the thumbnail.
    pub fn into_entry(self, saved_path: Option<String>) -> (res: NewEntry)
        ensures
            res.kind@ == "image"@,
            res.preview@ == self@.preview,
            res.search_text@ == self@.preview,
            res.content is None,
            self@.too_big ==> res.image_path is None,
            !self@.too_big ==> res.image_path == saved_path,
            res.file_list is None,
            res.thumbnail matches Some(t) && t@ == self@.thumbnail,
            res.hash@ == self@.hash,
    {
        let search_text = self.preview.clone();
        NewEntry {
            kind: "image",
            preview: self.preview,
            search_text,
            content: None,
            image_path: if self.too_big {
                None
            } else {
                saved_path
            },
            file_list: None,
            thumbnail: Some(self.thumbnail),
            hash: self.hash,
        }
    }
}

/// Whether a text holds only whitespace (what `str::trim` removes entirely).
pub open spec fn is_blank(s: Seq<char>) -> bool {
    forall|i: int| 0 <= i < s.len() ==> is_white_space(#[trigger] s[i])
}

/// Whether `s` holds only whitespace.
pub fn blank(s: &str) -> (res: bool)
    ensures
        res == is_blank(s@),
{
    let cs = chars_of(s);
    let n = cs.len();
    for i in 0..n
        invariant
            n == cs@.len(),
            cs@ == s@,
            forall|k: int| 0 <= k < i ==> is_white_space(#[trigger] cs@[k]),
    {
        if !char_is_whitespace(cs[i]) {
            return false;
        }
    }
    true
}

/// Whether the clipboard bitmap needs to be read and prepared: only when
/// the content is not excluded and there is no file list to take first.
pub fn image_needed(excluded: bool, files: &Option<Vec<String>>) -> (res: bool)
    ensures
        res == (!excluded && match files {
            Some(f) => f@.len() == 0,
            None => true,
        }),
{
    if excluded {
        return false;
    }
    match files {
        Some(f) => f.len() == 0,
        None => true,
    }
}

/// Whether a file list was read and is not empty.
pub open spec fn has_files(files: Option<Vec<String>>) -> bool {
    match files {
        Some(f) => f@.len() > 0,
        None => false,
    }
}

/// Whether text was read and is not blank.
pub open spec fn has_text(text: Option<String>) -> bool {
    match text {
        Some(t) => !is_blank(t@),
        None => false,
    }
}

/// Whether `e` is the entry `build_text_entry` makes for `text`.
pub open spec fn is_text_entry(e: NewEntry, text: Seq<char>) -> bool {
    &&& e.kind@ == "text"@
    &&& e.preview@ == text_preview(text)
    &&& e.search_text@ == text
    &&& (e.content matches Some(c) && c@ == text)
    &&& e.image_path is None
    &&& e.file_list is None
    &&& e.thumbnail is None
    &&& e.hash@ == text_hash(text)
}

/// Picks the entry for what the clipboard holds: nothing when the content
/// is marked as excluded from history; otherwise a non-empty file list,
/// else the prepared bitmap entry, else non-blank text; nothing when none
/// of these is there. `image` is the entry built from the bitmap, when
/// there is one and it could be prepared.
pub fn read_clipboard(
    excluded: bool,
    files: Option<Vec<String>>,
    image: Option<NewEntry>,
    text: Option<String>,
) -> (res: Option<NewEntry>)
    ensures
        excluded ==> res is None,
        !excluded && has_files(files) ==> (res matches Some(e) && is_files_entry(e, texts(files->0@))),
        !excluded && !has_files(files) && image is Some ==> res == image,
        !excluded && !has_files(files) && image is None && has_text(text) ==> (res matches Some(e)
            && is_text_entry(e, text->0@)),
        !excluded && !has_files(files) && image is None && !has_text(text) ==> res is None,
{
    if excluded {
        return None;
    }
    if let Some(f) = files {
        if f.len() > 0 {
            return Some(build_files_entry(f));
        }
    }
    if image.is_some() {
        return image;
    }
    if let Some(t) = text {
        if !blank(t.as_str()) {
            return Some(build_text_entry(t));
        }
    }
    None
}

/// Whether a capture repeats the newest stored entry (same hash).
pub open spec fn repeats_last(rows: Seq<Row>, hash: Seq<char>) -> bool {
    rows.len() > 0 && rows.last().hash == hash
}

/// Stores a captured entry unless it repeats the newest stored one, in which
/// case nothing changes and `Ok(None)` comes back.
pub fn store_capture(history: &mut History, entry: &NewEntry, created_at: i64) -> (res: Result<
    Option<Inserted>,
    HistoryError,
>)
    ensures
        repeats_last(old(history)@.rows, entry.hash@) ==> res == Ok::<Option<Inserted>, HistoryError>(None)
            && final(history)@ == old(history)@,
        !repeats_last(old(history)@.rows, entry.hash@) ==> {
            &&& old(history)@.last_id == i64::MAX ==> res == Err::<Option<Inserted>, HistoryError>(
                HistoryError::IdsExhausted,
            ) && final(history)@ == old(history)@
            &&& old(history)@.last_id < i64::MAX ==> (res matches Ok(Some(ins)) && ins.id == old(history)@.last_id
                + 1 && final(history)@.last_id == ins.id && final(history)@.limit == old(history)@.limit
                && final(history)@.rows == pruned(
                old(history)@.rows.push(entry.row(ins.id, false, created_at)),
                old(history)@.limit as int,
            ) && ins.pruned@ == crate::history::pruned_ids(
                old(history)@.rows.push(entry.row(ins.id, false, created_at)),
                old(history)@.limit as int,
            ))
        },
{
    let last = history.last_hash();
    let repeated = match &last {
        Some(h) => *h == entry.hash,
        None => false,
    };
    if repeated {
        return Ok(None);
    }
    match history.insert(entry, created_at) {
        Ok(ins) => Ok(Some(ins)),
        Err(e) => Err(e),
    }
}

} // verus!
