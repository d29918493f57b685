//! What the large preview shows of a file: whether and how its text is
//! read, the listing of an archive, its size, checksums and text.

use vstd::prelude::*;
use sha1::Digest;
use crate::encode::{hex_fixed, hex_lower, hex_u32, to_hex_lower};
use crate::search::fold_ascii;
use crate::history::opt_chars;
use crate::text::{blank_chars, chars_of, str_eq};

verus! {

/// At most this many bytes of a file are read into its text preview.
pub const MAX_TEXT_PREVIEW_BYTES: usize = 200_000;

/// At most this many archive members are listed.
pub const MAX_ZIP_ENTRIES_LISTED: usize = 200;

/// How the text of a file is read for its preview.
#[derive(Debug, PartialEq, Eq, Clone, Copy)]
pub enum TextPreviewKind {
    PlainText,
    Pdf,
}

/// The archive formats whose members can be listed.
#[derive(Debug, PartialEq, Eq, Clone, Copy)]
pub enum ArchiveFormat {
    Zip,
    SevenZip,
    Rar,
}

/// One member of an archive: its name, unpacked size, whether it is a
/// directory, and its CRC-32 in hex ("-" when the archive records none).
pub struct ZipEntry {
    pub name: String,
    pub size_bytes: u64,
    pub is_dir: bool,
    pub crc32: String,
}

/// What the preview shows of one file of a file entry.
pub struct FilePreview {
    pub name: String,
    pub path: String,
    pub exists: bool,
    pub too_large: bool,
    pub size_bytes: Option<u64>,
    pub modified: Option<i64>,
    pub sha1: Option<String>,
    pub crc32: Option<String>,
    pub zip_entries: Option<Vec<ZipEntry>>,
    /// Text content preview for plain-text/source files, or text extracted
    /// from a PDF (not a rendering of its visual layout). `None` for other
    /// file types, or when the file is above the "max file size" threshold.
    pub text_preview: Option<String>,
    pub text_preview_truncated: bool,
}

/// The lowercase form of a text under Unicode's case mapping (what
/// `str::to_lowercase` computes).
pub uninterp spec fn unicode_lowercase(s: Seq<char>) -> Seq<char>;

/// Whether every character is ASCII.
pub open spec fn all_ascii(s: Seq<char>) -> bool {
    forall|i: int| 0 <= i < s.len() ==> (#[trigger] s[i] as u32) < 128
}

/// `str::to_lowercase`: Unicode lowercase mapping; on ASCII text it lowers
/// `A`..`Z` and leaves every other character as it is.
#[verifier::external_body]
pub(crate) fn to_lowercase(s: &str) -> (res: String)
    ensures
        res@ == unicode_lowercase(s@),
        all_ascii(s@) ==> res@ == s@.map_values(|c: char| fold_ascii(c)),
{
    s.to_lowercase()
}

/// Whether `c` separates path components on some platform.
pub open spec fn is_separator(c: char) -> bool {
    c == '/' || c == '\\'
}

/// Whether `p` starts with a network-share prefix (two separators, a
/// server name, a separator and a share name, as in "//server/share" or
/// "\\server\share") whose separators after the server and the share are
/// at `a` and `b`.
pub open spec fn share_prefix(p: Seq<char>, a: int, b: int) -> bool {
    &&& 2 < a && a + 1 < b < p.len()
    &&& is_separator(p[a]) && is_separator(p[b])
    &&& forall|k: int| 2 <= k < a ==> !is_separator(#[trigger] p[k])
    &&& forall|k: int| a < k < b ==> !is_separator(#[trigger] p[k])
}

/// Whether what follows position `j` of `p` lies outside any prefix that
/// Windows reads differently from other platforms: `p` does not start with
/// two separators, or it starts with a network-share prefix (not a
/// "\\?\" or "\\.\" one) that ends before `j`.
pub open spec fn past_prefix(p: Seq<char>, j: int) -> bool {
    ||| !(p.len() >= 2 && is_separator(p[0]) && is_separator(p[1]))
    ||| (p.len() > 2 && p[2] != '?' && p[2] != '.' && exists|a: int, b: int|
        b < j && #[trigger] share_prefix(p, a, b))
}

/// Whether the '.' at `i` starts the extension of `p` however the platform
/// splits paths: it is the last '.', a non-empty run of characters other
/// than separators follows it to the end, the character before it is
/// neither a separator nor ':' (so the file name does not start with it),
/// and it lies past any network-share prefix.
pub open spec fn plain_extension_at(p: Seq<char>, i: int) -> bool {
    &&& 1 <= i < p.len() - 1
    &&& p[i] == '.'
    &&& !is_separator(p[i - 1]) && p[i - 1] != ':'
    &&& forall|k: int| i < k < p.len() ==> p[k] != '.' && !is_separator(#[trigger] p[k])
    &&& past_prefix(p, i)
}

/// Whether the file name of `p` starts at `i + 1` with a '.' followed by
/// at least one character and no other '.' (a name such as ".bashrc"),
/// however the platform splits paths: `p` holds no '\\', and `i` is the
/// position of its last '/' (or -1 when it has none).
pub open spec fn dotfile_at(p: Seq<char>, i: int) -> bool {
    &&& -1 <= i < p.len() - 2
    &&& (i >= 0 ==> p[i] == '/')
    &&& p[i + 1] == '.'
    &&& forall|k: int| i + 1 < k < p.len() ==> p[k] != '.' && !is_separator(#[trigger] p[k])
    &&& forall|k: int| 0 <= k < p.len() ==> #[trigger] p[k] != '\\'
}

/// Whether `p` ends with a '.' that does not follow a separator (a name
/// such as "notes."), whose extension is empty if there is one.
pub open spec fn ends_in_dot(p: Seq<char>) -> bool {
    &&& p.len() > 0
    &&& p.last() == '.'
    &&& (p.len() == 1 || !is_separator(p[p.len() - 2]))
}

/// `Path::new(path).extension()` as text: the part of the file name after
/// its last '.', which holds no '.' and stands right after a '.' in the
/// path; `None` when the path holds no '.' at all or its file name is a
/// dot followed by a name without '.'; empty, if any, when the path ends in
/// a '.'; and the text after the '.' wherever that '.' starts the extension
/// on every platform.
#[verifier::external_body]
pub(crate) fn path_extension(path: &str) -> (res: Option<String>)
    ensures
        forall|i: int| plain_extension_at(path@, i) ==> res is Some && res->0@ == path@.subrange(
            i + 1,
            path@.len() as int,
        ),
        res matches Some(e) ==> !e@.contains('.') && exists|i: int|
            0 <= i && i + 1 + e@.len() <= path@.len() && #[trigger] path@[i] == '.' && path@.subrange(
                i + 1,
                i + 1 + e@.len(),
            ) == e@,
        !path@.contains('.') ==> res is None,
        forall|i: int| dotfile_at(path@, i) ==> res is None,
        ends_in_dot(path@) ==> (res is None || res->0@.len() == 0),
{
    match std::path::Path::new(path).extension() {
        Some(os) => match os.to_str() {
            Some(s) => Some(s.to_string()),
            None => None,
        },
        None => None,
    }
}

/// Whether the file name of `p` is the text after `i` however the platform
/// splits paths: `i` is the position of its last '/' (or -1 when it has no
/// separator at all), a non-empty run of characters that are neither
/// separators nor ':' follows it to the end, that run is neither "." nor
/// "..", and `i` is at or past the end of any network-share prefix.
pub open spec fn plain_file_name_at(p: Seq<char>, i: int) -> bool {
    &&& -1 <= i < p.len() - 1
    &&& (i >= 0 ==> p[i] == '/')
    &&& forall|k: int| i < k < p.len() ==> !is_separator(#[trigger] p[k]) && p[k] != ':'
    &&& p.subrange(i + 1, p.len() as int) != seq!['.']
    &&& p.subrange(i + 1, p.len() as int) != seq!['.', '.']
    &&& past_prefix(p, i + 1)
}

/// Whether `name` can be the file name of the path `p` (empty when it has
/// none): a piece of `p`, and the text after its last '/' wherever that is
/// the file name on every platform.
pub open spec fn file_name_fits(name: Seq<char>, p: Seq<char>) -> bool {
    &&& forall|i: int| plain_file_name_at(p, i) ==> name == p.subrange(i + 1, p.len() as int)
    &&& (name.len() == 0 || exists|j: int|
        0 <= j && j + name.len() <= p.len() && #[trigger] p.subrange(j, j + name.len()) == name)
}

/// `Path::new(path).file_name()` as text: a non-empty piece of the path,
/// and the text after its last '/' wherever that is the file name on every
/// platform.
#[verifier::external_body]
pub(crate) fn path_file_name(path: &str) -> (res: Option<String>)
    ensures
        forall|i: int| plain_file_name_at(path@, i) ==> res is Some && res->0@ == path@.subrange(
            i + 1,
            path@.len() as int,
        ),
        res matches Some(n) ==> n@.len() > 0 && exists|j: int|
            0 <= j && j + n@.len() <= path@.len() && #[trigger] path@.subrange(j, j + n@.len()) == n@,
{
    match std::path::Path::new(path).file_name() {
        Some(n) => Some(n.to_string_lossy().into_owned()),
        None => None,
    }
}

/// The file name of a path as text, empty when it has none.
pub fn file_name_or_empty(path: &str) -> (res: String)
    ensures
        file_name_fits(res@, path@),
{
    match path_file_name(path) {
        Some(n) => n,
        None => String::new(),
    }
}

/// The extensions whose files are previewed as plain text.
pub open spec fn text_extensions() -> Seq<Seq<char>> {
    seq![
        "txt"@, "md"@, "log"@, "json"@, "xml"@, "yaml"@, "yml"@, "toml"@, "ini"@, "cfg"@, "conf"@,
        "csv"@, "c"@, "h"@, "cpp"@, "cc"@, "cxx"@, "hpp"@, "hh"@, "cs"@, "java"@, "kt"@, "go"@,
        "rs"@, "rb"@, "py"@, "php"@, "sh"@, "bash"@, "ps1"@, "sql"@, "swift"@, "html"@, "htm"@,
        "css"@, "scss"@, "js"@, "jsx"@, "ts"@, "tsx"@, "vue"@, "svelte"@,
    ]
}

/// Every listed extension is non-empty.
proof fn lemma_text_extensions_nonempty()
    ensures
        forall|k: int| 0 <= k < text_extensions().len() ==> (#[trigger] text_extensions()[k]).len() > 0,
{
    reveal_strlit("txt");
    reveal_strlit("md");
    reveal_strlit("log");
    reveal_strlit("json");
    reveal_strlit("xml");
    reveal_strlit("yaml");
    reveal_strlit("yml");
    reveal_strlit("toml");
    reveal_strlit("ini");
    reveal_strlit("cfg");
    reveal_strlit("conf");
    reveal_strlit("csv");
    reveal_strlit("c");
    reveal_strlit("h");
    reveal_strlit("cpp");
    reveal_strlit("cc");
    reveal_strlit("cxx");
    reveal_strlit("hpp");
    reveal_strlit("hh");
    reveal_strlit("cs");
    reveal_strlit("java");
    reveal_strlit("kt");
    reveal_strlit("go");
    reveal_strlit("rs");
    reveal_strlit("rb");
    reveal_strlit("py");
    reveal_strlit("php");
    reveal_strlit("sh");
    reveal_strlit("bash");
    reveal_strlit("ps1");
    reveal_strlit("sql");
    reveal_strlit("swift");
    reveal_strlit("html");
    reveal_strlit("htm");
    reveal_strlit("css");
    reveal_strlit("scss");
    reveal_strlit("js");
    reveal_strlit("jsx");
    reveal_strlit("ts");
    reveal_strlit("tsx");
    reveal_strlit("vue");
    reveal_strlit("svelte");
    let s = text_extensions();
    assert forall|k: int| 0 <= k < s.len() implies (#[trigger] s[k]).len() > 0 by {
        assert(s[0] == "txt"@);
        assert(s[1] == "md"@);
        assert(s[2] == "log"@);
        assert(s[3] == "json"@);
        assert(s[4] == "xml"@);
        assert(s[5] == "yaml"@);
        assert(s[6] == "yml"@);
        assert(s[7] == "toml"@);
        assert(s[8] == "ini"@);
        assert(s[9] == "cfg"@);
        assert(s[10] == "conf"@);
        assert(s[11] == "csv"@);
        assert(s[12] == "c"@);
        assert(s[13] == "h"@);
        assert(s[14] == "cpp"@);
        assert(s[15] == "cc"@);
        assert(s[16] == "cxx"@);
        assert(s[17] == "hpp"@);
        assert(s[18] == "hh"@);
        assert(s[19] == "cs"@);
        assert(s[20] == "java"@);
        assert(s[21] == "kt"@);
        assert(s[22] == "go"@);
        assert(s[23] == "rs"@);
        assert(s[24] == "rb"@);
        assert(s[25] == "py"@);
        assert(s[26] == "php"@);
        assert(s[27] == "sh"@);
        assert(s[28] == "bash"@);
        assert(s[29] == "ps1"@);
        assert(s[30] == "sql"@);
        assert(s[31] == "swift"@);
        assert(s[32] == "html"@);
        assert(s[33] == "htm"@);
        assert(s[34] == "css"@);
        assert(s[35] == "scss"@);
        assert(s[36] == "js"@);
        assert(s[37] == "jsx"@);
        assert(s[38] == "ts"@);
        assert(s[39] == "tsx"@);
        assert(s[40] == "vue"@);
        assert(s[41] == "svelte"@);
    }
}

fn text_extension_list() -> (res: Vec<&'static str>)
    ensures
        res@.map_values(|s: &str| s@) == text_extensions(),
{
    let v = vec![
        "txt", "md", "log", "json", "xml", "yaml", "yml", "toml", "ini", "cfg", "conf", "csv", "c",
        "h", "cpp", "cc", "cxx", "hpp", "hh", "cs", "java", "kt", "go", "rs", "rb", "py", "php", "sh",
        "bash", "ps1", "sql", "swift", "html", "htm", "css", "scss", "js", "jsx", "ts", "tsx", "vue",
        "svelte",
    ];
    assert(v@.map_values(|s: &str| s@) =~= text_extensions());
    v
}

/// How a file with this extension (if any) is previewed as text: PDF for
/// "pdf", plain text for the listed extensions, in any letter case.
pub open spec fn kind_for_extension(ext: Option<Seq<char>>) -> Option<TextPreviewKind> {
    match ext {
        None => None,
        Some(e) => kind_for_lower(unicode_lowercase(e)),
    }
}

/// How a file whose lowercased extension is `l` is previewed as text.
pub open spec fn kind_for_lower(l: Seq<char>) -> Option<TextPreviewKind> {
    if l == "pdf"@ {
        Some(TextPreviewKind::Pdf)
    } else if text_extensions().contains(l) {
        Some(TextPreviewKind::PlainText)
    } else {
        None
    }
}

/// A text with `A`..`Z` lowered and every other character kept: what
/// Unicode lowercasing gives for ASCII text.
pub open spec fn ascii_lower(s: Seq<char>) -> Seq<char> {
    s.map_values(|c: char| fold_ascii(c))
}

/// A piece of ASCII text is ASCII.
pub proof fn lemma_ascii_subrange(s: Seq<char>, a: int, b: int)
    requires
        all_ascii(s),
        0 <= a <= b <= s.len(),
    ensures
        all_ascii(s.subrange(a, b)),
{
    assert forall|i: int| 0 <= i < s.subrange(a, b).len() implies (#[trigger] s.subrange(a, b)[i] as u32) < 128 by {
        assert(s.subrange(a, b)[i] == s[a + i]);
    }
}

/// How a file with extension `ext` is previewed as text.
pub fn preview_kind_for_extension(ext: Option<String>) -> (res: Option<TextPreviewKind>)
    ensures
        ext is Some && all_ascii(ext->0@) ==> res == kind_for_lower(ascii_lower(ext->0@)),
        ext matches Some(e) && e@.len() == 0 ==> res is None,
        res == kind_for_extension(match ext {
            Some(e) => Some(e@),
            None => None,
        }),
{
    let e = match ext {
        Some(e) => e,
        None => return None,
    };
    let lower = to_lowercase(e.as_str());
    proof {
        reveal_strlit("pdf");
        lemma_text_extensions_nonempty();
        if e@.len() == 0 {
            assert(all_ascii(e@));
            assert(lower@.len() == 0);
        }
    }
    if str_eq(lower.as_str(), "pdf") {
        return Some(TextPreviewKind::Pdf);
    }
    let exts = text_extension_list();
    let n = exts.len();
    for i in 0..n
        invariant
            n == exts@.len(),
            exts@.map_values(|s: &str| s@) == text_extensions(),
            lower@ == unicode_lowercase(e@),
            lower@ != "pdf"@,
            ext matches Some(x) && x@ == e@,
            e@.len() == 0 ==> lower@.len() == 0,
            all_ascii(e@) ==> lower@ == ascii_lower(e@),
            forall|k: int| 0 <= k < text_extensions().len() ==> (#[trigger] text_extensions()[k]).len() > 0,
            forall|k: int| 0 <= k < i ==> text_extensions()[k] != lower@,
    {
        if str_eq(lower.as_str(), exts[i]) {
            assert(text_extensions()[i as int] == lower@);
            assert(text_extensions().contains(lower@));
            return Some(TextPreviewKind::PlainText);
        }
    }
    None
}

/// Whether `k` can be how the file at `p` is previewed as text, however
/// the platform splits paths: none for a path with no '.', a dot-file name
/// such as ".bashrc" or a name ending in '.'; by the extension wherever that
/// is the same on every platform; and by some extension in any case.
pub open spec fn kind_fits_path(k: Option<TextPreviewKind>, p: Seq<char>) -> bool {
    &&& !p.contains('.') ==> k is None
    &&& forall|i: int| plain_extension_at(p, i) ==> k == kind_for_extension(Some(p.subrange(i + 1, p.len() as int)))
    &&& forall|i: int| plain_extension_at(p, i) && all_ascii(p) ==> k == kind_for_lower(
        ascii_lower(p.subrange(i + 1, p.len() as int)),
    )
    &&& forall|i: int| dotfile_at(p, i) ==> k is None
    &&& ends_in_dot(p) ==> k is None
    &&& exists|ext: Option<Seq<char>>| k == kind_for_extension(ext)
}

/// How the file at `path` is previewed as text, decided by its extension;
/// a path with no '.', a dot-file name such as ".bashrc" and a name ending
/// in '.' have none.
pub fn text_preview_kind(path: &str) -> (res: Option<TextPreviewKind>)
    ensures
        kind_fits_path(res, path@),
        !path@.contains('.') ==> res is None,
        forall|i: int| plain_extension_at(path@, i) ==> res == kind_for_extension(
            Some(path@.subrange(i + 1, path@.len() as int)),
        ),
        forall|i: int| dotfile_at(path@, i) ==> res is None,
        ends_in_dot(path@) ==> res is None,
        exists|ext: Option<Seq<char>>| res == kind_for_extension(ext),
{
    let ext = path_extension(path);
    let ghost g = match &ext {
        Some(e) => Some(e@),
        None => None,
    };
    let res = preview_kind_for_extension(ext);
    assert(res == kind_for_extension(g));
    proof {
        assert forall|i: int| plain_extension_at(path@, i) && all_ascii(path@) implies res == kind_for_lower(
            ascii_lower(path@.subrange(i + 1, path@.len() as int)),
        ) by {
            lemma_ascii_subrange(path@, i + 1, path@.len() as int);
        }
    }
    res
}

/// Whether `s` ends with `suffix`.
pub open spec fn ends_with(s: Seq<char>, suffix: Seq<char>) -> bool {
    suffix.len() <= s.len() && s.subrange(s.len() - suffix.len(), s.len() as int) == suffix
}

fn ends_with_exec(s: &Vec<char>, suffix: &str) -> (res: bool)
    ensures
        res == ends_with(s@, suffix@),
{
    let suf = chars_of(suffix);
    let n = s.len();
    let m = suf.len();
    if m > n {
        return false;
    }
    let off = n - m;
    for k in 0..m
        invariant
            m == suf@.len(),
            n == s@.len(),
            off == n - m,
            suf@ == suffix@,
            forall|j: int| 0 <= j < k ==> s@[off + j] == suf@[j],
    {
        if s[off + k] != suf[k] {
            assert(s@.subrange(off as int, n as int)[k as int] != suffix@[k as int]);
            return false;
        }
    }
    assert(s@.subrange(off as int, n as int) =~= suffix@);
    true
}

/// Which archive reader lists the file at `path`, by its lowercased name:
/// ".zip", ".7z" or ".rar"; `None` for other files.
pub open spec fn archive_format_of(path: Seq<char>) -> Option<ArchiveFormat> {
    format_for_lower(unicode_lowercase(path))
}

/// Which archive reader lists a file whose lowercased path is `lower`.
pub open spec fn format_for_lower(lower: Seq<char>) -> Option<ArchiveFormat> {
    if ends_with(lower, ".zip"@) {
        Some(ArchiveFormat::Zip)
    } else if ends_with(lower, ".7z"@) {
        Some(ArchiveFormat::SevenZip)
    } else if ends_with(lower, ".rar"@) {
        Some(ArchiveFormat::Rar)
    } else {
        None
    }
}

/// Decides how the members of the file at `path` are listed: which archive
/// reader applies, by the file's extension in any letter case, or `None`
/// when it is not an archive this preview lists.
pub fn read_zip_entries(path: &str) -> (res: Option<ArchiveFormat>)
    ensures
        res == archive_format_of(path@),
        all_ascii(path@) ==> res == format_for_lower(ascii_lower(path@)),
{
    let lower = to_lowercase(path);
    assert(all_ascii(path@) ==> lower@ == ascii_lower(path@));
    let cs = chars_of(lower.as_str());
    if ends_with_exec(&cs, ".zip") {
        Some(ArchiveFormat::Zip)
    } else if ends_with_exec(&cs, ".7z") {
        Some(ArchiveFormat::SevenZip)
    } else if ends_with_exec(&cs, ".rar") {
        Some(ArchiveFormat::Rar)
    } else {
        None
    }
}

/// The mathematical value of an archive member's listing entry.
pub struct ZipEntryView {
    pub name: Seq<char>,
    pub size_bytes: u64,
    pub is_dir: bool,
    pub crc32: Seq<char>,
}

impl View for ZipEntry {
    type V = ZipEntryView;

    open spec fn view(&self) -> ZipEntryView {
        ZipEntryView { name: self.name@, size_bytes: self.size_bytes, is_dir: self.is_dir, crc32: self.crc32@ }
    }
}

/// The listing entry of a member with this name, unpacked size, directory
/// flag and CRC-32 (if the archive records one).
pub open spec fn entry_view(name: Seq<char>, size_bytes: u64, is_dir: bool, crc: Option<u64>) -> ZipEntryView {
    ZipEntryView {
        name,
        size_bytes,
        is_dir,
        crc32: match crc {
            Some(c) => hex_fixed((c % 0x1_0000_0000) as nat, 8),
            None => "-"@,
        },
    }
}

/// The listing entry for an archive member; its CRC-32 (cut to 32 bits) as
/// eight hex digits, or "-" when the archive records none.
pub fn zip_entry(name: String, size_bytes: u64, is_dir: bool, crc: Option<u64>) -> (res: ZipEntry)
    ensures
        res@ == entry_view(name@, size_bytes, is_dir, crc),
        res.name@ == name@,
        res.size_bytes == size_bytes,
        res.is_dir == is_dir,
        res.crc32@ == match crc {
            Some(c) => hex_fixed((c % 0x1_0000_0000) as nat, 8),
            None => "-"@,
        },
{
    let crc32 = match crc {
        Some(c) => hex_u32((c % 0x1_0000_0000) as u32),
        None => "-".to_owned(),
    };
    ZipEntry { name, size_bytes, is_dir, crc32 }
}

/// How many archive members are listed when the archive holds `total`.
pub open spec fn listed_count(total: nat) -> nat {
    if total < MAX_ZIP_ENTRIES_LISTED {
        total
    } else {
        MAX_ZIP_ENTRIES_LISTED as nat
    }
}

/// Whether a member is still read after `listed` have been: at most
/// `MAX_ZIP_ENTRIES_LISTED` are.
pub fn listing_has_room(listed: usize) -> (res: bool)
    ensures
        res == (listed < MAX_ZIP_ENTRIES_LISTED),
{
    listed < MAX_ZIP_ENTRIES_LISTED
}

/// The listing of an archive from its members as read, in archive order
/// (`None` for a member that could not be read): the first
/// `MAX_ZIP_ENTRIES_LISTED` of them, or `None` when one of those could not
/// be read.
pub fn collect_listing(members: Vec<Option<ZipEntry>>) -> (res: Option<Vec<ZipEntry>>)
    ensures
        res is None <==> exists|k: int| 0 <= k < listed_count(members@.len()) && #[trigger] members@[k] is None,
        res matches Some(v) ==> v@.len() == listed_count(members@.len()) && forall|i: int|
            0 <= i < v@.len() ==> members@[i] == Some(#[trigger] v@[i]),
{
    let ghost ms = members@;
    let mut out: Vec<ZipEntry> = Vec::new();
    for m in it: members.into_iter()
        invariant
            it.seq() == ms,
            out@.len() == if it.index() < MAX_ZIP_ENTRIES_LISTED { it.index() as int } else { MAX_ZIP_ENTRIES_LISTED as int },
            forall|i: int| 0 <= i < out@.len() ==> ms[i] == Some(#[trigger] out@[i]),
            forall|k: int| 0 <= k < out@.len() ==> ms[k] is Some,
    {
        if listing_has_room(out.len()) {
            match m {
                Some(e) => out.push(e),
                None => {
                    return None;
                },
            }
        }
    }
    assert(out@.len() == listed_count(ms.len()));
    Some(out)
}

/// Whether a file of `size_bytes` exceeds the size limit (`max_file_kb` of
/// 0 or less means no limit; an unknown size never exceeds it).
pub open spec fn is_too_large(size_bytes: Option<u64>, max_file_kb: i64) -> bool {
    max_file_kb > 0 && match size_bytes {
        Some(b) => b / 1024 > max_file_kb,
        None => false,
    }
}

/// Whether a file of `size_bytes` exceeds the size limit.
pub fn file_too_large(size_bytes: Option<u64>, max_file_kb: i64) -> (res: bool)
    ensures
        res == is_too_large(size_bytes, max_file_kb),
{
    if max_file_kb <= 0 {
        return false;
    }
    match size_bytes {
        Some(b) => b / 1024 > max_file_kb as u64,
        None => false,
    }
}

/// The SHA-1 digest of `data` (FIPS 180-4).
pub uninterp spec fn sha1(data: Seq<u8>) -> Seq<u8>;

/// `sha1::Sha1::digest`: the 20-byte SHA-1 digest of `data`.
#[verifier::external_body]
pub(crate) fn sha1_digest(data: &[u8]) -> (res: Vec<u8>)
    ensures
        res@ == sha1(data@),
        res@.len() == 20,
{
    sha1::Sha1::digest(data).to_vec()
}

/// One bit step of the reflected CRC-32 (polynomial 0xEDB88320).
pub open spec fn crc32_bits(c: u32, k: nat) -> u32
    decreases k,
{
    if k == 0 {
        c
    } else {
        let d = crc32_bits(c, (k - 1) as nat);
        if d & 1 == 1 {
            (d >> 1) ^ 0xEDB88320u32
        } else {
            d >> 1
        }
    }
}

/// The CRC-32 register after feeding `data` to it.
pub open spec fn crc32_register(c: u32, data: Seq<u8>) -> u32
    decreases data.len(),
{
    if data.len() == 0 {
        c
    } else {
        crc32_register(crc32_bits(c ^ (data[0] as u32), 8), data.drop_first())
    }
}

/// CRC-32 (IEEE 802.3, as in zip and PNG): start from all ones, feed the
/// bytes, invert.
pub open spec fn crc32(data: Seq<u8>) -> u32 {
    !crc32_register(0xFFFF_FFFFu32, data)
}

/// `crc32fast::hash`: the CRC-32 (IEEE) checksum of `data`.
#[verifier::external_body]
pub(crate) fn crc32_checksum(data: &[u8]) -> (res: u32)
    ensures
        res == crc32(data@),
{
    crc32fast::hash(data)
}

/// The message `String::from_utf8_lossy` makes of `bytes`: valid UTF-8 as
/// it is, each invalid sequence replaced by U+FFFD.
pub uninterp spec fn utf8_lossy(bytes: Seq<u8>) -> Seq<char>;

/// `String::from_utf8_lossy`: the text of `bytes`, with invalid sequences
/// replaced; valid UTF-8 is decoded as it is.
#[verifier::external_body]
pub(crate) fn from_utf8_lossy(bytes: &[u8]) -> (res: String)
    ensures
        res@ == utf8_lossy(bytes@),
        vstd::utf8::valid_utf8(bytes@) ==> res@ == vstd::utf8::decode_utf8(bytes@),
{
    String::from_utf8_lossy(bytes).into_owned()
}

/// The text preview of a plain-text file: at most `MAX_TEXT_PREVIEW_BYTES`
/// of its bytes, read as UTF-8 with invalid sequences replaced, and whether
/// the file was longer.
pub fn plain_text_preview(bytes: &[u8]) -> (res: (String, bool))
    ensures
        res.1 == (bytes@.len() > MAX_TEXT_PREVIEW_BYTES),
        res.0@ == utf8_lossy(
            if bytes@.len() > MAX_TEXT_PREVIEW_BYTES {
                bytes@.take(MAX_TEXT_PREVIEW_BYTES as int)
            } else {
                bytes@
            },
        ),
{
    let truncated = bytes.len() > MAX_TEXT_PREVIEW_BYTES;
    let end = if truncated {
        MAX_TEXT_PREVIEW_BYTES
    } else {
        bytes.len()
    };
    let slice = vstd::slice::slice_subrange(bytes, 0, end);
    proof {
        if !truncated {
            assert(bytes@.subrange(0, end as int) =~= bytes@);
        }
    }
    (from_utf8_lossy(slice), truncated)
}

/// Where the text of a PDF is cut: the last character boundary at or
/// before `MAX_TEXT_PREVIEW_BYTES` bytes.
pub open spec fn is_cut_point(bytes: Seq<u8>, end: int) -> bool {
    &&& 0 <= end <= MAX_TEXT_PREVIEW_BYTES
    &&& vstd::utf8::is_char_boundary(bytes, end)
    &&& forall|e: int| end < e <= MAX_TEXT_PREVIEW_BYTES ==> !vstd::utf8::is_char_boundary(bytes, e)
}

/// The text of an optional preview and its truncation flag.
pub open spec fn opt_pair(o: Option<(String, bool)>) -> Option<(Seq<char>, bool)> {
    match o {
        Some(p) => Some((p.0@, p.1)),
        None => None,
    }
}

/// Whether `res` is the preview of a PDF's extracted text `text`: nothing
/// when the text is blank; the whole text when it fits in
/// `MAX_TEXT_PREVIEW_BYTES` bytes; otherwise the text cut at the last
/// character boundary within that many bytes, marked as truncated.
pub open spec fn pdf_preview_fits(text: Seq<char>, res: Option<(Seq<char>, bool)>) -> bool {
    if forall|i: int| 0 <= i < text.len() ==> crate::text::is_white_space(#[trigger] text[i]) {
        res is None
    } else {
        res matches Some(p) && if vstd::utf8::encode_utf8(text).len() <= MAX_TEXT_PREVIEW_BYTES {
            p.0 == text && !p.1
        } else {
            p.1 && exists|end: int|
                is_cut_point(vstd::utf8::encode_utf8(text), end) && vstd::utf8::encode_utf8(p.0)
                    == vstd::utf8::encode_utf8(text).subrange(0, end)
        }
    }
}

/// The bytes of a plain-text file that its preview reads.
pub open spec fn capped(bytes: Seq<u8>) -> Seq<u8> {
    if bytes.len() > MAX_TEXT_PREVIEW_BYTES {
        bytes.take(MAX_TEXT_PREVIEW_BYTES as int)
    } else {
        bytes
    }
}

/// Whether `res` is the text preview of a file previewed as `k`, with
/// contents `contents` and, for a PDF, extracted text `pdf_text` (`None`
/// when extraction failed).
pub open spec fn text_preview_fits(
    k: Option<TextPreviewKind>,
    contents: Seq<u8>,
    pdf_text: Option<Seq<char>>,
    res: Option<(Seq<char>, bool)>,
) -> bool {
    match k {
        None => res is None,
        Some(TextPreviewKind::PlainText) => res == Some((utf8_lossy(capped(contents)), contents.len() > MAX_TEXT_PREVIEW_BYTES)),
        Some(TextPreviewKind::Pdf) => match pdf_text {
            None => res is None,
            Some(t) => pdf_preview_fits(t, res),
        },
    }
}

/// The text preview of a PDF from its extracted text: nothing when the text
/// is blank; the whole text when it fits in `MAX_TEXT_PREVIEW_BYTES` bytes;
/// otherwise the text cut at the last character boundary within that many
/// bytes, marked as truncated.
pub fn pdf_text_preview(text: String) -> (res: Option<(String, bool)>)
    ensures
        pdf_preview_fits(text@, opt_pair(res)),
{
    broadcast use vstd::utf8::group_utf8_lib;

    let cs = chars_of(text.as_str());
    if blank_chars(&cs) {
        return None;
    }
    let len = text.as_str().as_bytes().len();
    if len <= MAX_TEXT_PREVIEW_BYTES {
        return Some((text, false));
    }
    let ghost bytes = vstd::utf8::encode_utf8(text@);
    proof {
        vstd::utf8::encode_utf8_valid_utf8(text@);
    }
    let mut end = MAX_TEXT_PREVIEW_BYTES;
    while !text.as_str().is_char_boundary(end)
        invariant
            end <= MAX_TEXT_PREVIEW_BYTES,
            MAX_TEXT_PREVIEW_BYTES < bytes.len(),
            bytes == vstd::utf8::encode_utf8(text@),
            vstd::utf8::valid_utf8(bytes),
            forall|e: int| end < e <= MAX_TEXT_PREVIEW_BYTES ==> !vstd::utf8::is_char_boundary(bytes, e),
        decreases end,
    {
        proof {
            vstd::utf8::is_char_boundary_start_end_of_seq(bytes);
        }
        end = end - 1;
    }
    let (head, _) = text.as_str().split_at(end);
    let cut = head.to_owned();
    proof {
        assert(is_cut_point(bytes, end as int));
        assert(vstd::utf8::encode_utf8(cut@) == bytes.subrange(0, end as int));
    }
    Some((cut, true))
}

/// What was learned of a file that could be opened: its size and
/// modification time (when the system reported them), its bytes (read only
/// when it is not too large; empty otherwise), and, for a PDF that is not
/// too large, the text extracted from it (`None` when extraction failed).
/// The extracted text is taken as given: the PDF text extractor can panic
/// on malformed files, so it runs outside this library, and nothing here
/// ties that text to the bytes.
pub struct FileFacts {
    pub size_bytes: Option<u64>,
    pub modified: Option<i64>,
    pub contents: Vec<u8>,
    pub pdf_text: Option<String>,
}

/// The text of a preview and its truncation flag.
pub open spec fn preview_pair(t: Option<String>, truncated: bool) -> Option<(Seq<char>, bool)> {
    match t {
        Some(s) => Some((s@, truncated)),
        None => None,
    }
}

/// The preview of one file: its name (the path itself when it has none) and
/// path, its archive listing; and, when it could be opened, its size and
/// modification time, and, unless it is too large, its SHA-1 and CRC-32 in
/// hex and its text preview, read as the file's extension says.
pub fn preview_file_meta(
    path: &str,
    zip_entries: Option<Vec<ZipEntry>>,
    file: Option<FileFacts>,
    max_file_kb: i64,
) -> (res: FilePreview)
    ensures
        res.name@ == path@ || file_name_fits(res.name@, path@),
        forall|i: int| plain_file_name_at(path@, i) ==> res.name@ == path@.subrange(i + 1, path@.len() as int),
        res.path@ == path@,
        res.zip_entries == zip_entries,
        res.text_preview is None ==> !res.text_preview_truncated,
        file is None ==> !res.exists && !res.too_large && res.size_bytes is None && res.modified is None
            && res.sha1 is None && res.crc32 is None && res.text_preview is None,
        file matches Some(f) ==> res.exists && res.size_bytes == f.size_bytes && res.modified
            == f.modified,
        file matches Some(f) ==> (res.too_large <==> is_too_large(f.size_bytes, max_file_kb)),
        (file is Some && is_too_large(file->0.size_bytes, max_file_kb)) ==> res.sha1 is None && res.crc32
            is None && res.text_preview is None,
        (file is Some && !is_too_large(file->0.size_bytes, max_file_kb)) ==> (res.sha1 matches Some(h)
            && h@ == hex_lower(sha1(file->0.contents@)) && h@.len() == 40),
        (file is Some && !is_too_large(file->0.size_bytes, max_file_kb)) ==> (res.crc32 matches Some(c)
            && c@ == hex_fixed(crc32(file->0.contents@) as nat, 8)),
        (file is Some && !is_too_large(file->0.size_bytes, max_file_kb)) ==> exists|k: Option<TextPreviewKind>|
            kind_fits_path(k, path@) && text_preview_fits(
                k,
                file->0.contents@,
                opt_chars(file->0.pdf_text),
                preview_pair(res.text_preview, res.text_preview_truncated),
            ),
{
    let name = match path_file_name(path) {
        Some(n) => n,
        None => path.to_owned(),
    };
    let f = match file {
        Some(f) => f,
        None => {
            return FilePreview {
                name,
                path: path.to_owned(),
                exists: false,
                too_large: false,
                size_bytes: None,
                modified: None,
                sha1: None,
                crc32: None,
                zip_entries,
                text_preview: None,
                text_preview_truncated: false,
            };
        },
    };
    if file_too_large(f.size_bytes, max_file_kb) {
        return FilePreview {
            name,
            path: path.to_owned(),
            exists: true,
            too_large: true,
            size_bytes: f.size_bytes,
            modified: f.modified,
            sha1: None,
            crc32: None,
            zip_entries,
            text_preview: None,
            text_preview_truncated: false,
        };
    }
    let digest = sha1_digest(f.contents.as_slice());
    let sha1_hex = to_hex_lower(digest.as_slice());
    proof {
        crate::encode::lemma_hex_lower_len(digest@);
    }
    let crc_hex = hex_u32(crc32_checksum(f.contents.as_slice()));
    let kind = text_preview_kind(path);
    let ghost pdf = opt_chars(f.pdf_text);
    let preview = match kind {
        None => None,
        Some(TextPreviewKind::PlainText) => Some(plain_text_preview(f.contents.as_slice())),
        Some(TextPreviewKind::Pdf) => match f.pdf_text {
            Some(t) => pdf_text_preview(t),
            None => None,
        },
    };
    proof {
        assert(text_preview_fits(kind, f.contents@, pdf, opt_pair(preview)));
    }
    let (text_preview, text_preview_truncated) = match preview {
        Some((t, tr)) => (Some(t), tr),
        None => (None, false),
    };
    proof {
        assert(preview_pair(text_preview, text_preview_truncated) == opt_pair(preview));
    }
    FilePreview {
        name,
        path: path.to_owned(),
        exists: true,
        too_large: false,
        size_bytes: f.size_bytes,
        modified: f.modified,
        sha1: Some(sha1_hex),
        crc32: Some(crc_hex),
        zip_entries,
        text_preview,
        text_preview_truncated,
    }
}

} // verus!
