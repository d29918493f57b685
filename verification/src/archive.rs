//! Listing the members of `.zip` and `.7z` archives held in memory: the
//! archive crates read the bytes, and the listing keeps the first
//! `MAX_ZIP_ENTRIES_LISTED` members, in archive order, each with its name,
//! unpacked size, directory flag and CRC-32.

use vstd::prelude::*;
use crate::preview::{entry_view, listed_count, zip_entry, ZipEntry, ZipEntryView, MAX_ZIP_ENTRIES_LISTED};

verus! {

/// `std::io::Cursor`.
#[verifier::external_type_specification]
#[verifier::external_body]
#[verifier::reject_recursive_types(T)]
pub struct ExCursor<T>(std::io::Cursor<T>);

/// `zip::ZipArchive`.
#[verifier::external_type_specification]
#[verifier::external_body]
#[verifier::reject_recursive_types(R)]
pub struct ExZipArchive<R>(zip::ZipArchive<R>);

/// A zip archive opened over bytes in memory, with those bytes.
pub struct ZipReader {
    archive: zip::ZipArchive<std::io::Cursor<Vec<u8>>>,
    bytes: Ghost<Seq<u8>>,
}

impl View for ZipReader {
    type V = Seq<u8>;

    closed spec fn view(&self) -> Seq<u8> {
        self.bytes@
    }
}

/// Whether `zip::ZipArchive::new` reads `bytes` as a zip archive.
pub uninterp spec fn zip_opens(bytes: Seq<u8>) -> bool;

/// How many members `ZipArchive::len` reports for the archive in `bytes`.
pub uninterp spec fn zip_count(bytes: Seq<u8>) -> usize;

/// What `ZipArchive::by_index` gives for member `index` of the archive in
/// `bytes`: its name, unpacked size, directory flag and CRC-32, or `None`
/// when the member (or its name) cannot be read.
pub uninterp spec fn zip_member_at(bytes: Seq<u8>, index: int) -> Option<(Seq<char>, u64, bool, u32)>;

/// What the archive crate of 7z files reads from `bytes`: for each member
/// in archive order its name, unpacked size, directory flag, whether a
/// CRC-32 is recorded, and that CRC; `None` when the bytes cannot be read
/// as a 7z archive.
pub uninterp spec fn sevenz_members(bytes: Seq<u8>) -> Option<Seq<(Seq<char>, u64, bool, bool, u64)>>;

/// The text of a zip member's fields.
pub open spec fn zip_member_view(m: Option<(String, u64, bool, u32)>) -> Option<(Seq<char>, u64, bool, u32)> {
    match m {
        Some(t) => Some((t.0@, t.1, t.2, t.3)),
        None => None,
    }
}

/// The text of the 7z members' fields.
pub open spec fn sevenz_view(m: Option<Vec<(String, u64, bool, bool, u64)>>) -> Option<
    Seq<(Seq<char>, u64, bool, bool, u64)>,
> {
    match m {
        Some(v) => Some(v@.map_values(|t: (String, u64, bool, bool, u64)| (t.0@, t.1, t.2, t.3, t.4))),
        None => None,
    }
}

/// `zip::ZipArchive::new` over the bytes.
#[verifier::external_body]
fn zip_open(bytes: Vec<u8>) -> (res: Option<ZipReader>)
    ensures
        res is Some <==> zip_opens(bytes@),
        res matches Some(r) ==> r@ == bytes@,
{
    let ghost_bytes = Ghost(bytes@);
    match zip::ZipArchive::new(std::io::Cursor::new(bytes)) {
        Ok(archive) => Some(ZipReader { archive, bytes: ghost_bytes }),
        Err(_) => None,
    }
}

/// `ZipArchive::len`: the number of members.
#[verifier::external_body]
fn zip_len(r: &ZipReader) -> (res: usize)
    ensures
        res == zip_count(r@),
{
    r.archive.len()
}

/// `ZipArchive::by_index` and the member's `name`, `size`, `is_dir` and
/// `crc32`; `None` when the member or its name cannot be read.
#[verifier::external_body]
fn zip_member(r: &mut ZipReader, index: usize) -> (res: Option<(String, u64, bool, u32)>)
    ensures
        final(r)@ == old(r)@,
        zip_member_view(res) == zip_member_at(old(r)@, index as int),
{
    match r.archive.by_index(index) {
        Ok(file) => match file.name() {
            Ok(name) => Some((name.into_owned(), file.size(), file.is_dir(), file.crc32())),
            Err(_) => None,
        },
        Err(_) => None,
    }
}

/// `sevenz_rust2::Archive::read` over the bytes with no password, and each
/// member's `name`, `size`, `is_directory`, `has_crc` and `crc`.
#[verifier::external_body]
fn sevenz_read(bytes: &[u8]) -> (res: Option<Vec<(String, u64, bool, bool, u64)>>)
    ensures
        sevenz_view(res) == sevenz_members(bytes@),
{
    let mut reader = std::io::Cursor::new(bytes);
    match sevenz_rust2::Archive::read(&mut reader, &sevenz_rust2::Password::empty()) {
        Ok(archive) => Some(
            archive.files.iter().map(|e| (e.name.clone(), e.size, e.is_directory, e.has_crc, e.crc)).collect(),
        ),
        Err(_) => None,
    }
}

/// The listing entry of a zip member as read.
pub open spec fn zip_member_entry(m: (Seq<char>, u64, bool, u32)) -> ZipEntryView {
    entry_view(m.0, m.1, m.2, Some(m.3 as u64))
}

/// The listing of the zip archive in `bytes`: `None` when it cannot be
/// opened or one of its first `MAX_ZIP_ENTRIES_LISTED` members cannot be
/// read; otherwise those members, in archive order.
pub open spec fn zip_listing_of(bytes: Seq<u8>) -> Option<Seq<ZipEntryView>> {
    let n = listed_count(zip_count(bytes) as nat);
    if !zip_opens(bytes) {
        None
    } else if exists|k: int| 0 <= k < n && #[trigger] zip_member_at(bytes, k) is None {
        None
    } else {
        Some(Seq::new(n, |k: int| zip_member_entry(zip_member_at(bytes, k)->0)))
    }
}

/// The listing entry of a 7z member as read: its CRC only when recorded.
pub open spec fn sevenz_member_entry(m: (Seq<char>, u64, bool, bool, u64)) -> ZipEntryView {
    entry_view(m.0, m.1, m.2, if m.3 { Some(m.4) } else { None })
}

/// The listing of the 7z archive in `bytes`: `None` when it cannot be read;
/// otherwise its first `MAX_ZIP_ENTRIES_LISTED` members, in archive order.
pub open spec fn sevenz_listing_of(bytes: Seq<u8>) -> Option<Seq<ZipEntryView>> {
    match sevenz_members(bytes) {
        None => None,
        Some(ms) => Some(Seq::new(listed_count(ms.len()), |k: int| sevenz_member_entry(ms[k]))),
    }
}

/// The listing entries of an optional listing.
pub open spec fn entries_view(o: Option<Vec<ZipEntry>>) -> Option<Seq<ZipEntryView>> {
    match o {
        Some(v) => Some(v@.map_values(|e: ZipEntry| e@)),
        None => None,
    }
}

/// Lists the members of the zip archive in `bytes`, without extracting it.
pub fn zip_listing(bytes: Vec<u8>) -> (res: Option<Vec<ZipEntry>>)
    ensures
        entries_view(res) == zip_listing_of(bytes@),
{
    let ghost b = bytes@;
    let mut reader = match zip_open(bytes) {
        Some(r) => r,
        None => return None,
    };
    let total = zip_len(&reader);
    let n = if total < MAX_ZIP_ENTRIES_LISTED {
        total
    } else {
        MAX_ZIP_ENTRIES_LISTED
    };
    let mut out: Vec<ZipEntry> = Vec::new();
    for i in 0..n
        invariant
            reader@ == b,
            b == bytes@,
            zip_opens(b),
            n == listed_count(zip_count(b) as nat),
            out@.len() == i,
            forall|k: int| 0 <= k < i ==> (#[trigger] zip_member_at(b, k)) is Some && out@[k]@ == zip_member_entry(
                zip_member_at(b, k)->0,
            ),
    {
        match zip_member(&mut reader, i) {
            Some((name, size, is_dir, crc)) => {
                out.push(zip_entry(name, size, is_dir, Some(crc as u64)));
            },
            None => {
                assert(zip_member_at(b, i as int) is None);
                return None;
            },
        }
    }
    assert(!exists|k: int| 0 <= k < n && #[trigger] zip_member_at(b, k) is None);
    assert(out@.map_values(|e: ZipEntry| e@) =~= Seq::new(n as nat, |k: int| zip_member_entry(zip_member_at(b, k)->0)));
    Some(out)
}

/// Lists the members of the 7z archive in `bytes`, without extracting it.
pub fn sevenz_listing(bytes: &[u8]) -> (res: Option<Vec<ZipEntry>>)
    ensures
        entries_view(res) == sevenz_listing_of(bytes@),
{
    let members = match sevenz_read(bytes) {
        Some(m) => m,
        None => return None,
    };
    let ghost ms = sevenz_view(Some(members))->0;
    let total = members.len();
    let n = if total < MAX_ZIP_ENTRIES_LISTED {
        total
    } else {
        MAX_ZIP_ENTRIES_LISTED
    };
    let mut out: Vec<ZipEntry> = Vec::new();
    for i in 0..n
        invariant
            n == listed_count(ms.len()),
            n <= members@.len(),
            ms == members@.map_values(|t: (String, u64, bool, bool, u64)| (t.0@, t.1, t.2, t.3, t.4)),
            out@.len() == i,
            forall|k: int| 0 <= k < i ==> #[trigger] out@[k]@ == sevenz_member_entry(ms[k]),
    {
        let m = &members[i];
        let crc = if m.3 {
            Some(m.4)
        } else {
            None
        };
        out.push(zip_entry(m.0.clone(), m.1, m.2, crc));
    }
    assert(out@.map_values(|e: ZipEntry| e@) =~= Seq::new(listed_count(ms.len()), |k: int| sevenz_member_entry(ms[k])));
    Some(out)
}

} // verus!
