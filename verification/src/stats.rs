//! The statistics the settings window shows: how many entries there are in
//! all, of each kind and pinned, how many snippets, the space the database
//! takes, and the creation times of the oldest and newest entries.

use vstd::prelude::*;
use crate::history::{History, Row};
use crate::snippets::Snippets;
use crate::text::str_eq;

verus! {

/// The statistics of the history.
pub struct Stats {
    pub total: u64,
    pub text: u64,
    pub images: u64,
    pub files: u64,
    pub pinned: u64,
    pub snippets: u64,
    pub db_size_bytes: u64,
    pub oldest: Option<i64>,
    pub newest: Option<i64>,
}

/// How many rows have the kind `kind`.
pub open spec fn count_kind(rows: Seq<Row>, kind: Seq<char>) -> nat {
    rows.filter(|r: Row| r.kind == kind).len()
}

/// How many rows are pinned.
pub open spec fn count_pinned(rows: Seq<Row>) -> nat {
    rows.filter(|r: Row| r.pinned).len()
}

/// The earliest creation time among the rows, if any.
pub open spec fn earliest(rows: Seq<Row>) -> Option<i64>
    decreases rows.len(),
{
    if rows.len() == 0 {
        None
    } else {
        match earliest(rows.drop_last()) {
            None => Some(rows.last().created_at),
            Some(t) => Some(if rows.last().created_at < t { rows.last().created_at } else { t }),
        }
    }
}

/// The latest creation time among the rows, if any.
pub open spec fn latest(rows: Seq<Row>) -> Option<i64>
    decreases rows.len(),
{
    if rows.len() == 0 {
        None
    } else {
        match latest(rows.drop_last()) {
            None => Some(rows.last().created_at),
            Some(t) => Some(if rows.last().created_at > t { rows.last().created_at } else { t }),
        }
    }
}

/// The statistics of `history` and `snippets`, with the database file
/// taking `db_size_bytes` bytes.
pub fn stats(history: &History, snippets: &Snippets, db_size_bytes: u64) -> (res: Stats)
    ensures
        res.total == history@.rows.len(),
        res.text == count_kind(history@.rows, "text"@),
        res.images == count_kind(history@.rows, "image"@),
        res.files == count_kind(history@.rows, "files"@),
        res.pinned == count_pinned(history@.rows),
        res.snippets == snippets@.items.len(),
        res.db_size_bytes == db_size_bytes,
        res.oldest == earliest(history@.rows),
        res.newest == latest(history@.rows),
{
    let rows = history.rows();
    let ghost rs = history@.rows;
    let ghost is_text = |r: Row| r.kind == "text"@;
    let ghost is_image = |r: Row| r.kind == "image"@;
    let ghost is_files = |r: Row| r.kind == "files"@;
    let ghost is_pinned = |r: Row| r.pinned;
    let n = rows.len();
    let mut text: u64 = 0;
    let mut images: u64 = 0;
    let mut files: u64 = 0;
    let mut pinned: u64 = 0;
    let mut oldest: Option<i64> = None;
    let mut newest: Option<i64> = None;
    proof {
        assert(rs.take(0) =~= Seq::<Row>::empty());
    }
    for i in 0..n
        invariant
            n == rs.len(),
            rows@.map_values(|e: crate::history::StoredEntry| e@) == rs,
            is_text == (|r: Row| r.kind == "text"@),
            is_image == (|r: Row| r.kind == "image"@),
            is_files == (|r: Row| r.kind == "files"@),
            is_pinned == (|r: Row| r.pinned),
            text == rs.take(i as int).filter(is_text).len(),
            images == rs.take(i as int).filter(is_image).len(),
            files == rs.take(i as int).filter(is_files).len(),
            pinned == rs.take(i as int).filter(is_pinned).len(),
            oldest == earliest(rs.take(i as int)),
            newest == latest(rs.take(i as int)),
            text <= i && images <= i && files <= i && pinned <= i,
    {
        let e = &rows[i];
        let ghost t = rs.take(i + 1);
        proof {
            reveal_with_fuel(Seq::filter, 1);
            assert(t.drop_last() =~= rs.take(i as int));
            assert(t.last() == rs[i as int]);
            assert(rs[i as int] == e@);
        }
        if str_eq(e.kind.as_str(), "text") {
            text = text + 1;
        }
        if str_eq(e.kind.as_str(), "image") {
            images = images + 1;
        }
        if str_eq(e.kind.as_str(), "files") {
            files = files + 1;
        }
        if e.pinned {
            pinned = pinned + 1;
        }
        oldest = match oldest {
            None => Some(e.created_at),
            Some(o) => Some(if e.created_at < o { e.created_at } else { o }),
        };
        newest = match newest {
            None => Some(e.created_at),
            Some(o) => Some(if e.created_at > o { e.created_at } else { o }),
        };
    }
    proof {
        assert(rs.take(n as int) =~= rs);
    }
    Stats {
        total: n as u64,
        text,
        images,
        files,
        pinned,
        snippets: snippets.items().len() as u64,
        db_size_bytes,
        oldest,
        newest,
    }
}

} // verus!
