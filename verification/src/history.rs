//! The clipboard history table: entries with increasing ids, a pin flag,
//! pruning of old unpinned entries, and the newest-first listing with search.

use vstd::prelude::*;
use crate::encode::{base64, base64_encode};
use crate::search::{escape_like, escape_pattern, like, like_match};
use crate::text::chars_of;

verus! {

/// Unpinned entries beyond this count are pruned, oldest first. Pinned
/// entries are never pruned.
pub const MAX_UNPINNED_ENTRIES: i64 = 500;

/// At most this many entries are listed.
pub const LIST_LIMIT: usize = 300;

/// Fields needed to persist a freshly captured clipboard entry.
pub struct NewEntry {
    pub kind: &'static str,
    pub preview: String,
    pub search_text: String,
    pub content: Option<String>,
    pub image_path: Option<String>,
    pub file_list: Option<String>,
    pub thumbnail: Option<Vec<u8>>,
    pub hash: String,
}

/// One row of the history table, as stored.
pub struct StoredEntry {
    pub id: i64,
    pub kind: String,
    pub preview: String,
    pub search_text: String,
    pub content: Option<String>,
    pub image_path: Option<String>,
    pub file_list: Option<String>,
    pub thumbnail: Option<Vec<u8>>,
    pub hash: String,
    pub pinned: bool,
    pub created_at: i64,
}

/// What the list shows of an entry; the thumbnail is Base64-encoded.
pub struct HistoryEntry {
    pub id: i64,
    pub kind: String,
    pub preview: String,
    pub pinned: bool,
    pub created_at: i64,
    pub thumbnail: Option<String>,
}

/// The stored fields needed to copy, open or preview an entry.
pub struct FullEntry {
    pub kind: String,
    pub content: Option<String>,
    pub image_path: Option<String>,
    pub file_list: Option<String>,
    pub thumbnail: Option<Vec<u8>>,
}

/// Why the table refused a change.
#[derive(Debug, PartialEq, Eq, Clone, Copy)]
pub enum HistoryError {
    /// Every id up to `i64::MAX` has been handed out; no row can be added.
    IdsExhausted,
}

/// What storing an entry did: the id it received, and the ids of the
/// entries that pruning removed to make room.
pub struct Inserted {
    pub id: i64,
    pub pruned: Vec<i64>,
}

/// The mathematical value of a stored row.
pub struct Row {
    pub id: i64,
    pub kind: Seq<char>,
    pub preview: Seq<char>,
    pub search_text: Seq<char>,
    pub content: Option<Seq<char>>,
    pub image_path: Option<Seq<char>>,
    pub file_list: Option<Seq<char>>,
    pub thumbnail: Option<Seq<u8>>,
    pub hash: Seq<char>,
    pub pinned: bool,
    pub created_at: i64,
}

/// The mathematical value of a full entry.
pub struct FullView {
    pub kind: Seq<char>,
    pub content: Option<Seq<char>>,
    pub image_path: Option<Seq<char>>,
    pub file_list: Option<Seq<char>>,
    pub thumbnail: Option<Seq<u8>>,
}

pub open spec fn opt_chars(o: Option<String>) -> Option<Seq<char>> {
    match o {
        Some(s) => Some(s@),
        None => None,
    }
}

pub open spec fn opt_bytes(o: Option<Vec<u8>>) -> Option<Seq<u8>> {
    match o {
        Some(v) => Some(v@),
        None => None,
    }
}

impl View for StoredEntry {
    type V = Row;

    open spec fn view(&self) -> Row {
        Row {
            id: self.id,
            kind: self.kind@,
            preview: self.preview@,
            search_text: self.search_text@,
            content: opt_chars(self.content),
            image_path: opt_chars(self.image_path),
            file_list: opt_chars(self.file_list),
            thumbnail: opt_bytes(self.thumbnail),
            hash: self.hash@,
            pinned: self.pinned,
            created_at: self.created_at,
        }
    }
}

impl View for FullEntry {
    type V = FullView;

    open spec fn view(&self) -> FullView {
        FullView {
            kind: self.kind@,
            content: opt_chars(self.content),
            image_path: opt_chars(self.image_path),
            file_list: opt_chars(self.file_list),
            thumbnail: opt_bytes(self.thumbnail),
        }
    }
}

impl NewEntry {
    /// The row that storing this entry under `id` creates.
    pub open spec fn row(&self, id: i64, pinned: bool, created_at: i64) -> Row {
        Row {
            id,
            kind: self.kind@,
            preview: self.preview@,
            search_text: self.search_text@,
            content: opt_chars(self.content),
            image_path: opt_chars(self.image_path),
            file_list: opt_chars(self.file_list),
            thumbnail: opt_bytes(self.thumbnail),
            hash: self.hash@,
            pinned,
            created_at,
        }
    }
}

/// The full entry that a row gives back.
pub open spec fn full_of(r: Row) -> FullView {
    FullView {
        kind: r.kind,
        content: r.content,
        image_path: r.image_path,
        file_list: r.file_list,
        thumbnail: r.thumbnail,
    }
}

/// The table's contents: rows in increasing id order, the largest id ever
/// handed out (ids are never reused), and how many unpinned rows are kept.
pub struct HistoryState {
    pub rows: Seq<Row>,
    pub last_id: i64,
    pub limit: i64,
}

/// Ids are positive, strictly increasing, and no larger than the largest id
/// handed out.
pub open spec fn rows_wf(rows: Seq<Row>, last_id: i64) -> bool {
    &&& 0 <= last_id
    &&& forall|i: int| 0 <= i < rows.len() ==> 0 < #[trigger] rows[i].id <= last_id
    &&& forall|i: int, j: int| 0 <= i < j < rows.len() ==> rows[i].id < rows[j].id
}

/// The clipboard history table.
pub struct History {
    rows: Vec<StoredEntry>,
    last_id: i64,
    max_unpinned: i64,
}

impl View for History {
    type V = HistoryState;

    closed spec fn view(&self) -> HistoryState {
        HistoryState {
            rows: self.rows@.map_values(|e: StoredEntry| e@),
            last_id: self.last_id,
            limit: self.max_unpinned,
        }
    }
}

/// The position of the row with id `id`, if any.
pub open spec fn has_id(rows: Seq<Row>, id: i64) -> bool {
    exists|k: int| 0 <= k < rows.len() && rows[k].id == id
}

/// The number of unpinned rows in `s`.
pub open spec fn unpinned_count(s: Seq<Row>) -> nat
    decreases s.len(),
{
    if s.len() == 0 {
        0
    } else {
        (if s[0].pinned { 0nat } else { 1nat }) + unpinned_count(s.drop_first())
    }
}

/// Pruning to at most `limit` unpinned rows: a row stays when it is pinned
/// or when fewer than `limit` unpinned rows come after it (rows are in id
/// order, so those are the newer ones).
pub open spec fn pruned(s: Seq<Row>, limit: int) -> Seq<Row>
    decreases s.len(),
{
    if s.len() == 0 {
        Seq::empty()
    } else if s[0].pinned || unpinned_count(s.drop_first()) < limit {
        seq![s[0]] + pruned(s.drop_first(), limit)
    } else {
        pruned(s.drop_first(), limit)
    }
}

/// The ids of the rows that pruning removes, in id order.
pub open spec fn pruned_ids(s: Seq<Row>, limit: int) -> Seq<i64>
    decreases s.len(),
{
    if s.len() == 0 {
        Seq::empty()
    } else if s[0].pinned || unpinned_count(s.drop_first()) < limit {
        pruned_ids(s.drop_first(), limit)
    } else {
        seq![s[0].id] + pruned_ids(s.drop_first(), limit)
    }
}

/// The mathematical value of a listed entry.
pub struct EntryView {
    pub id: i64,
    pub kind: Seq<char>,
    pub preview: Seq<char>,
    pub pinned: bool,
    pub created_at: i64,
    pub thumbnail: Option<Seq<char>>,
}

impl View for HistoryEntry {
    type V = EntryView;

    open spec fn view(&self) -> EntryView {
        EntryView {
            id: self.id,
            kind: self.kind@,
            preview: self.preview@,
            pinned: self.pinned,
            created_at: self.created_at,
            thumbnail: opt_chars(self.thumbnail),
        }
    }
}

/// What the list shows of a row: its thumbnail in Base64.
pub open spec fn summary(r: Row) -> EntryView {
    EntryView {
        id: r.id,
        kind: r.kind,
        preview: r.preview,
        pinned: r.pinned,
        created_at: r.created_at,
        thumbnail: match r.thumbnail {
            Some(b) => Some(base64(b)),
            None => None,
        },
    }
}

/// The characters of an optional query.
pub open spec fn opt_str(q: Option<&str>) -> Option<Seq<char>> {
    match q {
        Some(s) => Some(s@),
        None => None,
    }
}

/// Whether a row is found by the query: every row when there is none,
/// otherwise those whose search text matches the escaped query pattern.
pub open spec fn row_matches(r: Row, q: Option<Seq<char>>) -> bool {
    match q {
        None => true,
        Some(q) => like(r.search_text, escape_pattern(q)),
    }
}

/// The rows with the given pin flag that the query finds, newest (largest
/// id) first.
pub open spec fn newest_first(rows: Seq<Row>, pinned: bool, q: Option<Seq<char>>) -> Seq<Row>
    decreases rows.len(),
{
    if rows.len() == 0 {
        Seq::empty()
    } else {
        let r = rows.last();
        let rest = newest_first(rows.drop_last(), pinned, q);
        if r.pinned == pinned && row_matches(r, q) {
            seq![r] + rest
        } else {
            rest
        }
    }
}

/// The listing: pinned rows first, then the others, each newest first, at
/// most `LIST_LIMIT` of them.
pub open spec fn listed(rows: Seq<Row>, q: Option<Seq<char>>) -> Seq<Row> {
    let all = newest_first(rows, true, q) + newest_first(rows, false, q);
    if all.len() <= LIST_LIMIT {
        all
    } else {
        all.take(LIST_LIMIT as int)
    }
}

fn search_pattern(query: Option<&str>) -> (res: Option<Vec<char>>)
    ensures
        match query {
            None => res is None,
            Some(q) => res matches Some(p) && p@ == escape_pattern(q@),
        },
{
    match query {
        Some(q) => {
            let pattern = escape_like(q);
            Some(chars_of(pattern.as_str()))
        },
        None => None,
    }
}

fn entry_matches(e: &StoredEntry, pattern: &Option<Vec<char>>, q: Ghost<Option<Seq<char>>>) -> (res: bool)
    requires
        match q@ {
            None => pattern is None,
            Some(qs) => pattern matches Some(p) && p@ == escape_pattern(qs),
        },
    ensures
        res == row_matches(e@, q@),
{
    match pattern {
        None => true,
        Some(p) => {
            let t = chars_of(e.search_text.as_str());
            like_match(&t, p)
        },
    }
}

fn summarize(e: &StoredEntry) -> (res: HistoryEntry)
    ensures
        res@ == summary(e@),
{
    HistoryEntry {
        id: e.id,
        kind: clone_string(&e.kind),
        preview: clone_string(&e.preview),
        pinned: e.pinned,
        created_at: e.created_at,
        thumbnail: match &e.thumbnail {
            Some(b) => Some(base64_encode(b.as_slice())),
            None => None,
        },
    }
}

/// The pinned rows, in order.
pub open spec fn pinned_rows(rows: Seq<Row>) -> Seq<Row> {
    rows.filter(|r: Row| r.pinned)
}

/// The unpinned rows, in order.
pub open spec fn unpinned_rows(rows: Seq<Row>) -> Seq<Row> {
    rows.filter(|r: Row| !r.pinned)
}

/// The rows other than the one with id `id`, in order.
pub open spec fn without_id(rows: Seq<Row>, id: i64) -> Seq<Row> {
    rows.filter(|r: Row| r.id != id)
}

/// The ids of some rows, in order.
pub open spec fn ids_of(s: Seq<Row>) -> Seq<i64> {
    s.map_values(|r: Row| r.id)
}

/// `rows` with the pin flag of the row with id `id` set to `pinned`.
pub open spec fn with_pinned(rows: Seq<Row>, id: i64, pinned: bool) -> Seq<Row> {
    Seq::new(
        rows.len(),
        |i: int| if rows[i].id == id { Row { pinned, ..rows[i] } } else { rows[i] },
    )
}

/// Whether a row is removed for its age: a limit of `max_age_days` days
/// is set (more than 0), the row is not pinned, and it was created more than
/// that many days (of 86 400 000 ms) before `now`.
pub open spec fn expired(r: Row, now: i64, max_age_days: i64) -> bool {
    max_age_days > 0 && !r.pinned && r.created_at < now - max_age_days * 86_400_000
}

/// The rows that are not removed for their age, in order.
pub open spec fn unexpired_rows(rows: Seq<Row>, now: i64, max_age_days: i64) -> Seq<Row> {
    rows.filter(|r: Row| !expired(r, now, max_age_days))
}

/// The rows that are removed for their age, in order.
pub open spec fn expired_rows(rows: Seq<Row>, now: i64, max_age_days: i64) -> Seq<Row> {
    rows.filter(|r: Row| expired(r, now, max_age_days))
}

/// Filtering keeps rows of the table, in order.
pub proof fn lemma_filter_wf(s: Seq<Row>, pred: spec_fn(Row) -> bool, last_id: i64)
    requires
        rows_wf(s, last_id),
    ensures
        rows_wf(s.filter(pred), last_id),
        forall|k: int| 0 <= k < s.filter(pred).len() ==> exists|j: int|
            0 <= j < s.len() && #[trigger] s.filter(pred)[k] == s[j],
    decreases s.len(),
{
    reveal_with_fuel(Seq::filter, 1);
    if s.len() > 0 {
        let sub = s.drop_last();
        assert(rows_wf(sub, last_id));
        lemma_filter_wf(sub, pred, last_id);
        let f = s.filter(pred);
        let fs = sub.filter(pred);
        assert forall|k: int| 0 <= k < f.len() implies exists|j: int|
            0 <= j < s.len() && #[trigger] f[k] == s[j] by {
            if k < fs.len() {
                let j = choose|j: int| 0 <= j < sub.len() && #[trigger] fs[k] == sub[j];
                assert(f[k] == s[j]);
            } else {
                assert(f[k] == s[s.len() - 1]);
            }
        }
        if pred(s.last()) {
            assert forall|i: int, j: int| 0 <= i < j < f.len() implies f[i].id < f[j].id by {
                if j == f.len() - 1 {
                    let jj = choose|jj: int| 0 <= jj < sub.len() && #[trigger] fs[i] == sub[jj];
                    assert(f[i] == s[jj]);
                } else {
                    assert(f[i] == fs[i] && f[j] == fs[j]);
                }
            }
        }
    }
}

/// Pruning keeps rows of the table, in order.
pub proof fn lemma_pruned_wf(s: Seq<Row>, last_id: i64, limit: int)
    requires
        rows_wf(s, last_id),
    ensures
        rows_wf(pruned(s, limit), last_id),
        forall|k: int| 0 <= k < pruned(s, limit).len() ==> exists|j: int|
            0 <= j < s.len() && #[trigger] pruned(s, limit)[k] == s[j],
    decreases s.len(),
{
    if s.len() > 0 {
        let rest = s.drop_first();
        assert(rows_wf(rest, last_id));
        lemma_pruned_wf(rest, last_id, limit);
        let p = pruned(s, limit);
        let pr = pruned(rest, limit);
        if s[0].pinned || unpinned_count(rest) < limit {
            assert forall|k: int| 0 <= k < p.len() implies exists|j: int|
                0 <= j < s.len() && #[trigger] p[k] == s[j] by {
                if k == 0 {
                    assert(p[0] == s[0]);
                } else {
                    let j = choose|j: int| 0 <= j < rest.len() && #[trigger] pr[k - 1] == rest[j];
                    assert(p[k] == s[j + 1]);
                }
            }
            assert forall|i: int, j: int| 0 <= i < j < p.len() implies p[i].id < p[j].id by {
                let jj = choose|jj: int| 0 <= jj < rest.len() && #[trigger] pr[j - 1] == rest[jj];
                if i == 0 {
                    assert(p[j] == s[jj + 1]);
                } else {
                    assert(p[i] == pr[i - 1] && p[j] == pr[j - 1]);
                }
            }
            assert forall|i: int| 0 <= i < p.len() implies 0 < #[trigger] p[i].id <= last_id by {
                if i > 0 {
                    assert(p[i] == pr[i - 1]);
                }
            }
        } else {
            assert forall|k: int| 0 <= k < p.len() implies exists|j: int|
                0 <= j < s.len() && #[trigger] p[k] == s[j] by {
                let j = choose|j: int| 0 <= j < rest.len() && #[trigger] pr[k] == rest[j];
                assert(p[k] == s[j + 1]);
            }
        }
    }
}

pub(crate) fn clone_string(s: &String) -> (res: String)
    ensures
        res@ == s@,
{
    s.clone()
}

pub(crate) fn clone_opt_string(o: &Option<String>) -> (res: Option<String>)
    ensures
        opt_chars(res) == opt_chars(*o),
{
    match o {
        Some(s) => Some(s.clone()),
        None => None,
    }
}

pub(crate) fn clone_bytes(v: &Vec<u8>) -> (res: Vec<u8>)
    ensures
        res@ == v@,
{
    let mut out: Vec<u8> = Vec::new();
    let n = v.len();
    for i in 0..n
        invariant
            n == v@.len(),
            out@ == v@.take(i as int),
    {
        out.push(v[i]);
        assert(v@.take(i + 1) =~= v@.take(i as int).push(v@[i as int]));
    }
    assert(v@.take(n as int) =~= v@);
    out
}

pub(crate) fn clone_opt_bytes(o: &Option<Vec<u8>>) -> (res: Option<Vec<u8>>)
    ensures
        opt_bytes(res) == opt_bytes(*o),
{
    match o {
        Some(v) => Some(clone_bytes(v)),
        None => None,
    }
}

impl History {
    #[verifier::type_invariant]
    spec fn well_formed(self) -> bool {
        rows_wf(self@.rows, self.last_id) && 1 <= self.max_unpinned
    }

    /// An empty table that keeps `MAX_UNPINNED_ENTRIES` unpinned rows.
    pub fn new() -> (h: History)
        ensures
            h@.rows == Seq::<Row>::empty(),
            h@.last_id == 0,
            h@.limit == MAX_UNPINNED_ENTRIES,
    {
        let h = History { rows: Vec::new(), last_id: 0, max_unpinned: MAX_UNPINNED_ENTRIES };
        assert(h@.rows =~= Seq::<Row>::empty());
        h
    }

    /// The rows, in increasing id order.
    pub fn rows(&self) -> (res: &Vec<StoredEntry>)
        ensures
            res@.map_values(|e: StoredEntry| e@) == self@.rows,
            rows_wf(self@.rows, self@.last_id),
            self@.limit >= 1,
    {
        proof {
            use_type_invariant(self);
        }
        &self.rows
    }

    /// The largest id handed out so far.
    pub fn last_id(&self) -> (res: i64)
        ensures
            res == self@.last_id,
    {
        self.last_id
    }

    /// A table holding `rows` (in increasing id order) whose largest id ever
    /// handed out is `last_id`, keeping `MAX_UNPINNED_ENTRIES` unpinned rows;
    /// `None` when they do not form such a table.
    pub fn from_rows(rows: Vec<StoredEntry>, last_id: i64) -> (res: Option<History>)
        ensures
            res is Some <==> rows_wf(rows@.map_values(|e: StoredEntry| e@), last_id),
            res matches Some(h) ==> h@.rows == rows@.map_values(|e: StoredEntry| e@) && h@.last_id
                == last_id && h@.limit == MAX_UNPINNED_ENTRIES,
    {
        let ghost rs = rows@.map_values(|e: StoredEntry| e@);
        if last_id < 0 {
            return None;
        }
        let n = rows.len();
        for i in 0..n
            invariant
                n == rows@.len(),
                rs == rows@.map_values(|e: StoredEntry| e@),
                0 <= last_id,
                forall|k: int| 0 <= k < i ==> 0 < #[trigger] rs[k].id <= last_id,
                forall|a: int, b: int| 0 <= a < b < i ==> rs[a].id < rs[b].id,
        {
            let id = rows[i].id;
            if id <= 0 || id > last_id {
                assert(!(0 < rs[i as int].id <= last_id));
                return None;
            }
            if i > 0 && rows[i - 1].id >= id {
                assert(rs[i - 1].id >= rs[i as int].id);
                return None;
            }
        }
        let h = History { rows, last_id, max_unpinned: MAX_UNPINNED_ENTRIES };
        Some(h)
    }

    fn prune(&mut self) -> (removed: Vec<i64>)
        ensures
            final(self)@.rows == pruned(old(self)@.rows, old(self)@.limit as int),
            final(self)@.last_id == old(self)@.last_id,
            final(self)@.limit == old(self)@.limit,
            removed@ == pruned_ids(old(self)@.rows, old(self)@.limit as int),
    {
        proof {
            use_type_invariant(&*self);
        }
        let ghost rs = self@.rows;
        let limit = self.max_unpinned;
        let n = self.rows.len();
        let mut total: usize = 0;
        proof {
            assert(rs.skip(0) =~= rs);
        }
        for i in 0..n
            invariant
                n == rs.len(),
                rs == self.rows@.map_values(|e: StoredEntry| e@),
                total <= i,
                total as nat + unpinned_count(rs.skip(i as int)) == unpinned_count(rs),
        {
            proof {
                assert(rs.skip(i as int).drop_first() =~= rs.skip(i + 1));
            }
            if !self.rows[i].pinned {
                total = total + 1;
            }
        }
        proof {
            assert(rs.skip(n as int) =~= Seq::<Row>::empty());
        }
        let mut remaining = total;
        let mut old_rows: Vec<StoredEntry> = Vec::new();
        std::mem::swap(&mut old_rows, &mut self.rows);
        let ghost old_seq = old_rows@;
        let mut out: Vec<StoredEntry> = Vec::new();
        let mut removed: Vec<i64> = Vec::new();
        for e in it: old_rows.into_iter()
            invariant
                it.seq() == old_seq,
                rs == old_seq.map_values(|e: StoredEntry| e@),
                remaining as nat == unpinned_count(rs.skip(it.index() as int)),
                limit >= 1,
                pruned(rs, limit as int) == out@.map_values(|e: StoredEntry| e@) + pruned(rs.skip(it.index() as int), limit as int),
                pruned_ids(rs, limit as int) == removed@ + pruned_ids(rs.skip(it.index() as int), limit as int),
        {
            let ghost i = it.index();
            let ghost sfx = rs.skip(i as int);
            proof {
                assert(sfx.drop_first() =~= rs.skip(i + 1));
                assert(sfx[0] == e@);
            }
            let after = if e.pinned {
                remaining
            } else {
                remaining - 1
            };
            remaining = after;
            if e.pinned || (after as u64) < (limit as u64) {
                let ghost before = out@.map_values(|e: StoredEntry| e@);
                out.push(e);
                proof {
                    assert(out@.map_values(|e: StoredEntry| e@) =~= before.push(sfx[0]));
                    assert(before + pruned(sfx, limit as int) =~= before.push(sfx[0]) + pruned(rs.skip(i + 1), limit as int));
                    assert(removed@ + pruned_ids(sfx, limit as int) =~= removed@ + pruned_ids(rs.skip(i + 1), limit as int));
                }
            } else {
                let ghost before = removed@;
                removed.push(e.id);
                proof {
                    assert(before + pruned_ids(sfx, limit as int) =~= removed@ + pruned_ids(rs.skip(i + 1), limit as int));
                }
            }
        }
        proof {
            assert(rs.skip(rs.len() as int) =~= Seq::<Row>::empty());
            assert(out@.map_values(|e: StoredEntry| e@) =~= pruned(rs, limit as int));
            assert(removed@ =~= pruned_ids(rs, limit as int));
            lemma_pruned_wf(rs, self.last_id, limit as int);
        }
        self.rows = out;
        removed
    }

    fn store(&mut self, entry: &NewEntry, pinned: bool, created_at: i64) -> (res: Result<Inserted, HistoryError>)
        ensures
            old(self)@.last_id == i64::MAX ==> res == Err::<Inserted, HistoryError>(HistoryError::IdsExhausted)
                && final(self)@ == old(self)@,
            old(self)@.last_id < i64::MAX ==> (res matches Ok(ins) && ins.id == old(self)@.last_id + 1
                && final(self)@.last_id == ins.id && final(self)@.limit == old(self)@.limit
                && final(self)@.rows == pruned(
                old(self)@.rows.push(entry.row(ins.id, pinned, created_at)),
                old(self)@.limit as int,
            ) && ins.pruned@ == pruned_ids(
                old(self)@.rows.push(entry.row(ins.id, pinned, created_at)),
                old(self)@.limit as int,
            )),
    {
        proof {
            use_type_invariant(&*self);
        }
        if self.last_id == i64::MAX {
            return Err(HistoryError::IdsExhausted);
        }
        let id = self.last_id + 1;
        let row = StoredEntry {
            id,
            kind: entry.kind.to_owned(),
            preview: clone_string(&entry.preview),
            search_text: clone_string(&entry.search_text),
            content: clone_opt_string(&entry.content),
            image_path: clone_opt_string(&entry.image_path),
            file_list: clone_opt_string(&entry.file_list),
            thumbnail: clone_opt_bytes(&entry.thumbnail),
            hash: clone_string(&entry.hash),
            pinned,
            created_at,
        };
        let ghost rs = self@.rows;
        let mut rows_now: Vec<StoredEntry> = Vec::new();
        std::mem::swap(&mut rows_now, &mut self.rows);
        rows_now.push(row);
        self.last_id = id;
        proof {
            assert(rows_now@.map_values(|e: StoredEntry| e@) =~= rs.push(entry.row(id, pinned, created_at)));
        }
        self.rows = rows_now;
        let removed = self.prune();
        Ok(Inserted { id, pruned: removed })
    }

    /// Stores a freshly captured entry, unpinned, under the next id, then
    /// prunes old unpinned entries.
    pub fn insert(&mut self, entry: &NewEntry, created_at: i64) -> (res: Result<Inserted, HistoryError>)
        ensures
            old(self)@.last_id == i64::MAX ==> res == Err::<Inserted, HistoryError>(HistoryError::IdsExhausted)
                && final(self)@ == old(self)@,
            old(self)@.last_id < i64::MAX ==> (res matches Ok(ins) && ins.id == old(self)@.last_id + 1
                && final(self)@.last_id == ins.id && final(self)@.limit == old(self)@.limit
                && final(self)@.rows == pruned(
                old(self)@.rows.push(entry.row(ins.id, false, created_at)),
                old(self)@.limit as int,
            ) && ins.pruned@ == pruned_ids(
                old(self)@.rows.push(entry.row(ins.id, false, created_at)),
                old(self)@.limit as int,
            )),
    {
        self.store(entry, false, created_at)
    }

    /// Stores an entry read from an export file, with its own pin flag and
    /// creation time, under the next id, then prunes old unpinned entries.
    pub fn import_entry(&mut self, entry: &NewEntry, pinned: bool, created_at: i64) -> (res: Result<
        Inserted,
        HistoryError,
    >)
        ensures
            old(self)@.last_id == i64::MAX ==> res == Err::<Inserted, HistoryError>(HistoryError::IdsExhausted)
                && final(self)@ == old(self)@,
            old(self)@.last_id < i64::MAX ==> (res matches Ok(ins) && ins.id == old(self)@.last_id + 1
                && final(self)@.last_id == ins.id && final(self)@.limit == old(self)@.limit
                && final(self)@.rows == pruned(
                old(self)@.rows.push(entry.row(ins.id, pinned, created_at)),
                old(self)@.limit as int,
            ) && ins.pruned@ == pruned_ids(
                old(self)@.rows.push(entry.row(ins.id, pinned, created_at)),
                old(self)@.limit as int,
            )),
    {
        self.store(entry, pinned, created_at)
    }

    /// Sets the pin flag of the entry with id `id`; other entries, and a
    /// table without that id, are unchanged. Nothing is pruned here.
    pub fn set_pinned(&mut self, id: i64, pinned: bool)
        ensures
            final(self)@.rows == with_pinned(old(self)@.rows, id, pinned),
            final(self)@.last_id == old(self)@.last_id,
            final(self)@.limit == old(self)@.limit,
    {
        proof {
            use_type_invariant(&*self);
        }
        let ghost rs = self@.rows;
        let mut old_rows: Vec<StoredEntry> = Vec::new();
        std::mem::swap(&mut old_rows, &mut self.rows);
        let ghost old_seq = old_rows@;
        assert(rs == old_seq.map_values(|e: StoredEntry| e@));
        let mut out: Vec<StoredEntry> = Vec::new();
        for e in it: old_rows.into_iter()
            invariant
                it.seq() == old_seq,
                rs == old_seq.map_values(|e: StoredEntry| e@),
                out@.len() == it.index(),
                forall|k: int| 0 <= k < it.index() ==> #[trigger] out@[k]@ == with_pinned(rs, id, pinned)[k],
        {
            let mut e = e;
            if e.id == id {
                e.pinned = pinned;
            }
            out.push(e);
        }
        proof {
            let ws = with_pinned(rs, id, pinned);
            assert(out@.map_values(|e: StoredEntry| e@) =~= ws);
            assert forall|i: int| 0 <= i < ws.len() implies 0 < #[trigger] ws[i].id <= self.last_id by {
                assert(ws[i].id == rs[i].id);
            }
            assert forall|i: int, j: int| 0 <= i < j < ws.len() implies ws[i].id < ws[j].id by {
                assert(ws[i].id == rs[i].id && ws[j].id == rs[j].id);
            }
        }
        self.rows = out;
    }

    /// Removes the entries whose id is `id` (at most one), keeping the rest in order.
    pub fn delete(&mut self, id: i64)
        ensures
            final(self)@.rows == without_id(old(self)@.rows, id),
            final(self)@.last_id == old(self)@.last_id,
            final(self)@.limit == old(self)@.limit,
    {
        proof {
            use_type_invariant(&*self);
        }
        let ghost rs = self@.rows;
        let ghost pred = |r: Row| r.id != id;
        let mut old_rows: Vec<StoredEntry> = Vec::new();
        std::mem::swap(&mut old_rows, &mut self.rows);
        let ghost old_seq = old_rows@;
        let mut out: Vec<StoredEntry> = Vec::new();
        for e in it: old_rows.into_iter()
            invariant
                it.seq() == old_seq,
                rs == old_seq.map_values(|e: StoredEntry| e@),
                out@.map_values(|e: StoredEntry| e@) == rs.take(it.index() as int).filter(pred),
                pred == (|r: Row| r.id != id),
        {
            let ghost i = it.index();
            proof {
                reveal_with_fuel(Seq::filter, 1);
                assert(rs.take(i + 1).drop_last() =~= rs.take(i as int));
                assert(rs.take(i + 1).last() == e@);
            }
            if e.id != id {
                out.push(e);
                assert(out@.map_values(|e: StoredEntry| e@) =~= rs.take(i as int).filter(pred).push(rs[i as int]));
            }
        }
        proof {
            assert(rs.take(rs.len() as int) =~= rs);
            lemma_filter_wf(rs, pred, self.last_id);
        }
        self.rows = out;
    }

    /// Removes every unpinned entry and gives back their ids, in id order.
    pub fn clear_unpinned(&mut self) -> (removed: Vec<i64>)
        ensures
            final(self)@.rows == pinned_rows(old(self)@.rows),
            final(self)@.last_id == old(self)@.last_id,
            final(self)@.limit == old(self)@.limit,
            removed@ == ids_of(unpinned_rows(old(self)@.rows)),
    {
        proof {
            use_type_invariant(&*self);
        }
        let ghost rs = self@.rows;
        let ghost keep = |r: Row| r.pinned;
        let ghost gone = |r: Row| !r.pinned;
        let mut old_rows: Vec<StoredEntry> = Vec::new();
        std::mem::swap(&mut old_rows, &mut self.rows);
        let ghost old_seq = old_rows@;
        let mut out: Vec<StoredEntry> = Vec::new();
        let mut removed: Vec<i64> = Vec::new();
        for e in it: old_rows.into_iter()
            invariant
                it.seq() == old_seq,
                rs == old_seq.map_values(|e: StoredEntry| e@),
                out@.map_values(|e: StoredEntry| e@) == rs.take(it.index() as int).filter(keep),
                removed@ == ids_of(rs.take(it.index() as int).filter(gone)),
                keep == (|r: Row| r.pinned),
                gone == (|r: Row| !r.pinned),
        {
            let ghost i = it.index();
            proof {
                reveal_with_fuel(Seq::filter, 1);
                assert(rs.take(i + 1).drop_last() =~= rs.take(i as int));
                assert(rs.take(i + 1).last() == e@);
            }
            if e.pinned {
                out.push(e);
                assert(out@.map_values(|e: StoredEntry| e@) =~= rs.take(i as int).filter(keep).push(rs[i as int]));
            } else {
                removed.push(e.id);
                assert(removed@ =~= ids_of(rs.take(i as int).filter(gone).push(rs[i as int])));
            }
        }
        proof {
            assert(rs.take(rs.len() as int) =~= rs);
            lemma_filter_wf(rs, keep, self.last_id);
        }
        self.rows = out;
        removed
    }

    /// Keeps at most `max_unpinned` unpinned entries (at least one) from now
    /// on, pruning the oldest unpinned entries beyond that right away, and
    /// gives back the ids of those it removed, in id order.
    pub fn set_max_unpinned(&mut self, max_unpinned: i64) -> (removed: Vec<i64>)
        ensures
            final(self)@.limit == if max_unpinned < 1 { 1 } else { max_unpinned },
            final(self)@.last_id == old(self)@.last_id,
            final(self)@.rows == pruned(old(self)@.rows, final(self)@.limit as int),
            removed@ == pruned_ids(old(self)@.rows, final(self)@.limit as int),
    {
        proof {
            use_type_invariant(&*self);
        }
        self.max_unpinned = if max_unpinned < 1 {
            1
        } else {
            max_unpinned
        };
        self.prune()
    }

    /// Removes every unpinned entry created more than `max_age_days` days
    /// before `now` (nothing when `max_age_days` is 0 or less), and gives
    /// back their ids, in id order.
    pub fn expire(&mut self, now: i64, max_age_days: i64) -> (removed: Vec<i64>)
        ensures
            final(self)@.rows == unexpired_rows(old(self)@.rows, now, max_age_days),
            final(self)@.last_id == old(self)@.last_id,
            final(self)@.limit == old(self)@.limit,
            removed@ == ids_of(expired_rows(old(self)@.rows, now, max_age_days)),
    {
        proof {
            use_type_invariant(&*self);
        }
        let ghost rs = self@.rows;
        let ghost keep = |r: Row| !expired(r, now, max_age_days);
        let ghost gone = |r: Row| expired(r, now, max_age_days);
        let cutoff: i128 = (now as i128) - (max_age_days as i128) * 86_400_000i128;
        let mut old_rows: Vec<StoredEntry> = Vec::new();
        std::mem::swap(&mut old_rows, &mut self.rows);
        let ghost old_seq = old_rows@;
        let mut out: Vec<StoredEntry> = Vec::new();
        let mut removed: Vec<i64> = Vec::new();
        for e in it: old_rows.into_iter()
            invariant
                it.seq() == old_seq,
                rs == old_seq.map_values(|e: StoredEntry| e@),
                cutoff == now - max_age_days * 86_400_000,
                out@.map_values(|e: StoredEntry| e@) == rs.take(it.index() as int).filter(keep),
                removed@ == ids_of(rs.take(it.index() as int).filter(gone)),
                keep == (|r: Row| !expired(r, now, max_age_days)),
                gone == (|r: Row| expired(r, now, max_age_days)),
        {
            let ghost i = it.index();
            proof {
                reveal_with_fuel(Seq::filter, 1);
                assert(rs.take(i + 1).drop_last() =~= rs.take(i as int));
                assert(rs.take(i + 1).last() == e@);
            }
            if max_age_days > 0 && !e.pinned && (e.created_at as i128) < cutoff {
                removed.push(e.id);
                assert(removed@ =~= ids_of(rs.take(i as int).filter(gone).push(rs[i as int])));
            } else {
                out.push(e);
                assert(out@.map_values(|e: StoredEntry| e@) =~= rs.take(i as int).filter(keep).push(rs[i as int]));
            }
        }
        proof {
            assert(rs.take(rs.len() as int) =~= rs);
            lemma_filter_wf(rs, keep, self.last_id);
        }
        self.rows = out;
        removed
    }

    /// Collects (by position) the rows with pin flag `pinned` that the
    /// query finds, newest first, after those already in `idx`.
    fn collect_newest(
        &self,
        pinned: bool,
        pattern: &Option<Vec<char>>,
        q: Ghost<Option<Seq<char>>>,
        idx: &mut Vec<usize>,
        sel: Ghost<Seq<Row>>,
    )
        requires
            match q@ {
                None => pattern is None,
                Some(qs) => pattern matches Some(p) && p@ == escape_pattern(qs),
            },
            old(idx)@.len() == sel@.len(),
            forall|k: int| 0 <= k < sel@.len() ==> (#[trigger] old(idx)@[k]) < self@.rows.len()
                && self@.rows[old(idx)@[k] as int] == sel@[k],
        ensures
            final(idx)@.len() == (sel@ + newest_first(self@.rows, pinned, q@)).len(),
            forall|k: int| 0 <= k < final(idx)@.len() ==> (#[trigger] final(idx)@[k]) < self@.rows.len()
                && self@.rows[final(idx)@[k] as int] == (sel@ + newest_first(self@.rows, pinned, q@))[k],
    {
        let ghost rs = self@.rows;
        let ghost mut chosen = sel@;
        let mut i = self.rows.len();
        proof {
            assert(rs.take(i as int) =~= rs);
            assert(sel@ + newest_first(rs, pinned, q@) =~= chosen + newest_first(rs.take(i as int), pinned, q@));
        }
        while i > 0
            invariant
                i <= rs.len(),
                rs == self@.rows,
                rs == self.rows@.map_values(|e: StoredEntry| e@),
                match q@ {
                    None => pattern is None,
                    Some(qs) => pattern matches Some(p) && p@ == escape_pattern(qs),
                },
                idx@.len() == chosen.len(),
                forall|k: int| 0 <= k < chosen.len() ==> (#[trigger] idx@[k]) < rs.len() && rs[idx@[k] as int]
                    == chosen[k],
                sel@ + newest_first(rs, pinned, q@) == chosen + newest_first(rs.take(i as int), pinned, q@),
            decreases i,
        {
            i = i - 1;
            let e = &self.rows[i];
            let ghost pre = rs.take(i + 1);
            proof {
                assert(pre.drop_last() =~= rs.take(i as int));
                assert(pre.last() == rs[i as int]);
                assert(rs[i as int] == e@);
            }
            if e.pinned == pinned && entry_matches(e, pattern, q) {
                idx.push(i);
                proof {
                    assert(chosen + newest_first(pre, pinned, q@) =~= chosen.push(rs[i as int])
                        + newest_first(rs.take(i as int), pinned, q@));
                    chosen = chosen.push(rs[i as int]);
                }
            }
        }
        proof {
            assert(rs.take(0) =~= Seq::<Row>::empty());
            assert(chosen + newest_first(rs.take(0), pinned, q@) =~= chosen);
        }
    }

    /// The entries the query finds (all of them when there is no query):
    /// pinned ones first, then the others, each newest first, at most
    /// `LIST_LIMIT` of them.
    pub fn list(&self, query: Option<&str>) -> (res: Vec<HistoryEntry>)
        ensures
            res@.len() == listed(self@.rows, opt_str(query)).len(),
            forall|k: int| 0 <= k < res@.len() ==> #[trigger] res@[k]@ == summary(
                listed(self@.rows, opt_str(query))[k],
            ),
    {
        let ghost q = opt_str(query);
        let pattern = search_pattern(query);
        let mut idx: Vec<usize> = Vec::new();
        self.collect_newest(true, &pattern, Ghost(q), &mut idx, Ghost(Seq::empty()));
        let ghost pinned_part = Seq::<Row>::empty() + newest_first(self@.rows, true, q);
        self.collect_newest(false, &pattern, Ghost(q), &mut idx, Ghost(pinned_part));
        let ghost all = pinned_part + newest_first(self@.rows, false, q);
        proof {
            assert(all =~= newest_first(self@.rows, true, q) + newest_first(self@.rows, false, q));
        }
        let count = if idx.len() <= LIST_LIMIT {
            idx.len()
        } else {
            LIST_LIMIT
        };
        let mut res: Vec<HistoryEntry> = Vec::new();
        for k in 0..count
            invariant
                count <= idx@.len(),
                count == listed(self@.rows, q).len(),
                idx@.len() == all.len(),
                all == newest_first(self@.rows, true, q) + newest_first(self@.rows, false, q),
                forall|k: int| 0 <= k < idx@.len() ==> (#[trigger] idx@[k]) < self@.rows.len()
                    && self@.rows[idx@[k] as int] == all[k],
                res@.len() == k,
                forall|j: int| 0 <= j < k ==> #[trigger] res@[j]@ == summary(listed(self@.rows, q)[j]),
        {
            let e = &self.rows[idx[k]];
            proof {
                assert(self@.rows[idx@[k as int] as int] == e@);
            }
            res.push(summarize(e));
        }
        res
    }

    /// The hash of the most recently inserted entry that is still stored.
    pub fn last_hash(&self) -> (res: Option<String>)
        ensures
            self@.rows.len() == 0 ==> res is None,
            self@.rows.len() > 0 ==> (res matches Some(h) && h@ == self@.rows.last().hash),
    {
        let n = self.rows.len();
        if n == 0 {
            None
        } else {
            Some(clone_string(&self.rows[n - 1].hash))
        }
    }

    /// The stored fields of the entry with id `id`, if there is one.
    pub fn get_full(&self, id: i64) -> (res: Option<FullEntry>)
        ensures
            res is Some <==> has_id(self@.rows, id),
            res matches Some(f) ==> exists|k: int|
                0 <= k < self@.rows.len() && self@.rows[k].id == id && f@ == full_of(self@.rows[k]),
    {
        let n = self.rows.len();
        for i in 0..n
            invariant
                n == self.rows@.len(),
                forall|k: int| 0 <= k < i ==> self.rows@[k].id != id,
        {
            if self.rows[i].id == id {
                let e = &self.rows[i];
                let f = FullEntry {
                    kind: clone_string(&e.kind),
                    content: clone_opt_string(&e.content),
                    image_path: clone_opt_string(&e.image_path),
                    file_list: clone_opt_string(&e.file_list),
                    thumbnail: clone_opt_bytes(&e.thumbnail),
                };
                assert(self@.rows[i as int] == self.rows@[i as int]@);
                return Some(f);
            }
        }
        assert forall|k: int| 0 <= k < self@.rows.len() implies self@.rows[k].id != id by {
            assert(self@.rows[k] == self.rows@[k]@);
        }
        None
    }
}

} // verus!
