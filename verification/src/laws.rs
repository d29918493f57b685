//! What holds of the history table across its operations: pruning keeps
//! every pinned entry and the newest unpinned ones up to the configured
//! limit, removing old entries spares pinned and recent ones, the listing puts pinned
//! entries first and newer before older, and a search finds exactly the
//! entries whose search text contains the query; an export is read back as
//! it was written, import takes every stored kind, the text-preview
//! extensions are exactly the listed ones, and the statistics report the
//! oldest and newest creation times.

use vstd::prelude::*;
use crate::history::{
    expired, unexpired_rows, has_id, lemma_filter_wf, lemma_pruned_wf, pinned_rows, with_pinned, without_id, listed, newest_first, pruned, pruned_ids, row_matches, rows_wf, unpinned_count, Row,
    LIST_LIMIT, MAX_UNPINNED_ENTRIES,
};
use crate::search::{contains_ci, lemma_search_is_substring};
use crate::capture::repeats_last;
use crate::stats::{earliest, latest};
use crate::preview::{kind_for_lower, text_extensions, TextPreviewKind};
use crate::commands::{
    exported_bytes, import_accepts, import_hash_source, is_base64_of_some, is_export_of, is_plan_of, known_kind, opt_base64,
    record_of, ExportEntry, ImportImage, ImportPlan, ImportRecord,
};
use crate::encode::{hex_lower, sha256};
use crate::encode::{base64, law_base64_injective};

verus! {

/// Whether the row at position `i` survives pruning to `limit` unpinned
/// rows: it is pinned, or fewer than `limit` unpinned rows come after it.
pub open spec fn stays(s: Seq<Row>, i: int, limit: int) -> bool {
    s[i].pinned || unpinned_count(s.skip(i + 1)) < limit
}

/// Later suffixes hold no more unpinned rows than earlier ones.
pub proof fn lemma_unpinned_suffix_mono(s: Seq<Row>, a: int, b: int)
    requires
        0 <= a <= b <= s.len(),
    ensures
        unpinned_count(s.skip(a)) >= unpinned_count(s.skip(b)),
    decreases b - a,
{
    if a < b {
        assert(s.skip(a).drop_first() =~= s.skip(a + 1));
        lemma_unpinned_suffix_mono(s, a + 1, b);
    }
}

/// Membership after pruning, row by row.
proof fn lemma_prune_membership(s: Seq<Row>, last_id: i64, limit: int)
    requires
        rows_wf(s, last_id),
    ensures
        forall|i: int| 0 <= i < s.len() ==> (has_id(pruned(s, limit), #[trigger] s[i].id) <==> stays(s, i, limit)),
    decreases s.len(),
{
    if s.len() > 0 {
        let rest = s.drop_first();
        assert(rows_wf(rest, last_id));
        lemma_prune_membership(rest, last_id, limit);
        lemma_pruned_wf(rest, last_id, limit);
        let p = pruned(s, limit);
        let pr = pruned(rest, limit);
        assert(s.skip(1) =~= rest);
        let keep0 = s[0].pinned || unpinned_count(rest) < limit;
        if keep0 {
            assert(p =~= seq![s[0]] + pr);
        } else {
            assert(p == pr);
        }
        assert forall|i: int| 0 <= i < s.len() implies (has_id(p, #[trigger] s[i].id) <==> stays(s, i, limit)) by {
            if i == 0 {
                if keep0 {
                    assert(p[0] == s[0]);
                } else {
                    if has_id(p, s[0].id) {
                        let k = choose|k: int| 0 <= k < p.len() && p[k].id == s[0].id;
                        let j = choose|j: int| 0 <= j < rest.len() && #[trigger] pr[k] == rest[j];
                        assert(rest[j] == s[j + 1]);
                    }
                }
            } else {
                assert(s[i] == rest[i - 1]);
                assert(s.skip(i + 1) =~= rest.skip(i));
                assert(stays(s, i, limit) == stays(rest, i - 1, limit));
                if has_id(pr, rest[i - 1].id) {
                    let k = choose|k: int| 0 <= k < pr.len() && pr[k].id == rest[i - 1].id;
                    if keep0 {
                        assert(p[k + 1] == pr[k]);
                    } else {
                        assert(p[k] == pr[k]);
                    }
                }
                if has_id(p, s[i].id) {
                    let k = choose|k: int| 0 <= k < p.len() && p[k].id == s[i].id;
                    if keep0 {
                        if k == 0 {
                            assert(p[0] == s[0]);
                        } else {
                            assert(p[k] == pr[k - 1]);
                        }
                    } else {
                        assert(p[k] == pr[k]);
                    }
                }
            }
        }
    }
}

/// The newest row survives pruning and stays last.
proof fn lemma_prune_keeps_last(s: Seq<Row>, limit: int)
    requires
        s.len() > 0,
        limit >= 1,
    ensures
        pruned(s, limit).len() > 0,
        pruned(s, limit).last() == s.last(),
    decreases s.len(),
{
    let rest = s.drop_first();
    if s.len() == 1 {
        assert(rest.len() == 0);
        assert(unpinned_count(rest) == 0);
        assert(pruned(rest, limit).len() == 0);
        assert(pruned(s, limit) =~= seq![s[0]]);
    } else {
        lemma_prune_keeps_last(rest, limit);
        assert(rest.last() == s.last());
        if s[0].pinned || unpinned_count(rest) < limit {
            assert(pruned(s, limit) =~= seq![s[0]] + pruned(rest, limit));
        }
    }
}

/// How many unpinned rows pruning leaves.
proof fn lemma_prune_count(s: Seq<Row>, limit: int)
    requires
        limit >= 0,
    ensures
        unpinned_count(pruned(s, limit)) == if unpinned_count(s) < limit {
            unpinned_count(s)
        } else {
            limit as nat
        },
    decreases s.len(),
{
    if s.len() > 0 {
        let rest = s.drop_first();
        lemma_prune_count(rest, limit);
        if s[0].pinned || unpinned_count(rest) < limit {
            let p = seq![s[0]] + pruned(rest, limit);
            assert(p[0] == s[0]);
            assert(p.drop_first() =~= pruned(rest, limit));
        }
    }
}

/// Pruning, stated row by row: a row of the table is still there afterwards
/// exactly when it stays; every pinned row stays; once an unpinned row stays,
/// every newer unpinned row stays too (the oldest go first); the newest row
/// always stays, last; and at most `limit` unpinned rows remain (all of
/// them, when there were no more than that).
pub proof fn law_prune(s: Seq<Row>, last_id: i64, limit: int)
    requires
        rows_wf(s, last_id),
        limit >= 1,
    ensures
        forall|i: int| 0 <= i < s.len() ==> (has_id(pruned(s, limit), #[trigger] s[i].id) <==> stays(s, i, limit)),
        forall|i: int| 0 <= i < s.len() && s[i].pinned ==> has_id(pruned(s, limit), #[trigger] s[i].id),
        forall|i: int, j: int|
            0 <= i < j < s.len() && !s[i].pinned && !s[j].pinned && #[trigger] stays(s, i, limit) ==> #[trigger] stays(s, j, limit),
        s.len() > 0 ==> pruned(s, limit).len() > 0 && pruned(s, limit).last() == s.last(),
        unpinned_count(pruned(s, limit)) == if unpinned_count(s) < limit {
            unpinned_count(s)
        } else {
            limit as nat
        },
{
    lemma_prune_membership(s, last_id, limit);
    lemma_prune_count(s, limit);
    if s.len() > 0 {
        lemma_prune_keeps_last(s, limit);
    }
    assert forall|i: int, j: int|
        0 <= i < j < s.len() && !s[i].pinned && !s[j].pinned && #[trigger] stays(s, i, limit) implies #[trigger] stays(
        s,
        j,
        limit,
    ) by {
        lemma_unpinned_suffix_mono(s, i + 1, j + 1);
    }
}

/// Whether `r` is one of the rows.
pub open spec fn in_rows(rows: Seq<Row>, r: Row) -> bool {
    exists|j: int| 0 <= j < rows.len() && rows[j] == r
}

/// The rows that `newest_first` picks carry the requested pin flag, are
/// found by the query, and come from the table.
proof fn lemma_newest_first_rows(rows: Seq<Row>, pinned: bool, q: Option<Seq<char>>)
    ensures
        forall|k: int| 0 <= k < newest_first(rows, pinned, q).len() ==> {
            let r = #[trigger] newest_first(rows, pinned, q)[k];
            &&& r.pinned == pinned
            &&& row_matches(r, q)
            &&& in_rows(rows, r)
        },
    decreases rows.len(),
{
    if rows.len() > 0 {
        let init = rows.drop_last();
        let r = rows.last();
        lemma_newest_first_rows(init, pinned, q);
        let nf = newest_first(rows, pinned, q);
        let ni = newest_first(init, pinned, q);
        let took = r.pinned == pinned && row_matches(r, q);
        if took {
            assert(nf =~= seq![r] + ni);
        } else {
            assert(nf == ni);
        }
        assert forall|k: int| 0 <= k < nf.len() implies {
            let x = #[trigger] nf[k];
            &&& x.pinned == pinned
            &&& row_matches(x, q)
            &&& in_rows(rows, x)
        } by {
            if took && k == 0 {
                assert(rows[rows.len() - 1] == nf[0]);
            } else {
                let kk = if took { k - 1 } else { k };
                assert(nf[k] == ni[kk]);
                let j = choose|j: int| 0 <= j < init.len() && init[j] == ni[kk];
                assert(rows[j] == init[j]);
            }
        }
    }
}

/// `newest_first` runs from newest to oldest.
proof fn lemma_newest_first_order(rows: Seq<Row>, pinned: bool, q: Option<Seq<char>>, last_id: i64)
    requires
        rows_wf(rows, last_id),
    ensures
        forall|a: int, b: int|
            0 <= a < b < newest_first(rows, pinned, q).len() ==> newest_first(rows, pinned, q)[a].id
                > newest_first(rows, pinned, q)[b].id,
    decreases rows.len(),
{
    if rows.len() > 0 {
        let init = rows.drop_last();
        let r = rows.last();
        assert(rows_wf(init, last_id));
        lemma_newest_first_order(init, pinned, q, last_id);
        lemma_newest_first_rows(init, pinned, q);
        let nf = newest_first(rows, pinned, q);
        let ni = newest_first(init, pinned, q);
        if r.pinned == pinned && row_matches(r, q) {
            assert(nf =~= seq![r] + ni);
            assert forall|a: int, b: int| 0 <= a < b < nf.len() implies nf[a].id > nf[b].id by {
                assert(nf[b] == ni[b - 1]);
                if a == 0 {
                    let x = ni[b - 1];
                    assert(in_rows(init, x));
                    let j = choose|j: int| 0 <= j < init.len() && init[j] == x;
                    assert(rows[j] == init[j]);
                    assert(rows[rows.len() - 1].id > rows[j].id);
                } else {
                    assert(nf[a] == ni[a - 1]);
                }
            }
        } else {
            assert(nf == ni);
        }
    }
}

/// Every row with the requested pin flag that the query finds is picked.
proof fn lemma_newest_first_complete(rows: Seq<Row>, pinned: bool, q: Option<Seq<char>>)
    ensures
        forall|j: int|
            0 <= j < rows.len() && rows[j].pinned == pinned && row_matches(rows[j], q) ==> exists|k: int|
                0 <= k < newest_first(rows, pinned, q).len() && newest_first(rows, pinned, q)[k]
                    == #[trigger] rows[j],
    decreases rows.len(),
{
    if rows.len() > 0 {
        let init = rows.drop_last();
        let r = rows.last();
        lemma_newest_first_complete(init, pinned, q);
        let nf = newest_first(rows, pinned, q);
        let ni = newest_first(init, pinned, q);
        let took = r.pinned == pinned && row_matches(r, q);
        if took {
            assert(nf =~= seq![r] + ni);
        } else {
            assert(nf == ni);
        }
        assert forall|j: int|
            0 <= j < rows.len() && rows[j].pinned == pinned && row_matches(rows[j], q) implies exists|k: int|
            0 <= k < nf.len() && nf[k] == #[trigger] rows[j] by {
            if j == rows.len() - 1 {
                assert(nf[0] == rows[j]);
            } else {
                assert(init[j] == rows[j]);
                let k = choose|k: int| 0 <= k < ni.len() && ni[k] == #[trigger] init[j];
                if took {
                    assert(nf[k + 1] == rows[j]);
                } else {
                    assert(nf[k] == rows[j]);
                }
            }
        }
    }
}

/// The listing, stated entry by entry: every listed entry is a row of the
/// table that the query finds; pinned entries come before unpinned ones
/// whatever their age, and among entries with the same pin flag newer ones
/// (larger ids) come first; and when the query finds no more than
/// `LIST_LIMIT` rows, every one of them is listed.
pub proof fn law_listing(rows: Seq<Row>, q: Option<Seq<char>>, last_id: i64)
    requires
        rows_wf(rows, last_id),
    ensures
        forall|k: int| 0 <= k < listed(rows, q).len() ==> {
            let r = #[trigger] listed(rows, q)[k];
            &&& row_matches(r, q)
            &&& in_rows(rows, r)
        },
        forall|a: int, b: int|
            0 <= a < b < listed(rows, q).len() ==> {
                ||| listed(rows, q)[a].pinned && !listed(rows, q)[b].pinned
                ||| listed(rows, q)[a].pinned == listed(rows, q)[b].pinned && listed(rows, q)[a].id
                    > listed(rows, q)[b].id
            },
        (newest_first(rows, true, q) + newest_first(rows, false, q)).len() <= LIST_LIMIT ==> forall|j: int|
            0 <= j < rows.len() && row_matches(rows[j], q) ==> exists|k: int|
                0 <= k < listed(rows, q).len() && listed(rows, q)[k] == #[trigger] rows[j],
{
    lemma_newest_first_rows(rows, true, q);
    lemma_newest_first_rows(rows, false, q);
    lemma_newest_first_order(rows, true, q, last_id);
    lemma_newest_first_order(rows, false, q, last_id);
    lemma_newest_first_complete(rows, true, q);
    lemma_newest_first_complete(rows, false, q);
    let pp = newest_first(rows, true, q);
    let up = newest_first(rows, false, q);
    let all = pp + up;
    let l = listed(rows, q);
    assert forall|k: int| 0 <= k < l.len() implies l[k] == all[k] by {}
    assert forall|k: int| 0 <= k < l.len() implies {
        let r = #[trigger] l[k];
        &&& row_matches(r, q)
        &&& in_rows(rows, r)
    } by {
        assert(l[k] == all[k]);
        if k < pp.len() {
            assert(all[k] == pp[k]);
        } else {
            assert(all[k] == up[k - pp.len()]);
        }
    }
    assert forall|a: int, b: int| 0 <= a < b < l.len() implies {
        ||| l[a].pinned && !l[b].pinned
        ||| l[a].pinned == l[b].pinned && l[a].id > l[b].id
    } by {
        assert(l[a] == all[a] && l[b] == all[b]);
        if b < pp.len() {
            assert(all[a] == pp[a] && all[b] == pp[b]);
        } else if a < pp.len() {
            assert(all[a] == pp[a] && all[b] == up[b - pp.len()]);
        } else {
            assert(all[a] == up[a - pp.len()] && all[b] == up[b - pp.len()]);
        }
    }
    if all.len() <= LIST_LIMIT {
        assert(l == all);
        assert forall|j: int| 0 <= j < rows.len() && row_matches(rows[j], q) implies exists|k: int|
            0 <= k < l.len() && l[k] == #[trigger] rows[j] by {
            if rows[j].pinned {
                let k = choose|k: int| 0 <= k < pp.len() && pp[k] == #[trigger] rows[j];
                assert(all[k] == pp[k]);
            } else {
                let k = choose|k: int| 0 <= k < up.len() && up[k] == #[trigger] rows[j];
                assert(all[k + pp.len()] == up[k]);
            }
        }
    }
}

/// Storing an entry: it gets an id no row had, it is never pruned away, and
/// it is the last (newest) row afterwards, so reading that id gives it back
/// and it is the one whose hash the table reports last.
pub proof fn law_store_keeps_new_entry(rows: Seq<Row>, last_id: i64, r: Row, limit: int)
    requires
        rows_wf(rows, last_id),
        limit >= 1,
        last_id < i64::MAX,
        r.id == last_id + 1,
    ensures
        !has_id(rows, r.id),
        rows_wf(pruned(rows.push(r), limit), r.id),
        has_id(pruned(rows.push(r), limit), r.id),
        pruned(rows.push(r), limit).last() == r,
{
    let s = rows.push(r);
    assert(rows_wf(s, r.id));
    law_prune(s, r.id, limit);
    lemma_pruned_wf(s, r.id, limit);
    assert(s.last() == r);
    let p = pruned(s, limit);
    assert(p[p.len() - 1] == r);
}

/// Deleting by id removes that entry and keeps every other one.
pub proof fn law_delete_only_target(rows: Seq<Row>, last_id: i64, id: i64)
    requires
        rows_wf(rows, last_id),
    ensures
        !has_id(without_id(rows, id), id),
        forall|j: int| 0 <= j < rows.len() && rows[j].id != id ==> in_rows(without_id(rows, id), #[trigger] rows[j]),
{
    let pred = |x: Row| x.id != id;
    lemma_filter_wf(rows, pred, last_id);
    let f = rows.filter(pred);
    if has_id(f, id) {
        let k = choose|k: int| 0 <= k < f.len() && f[k].id == id;
        assert(pred(f[k]));
    }
    assert forall|j: int| 0 <= j < rows.len() && rows[j].id != id implies in_rows(f, #[trigger] rows[j]) by {
        assert(rows.contains(rows[j]));
        assert(f.contains(rows[j]));
    }
}

/// Clearing keeps every pinned entry and no unpinned one.
pub proof fn law_clear_keeps_pinned(rows: Seq<Row>, last_id: i64)
    requires
        rows_wf(rows, last_id),
    ensures
        forall|k: int| 0 <= k < pinned_rows(rows).len() ==> #[trigger] pinned_rows(rows)[k].pinned,
        forall|j: int| 0 <= j < rows.len() && rows[j].pinned ==> in_rows(pinned_rows(rows), #[trigger] rows[j]),
{
    let pred = |x: Row| x.pinned;
    let f = rows.filter(pred);
    assert forall|k: int| 0 <= k < f.len() implies #[trigger] f[k].pinned by {
        assert(pred(f[k]));
    }
    assert forall|j: int| 0 <= j < rows.len() && rows[j].pinned implies in_rows(f, #[trigger] rows[j]) by {
        assert(rows.contains(rows[j]));
        assert(f.contains(rows[j]));
    }
}

/// Pinning changes the pin flag of that entry and nothing else.
pub proof fn law_pin_changes_only_flag(rows: Seq<Row>, id: i64, pinned: bool)
    ensures
        with_pinned(rows, id, pinned).len() == rows.len(),
        forall|j: int| 0 <= j < rows.len() ==> (#[trigger] with_pinned(rows, id, pinned)[j]) == (if rows[j].id
            == id {
            Row { pinned, ..rows[j] }
        } else {
            rows[j]
        }),
{
}

/// Capturing the same content twice in a row stores it once: once an entry
/// is stored, a capture with the same hash repeats the newest stored entry
/// and is skipped.
pub proof fn law_repeated_capture_is_skipped(rows: Seq<Row>, last_id: i64, r: Row, limit: int)
    requires
        rows_wf(rows, last_id),
        limit >= 1,
        last_id < i64::MAX,
        r.id == last_id + 1,
    ensures
        repeats_last(pruned(rows.push(r), limit), r.hash),
{
    law_store_keeps_new_entry(rows, last_id, r, limit);
}

/// A query finds exactly the rows whose search text contains it (ASCII
/// letters without regard to case, `%`, `_` and `\` taken literally).
pub proof fn law_search_finds_substrings(r: Row, q: Seq<char>)
    ensures
        row_matches(r, Some(q)) == contains_ci(r.search_text, q),
{
    lemma_search_is_substring(r.search_text, q);
}

/// An exported image is read back byte for byte: what an export carries is
/// always valid Base64, and the only bytes that decode from it are the ones
/// that were exported.
pub proof fn law_export_image_round_trip(r: Row, image_file: Option<Seq<u8>>, decoded: Seq<u8>)
    ensures
        opt_base64(exported_bytes(r, image_file)) matches Some(e) ==> is_base64_of_some(e),
        opt_base64(exported_bytes(r, image_file)) == Some(base64(decoded)) ==> exported_bytes(r, image_file)
            == Some(decoded),
{
    if let Some(b) = exported_bytes(r, image_file) {
        assert(base64(b) == base64(b));
        if base64(b) == base64(decoded) {
            law_base64_injective(b, decoded);
        }
    }
}

/// Removing old entries keeps every pinned entry and every entry younger
/// than the limit, and none that is older and unpinned.
pub proof fn law_expire_keeps_pinned_and_recent(rows: Seq<Row>, now: i64, max_age_days: i64)
    ensures
        forall|k: int|
            0 <= k < unexpired_rows(rows, now, max_age_days).len() ==> !expired(
                #[trigger] unexpired_rows(rows, now, max_age_days)[k],
                now,
                max_age_days,
            ),
        forall|j: int|
            0 <= j < rows.len() && (rows[j].pinned || max_age_days <= 0 || rows[j].created_at >= now - max_age_days
                * 86_400_000) ==> in_rows(unexpired_rows(rows, now, max_age_days), #[trigger] rows[j]),
{
    let pred = |r: Row| !expired(r, now, max_age_days);
    let f = unexpired_rows(rows, now, max_age_days);
    assert(f == rows.filter(pred));
    assert forall|k: int| 0 <= k < f.len() implies !expired(#[trigger] f[k], now, max_age_days) by {
        assert(pred(f[k]));
    }
    assert forall|j: int|
        0 <= j < rows.len() && (rows[j].pinned || max_age_days <= 0 || rows[j].created_at >= now - max_age_days
            * 86_400_000) implies in_rows(f, #[trigger] rows[j]) by {
        assert(rows.contains(rows[j]));
        assert(f.contains(rows[j]));
    }
}

/// The ids pruning reports are ids of the pruned rows.
proof fn lemma_pruned_ids_from(s: Seq<Row>, limit: int)
    ensures
        forall|k: int|
            #![trigger pruned_ids(s, limit)[k]]
            0 <= k < pruned_ids(s, limit).len() ==> exists|j: int|
                0 <= j < s.len() && pruned_ids(s, limit)[k] == #[trigger] s[j].id && !stays(s, j, limit),
    decreases s.len(),
{
    if s.len() > 0 {
        let rest = s.drop_first();
        lemma_pruned_ids_from(rest, limit);
        let p = pruned_ids(s, limit);
        let pr = pruned_ids(rest, limit);
        assert(s.skip(1) =~= rest);
        assert forall|k: int| #![trigger p[k]] 0 <= k < p.len() implies exists|j: int|
            0 <= j < s.len() && p[k] == #[trigger] s[j].id && !stays(s, j, limit) by {
            if s[0].pinned || unpinned_count(rest) < limit {
                let j = choose|j: int| 0 <= j < rest.len() && pr[k] == #[trigger] rest[j].id && !stays(rest, j, limit);
                assert(s.skip(j + 2) =~= rest.skip(j + 1));
                assert(s[j + 1] == rest[j]);
                assert(p[k] == s[j + 1].id && !stays(s, j + 1, limit));
            } else if k == 0 {
                assert(p[0] == s[0].id && !stays(s, 0, limit));
            } else {
                let j = choose|j: int| 0 <= j < rest.len() && pr[k - 1] == #[trigger] rest[j].id && !stays(rest, j, limit);
                assert(s.skip(j + 2) =~= rest.skip(j + 1));
                assert(s[j + 1] == rest[j]);
                assert(p[k] == s[j + 1].id && !stays(s, j + 1, limit));
            }
        }
    }
}

/// Pruning reports what it removes: a row of the table is gone afterwards
/// exactly when its id is among the ids pruning reports.
pub proof fn law_prune_reports_removed(s: Seq<Row>, last_id: i64, limit: int)
    requires
        rows_wf(s, last_id),
        limit >= 1,
    ensures
        forall|i: int| 0 <= i < s.len() ==> (has_id(pruned(s, limit), #[trigger] s[i].id) <==> !pruned_ids(
            s,
            limit,
        ).contains(s[i].id)),
    decreases s.len(),
{
    lemma_prune_membership(s, last_id, limit);
    lemma_pruned_ids_from(s, limit);
    lemma_stays_reported(s, limit);
    assert forall|i: int| 0 <= i < s.len() implies (has_id(pruned(s, limit), #[trigger] s[i].id) <==> !pruned_ids(
        s,
        limit,
    ).contains(s[i].id)) by {
        let p = pruned_ids(s, limit);
        if p.contains(s[i].id) {
            let k = choose|k: int| 0 <= k < p.len() && p[k] == s[i].id;
            let j = choose|j: int| 0 <= j < s.len() && p[k] == #[trigger] s[j].id && !stays(s, j, limit);
            if j != i {
                if j < i {
                    assert(s[j].id < s[i].id);
                } else {
                    assert(s[i].id < s[j].id);
                }
            }
        }
    }
}

/// Every row that does not stay has its id reported.
proof fn lemma_stays_reported(s: Seq<Row>, limit: int)
    ensures
        forall|i: int| 0 <= i < s.len() && !stays(s, i, limit) ==> pruned_ids(s, limit).contains(#[trigger] s[i].id),
    decreases s.len(),
{
    if s.len() > 0 {
        let rest = s.drop_first();
        lemma_stays_reported(rest, limit);
        let p = pruned_ids(s, limit);
        let pr = pruned_ids(rest, limit);
        assert(s.skip(1) =~= rest);
        assert forall|i: int| 0 <= i < s.len() && !stays(s, i, limit) implies p.contains(#[trigger] s[i].id) by {
            let keep0 = s[0].pinned || unpinned_count(rest) < limit;
            if i == 0 {
                assert(!keep0);
                assert(p[0] == s[0].id);
            } else {
                assert(s[i] == rest[i - 1]);
                assert(s.skip(i + 1) =~= rest.skip(i));
                assert(!stays(rest, i - 1, limit));
                assert(pr.contains(rest[i - 1].id));
                let k = choose|k: int| 0 <= k < pr.len() && pr[k] == rest[i - 1].id;
                if keep0 {
                    assert(p[k] == pr[k]);
                } else {
                    assert(p[k + 1] == pr[k]);
                }
            }
        }
    }
}

/// Exporting an entry and importing the record again gives the entry back:
/// a record of a kind this library does not store is skipped on import (it
/// keeps its kind); any other is taken in, and the entry it plans has the
/// row's kind, texts,
/// pin flag and creation time, the hash of its kind, time and content, and
/// the exported image bytes: as the thumbnail when the row kept only a
/// thumbnail, else as a full image saved under the hex SHA-256 of its bytes.
pub proof fn law_export_then_import(r: Row, image_file: Option<Seq<u8>>, exported: ExportEntry, plan: ImportPlan)
    requires
        is_export_of(exported, r, image_file),
    ensures
        !known_kind(r.kind) ==> !known_kind(record_of(exported).kind@),
        known_kind(r.kind) ==> import_accepts(record_of(exported)),
        known_kind(r.kind) && is_plan_of(plan, record_of(exported)) ==> {
            &&& plan.kind@ == r.kind
            &&& plan.preview@ == r.preview
            &&& plan.search_text@ == r.search_text
            &&& crate::history::opt_chars(plan.content) == r.content
            &&& crate::history::opt_chars(plan.file_list) == r.file_list
            &&& plan.pinned == r.pinned
            &&& plan.created_at == r.created_at
            &&& plan.hash@ == hex_lower(sha256(vstd::utf8::encode_utf8(import_hash_source(
                r.kind,
                r.created_at,
                r.content,
                r.search_text,
            ))))
            &&& match exported_bytes(r, image_file) {
                None => plan.image is NoImage,
                Some(b) => if r.image_path is None {
                    plan.image matches ImportImage::Thumbnail(t) && t@ == b
                } else {
                    plan.image matches ImportImage::Full { bytes, file_name } && bytes@ == b
                        && file_name@ == hex_lower(sha256(b)) + ".png"@
                },
            }
        },
{
    let rec = record_of(exported);
    if let Some(b) = exported_bytes(r, image_file) {
        law_export_image_round_trip(r, image_file, b);
        assert(is_base64_of_some(base64(b)));
        if is_plan_of(plan, rec) {
            match plan.image {
                ImportImage::Thumbnail(t) => {
                    law_base64_injective(t@, b);
                },
                ImportImage::Full { bytes, file_name } => {
                    law_base64_injective(bytes@, b);
                },
                ImportImage::NoImage => {},
            }
        }
    }
}

/// Storing an entry in a table at the default limit (every new or loaded
/// table starts there): no pinned row is pruned, the new row stays and is
/// the newest, the oldest unpinned rows go first, and at most
/// `MAX_UNPINNED_ENTRIES` unpinned rows remain (all of them when there were
/// no more than that).
pub proof fn law_insert_at_default_limit(rows: Seq<Row>, last_id: i64, r: Row)
    requires
        rows_wf(rows, last_id),
        last_id < i64::MAX,
        r.id == last_id + 1,
    ensures
        ({
            let s = rows.push(r);
            let p = pruned(s, MAX_UNPINNED_ENTRIES as int);
            &&& forall|i: int| 0 <= i < s.len() && s[i].pinned ==> has_id(p, #[trigger] s[i].id)
            &&& forall|i: int|
                0 <= i < s.len() ==> (has_id(p, #[trigger] s[i].id) <==> stays(s, i, MAX_UNPINNED_ENTRIES as int))
            &&& has_id(p, r.id) && p.last() == r
            &&& unpinned_count(p) == if unpinned_count(s) < MAX_UNPINNED_ENTRIES {
                unpinned_count(s)
            } else {
                MAX_UNPINNED_ENTRIES as nat
            }
        }),
{
    let s = rows.push(r);
    assert(rows_wf(s, r.id));
    law_prune(s, r.id, MAX_UNPINNED_ENTRIES as int);
    law_store_keeps_new_entry(rows, last_id, r, MAX_UNPINNED_ENTRIES as int);
}

/// The listing keeps the best matches: it is full (`LIST_LIMIT` entries) or
/// it lists every row the query finds; and whenever an entry is listed,
/// every row the query finds that ranks before it (pinned before unpinned,
/// then newer before older) is listed too, so matching pinned rows are
/// never crowded out by unpinned ones.
pub proof fn law_listing_keeps_best(rows: Seq<Row>, q: Option<Seq<char>>, last_id: i64)
    requires
        rows_wf(rows, last_id),
    ensures
        listed(rows, q).len() == LIST_LIMIT || forall|j: int|
            0 <= j < rows.len() && row_matches(rows[j], q) ==> in_rows(listed(rows, q), #[trigger] rows[j]),
        forall|k: int, j: int|
            0 <= k < listed(rows, q).len() && 0 <= j < rows.len() && row_matches(rows[j], q) && (
            (rows[j].pinned && !(#[trigger] listed(rows, q)[k]).pinned) || (rows[j].pinned == listed(rows, q)[k].pinned
                && rows[j].id > listed(rows, q)[k].id)) ==> in_rows(listed(rows, q), #[trigger] rows[j]),
{
    let pp = newest_first(rows, true, q);
    let up = newest_first(rows, false, q);
    let all = pp + up;
    let l = listed(rows, q);
    lemma_newest_first_rows(rows, true, q);
    lemma_newest_first_rows(rows, false, q);
    lemma_newest_first_order(rows, true, q, last_id);
    lemma_newest_first_order(rows, false, q, last_id);
    lemma_newest_first_complete(rows, true, q);
    lemma_newest_first_complete(rows, false, q);
    law_listing(rows, q, last_id);
    assert forall|k: int| 0 <= k < l.len() implies l[k] == all[k] by {}
    assert forall|k: int, j: int|
        0 <= k < l.len() && 0 <= j < rows.len() && row_matches(rows[j], q) && ((rows[j].pinned && !(
        #[trigger] l[k]).pinned) || (rows[j].pinned == l[k].pinned && rows[j].id > l[k].id)) implies in_rows(
        l,
        #[trigger] rows[j],
    ) by {
        let r = rows[j];
        let x = l[k];
        assert(x == all[k]);
        if k < pp.len() {
            assert(all[k] == pp[k]);
        } else {
            assert(all[k] == up[k - pp.len()]);
        }
        if r.pinned {
            let m = choose|m: int| 0 <= m < pp.len() && pp[m] == #[trigger] rows[j];
            if x.pinned {
                assert(k < pp.len());
                if m >= k {
                    if m > k {
                        assert(pp[k].id > pp[m].id);
                    }
                    assert(false);
                }
            }
            assert(m < k);
            assert(all[m] == pp[m]);
            assert(l[m] == r);
        } else {
            assert(!x.pinned);
            assert(k >= pp.len());
            let m = choose|m: int| 0 <= m < up.len() && up[m] == #[trigger] rows[j];
            let kk = k - pp.len();
            if m >= kk {
                if m > kk {
                    assert(up[kk].id > up[m].id);
                }
                assert(false);
            }
            assert(all[m + pp.len()] == up[m]);
            assert(l[m + pp.len()] == r);
        }
    }
}

/// Import takes in every kind of entry the history stores: a record of kind
/// "text", "image" or "files" whose image, if it has one, is valid Base64
/// is planned for storing; a record of any other kind is skipped.
pub proof fn law_import_takes_stored_kinds(record: ImportRecord)
    ensures
        (record.kind@ == "text"@ || record.kind@ == "image"@ || record.kind@ == "files"@) && (record.image_base64 is None
            || is_base64_of_some(record.image_base64->0@)) ==> import_accepts(record),
        !(record.kind@ == "text"@ || record.kind@ == "image"@ || record.kind@ == "files"@) ==> !import_accepts(
            record,
        ),
{
}

/// The extensions whose files are previewed as text are exactly these
/// (lowercased): "pdf" is read as a PDF; "txt", "md", "log", "json", "xml",
/// "yaml", "yml", "toml", "ini", "cfg", "conf", "csv", "c", "h", "cpp",
/// "cc", "cxx", "hpp", "hh", "cs", "java", "kt", "go", "rs", "rb", "py",
/// "php", "sh", "bash", "ps1", "sql", "swift", "html", "htm", "css",
/// "scss", "js", "jsx", "ts", "tsx", "vue" and "svelte" as plain text; any
/// other extension gets no text preview.
pub proof fn law_text_preview_extensions(l: Seq<char>)
    ensures
        kind_for_lower(l) == Some(TextPreviewKind::Pdf) <==> l == "pdf"@,
        kind_for_lower(l) == Some(TextPreviewKind::PlainText) <==> (
            l == "txt"@ || l == "md"@ || l == "log"@ || l == "json"@ || l == "xml"@ || l == "yaml"@ ||
            l == "yml"@ || l == "toml"@ || l == "ini"@ || l == "cfg"@ || l == "conf"@ || l == "csv"@ ||
            l == "c"@ || l == "h"@ || l == "cpp"@ || l == "cc"@ || l == "cxx"@ || l == "hpp"@ ||
            l == "hh"@ || l == "cs"@ || l == "java"@ || l == "kt"@ || l == "go"@ || l == "rs"@ ||
            l == "rb"@ || l == "py"@ || l == "php"@ || l == "sh"@ || l == "bash"@ || l == "ps1"@ ||
            l == "sql"@ || l == "swift"@ || l == "html"@ || l == "htm"@ || l == "css"@ || l == "scss"@ ||
            l == "js"@ || l == "jsx"@ || l == "ts"@ || l == "tsx"@ || l == "vue"@ || l == "svelte"@
        ),
        kind_for_lower(l) is None <==> !(l == "pdf"@ || (
            l == "txt"@ || l == "md"@ || l == "log"@ || l == "json"@ || l == "xml"@ || l == "yaml"@ ||
            l == "yml"@ || l == "toml"@ || l == "ini"@ || l == "cfg"@ || l == "conf"@ || l == "csv"@ ||
            l == "c"@ || l == "h"@ || l == "cpp"@ || l == "cc"@ || l == "cxx"@ || l == "hpp"@ ||
            l == "hh"@ || l == "cs"@ || l == "java"@ || l == "kt"@ || l == "go"@ || l == "rs"@ ||
            l == "rb"@ || l == "py"@ || l == "php"@ || l == "sh"@ || l == "bash"@ || l == "ps1"@ ||
            l == "sql"@ || l == "swift"@ || l == "html"@ || l == "htm"@ || l == "css"@ || l == "scss"@ ||
            l == "js"@ || l == "jsx"@ || l == "ts"@ || l == "tsx"@ || l == "vue"@ || l == "svelte"@
        )),
{
    reveal_strlit("pdf");
    reveal_strlit("txt");
    reveal_strlit("md");
    reveal_strlit("log");
    reveal_strlit("json");
    reveal_strlit("xml");
    reveal_strlit("yaml");
    reveal_strlit("yml");
    reveal_strlit("toml");
    reveal_strlit("ini");
    reveal_strlit("cfg");
    reveal_strlit("conf");
    reveal_strlit("csv");
    reveal_strlit("c");
    reveal_strlit("h");
    reveal_strlit("cpp");
    reveal_strlit("cc");
    reveal_strlit("cxx");
    reveal_strlit("hpp");
    reveal_strlit("hh");
    reveal_strlit("cs");
    reveal_strlit("java");
    reveal_strlit("kt");
    reveal_strlit("go");
    reveal_strlit("rs");
    reveal_strlit("rb");
    reveal_strlit("py");
    reveal_strlit("php");
    reveal_strlit("sh");
    reveal_strlit("bash");
    reveal_strlit("ps1");
    reveal_strlit("sql");
    reveal_strlit("swift");
    reveal_strlit("html");
    reveal_strlit("htm");
    reveal_strlit("css");
    reveal_strlit("scss");
    reveal_strlit("js");
    reveal_strlit("jsx");
    reveal_strlit("ts");
    reveal_strlit("tsx");
    reveal_strlit("vue");
    reveal_strlit("svelte");
    let s = text_extensions();
    assert(s[0] == "txt"@);
    assert(s[1] == "md"@);
    assert(s[2] == "log"@);
    assert(s[3] == "json"@);
    assert(s[4] == "xml"@);
    assert(s[5] == "yaml"@);
    assert(s[6] == "yml"@);
    assert(s[7] == "toml"@);
    assert(s[8] == "ini"@);
    assert(s[9] == "cfg"@);
    assert(s[10] == "conf"@);
    assert(s[11] == "csv"@);
    assert(s[12] == "c"@);
    assert(s[13] == "h"@);
    assert(s[14] == "cpp"@);
    assert(s[15] == "cc"@);
    assert(s[16] == "cxx"@);
    assert(s[17] == "hpp"@);
    assert(s[18] == "hh"@);
    assert(s[19] == "cs"@);
    assert(s[20] == "java"@);
    assert(s[21] == "kt"@);
    assert(s[22] == "go"@);
    assert(s[23] == "rs"@);
    assert(s[24] == "rb"@);
    assert(s[25] == "py"@);
    assert(s[26] == "php"@);
    assert(s[27] == "sh"@);
    assert(s[28] == "bash"@);
    assert(s[29] == "ps1"@);
    assert(s[30] == "sql"@);
    assert(s[31] == "swift"@);
    assert(s[32] == "html"@);
    assert(s[33] == "htm"@);
    assert(s[34] == "css"@);
    assert(s[35] == "scss"@);
    assert(s[36] == "js"@);
    assert(s[37] == "jsx"@);
    assert(s[38] == "ts"@);
    assert(s[39] == "tsx"@);
    assert(s[40] == "vue"@);
    assert(s[41] == "svelte"@);
    assert("txt"@[0] != 'p' || "txt"@[1] != 'd' || "txt"@[2] != 'f');
    assert("log"@[0] != 'p' || "log"@[1] != 'd' || "log"@[2] != 'f');
    assert("xml"@[0] != 'p' || "xml"@[1] != 'd' || "xml"@[2] != 'f');
    assert("yml"@[0] != 'p' || "yml"@[1] != 'd' || "yml"@[2] != 'f');
    assert("ini"@[0] != 'p' || "ini"@[1] != 'd' || "ini"@[2] != 'f');
    assert("cfg"@[0] != 'p' || "cfg"@[1] != 'd' || "cfg"@[2] != 'f');
    assert("csv"@[0] != 'p' || "csv"@[1] != 'd' || "csv"@[2] != 'f');
    assert("cpp"@[0] != 'p' || "cpp"@[1] != 'd' || "cpp"@[2] != 'f');
    assert("cxx"@[0] != 'p' || "cxx"@[1] != 'd' || "cxx"@[2] != 'f');
    assert("hpp"@[0] != 'p' || "hpp"@[1] != 'd' || "hpp"@[2] != 'f');
    assert("php"@[0] != 'p' || "php"@[1] != 'd' || "php"@[2] != 'f');
    assert("ps1"@[0] != 'p' || "ps1"@[1] != 'd' || "ps1"@[2] != 'f');
    assert("sql"@[0] != 'p' || "sql"@[1] != 'd' || "sql"@[2] != 'f');
    assert("htm"@[0] != 'p' || "htm"@[1] != 'd' || "htm"@[2] != 'f');
    assert("css"@[0] != 'p' || "css"@[1] != 'd' || "css"@[2] != 'f');
    assert("jsx"@[0] != 'p' || "jsx"@[1] != 'd' || "jsx"@[2] != 'f');
    assert("tsx"@[0] != 'p' || "tsx"@[1] != 'd' || "tsx"@[2] != 'f');
    assert("vue"@[0] != 'p' || "vue"@[1] != 'd' || "vue"@[2] != 'f');
    assert(s.len() == 42);
    if s.contains(l) {
        let k = choose|k: int| 0 <= k < s.len() && s[k] == l;
        assert(k == 0 || k == 1 || k == 2 || k == 3 || k == 4 || k == 5 || k == 6 || k == 7 || k == 8 || k == 9 || k == 10 || k == 11 || k == 12 || k == 13 || k == 14 || k == 15 || k == 16 || k == 17 || k == 18 || k == 19 || k == 20 || k == 21 || k == 22 || k == 23 || k == 24 || k == 25 || k == 26 || k == 27 || k == 28 || k == 29 || k == 30 || k == 31 || k == 32 || k == 33 || k == 34 || k == 35 || k == 36 || k == 37 || k == 38 || k == 39 || k == 40 || k == 41);
        if k == 0 {
            assert(l == "txt"@);
        }
        if k == 1 {
            assert(l == "md"@);
        }
        if k == 2 {
            assert(l == "log"@);
        }
        if k == 3 {
            assert(l == "json"@);
        }
        if k == 4 {
            assert(l == "xml"@);
        }
        if k == 5 {
            assert(l == "yaml"@);
        }
        if k == 6 {
            assert(l == "yml"@);
        }
        if k == 7 {
            assert(l == "toml"@);
        }
        if k == 8 {
            assert(l == "ini"@);
        }
        if k == 9 {
            assert(l == "cfg"@);
        }
        if k == 10 {
            assert(l == "conf"@);
        }
        if k == 11 {
            assert(l == "csv"@);
        }
        if k == 12 {
            assert(l == "c"@);
        }
        if k == 13 {
            assert(l == "h"@);
        }
        if k == 14 {
            assert(l == "cpp"@);
        }
        if k == 15 {
            assert(l == "cc"@);
        }
        if k == 16 {
            assert(l == "cxx"@);
        }
        if k == 17 {
            assert(l == "hpp"@);
        }
        if k == 18 {
            assert(l == "hh"@);
        }
        if k == 19 {
            assert(l == "cs"@);
        }
        if k == 20 {
            assert(l == "java"@);
        }
        if k == 21 {
            assert(l == "kt"@);
        }
        if k == 22 {
            assert(l == "go"@);
        }
        if k == 23 {
            assert(l == "rs"@);
        }
        if k == 24 {
            assert(l == "rb"@);
        }
        if k == 25 {
            assert(l == "py"@);
        }
        if k == 26 {
            assert(l == "php"@);
        }
        if k == 27 {
            assert(l == "sh"@);
        }
        if k == 28 {
            assert(l == "bash"@);
        }
        if k == 29 {
            assert(l == "ps1"@);
        }
        if k == 30 {
            assert(l == "sql"@);
        }
        if k == 31 {
            assert(l == "swift"@);
        }
        if k == 32 {
            assert(l == "html"@);
        }
        if k == 33 {
            assert(l == "htm"@);
        }
        if k == 34 {
            assert(l == "css"@);
        }
        if k == 35 {
            assert(l == "scss"@);
        }
        if k == 36 {
            assert(l == "js"@);
        }
        if k == 37 {
            assert(l == "jsx"@);
        }
        if k == 38 {
            assert(l == "ts"@);
        }
        if k == 39 {
            assert(l == "tsx"@);
        }
        if k == 40 {
            assert(l == "vue"@);
        }
        if k == 41 {
            assert(l == "svelte"@);
        }
    }
    if l == "txt"@ || l == "md"@ || l == "log"@ || l == "json"@ || l == "xml"@ || l == "yaml"@ || l == "yml"@ || l == "toml"@ || l == "ini"@ || l == "cfg"@ || l == "conf"@ || l == "csv"@ || l == "c"@ || l == "h"@ || l == "cpp"@ || l == "cc"@ || l == "cxx"@ || l == "hpp"@ || l == "hh"@ || l == "cs"@ || l == "java"@ || l == "kt"@ || l == "go"@ || l == "rs"@ || l == "rb"@ || l == "py"@ || l == "php"@ || l == "sh"@ || l == "bash"@ || l == "ps1"@ || l == "sql"@ || l == "swift"@ || l == "html"@ || l == "htm"@ || l == "css"@ || l == "scss"@ || l == "js"@ || l == "jsx"@ || l == "ts"@ || l == "tsx"@ || l == "vue"@ || l == "svelte"@ {
        if l == "txt"@ {
            assert(s[0] == l);
            assert(l[0] != 'p' || l[1] != 'd' || l[2] != 'f');
            assert(l != "pdf"@);
        }
        if l == "md"@ {
            assert(s[1] == l);
            assert(l.len() != 3);
            assert(l != "pdf"@);
        }
        if l == "log"@ {
            assert(s[2] == l);
            assert(l[0] != 'p' || l[1] != 'd' || l[2] != 'f');
            assert(l != "pdf"@);
        }
        if l == "json"@ {
            assert(s[3] == l);
            assert(l.len() != 3);
            assert(l != "pdf"@);
        }
        if l == "xml"@ {
            assert(s[4] == l);
            assert(l[0] != 'p' || l[1] != 'd' || l[2] != 'f');
            assert(l != "pdf"@);
        }
        if l == "yaml"@ {
            assert(s[5] == l);
            assert(l.len() != 3);
            assert(l != "pdf"@);
        }
        if l == "yml"@ {
            assert(s[6] == l);
            assert(l[0] != 'p' || l[1] != 'd' || l[2] != 'f');
            assert(l != "pdf"@);
        }
        if l == "toml"@ {
            assert(s[7] == l);
            assert(l.len() != 3);
            assert(l != "pdf"@);
        }
        if l == "ini"@ {
            assert(s[8] == l);
            assert(l[0] != 'p' || l[1] != 'd' || l[2] != 'f');
            assert(l != "pdf"@);
        }
        if l == "cfg"@ {
            assert(s[9] == l);
            assert(l[0] != 'p' || l[1] != 'd' || l[2] != 'f');
            assert(l != "pdf"@);
        }
        if l == "conf"@ {
            assert(s[10] == l);
            assert(l.len() != 3);
            assert(l != "pdf"@);
        }
        if l == "csv"@ {
            assert(s[11] == l);
            assert(l[0] != 'p' || l[1] != 'd' || l[2] != 'f');
            assert(l != "pdf"@);
        }
        if l == "c"@ {
            assert(s[12] == l);
            assert(l.len() != 3);
            assert(l != "pdf"@);
        }
        if l == "h"@ {
            assert(s[13] == l);
            assert(l.len() != 3);
            assert(l != "pdf"@);
        }
        if l == "cpp"@ {
            assert(s[14] == l);
            assert(l[0] != 'p' || l[1] != 'd' || l[2] != 'f');
            assert(l != "pdf"@);
        }
        if l == "cc"@ {
            assert(s[15] == l);
            assert(l.len() != 3);
            assert(l != "pdf"@);
        }
        if l == "cxx"@ {
            assert(s[16] == l);
            assert(l[0] != 'p' || l[1] != 'd' || l[2] != 'f');
            assert(l != "pdf"@);
        }
        if l == "hpp"@ {
            assert(s[17] == l);
            assert(l[0] != 'p' || l[1] != 'd' || l[2] != 'f');
            assert(l != "pdf"@);
        }
        if l == "hh"@ {
            assert(s[18] == l);
            assert(l.len() != 3);
            assert(l != "pdf"@);
        }
        if l == "cs"@ {
            assert(s[19] == l);
            assert(l.len() != 3);
            assert(l != "pdf"@);
        }
        if l == "java"@ {
            assert(s[20] == l);
            assert(l.len() != 3);
            assert(l != "pdf"@);
        }
        if l == "kt"@ {
            assert(s[21] == l);
            assert(l.len() != 3);
            assert(l != "pdf"@);
        }
        if l == "go"@ {
            assert(s[22] == l);
            assert(l.len() != 3);
            assert(l != "pdf"@);
        }
        if l == "rs"@ {
            assert(s[23] == l);
            assert(l.len() != 3);
            assert(l != "pdf"@);
        }
        if l == "rb"@ {
            assert(s[24] == l);
            assert(l.len() != 3);
            assert(l != "pdf"@);
        }
        if l == "py"@ {
            assert(s[25] == l);
            assert(l.len() != 3);
            assert(l != "pdf"@);
        }
        if l == "php"@ {
            assert(s[26] == l);
            assert(l[0] != 'p' || l[1] != 'd' || l[2] != 'f');
            assert(l != "pdf"@);
        }
        if l == "sh"@ {
            assert(s[27] == l);
            assert(l.len() != 3);
            assert(l != "pdf"@);
        }
        if l == "bash"@ {
            assert(s[28] == l);
            assert(l.len() != 3);
            assert(l != "pdf"@);
        }
        if l == "ps1"@ {
            assert(s[29] == l);
            assert(l[0] != 'p' || l[1] != 'd' || l[2] != 'f');
            assert(l != "pdf"@);
        }
        if l == "sql"@ {
            assert(s[30] == l);
            assert(l[0] != 'p' || l[1] != 'd' || l[2] != 'f');
            assert(l != "pdf"@);
        }
        if l == "swift"@ {
            assert(s[31] == l);
            assert(l.len() != 3);
            assert(l != "pdf"@);
        }
        if l == "html"@ {
            assert(s[32] == l);
            assert(l.len() != 3);
            assert(l != "pdf"@);
        }
        if l == "htm"@ {
            assert(s[33] == l);
            assert(l[0] != 'p' || l[1] != 'd' || l[2] != 'f');
            assert(l != "pdf"@);
        }
        if l == "css"@ {
            assert(s[34] == l);
            assert(l[0] != 'p' || l[1] != 'd' || l[2] != 'f');
            assert(l != "pdf"@);
        }
        if l == "scss"@ {
            assert(s[35] == l);
            assert(l.len() != 3);
            assert(l != "pdf"@);
        }
        if l == "js"@ {
            assert(s[36] == l);
            assert(l.len() != 3);
            assert(l != "pdf"@);
        }
        if l == "jsx"@ {
            assert(s[37] == l);
            assert(l[0] != 'p' || l[1] != 'd' || l[2] != 'f');
            assert(l != "pdf"@);
        }
        if l == "ts"@ {
            assert(s[38] == l);
            assert(l.len() != 3);
            assert(l != "pdf"@);
        }
        if l == "tsx"@ {
            assert(s[39] == l);
            assert(l[0] != 'p' || l[1] != 'd' || l[2] != 'f');
            assert(l != "pdf"@);
        }
        if l == "vue"@ {
            assert(s[40] == l);
            assert(l[0] != 'p' || l[1] != 'd' || l[2] != 'f');
            assert(l != "pdf"@);
        }
        if l == "svelte"@ {
            assert(s[41] == l);
            assert(l.len() != 3);
            assert(l != "pdf"@);
        }
        assert(s.contains(l));
    }
}

/// Removing old entries removes exactly the unpinned rows created more than
/// `max_age_days` days (of 86 400 000 ms) before `now`, whatever their kind,
/// when such a limit is set (more than 0), and keeps every other row.
pub proof fn law_expire_removes_exactly_old(rows: Seq<Row>, now: i64, max_age_days: i64)
    ensures
        forall|j: int|
            0 <= j < rows.len() && !rows[j].pinned && max_age_days > 0 && rows[j].created_at < now - max_age_days
                * 86_400_000 ==> !in_rows(unexpired_rows(rows, now, max_age_days), #[trigger] rows[j]),
        forall|j: int|
            0 <= j < rows.len() && (rows[j].pinned || max_age_days <= 0 || rows[j].created_at >= now - max_age_days
                * 86_400_000) ==> in_rows(unexpired_rows(rows, now, max_age_days), #[trigger] rows[j]),
{
    let pred = |r: Row| !expired(r, now, max_age_days);
    let f = unexpired_rows(rows, now, max_age_days);
    assert(f == rows.filter(pred));
    assert forall|j: int|
        0 <= j < rows.len() && !rows[j].pinned && max_age_days > 0 && rows[j].created_at < now - max_age_days
            * 86_400_000 implies !in_rows(f, #[trigger] rows[j]) by {
        if in_rows(f, rows[j]) {
            let k = choose|k: int| 0 <= k < f.len() && f[k] == rows[j];
            assert(pred(f[k]));
        }
    }
    assert forall|j: int|
        0 <= j < rows.len() && (rows[j].pinned || max_age_days <= 0 || rows[j].created_at >= now - max_age_days
            * 86_400_000) implies in_rows(f, #[trigger] rows[j]) by {
        assert(rows.contains(rows[j]));
        assert(f.contains(rows[j]));
    }
}

/// The newest creation time of a history is the largest creation time of
/// its rows (none for an empty history).
pub proof fn law_latest_is_largest(rows: Seq<Row>)
    ensures
        rows.len() == 0 ==> latest(rows) is None,
        rows.len() > 0 ==> latest(rows) is Some && (exists|j: int|
            0 <= j < rows.len() && latest(rows)->0 == #[trigger] rows[j].created_at) && forall|k: int|
            0 <= k < rows.len() ==> latest(rows)->0 >= #[trigger] rows[k].created_at,
    decreases rows.len(),
{
    if rows.len() > 0 {
        let init = rows.drop_last();
        law_latest_is_largest(init);
        let n = rows.len() - 1;
        if init.len() > 0 {
            let j = choose|j: int| 0 <= j < init.len() && latest(init)->0 == #[trigger] init[j].created_at;
            assert(init[j] == rows[j]);
            assert forall|k: int| 0 <= k < rows.len() implies latest(rows)->0 >= #[trigger] rows[k].created_at by {
                if k < n {
                    assert(init[k] == rows[k]);
                }
            }
            if rows[n].created_at > latest(init)->0 {
                assert(latest(rows)->0 == rows[n].created_at);
            } else {
                assert(latest(rows)->0 == rows[j].created_at);
            }
        } else {
            assert(latest(rows)->0 == rows[n].created_at);
        }
    }
}

/// The oldest creation time of a history is the smallest creation time of
/// its rows (none for an empty history).
pub proof fn law_earliest_is_smallest(rows: Seq<Row>)
    ensures
        rows.len() == 0 ==> earliest(rows) is None,
        rows.len() > 0 ==> earliest(rows) is Some && (exists|j: int|
            0 <= j < rows.len() && earliest(rows)->0 == #[trigger] rows[j].created_at) && forall|k: int|
            0 <= k < rows.len() ==> earliest(rows)->0 <= #[trigger] rows[k].created_at,
    decreases rows.len(),
{
    if rows.len() > 0 {
        let init = rows.drop_last();
        law_earliest_is_smallest(init);
        let n = rows.len() - 1;
        if init.len() > 0 {
            let j = choose|j: int| 0 <= j < init.len() && earliest(init)->0 == #[trigger] init[j].created_at;
            assert(init[j] == rows[j]);
            assert forall|k: int| 0 <= k < rows.len() implies earliest(rows)->0 <= #[trigger] rows[k].created_at by {
                if k < n {
                    assert(init[k] == rows[k]);
                }
            }
            if rows[n].created_at < earliest(init)->0 {
                assert(earliest(rows)->0 == rows[n].created_at);
            } else {
                assert(earliest(rows)->0 == rows[j].created_at);
            }
        } else {
            assert(earliest(rows)->0 == rows[n].created_at);
        }
    }
}

} // verus!
