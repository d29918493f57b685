//! Search over the history: SQL `LIKE` matching (ASCII case-insensitive,
//! `%` and `_` wildcards, `\` escapes) and the escaping that turns a query
//! into a substring pattern.

use vstd::prelude::*;
use crate::text::{chars_of, push_char};

verus! {

/// ASCII upper-case letters folded to lower case; other characters unchanged.
pub open spec fn fold_ascii(c: char) -> char {
    if 'A' <= c && c <= 'Z' {
        ((c as u32) + 32) as char
    } else {
        c
    }
}

/// Character equality as `LIKE` compares characters: ASCII letters without
/// regard to case, everything else exactly.
pub open spec fn ci_eq(a: char, b: char) -> bool {
    fold_ascii(a) == fold_ascii(b)
}

/// Whether text `t` matches `LIKE` pattern `p` with escape character `\`:
/// `%` matches any run of characters, `_` any one character, `\x` the
/// character `x` (a trailing lone `\` matches nothing), and any other
/// character itself, ASCII letters case-insensitively.
pub open spec fn like(t: Seq<char>, p: Seq<char>) -> bool
    decreases p.len(), t.len(),
{
    if p.len() == 0 {
        t.len() == 0
    } else if p[0] == '%' {
        like(t, p.drop_first()) || (t.len() > 0 && like(t.drop_first(), p))
    } else if p[0] == '_' {
        t.len() > 0 && like(t.drop_first(), p.drop_first())
    } else if p[0] == '\\' {
        p.len() >= 2 && t.len() > 0 && ci_eq(t[0], p[1]) && like(t.drop_first(), p.skip(2))
    } else {
        t.len() > 0 && ci_eq(t[0], p[0]) && like(t.drop_first(), p.drop_first())
    }
}

/// Whether `q` occurs in `t` at position `i`, comparing as `LIKE` does.
pub open spec fn occurs_at(t: Seq<char>, q: Seq<char>, i: int) -> bool {
    &&& 0 <= i
    &&& i + q.len() <= t.len()
    &&& forall|k: int| 0 <= k < q.len() ==> ci_eq(#[trigger] t[i + k], q[k])
}

/// Whether `q` occurs somewhere in `t`, ASCII letters without regard to case.
pub open spec fn contains_ci(t: Seq<char>, q: Seq<char>) -> bool {
    exists|i: int| occurs_at(t, q, i)
}

/// Whether a character has a meaning of its own in a `LIKE` pattern.
pub open spec fn is_like_special(c: char) -> bool {
    c == '%' || c == '_' || c == '\\'
}

/// One query character as it stands in a pattern: `%`, `_` and `\` are
/// preceded by `\`.
pub open spec fn escape_one(c: char) -> Seq<char> {
    if is_like_special(c) {
        seq!['\\', c]
    } else {
        seq![c]
    }
}

/// The query characters, each escaped.
pub open spec fn escape_chars(q: Seq<char>) -> Seq<char>
    decreases q.len(),
{
    if q.len() == 0 {
        Seq::empty()
    } else {
        escape_chars(q.drop_last()) + escape_one(q.last())
    }
}

/// The `LIKE` pattern that finds `q` anywhere: `%`, the escaped query, `%`.
pub open spec fn escape_pattern(q: Seq<char>) -> Seq<char> {
    seq!['%'] + escape_chars(q) + seq!['%']
}

/// Escaping works character by character from the front as well.
pub proof fn lemma_escape_front(q: Seq<char>)
    requires
        q.len() > 0,
    ensures
        escape_chars(q) == escape_one(q[0]) + escape_chars(q.drop_first()),
    decreases q.len(),
{
    if q.len() == 1 {
        assert(q.drop_last() =~= Seq::<char>::empty());
        assert(q.drop_first() =~= Seq::<char>::empty());
        assert(escape_chars(q) =~= escape_one(q[0]) + escape_chars(q.drop_first()));
    } else {
        lemma_escape_front(q.drop_last());
        assert(q.drop_last().drop_first() =~= q.drop_first().drop_last());
        assert(q.drop_first().last() == q.last());
        assert(q.drop_last()[0] == q[0]);
        assert(escape_chars(q) =~= escape_one(q[0]) + escape_chars(q.drop_first()));
    }
}

/// An escaped query followed by a pattern `r` matches `t` exactly when the
/// query matches the start of `t` and `r` matches the rest.
pub proof fn lemma_escaped_literal(t: Seq<char>, q: Seq<char>, r: Seq<char>)
    ensures
        like(t, escape_chars(q) + r) == (q.len() <= t.len() && (forall|k: int|
            0 <= k < q.len() ==> ci_eq(#[trigger] t[k], q[k])) && like(t.skip(q.len() as int), r)),
    decreases q.len(),
{
    if q.len() == 0 {
        assert(escape_chars(q) + r =~= r);
        assert(t.skip(0) =~= t);
    } else {
        lemma_escape_front(q);
        let q1 = q.drop_first();
        let rest = escape_chars(q1) + r;
        let e = escape_chars(q) + r;
        assert(e =~= escape_one(q[0]) + rest);
        if is_like_special(q[0]) {
            assert(e[0] == '\\');
            assert(e[1] == q[0]);
            assert(e.skip(2) =~= rest);
        } else {
            assert(e[0] == q[0]);
            assert(e.drop_first() =~= rest);
        }
        if t.len() > 0 {
            let t1 = t.drop_first();
            lemma_escaped_literal(t1, q1, r);
            if q.len() <= t.len() {
                assert(t1.skip(q1.len() as int) =~= t.skip(q.len() as int));
            }
            if q.len() <= t.len() && (forall|k: int| 0 <= k < q.len() ==> ci_eq(#[trigger] t[k], q[k])) {
                assert forall|k: int| 0 <= k < q1.len() implies ci_eq(#[trigger] t1[k], q1[k]) by {
                    assert(t1[k] == t[k + 1] && q1[k] == q[k + 1]);
                }
                assert(ci_eq(t[0], q[0]));
            }
            if ci_eq(t[0], q[0]) && q1.len() <= t1.len() && (forall|k: int|
                0 <= k < q1.len() ==> ci_eq(#[trigger] t1[k], q1[k])) {
                assert forall|k: int| 0 <= k < q.len() implies ci_eq(#[trigger] t[k], q[k]) by {
                    if k > 0 {
                        assert(t1[k - 1] == t[k] && q1[k - 1] == q[k]);
                    }
                }
            }
        }
    }
}

/// A lone `%` matches every text.
pub proof fn lemma_percent_matches_all(t: Seq<char>)
    ensures
        like(t, seq!['%']),
    decreases t.len(),
{
    let p = seq!['%'];
    assert(p[0] == '%');
    assert(p.drop_first() =~= Seq::<char>::empty());
    if t.len() > 0 {
        lemma_percent_matches_all(t.drop_first());
        assert(like(t.drop_first(), p));
    } else {
        assert(like(t, p.drop_first()));
    }
}

/// Whether pattern `x` matches some suffix of `t`.
pub open spec fn matches_some_suffix(t: Seq<char>, x: Seq<char>) -> bool {
    exists|i: int| 0 <= i <= t.len() && like(#[trigger] t.skip(i), x)
}

/// A leading `%` lets the rest of the pattern match any suffix.
pub proof fn lemma_leading_percent(t: Seq<char>, x: Seq<char>)
    ensures
        like(t, seq!['%'] + x) == matches_some_suffix(t, x),
    decreases t.len(),
{
    let p = seq!['%'] + x;
    assert(p[0] == '%');
    assert(p.drop_first() =~= x);
    assert(t.skip(0) =~= t);
    if t.len() > 0 {
        let t1 = t.drop_first();
        lemma_leading_percent(t1, x);
        if matches_some_suffix(t1, x) {
            let i = choose|i: int| 0 <= i <= t1.len() && like(#[trigger] t1.skip(i), x);
            assert(t1.skip(i) =~= t.skip(i + 1));
        }
        if matches_some_suffix(t, x) {
            let i = choose|i: int| 0 <= i <= t.len() && like(#[trigger] t.skip(i), x);
            if i > 0 {
                assert(t1.skip(i - 1) =~= t.skip(i));
            }
        }
    } else {
        if matches_some_suffix(t, x) {
            let i = choose|i: int| 0 <= i <= t.len() && like(#[trigger] t.skip(i), x);
            assert(i == 0);
        }
    }
}

/// Searching with the escaped pattern finds exactly the texts that contain
/// the query as a substring (ASCII letters without regard to case): `%`,
/// `_` and `\` in the query are matched literally.
pub proof fn lemma_search_is_substring(t: Seq<char>, q: Seq<char>)
    ensures
        like(t, escape_pattern(q)) == contains_ci(t, q),
{
    let body = escape_chars(q) + seq!['%'];
    assert(escape_pattern(q) =~= seq!['%'] + body);
    lemma_leading_percent(t, body);
    if matches_some_suffix(t, body) {
        let i = choose|i: int| 0 <= i <= t.len() && like(#[trigger] t.skip(i), body);
        let ti = t.skip(i);
        lemma_escaped_literal(ti, q, seq!['%']);
        assert forall|k: int| 0 <= k < q.len() implies ci_eq(#[trigger] t[i + k], q[k]) by {
            assert(ti[k] == t[i + k]);
        }
        assert(occurs_at(t, q, i));
    }
    if contains_ci(t, q) {
        let i = choose|i: int| occurs_at(t, q, i);
        let ti = t.skip(i);
        lemma_escaped_literal(ti, q, seq!['%']);
        lemma_percent_matches_all(ti.skip(q.len() as int));
        assert forall|k: int| 0 <= k < q.len() implies ci_eq(#[trigger] ti[k], q[k]) by {
            assert(ti[k] == t[i + k]);
        }
        assert(like(t.skip(i), body));
    }
}

/// Escapes `query` for a `LIKE ... ESCAPE '\'` substring search.
pub fn escape_like(query: &str) -> (res: String)
    ensures
        res@ == escape_pattern(query@),
{
    let q = chars_of(query);
    let mut escaped = String::new();
    push_char(&mut escaped, '%');
    let n = q.len();
    for i in 0..n
        invariant
            n == q@.len(),
            q@ == query@,
            escaped@ == seq!['%'] + escape_chars(q@.take(i as int)),
    {
        let ch = q[i];
        proof {
            assert(q@.take(i + 1).drop_last() =~= q@.take(i as int));
            assert(q@.take(i + 1).last() == ch);
        }
        if ch == '%' || ch == '_' || ch == '\\' {
            push_char(&mut escaped, '\\');
        }
        push_char(&mut escaped, ch);
        proof {
            assert(escaped@ =~= seq!['%'] + escape_chars(q@.take(i as int)) + escape_one(ch));
        }
    }
    push_char(&mut escaped, '%');
    proof {
        assert(q@.take(n as int) =~= q@);
        assert(escaped@ =~= escape_pattern(query@));
    }
    escaped
}

/// `v[k]` for `k < n`, `last` for `k == n`: one column of the matching table.
fn cell(v: &Vec<bool>, last: bool, k: usize) -> (res: bool)
    requires
        k <= v@.len(),
    ensures
        res == (if k < v@.len() { v@[k as int] } else { last }),
{
    if k < v.len() {
        v[k]
    } else {
        last
    }
}

/// The column of the matching table for pattern position `j`: entry `i`
/// tells whether the text from position `i` on matches the pattern from `j` on.
pub open spec fn column_ok(t: Seq<char>, p: Seq<char>, v: Seq<bool>, last: bool, j: int) -> bool {
    &&& v.len() == t.len()
    &&& last == like(t.skip(t.len() as int), p.skip(j))
    &&& forall|i: int| 0 <= i < t.len() ==> #[trigger] v[i] == like(t.skip(i), p.skip(j))
}

/// Whether `t` matches the `LIKE` pattern `p` (escape character `\`),
/// computed column by column from the end of the pattern.
pub fn like_match(t: &Vec<char>, p: &Vec<char>) -> (res: bool)
    ensures
        res == like(t@, p@),
{
    let n = t.len();
    let m = p.len();
    let ghost ts = t@;
    let ghost ps = p@;
    // Column m: only the empty rest of the text matches the empty rest of the pattern.
    let mut c1: Vec<bool> = Vec::new();
    for k in 0..n
        invariant
            n == ts.len(),
            m == ps.len(),
            c1@.len() == k,
            forall|i: int| 0 <= i < k ==> #[trigger] c1@[i] == like(ts.skip(i), ps.skip(m as int)),
    {
        proof {
            assert(ps.skip(m as int).len() == 0);
        }
        c1.push(false);
    }
    let mut last1 = true;
    proof {
        assert(ps.skip(m as int).len() == 0);
        assert(ts.skip(n as int).len() == 0);
    }
    let mut c2: Vec<bool> = Vec::new();
    let mut last2 = false;
    let mut j = m;
    while j > 0
        invariant
            n == ts.len(),
            m == ps.len(),
            ts == t@,
            ps == p@,
            j <= m,
            column_ok(ts, ps, c1@, last1, j as int),
            j < m ==> column_ok(ts, ps, c2@, last2, j + 1),
        decreases j,
    {
        let jj = j - 1;
        let pc = p[jj];
        let ghost pj = ps.skip(jj as int);
        proof {
            assert(pj[0] == pc);
            assert(pj.drop_first() =~= ps.skip(j as int));
            if jj + 1 < m {
                assert(pj.skip(2) =~= ps.skip(jj + 2));
                assert(pj[1] == ps[jj + 1]);
            }
        }
        let new_last = if pc == '%' {
            last1
        } else {
            false
        };
        proof {
            assert(ts.skip(n as int).len() == 0);
            assert(new_last == like(ts.skip(n as int), pj));
        }
        let mut nc: Vec<bool> = Vec::new();
        for k in 0..n
            invariant
                nc@.len() == k,
        {
            nc.push(false);
        }
        let mut i = n;
        while i > 0
            invariant
                i <= n,
                n == ts.len(),
                m == ps.len(),
                ts == t@,
                ps == p@,
                jj < m,
                jj + 1 == j,
                pc == ps[jj as int],
                pj == ps.skip(jj as int),
                pj.drop_first() == ps.skip(j as int),
                jj + 1 < m ==> pj.skip(2) == ps.skip(jj + 2) && pj[1] == ps[jj + 1],
                nc@.len() == n,
                new_last == like(ts.skip(n as int), pj),
                column_ok(ts, ps, c1@, last1, j as int),
                j < m ==> column_ok(ts, ps, c2@, last2, j + 1),
                forall|k: int| i <= k < n ==> #[trigger] nc@[k] == like(ts.skip(k), pj),
            decreases i,
        {
            i = i - 1;
            let tc = t[i];
            let ghost tk = ts.skip(i as int);
            proof {
                assert(tk[0] == tc);
                assert(tk.drop_first() =~= ts.skip(i + 1));
                assert(tk.len() > 0);
            }
            let v = if pc == '%' {
                cell(&c1, last1, i) || cell(&nc, new_last, i + 1)
            } else if pc == '_' {
                cell(&c1, last1, i + 1)
            } else if pc == '\\' {
                if jj + 1 < m {
                    ci_eq_exec(tc, p[jj + 1]) && cell(&c2, last2, i + 1)
                } else {
                    false
                }
            } else {
                ci_eq_exec(tc, pc) && cell(&c1, last1, i + 1)
            };
            proof {
                assert(v == like(tk, pj));
            }
            nc.set(i, v);
        }
        c2 = c1;
        last2 = last1;
        c1 = nc;
        last1 = new_last;
        j = jj;
    }
    proof {
        assert(ps.skip(0) =~= ps);
        assert(ts.skip(0) =~= ts);
    }
    cell(&c1, last1, 0)
}

fn ci_eq_exec(a: char, b: char) -> (res: bool)
    ensures
        res == ci_eq(a, b),
{
    let x = a as u32;
    let y = b as u32;
    let fx = if 65 <= x && x <= 90 { x + 32 } else { x };
    let fy = if 65 <= y && y <= 90 { y + 32 } else { y };
    proof {
        assert(fold_ascii(a) as u32 == fx);
        assert(fold_ascii(b) as u32 == fy);
    }
    fx == fy
}

} // verus!
