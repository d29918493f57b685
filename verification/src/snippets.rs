//! Snippets: texts the user keeps at hand to copy again, each with an id
//! that is never reused and the time it was added.

use vstd::prelude::*;
use crate::history::{clone_string, HistoryError};

verus! {

/// One stored snippet.
pub struct Snippet {
    pub id: i64,
    pub content: String,
    pub created_at: i64,
}

/// The mathematical value of a snippet.
pub struct SnippetView {
    pub id: i64,
    pub content: Seq<char>,
    pub created_at: i64,
}

impl View for Snippet {
    type V = SnippetView;

    open spec fn view(&self) -> SnippetView {
        SnippetView { id: self.id, content: self.content@, created_at: self.created_at }
    }
}

/// The snippets in increasing id order, and the largest id ever handed out.
pub struct SnippetsState {
    pub items: Seq<SnippetView>,
    pub last_id: i64,
}

/// Ids are positive, strictly increasing, and no larger than the largest id
/// handed out.
pub open spec fn snippets_wf(items: Seq<SnippetView>, last_id: i64) -> bool {
    &&& 0 <= last_id
    &&& forall|i: int| 0 <= i < items.len() ==> 0 < #[trigger] items[i].id <= last_id
    &&& forall|i: int, j: int| 0 <= i < j < items.len() ==> items[i].id < items[j].id
}

/// The snippets other than the one with id `id`, in order.
pub open spec fn without_snippet(items: Seq<SnippetView>, id: i64) -> Seq<SnippetView> {
    items.filter(|s: SnippetView| s.id != id)
}

/// The snippets, newest (largest id) first.
pub open spec fn newest_snippets_first(items: Seq<SnippetView>) -> Seq<SnippetView> {
    Seq::new(items.len(), |k: int| items[items.len() - 1 - k])
}

/// Filtering keeps snippets of the table, in order.
proof fn lemma_snippet_filter_wf(s: Seq<SnippetView>, pred: spec_fn(SnippetView) -> bool, last_id: i64)
    requires
        snippets_wf(s, last_id),
    ensures
        snippets_wf(s.filter(pred), last_id),
        forall|k: int| 0 <= k < s.filter(pred).len() ==> exists|j: int|
            0 <= j < s.len() && #[trigger] s.filter(pred)[k] == s[j],
    decreases s.len(),
{
    reveal_with_fuel(Seq::filter, 1);
    if s.len() > 0 {
        let sub = s.drop_last();
        assert(snippets_wf(sub, last_id));
        lemma_snippet_filter_wf(sub, pred, last_id);
        let f = s.filter(pred);
        let fs = sub.filter(pred);
        assert forall|k: int| 0 <= k < f.len() implies exists|j: int|
            0 <= j < s.len() && #[trigger] f[k] == s[j] by {
            if k < fs.len() {
                let j = choose|j: int| 0 <= j < sub.len() && #[trigger] fs[k] == sub[j];
                assert(f[k] == s[j]);
            } else {
                assert(f[k] == s[s.len() - 1]);
            }
        }
        if pred(s.last()) {
            assert forall|i: int, j: int| 0 <= i < j < f.len() implies f[i].id < f[j].id by {
                if j == f.len() - 1 {
                    let jj = choose|jj: int| 0 <= jj < sub.len() && #[trigger] fs[i] == sub[jj];
                    assert(f[i] == s[jj]);
                } else {
                    assert(f[i] == fs[i] && f[j] == fs[j]);
                }
            }
        }
    }
}

/// The stored snippets.
pub struct Snippets {
    items: Vec<Snippet>,
    last_id: i64,
}

impl View for Snippets {
    type V = SnippetsState;

    closed spec fn view(&self) -> SnippetsState {
        SnippetsState { items: self.items@.map_values(|s: Snippet| s@), last_id: self.last_id }
    }
}

fn clone_snippet(s: &Snippet) -> (res: Snippet)
    ensures
        res@ == s@,
{
    Snippet { id: s.id, content: clone_string(&s.content), created_at: s.created_at }
}

impl Snippets {
    #[verifier::type_invariant]
    spec fn well_formed(self) -> bool {
        snippets_wf(self@.items, self.last_id)
    }

    /// No snippets.
    pub fn new() -> (res: Snippets)
        ensures
            res@.items == Seq::<SnippetView>::empty(),
            res@.last_id == 0,
    {
        let res = Snippets { items: Vec::new(), last_id: 0 };
        assert(res@.items =~= Seq::<SnippetView>::empty());
        res
    }

    /// The snippets `items` (in increasing id order) with `last_id` the
    /// largest id ever handed out; `None` when they do not fit together.
    pub fn from_items(items: Vec<Snippet>, last_id: i64) -> (res: Option<Snippets>)
        ensures
            res is Some <==> snippets_wf(items@.map_values(|s: Snippet| s@), last_id),
            res matches Some(b) ==> b@.items == items@.map_values(|s: Snippet| s@) && b@.last_id == last_id,
    {
        let ghost ss = items@.map_values(|s: Snippet| s@);
        if last_id < 0 {
            return None;
        }
        let n = items.len();
        for i in 0..n
            invariant
                n == items@.len(),
                ss == items@.map_values(|s: Snippet| s@),
                0 <= last_id,
                forall|k: int| 0 <= k < i ==> 0 < #[trigger] ss[k].id <= last_id,
                forall|a: int, b: int| 0 <= a < b < i ==> ss[a].id < ss[b].id,
        {
            let id = items[i].id;
            if id <= 0 || id > last_id {
                assert(!(0 < ss[i as int].id <= last_id));
                return None;
            }
            if i > 0 && items[i - 1].id >= id {
                assert(ss[i - 1].id >= ss[i as int].id);
                return None;
            }
        }
        Some(Snippets { items, last_id })
    }

    /// The snippets, in increasing id order.
    pub fn items(&self) -> (res: &Vec<Snippet>)
        ensures
            res@.map_values(|s: Snippet| s@) == self@.items,
    {
        &self.items
    }

    /// The largest id handed out so far.
    pub fn last_id(&self) -> (res: i64)
        ensures
            res == self@.last_id,
    {
        self.last_id
    }

    /// Adds a snippet under the next id and gives that id back; an error,
    /// and nothing changes, when every id has been handed out.
    pub fn add(&mut self, content: String, created_at: i64) -> (res: Result<i64, HistoryError>)
        ensures
            old(self)@.last_id == i64::MAX ==> res == Err::<i64, HistoryError>(HistoryError::IdsExhausted)
                && final(self)@ == old(self)@,
            old(self)@.last_id < i64::MAX ==> (res matches Ok(id) && id == old(self)@.last_id + 1
                && final(self)@.last_id == id && final(self)@.items == old(self)@.items.push(
                SnippetView { id, content: content@, created_at },
            )),
    {
        proof {
            use_type_invariant(&*self);
        }
        if self.last_id == i64::MAX {
            return Err(HistoryError::IdsExhausted);
        }
        let id = self.last_id + 1;
        let ghost ss = self@.items;
        let mut items: Vec<Snippet> = Vec::new();
        std::mem::swap(&mut items, &mut self.items);
        items.push(Snippet { id, content, created_at });
        proof {
            assert(items@.map_values(|s: Snippet| s@) =~= ss.push(SnippetView { id, content: content@, created_at }));
        }
        self.last_id = id;
        self.items = items;
        Ok(id)
    }

    /// Removes the snippet with id `id`, if there is one.
    pub fn delete(&mut self, id: i64)
        ensures
            final(self)@.items == without_snippet(old(self)@.items, id),
            final(self)@.last_id == old(self)@.last_id,
    {
        proof {
            use_type_invariant(&*self);
        }
        let ghost ss = self@.items;
        let ghost pred = |s: SnippetView| s.id != id;
        let mut old_items: Vec<Snippet> = Vec::new();
        std::mem::swap(&mut old_items, &mut self.items);
        let ghost old_seq = old_items@;
        let mut out: Vec<Snippet> = Vec::new();
        for e in it: old_items.into_iter()
            invariant
                it.seq() == old_seq,
                ss == old_seq.map_values(|s: Snippet| s@),
                out@.map_values(|s: Snippet| s@) == ss.take(it.index() as int).filter(pred),
                pred == (|s: SnippetView| s.id != id),
        {
            let ghost i = it.index();
            proof {
                reveal_with_fuel(Seq::filter, 1);
                assert(ss.take(i + 1).drop_last() =~= ss.take(i as int));
                assert(ss.take(i + 1).last() == e@);
            }
            if e.id != id {
                out.push(e);
                assert(out@.map_values(|s: Snippet| s@) =~= ss.take(i as int).filter(pred).push(ss[i as int]));
            }
        }
        proof {
            assert(ss.take(ss.len() as int) =~= ss);
            lemma_snippet_filter_wf(ss, pred, self.last_id);
        }
        self.items = out;
    }

    /// The content of the snippet with id `id`, if there is one.
    pub fn content(&self, id: i64) -> (res: Option<String>)
        ensures
            res is Some <==> exists|k: int| 0 <= k < self@.items.len() && self@.items[k].id == id,
            res matches Some(c) ==> exists|k: int|
                0 <= k < self@.items.len() && self@.items[k].id == id && c@ == self@.items[k].content,
    {
        let n = self.items.len();
        for i in 0..n
            invariant
                n == self.items@.len(),
                forall|k: int| 0 <= k < i ==> self.items@[k].id != id,
        {
            if self.items[i].id == id {
                let c = clone_string(&self.items[i].content);
                assert(self@.items[i as int] == self.items@[i as int]@);
                return Some(c);
            }
        }
        assert forall|k: int| 0 <= k < self@.items.len() implies self@.items[k].id != id by {
            assert(self@.items[k] == self.items@[k]@);
        }
        None
    }

    /// The snippets, newest first.
    pub fn list(&self) -> (res: Vec<Snippet>)
        ensures
            res@.map_values(|s: Snippet| s@) == newest_snippets_first(self@.items),
    {
        let n = self.items.len();
        let mut out: Vec<Snippet> = Vec::new();
        let mut i = n;
        while i > 0
            invariant
                i <= n,
                n == self.items@.len(),
                out@.len() == n - i,
                forall|k: int| 0 <= k < out@.len() ==> #[trigger] out@[k]@ == self.items@[n - 1 - k]@,
            decreases i,
        {
            i = i - 1;
            out.push(clone_snippet(&self.items[i]));
        }
        assert(out@.map_values(|s: Snippet| s@) =~= newest_snippets_first(self@.items));
        out
    }
}

} // verus!
