//! Character-level helpers shared by the rest of the library: Unicode
//! whitespace, ASCII case folding, and small string builders.

use vstd::prelude::*;

verus! {

/// The Unicode `White_Space` property, which `char::is_whitespace` tests.
pub open spec fn is_white_space(c: char) -> bool {
    let u = c as u32;
    ||| 0x09 <= u <= 0x0D
    ||| u == 0x20
    ||| u == 0x85
    ||| u == 0xA0
    ||| u == 0x1680
    ||| 0x2000 <= u <= 0x200A
    ||| u == 0x2028
    ||| u == 0x2029
    ||| u == 0x202F
    ||| u == 0x205F
    ||| u == 0x3000
}

/// Whether `c` has the Unicode `White_Space` property (what
/// `char::is_whitespace` tests).
pub(crate) fn char_is_whitespace(c: char) -> (res: bool)
    ensures
        res == is_white_space(c),
{
    let u = c as u32;
    (0x09 <= u && u <= 0x0D) || u == 0x20 || u == 0x85 || u == 0xA0 || u == 0x1680 || (0x2000 <= u
        && u <= 0x200A) || u == 0x2028 || u == 0x2029 || u == 0x202F || u == 0x205F || u == 0x3000
}

/// `String::push`: appends one character.
#[verifier::external_body]
pub(crate) fn push_char(s: &mut String, c: char)
    ensures
        final(s)@ == old(s)@.push(c),
{
    s.push(c);
}

/// Whether two string slices hold the same characters.
pub(crate) fn str_eq(a: &str, b: &str) -> (res: bool)
    ensures
        res == (a@ == b@),
{
    let x = chars_of(a);
    let y = chars_of(b);
    if x.len() != y.len() {
        return false;
    }
    let n = x.len();
    for i in 0..n
        invariant
            n == x@.len(),
            n == y@.len(),
            x@ == a@,
            y@ == b@,
            forall|k: int| 0 <= k < i ==> x@[k] == y@[k],
    {
        if x[i] != y[i] {
            return false;
        }
    }
    assert(x@ =~= y@);
    true
}

/// The characters of a string slice, in order.
pub fn chars_of(s: &str) -> (res: Vec<char>)
    ensures
        res@ == s@,
{
    let mut out: Vec<char> = Vec::new();
    for c in it: s.chars()
        invariant
            out@ == it.seq().take(it.index() as int),
    {
        out.push(c);
    }
    out
}

/// `items` joined with `sep` between consecutive items.
pub open spec fn join(items: Seq<Seq<char>>, sep: Seq<char>) -> Seq<char>
    decreases items.len(),
{
    if items.len() == 0 {
        Seq::empty()
    } else if items.len() == 1 {
        items[0]
    } else {
        join(items.drop_last(), sep) + sep + items.last()
    }
}

/// The words of `s`: its maximal runs of non-whitespace characters, in order
/// (what `str::split_whitespace` yields).
pub open spec fn words(s: Seq<char>) -> Seq<Seq<char>>
    decreases s.len(),
{
    if s.len() == 0 {
        Seq::empty()
    } else {
        let w = words(s.drop_last());
        let c = s.last();
        if is_white_space(c) {
            w
        } else if s.len() == 1 || is_white_space(s[s.len() - 2]) {
            w.push(seq![c])
        } else {
            w.update(w.len() - 1, w.last().push(c))
        }
    }
}

/// The first `n` characters of `s` (all of them when it is shorter).
pub open spec fn prefix(s: Seq<char>, n: nat) -> Seq<char> {
    if s.len() <= n {
        s
    } else {
        s.take(n as int)
    }
}

/// A text that ends in a non-whitespace character has at least one word.
pub proof fn lemma_words_nonempty(s: Seq<char>)
    requires
        s.len() > 0,
        !is_white_space(s.last()),
    ensures
        words(s).len() > 0,
    decreases s.len(),
{
    if s.len() > 1 && !is_white_space(s[s.len() - 2]) {
        lemma_words_nonempty(s.drop_last());
    }
}

/// Joining one more item.
pub proof fn lemma_join_push(items: Seq<Seq<char>>, x: Seq<char>, sep: Seq<char>)
    ensures
        join(items.push(x), sep) == if items.len() == 0 {
            x
        } else {
            join(items, sep) + sep + x
        },
{
    assert(items.push(x).drop_last() =~= items);
}

/// Extending the last item extends the joined text.
pub proof fn lemma_join_extend_last(items: Seq<Seq<char>>, c: char, sep: Seq<char>)
    requires
        items.len() > 0,
    ensures
        join(items.update(items.len() - 1, items.last().push(c)), sep) == join(items, sep).push(c),
{
    let u = items.update(items.len() - 1, items.last().push(c));
    if items.len() == 1 {
        assert(u[0] == items[0].push(c));
    } else {
        assert(u.drop_last() =~= items.drop_last());
        assert(join(u, sep) =~= join(items, sep).push(c));
    }
}

/// `s` with every run of whitespace between words turned into one space and
/// leading and trailing whitespace removed.
pub fn collapse_whitespace(s: &str) -> (res: String)
    ensures
        res@ == join(words(s@), seq![' ']),
{
    let cs = chars_of(s);
    let n = cs.len();
    let mut out = String::new();
    let mut prev_space = true;
    let mut have_word = false;
    for i in 0..n
        invariant
            n == cs@.len(),
            cs@ == s@,
            out@ == join(words(cs@.take(i as int)), seq![' ']),
            prev_space == (i == 0 || is_white_space(cs@[i - 1])),
            have_word == (words(cs@.take(i as int)).len() > 0),
    {
        let c = cs[i];
        let ghost pre = cs@.take(i as int);
        let ghost cur = cs@.take(i + 1);
        proof {
            assert(cur.drop_last() =~= pre);
            assert(cur.last() == c);
            if i > 0 {
                assert(cur[cur.len() - 2] == cs@[i - 1]);
            }
        }
        if char_is_whitespace(c) {
            prev_space = true;
        } else {
            if prev_space {
                proof {
                    lemma_join_push(words(pre), seq![c], seq![' ']);
                }
                if have_word {
                    push_char(&mut out, ' ');
                }
                push_char(&mut out, c);
                proof {
                    if words(pre).len() == 0 {
                        assert(out@ =~= seq![c]);
                    } else {
                        assert(out@ =~= join(words(pre), seq![' ']) + seq![' '] + seq![c]);
                    }
                }
            } else {
                proof {
                    lemma_words_nonempty(pre);
                    lemma_join_extend_last(words(pre), c, seq![' ']);
                }
                push_char(&mut out, c);
            }
            prev_space = false;
            have_word = true;
        }
    }
    proof {
        assert(cs@.take(n as int) =~= cs@);
    }
    out
}

/// Appends every character of `t`.
pub fn push_str(s: &mut String, t: &str)
    ensures
        final(s)@ == old(s)@ + t@,
{
    let cs = chars_of(t);
    let n = cs.len();
    for i in 0..n
        invariant
            n == cs@.len(),
            cs@ == t@,
            s@ == old(s)@ + cs@.take(i as int),
    {
        push_char(s, cs[i]);
        assert(cs@.take(i + 1) =~= cs@.take(i as int).push(cs@[i as int]));
    }
    assert(cs@.take(n as int) =~= cs@);
}

/// The first `n` characters of `s` (all of them when it is shorter).
pub fn take_chars(s: &str, n: usize) -> (res: String)
    ensures
        res@ == prefix(s@, n as nat),
{
    let cs = chars_of(s);
    let len = cs.len();
    let stop = if len <= n { len } else { n };
    let mut out = String::new();
    for i in 0..stop
        invariant
            stop <= cs@.len(),
            cs@ == s@,
            out@ == cs@.take(i as int),
    {
        push_char(&mut out, cs[i]);
        assert(cs@.take(i + 1) =~= cs@.take(i as int).push(cs@[i as int]));
    }
    assert(out@ =~= prefix(s@, n as nat));
    out
}

/// The items joined with `sep` between consecutive ones.
pub fn join_strings(items: &Vec<String>, sep: &str) -> (res: String)
    ensures
        res@ == join(items@.map_values(|x: String| x@), sep@),
{
    let ghost all = items@.map_values(|x: String| x@);
    let mut out = String::new();
    let n = items.len();
    for i in 0..n
        invariant
            n == items@.len(),
            all == items@.map_values(|x: String| x@),
            out@ == join(all.take(i as int), sep@),
    {
        proof {
            lemma_join_push(all.take(i as int), items@[i as int]@, sep@);
            assert(all.take(i + 1) =~= all.take(i as int).push(items@[i as int]@));
        }
        if i > 0 {
            push_str(&mut out, sep);
        }
        push_str(&mut out, items[i].as_str());
    }
    assert(all.take(n as int) =~= all);
    out
}

/// Whether every character of `cs` is whitespace.
pub fn blank_chars(cs: &Vec<char>) -> (res: bool)
    ensures
        res == (forall|i: int| 0 <= i < cs@.len() ==> is_white_space(#[trigger] cs@[i])),
{
    let n = cs.len();
    for i in 0..n
        invariant
            n == cs@.len(),
            forall|k: int| 0 <= k < i ==> is_white_space(#[trigger] cs@[k]),
    {
        if !char_is_whitespace(cs[i]) {
            return false;
        }
    }
    true
}

} // verus!
