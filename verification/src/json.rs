//! The JSON form in which a file entry keeps its list of paths.

use vstd::prelude::*;
use crate::encode::hex_digit;
use crate::text::join;

verus! {

/// How `serde_json` writes one character inside a string: `"` and `\` and
/// control characters are escaped, everything else is written as is.
pub open spec fn json_escape(c: char) -> Seq<char> {
    let u = c as u32;
    if c == '"' {
        seq!['\\', '"']
    } else if c == '\\' {
        seq!['\\', '\\']
    } else if u == 0x08 {
        seq!['\\', 'b']
    } else if u == 0x09 {
        seq!['\\', 't']
    } else if u == 0x0A {
        seq!['\\', 'n']
    } else if u == 0x0C {
        seq!['\\', 'f']
    } else if u == 0x0D {
        seq!['\\', 'r']
    } else if u < 0x20 {
        seq!['\\', 'u', '0', '0', hex_digit((u / 16) as int), hex_digit((u % 16) as int)]
    } else {
        seq![c]
    }
}

/// The escaped characters of `s`.
pub open spec fn json_escaped(s: Seq<char>) -> Seq<char>
    decreases s.len(),
{
    if s.len() == 0 {
        Seq::empty()
    } else {
        json_escaped(s.drop_last()) + json_escape(s.last())
    }
}

/// A JSON string literal.
pub open spec fn json_string(s: Seq<char>) -> Seq<char> {
    seq!['"'] + json_escaped(s) + seq!['"']
}

/// A compact JSON array of strings, as `serde_json::to_string` writes a
/// `Vec<String>`.
pub open spec fn json_string_list(items: Seq<Seq<char>>) -> Seq<char> {
    seq!['['] + join(items.map_values(|s: Seq<char>| json_string(s)), seq![',']) + seq![']']
}

/// What `serde_json::from_str::<Vec<String>>` gives for `text`: the strings,
/// or the message of the error it reports.
pub uninterp spec fn json_parse_string_list(text: Seq<char>) -> Result<Seq<Seq<char>>, Seq<char>>;

/// `serde_json::to_string` on a list of strings. Its documentation says
/// serialization fails only when a `Serialize` impl chooses to or a map has
/// non-string keys, neither of which a `Vec<String>` has, so it always
/// succeeds; the text is the compact JSON array of the escaped strings.
#[verifier::external_body]
pub(crate) fn json_encode_string_list(items: &Vec<String>) -> (res: String)
    ensures
        res@ == json_string_list(items@.map_values(|s: String| s@)),
{
    match serde_json::to_string(items) {
        Ok(s) => s,
        Err(_) => String::new(),
    }
}

/// `serde_json::from_str::<Vec<String>>`, with the error turned into its
/// message. The text `serde_json::to_string` writes for a list of strings
/// reads back as that list.
#[verifier::external_body]
pub(crate) fn json_decode_string_list(text: &str) -> (res: Result<Vec<String>, String>)
    ensures
        forall|v: Seq<Seq<char>>| #[trigger] json_string_list(v) == text@ ==> res is Ok && res->Ok_0@.map_values(
            |s: String| s@,
        ) == v,
        match res {
            Ok(v) => json_parse_string_list(text@) == Ok::<Seq<Seq<char>>, Seq<char>>(
                v@.map_values(|s: String| s@),
            ),
            Err(m) => json_parse_string_list(text@) == Err::<Seq<Seq<char>>, Seq<char>>(m@),
        },
{
    match serde_json::from_str::<Vec<String>>(text) {
        Ok(v) => Ok(v),
        Err(e) => Err(e.to_string()),
    }
}

} // verus!
