//! The stored settings: how their text is read back as numbers, and the
//! value each setting has when nothing (or nothing readable) is stored.

use vstd::prelude::*;
use crate::history::MAX_UNPINNED_ENTRIES;
use crate::text::chars_of;

verus! {

/// Whether every character is an ASCII digit.
pub open spec fn all_digits(s: Seq<char>) -> bool {
    forall|i: int| 0 <= i < s.len() ==> '0' <= #[trigger] s[i] <= '9'
}

/// The number the ASCII digits `s` write in base 10.
pub open spec fn digits_value(s: Seq<char>) -> int
    decreases s.len(),
{
    if s.len() == 0 {
        0
    } else {
        digits_value(s.drop_last()) * 10 + (s.last() as int - '0' as int)
    }
}

/// What `i64::from_str` reads from `s`: an optional '+' or '-', then one or
/// more ASCII digits, whose value fits in an `i64`; `None` otherwise.
pub open spec fn parsed_i64(s: Seq<char>) -> Option<i64> {
    let neg = s.len() > 0 && s[0] == '-';
    let digits = if s.len() > 0 && (s[0] == '-' || s[0] == '+') {
        s.drop_first()
    } else {
        s
    };
    let v = if neg {
        -digits_value(digits)
    } else {
        digits_value(digits)
    };
    if digits.len() == 0 || !all_digits(digits) || v < i64::MIN || v > i64::MAX {
        None
    } else {
        Some(v as i64)
    }
}

/// `parsed_i64` spelled out by cases on the sign.
proof fn lemma_parsed_parts(s: Seq<char>)
    ensures
        ({
            let digits = if s.len() > 0 && (s[0] == '-' || s[0] == '+') {
                s.drop_first()
            } else {
                s
            };
            let v = if s.len() > 0 && s[0] == '-' {
                -digits_value(digits)
            } else {
                digits_value(digits)
            };
            &&& (digits.len() == 0 || !all_digits(digits) || v < i64::MIN || v > i64::MAX) ==> parsed_i64(s) is None
            &&& !(digits.len() == 0 || !all_digits(digits) || v < i64::MIN || v > i64::MAX) ==> parsed_i64(s)
                == Some(v as i64)
        }),
{
}

/// A longer run of digits is worth at least as much as its start.
proof fn lemma_digits_value_grows(s: Seq<char>, k: int)
    requires
        all_digits(s),
        0 <= k <= s.len(),
    ensures
        0 <= digits_value(s.take(k)) <= digits_value(s),
    decreases s.len() - k,
{
    if k < s.len() {
        lemma_digits_value_grows(s, k + 1);
        assert(s.take(k + 1).drop_last() =~= s.take(k));
        assert(all_digits(s.take(k + 1)));
    } else {
        assert(s.take(k) =~= s);
        lemma_digits_value_nonneg(s);
    }
}

/// ASCII digits are worth zero or more.
proof fn lemma_digits_value_nonneg(s: Seq<char>)
    requires
        all_digits(s),
    ensures
        digits_value(s) >= 0,
    decreases s.len(),
{
    if s.len() > 0 {
        assert(all_digits(s.drop_last()));
        lemma_digits_value_nonneg(s.drop_last());
    }
}

/// Reads a whole number as `str::parse::<i64>` does.
pub fn parse_i64(text: &str) -> (res: Option<i64>)
    ensures
        res == parsed_i64(text@),
{
    let cs = chars_of(text);
    let n = cs.len();
    let neg = n > 0 && cs[0] == '-';
    let start: usize = if n > 0 && (cs[0] == '-' || cs[0] == '+') {
        1
    } else {
        0
    };
    let ghost digits = if cs@.len() > 0 && (cs@[0] == '-' || cs@[0] == '+') {
        cs@.drop_first()
    } else {
        cs@
    };
    assert(digits =~= cs@.skip(start as int));
    if start == n {
        proof {
            lemma_parsed_parts(text@);
        }
        return None;
    }
    let mut value: i128 = 0;
    let mut i = start;
    while i < n
        invariant
            start <= i <= n,
            n == cs@.len(),
            cs@ == text@,
            digits =~= cs@.skip(start as int),
            digits == (if cs@.len() > 0 && (cs@[0] == '-' || cs@[0] == '+') {
                cs@.drop_first()
            } else {
                cs@
            }),
            neg == (cs@.len() > 0 && cs@[0] == '-'),
            all_digits(digits.take(i - start)),
            value == digits_value(digits.take(i - start)),
            0 <= value <= 0x8000_0000_0000_0000,
        decreases n - i,
    {
        let c = cs[i];
        if c < '0' || c > '9' {
            assert(!all_digits(digits)) by {
                assert(digits[i - start] == c);
            }
            proof {
                lemma_parsed_parts(text@);
            }
            return None;
        }
        let d = (c as u32 - '0' as u32) as i128;
        let next = value * 10 + d;
        proof {
            let t = digits.take(i - start + 1);
            assert(t.drop_last() =~= digits.take(i - start));
            assert(t.last() == c);
            assert(all_digits(t)) by {
                assert forall|j: int| 0 <= j < t.len() implies '0' <= #[trigger] t[j] <= '9' by {
                    if j < t.len() - 1 {
                        assert(t[j] == digits.take(i - start)[j]);
                    }
                }
            }
        }
        if next > 0x8000_0000_0000_0000 {
            proof {
                let t = digits.take(i - start + 1);
                if all_digits(digits) {
                    lemma_digits_value_grows(digits, i - start + 1);
                }
                assert(digits_value(t) == next);
                lemma_parsed_parts(text@);
            }
            return None;
        }
        value = next;
        i = i + 1;
    }
    proof {
        assert(digits.take(n - start) =~= digits);
        lemma_parsed_parts(text@);
    }
    if neg {
        Some((0 - value) as i64)
    } else if value > 0x7fff_ffff_ffff_ffff {
        None
    } else {
        Some(value as i64)
    }
}

/// The global hotkey used when none is stored.
pub open spec fn default_hotkey() -> Seq<char> {
    "Ctrl+Shift+V"@
}

/// The interface language used when none is stored.
pub open spec fn default_language() -> Seq<char> {
    "it"@
}

/// The stored number, or `default` when none is stored or it does not read
/// as a whole number.
pub open spec fn number_or(stored: Option<Seq<char>>, default: i64) -> i64 {
    match stored {
        Some(t) => match parsed_i64(t) {
            Some(v) => v,
            None => default,
        },
        None => default,
    }
}

fn stored_number(stored: Option<&str>, default: i64) -> (res: i64)
    ensures
        res == number_or(
            match stored {
                Some(t) => Some(t@),
                None => None,
            },
            default,
        ),
{
    match stored {
        Some(t) => match parse_i64(t) {
            Some(v) => v,
            None => default,
        },
        None => default,
    }
}

/// The stored history length; `MAX_UNPINNED_ENTRIES` by default.
pub fn max_history_setting(stored: Option<&str>) -> (res: i64)
    ensures
        res == number_or(
            match stored {
                Some(t) => Some(t@),
                None => None,
            },
            MAX_UNPINNED_ENTRIES,
        ),
{
    stored_number(stored, MAX_UNPINNED_ENTRIES)
}

/// The stored size limit in KiB, or the stored age limit in days; 0 (no
/// limit) by default.
pub fn limit_setting(stored: Option<&str>) -> (res: i64)
    ensures
        res == number_or(
            match stored {
                Some(t) => Some(t@),
                None => None,
            },
            0,
        ),
{
    stored_number(stored, 0)
}

/// The stored hotkey, or `default_hotkey()`.
pub fn hotkey_setting(stored: Option<String>) -> (res: String)
    ensures
        res@ == match stored {
            Some(t) => t@,
            None => default_hotkey(),
        },
{
    match stored {
        Some(t) => t,
        None => "Ctrl+Shift+V".to_owned(),
    }
}

/// The stored interface language, or `default_language()`.
pub fn language_setting(stored: Option<String>) -> (res: String)
    ensures
        res@ == match stored {
            Some(t) => t@,
            None => default_language(),
        },
{
    match stored {
        Some(t) => t,
        None => "it".to_owned(),
    }
}

} // verus!
