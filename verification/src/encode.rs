//! Hex, decimal and Base64 renderings of numbers and bytes, and the SHA-256
//! content hash that identifies a captured clipboard entry.

use vstd::prelude::*;
use crate::text::push_char;
use base64::Engine;
use sha2::Digest;

verus! {

/// The lowercase hexadecimal digit for `n` (0 to 15).
pub open spec fn hex_digit(n: int) -> char {
    if n < 10 {
        ('0' as int + n) as char
    } else {
        ('a' as int + n - 10) as char
    }
}

/// Two lowercase hex digits per byte, most significant nibble first
/// (what `{:x}` prints for a byte array).
pub open spec fn hex_lower(s: Seq<u8>) -> Seq<char>
    decreases s.len(),
{
    if s.len() == 0 {
        Seq::empty()
    } else {
        hex_lower(s.drop_last()).push(hex_digit((s.last() / 16) as int)).push(hex_digit((s.last() % 16) as int))
    }
}

/// `x` written with exactly `width` lowercase hex digits (the low `width`
/// digits, zero padded), as `{:0w$x}` prints it when it fits.
pub open spec fn hex_fixed(x: nat, width: nat) -> Seq<char>
    decreases width,
{
    if width == 0 {
        Seq::empty()
    } else {
        hex_fixed(x / 16, (width - 1) as nat).push(hex_digit((x % 16) as int))
    }
}

/// The decimal digit for `n` (0 to 9).
pub open spec fn dec_digit(n: int) -> char {
    ('0' as int + n) as char
}

/// `n` in decimal without leading zeros, as `{}` prints it.
pub open spec fn decimal(n: nat) -> Seq<char>
    decreases n,
{
    if n < 10 {
        seq![dec_digit(n as int)]
    } else {
        decimal(n / 10).push(dec_digit((n % 10) as int))
    }
}

/// A signed integer in decimal, with a leading '-' when negative.
pub open spec fn decimal_signed(n: int) -> Seq<char> {
    if n < 0 {
        seq!['-'] + decimal((-n) as nat)
    } else {
        decimal(n as nat)
    }
}

fn hex_digit_exec(n: u8) -> (c: char)
    requires
        n < 16,
    ensures
        c == hex_digit(n as int),
{
    if n < 10 {
        (48u8 + n) as char
    } else {
        (87u8 + n) as char
    }
}

/// Lowercase hex of a byte sequence, two digits per byte.
pub fn to_hex_lower(data: &[u8]) -> (res: String)
    ensures
        res@ == hex_lower(data@),
{
    let mut res = String::new();
    let n = data.len();
    for i in 0..n
        invariant
            n == data@.len(),
            res@ == hex_lower(data@.take(i as int)),
    {
        let b = data[i];
        proof {
            assert(data@.take(i + 1).drop_last() =~= data@.take(i as int));
        }
        push_char(&mut res, hex_digit_exec(b / 16));
        push_char(&mut res, hex_digit_exec(b % 16));
    }
    proof {
        assert(data@.take(n as int) =~= data@);
    }
    res
}

fn push_hex_fixed(out: &mut String, x: u64, width: u32)
    ensures
        final(out)@ == old(out)@ + hex_fixed(x as nat, width as nat),
    decreases width,
{
    if width == 0 {
        assert(old(out)@ + Seq::<char>::empty() =~= old(out)@);
    } else {
        push_hex_fixed(out, x / 16, width - 1);
        let d = (x % 16) as u8;
        push_char(out, hex_digit_exec(d));
        assert(hex_fixed(x as nat, width as nat) == hex_fixed((x / 16) as nat, (width - 1) as nat).push(
            hex_digit((x % 16) as int),
        ));
        assert(final(out)@ =~= old(out)@ + hex_fixed(x as nat, width as nat));
    }
}

/// A 32-bit value as exactly eight lowercase hex digits (`{:08x}`).
pub fn hex_u32(x: u32) -> (res: String)
    ensures
        res@ == hex_fixed(x as nat, 8),
{
    let mut res = String::new();
    push_hex_fixed(&mut res, x as u64, 8);
    assert(res@ =~= hex_fixed(x as nat, 8));
    res
}

fn push_decimal(out: &mut String, n: u64)
    ensures
        final(out)@ == old(out)@ + decimal(n as nat),
    decreases n,
{
    if n >= 10 {
        push_decimal(out, n / 10);
    }
    let d = (n % 10) as u8;
    push_char(out, (48u8 + d) as char);
    if n >= 10 {
        assert(final(out)@ =~= old(out)@ + decimal(n as nat));
    } else {
        assert(final(out)@ =~= old(out)@ + decimal(n as nat));
    }
}

/// An unsigned integer in decimal (`{}`).
pub fn decimal_u64(n: u64) -> (res: String)
    ensures
        res@ == decimal(n as nat),
{
    let mut res = String::new();
    push_decimal(&mut res, n);
    assert(res@ =~= decimal(n as nat));
    res
}

/// A signed integer in decimal (`{}`).
pub fn decimal_i64(n: i64) -> (res: String)
    ensures
        res@ == decimal_signed(n as int),
{
    let mut res = String::new();
    if n < 0 {
        push_char(&mut res, '-');
        let m: u64 = ((-(n + 1)) as u64) + 1;
        push_decimal(&mut res, m);
        assert(res@ =~= decimal_signed(n as int));
    } else {
        push_decimal(&mut res, n as u64);
        assert(res@ =~= decimal_signed(n as int));
    }
    res
}

/// The character of the standard Base64 alphabet for the 6-bit value `n`.
pub open spec fn base64_char(n: int) -> char {
    if n < 26 {
        ('A' as int + n) as char
    } else if n < 52 {
        ('a' as int + n - 26) as char
    } else if n < 62 {
        ('0' as int + n - 52) as char
    } else if n == 62 {
        '+'
    } else {
        '/'
    }
}

/// Standard Base64 with '=' padding (RFC 4648, section 4): each group of
/// three bytes becomes four characters; a final group of one or two bytes
/// is padded to four characters.
pub open spec fn base64(s: Seq<u8>) -> Seq<char>
    decreases s.len(),
{
    if s.len() == 0 {
        Seq::empty()
    } else {
        let a = s[0] as int;
        let b = if s.len() > 1 { s[1] as int } else { 0 };
        let c = if s.len() > 2 { s[2] as int } else { 0 };
        if s.len() == 1 {
            seq![base64_char(a / 4), base64_char((a % 4) * 16), '=', '=']
        } else if s.len() == 2 {
            seq![base64_char(a / 4), base64_char((a % 4) * 16 + b / 16), base64_char((b % 16) * 4), '=']
        } else {
            seq![
                base64_char(a / 4),
                base64_char((a % 4) * 16 + b / 16),
                base64_char((b % 16) * 4 + c / 64),
                base64_char(c % 64),
            ] + base64(s.skip(3))
        }
    }
}

/// The message of the error that `base64`'s standard engine reports when it
/// refuses `text`.
pub uninterp spec fn base64_decode_error(text: Seq<char>) -> Seq<char>;

/// The SHA-256 digest of `data` (FIPS 180-4).
pub uninterp spec fn sha256(data: Seq<u8>) -> Seq<u8>;

/// `base64::engine::general_purpose::STANDARD.encode`: standard alphabet,
/// with padding.
#[verifier::external_body]
pub(crate) fn base64_encode(data: &[u8]) -> (res: String)
    ensures
        res@ == base64(data@),
{
    base64::engine::general_purpose::STANDARD.encode(data)
}

/// `base64::engine::general_purpose::STANDARD.decode`, with the error turned
/// into its message. The engine requires canonical padding and rejects
/// trailing bits, so it accepts exactly the texts that its `encode` produces,
/// and gives back the bytes they encode.
#[verifier::external_body]
pub(crate) fn base64_decode(text: &str) -> (res: Result<Vec<u8>, String>)
    ensures
        res matches Ok(v) ==> base64(v@) == text@,
        res is Err ==> forall|b: Seq<u8>| #[trigger] base64(b) != text@,
        res matches Err(m) ==> m@ == base64_decode_error(text@),
{
    match base64::engine::general_purpose::STANDARD.decode(text) {
        Ok(v) => Ok(v),
        Err(e) => Err(e.to_string()),
    }
}

/// `sha2::Sha256::digest`: the 32-byte SHA-256 digest of `data`.
#[verifier::external_body]
pub(crate) fn sha256_digest(data: &[u8]) -> (res: Vec<u8>)
    ensures
        res@ == sha256(data@),
        res@.len() == 32,
{
    sha2::Sha256::digest(data).to_vec()
}

/// Base64 text has four characters for every started group of three bytes.
pub proof fn lemma_base64_len(s: Seq<u8>)
    ensures
        base64(s).len() == 4 * ((s.len() + 2) / 3),
    decreases s.len(),
{
    if s.len() >= 3 {
        lemma_base64_len(s.skip(3));
    }
}

/// Different 6-bit values have different Base64 characters, none of them '='.
pub proof fn lemma_base64_char(x: int, y: int)
    requires
        0 <= x < 64,
        0 <= y < 64,
    ensures
        base64_char(x) != '=',
        base64_char(x) == base64_char(y) ==> x == y,
{
}

proof fn lemma_group_inj(a0: int, a1: int, a2: int, b0: int, b1: int, b2: int)
    requires
        0 <= a0 < 256,
        0 <= a1 < 256,
        0 <= a2 < 256,
        0 <= b0 < 256,
        0 <= b1 < 256,
        0 <= b2 < 256,
        a0 / 4 == b0 / 4,
        (a0 % 4) * 16 + a1 / 16 == (b0 % 4) * 16 + b1 / 16,
        (a1 % 16) * 4 + a2 / 64 == (b1 % 16) * 4 + b2 / 64,
        a2 % 64 == b2 % 64,
    ensures
        a0 == b0,
        a1 == b1,
        a2 == b2,
{
    assert(a0 % 4 == b0 % 4 && a1 / 16 == b1 / 16);
    assert(a1 % 16 == b1 % 16 && a2 / 64 == b2 / 64);
}

/// Base64 encoding loses nothing: different byte sequences have different
/// encodings, so an image written to an export file in Base64 is read back
/// as the same bytes.
pub proof fn law_base64_injective(a: Seq<u8>, b: Seq<u8>)
    requires
        base64(a) == base64(b),
    ensures
        a == b,
    decreases a.len(),
{
    lemma_base64_len(a);
    lemma_base64_len(b);
    let ea = base64(a);
    let eb = base64(b);
    if a.len() == 0 || b.len() == 0 {
        assert(a.len() == 0 && b.len() == 0);
        assert(a =~= b);
    } else {
        let a0 = a[0] as int;
        let b0 = b[0] as int;
        let a1 = if a.len() > 1 { a[1] as int } else { 0 };
        let b1 = if b.len() > 1 { b[1] as int } else { 0 };
        let a2 = if a.len() > 2 { a[2] as int } else { 0 };
        let b2 = if b.len() > 2 { b[2] as int } else { 0 };
        lemma_base64_char(a0 / 4, b0 / 4);
        lemma_base64_char((a0 % 4) * 16 + a1 / 16, (b0 % 4) * 16 + b1 / 16);
        lemma_base64_char((a1 % 16) * 4 + a2 / 64, (b1 % 16) * 4 + b2 / 64);
        lemma_base64_char(a2 % 64, b2 % 64);
        lemma_base64_char((a0 % 4) * 16, (b0 % 4) * 16);
        lemma_base64_char((a1 % 16) * 4, (b1 % 16) * 4);
        lemma_base64_char((a0 % 4) * 16, (b0 % 4) * 16 + b1 / 16);
        lemma_base64_char((a0 % 4) * 16 + a1 / 16, (b0 % 4) * 16);
        lemma_base64_char((a1 % 16) * 4, (b1 % 16) * 4 + b2 / 64);
        lemma_base64_char((a1 % 16) * 4 + a2 / 64, (b1 % 16) * 4);
        assert(ea[0] == eb[0] && ea[1] == eb[1] && ea[2] == eb[2] && ea[3] == eb[3]);
        if a.len() >= 3 && b.len() >= 3 {
            lemma_group_inj(a0, a1, a2, b0, b1, b2);
            assert(ea.skip(4) =~= base64(a.skip(3)));
            assert(eb.skip(4) =~= base64(b.skip(3)));
            law_base64_injective(a.skip(3), b.skip(3));
            assert(a =~= b) by {
                assert forall|i: int| 0 <= i < a.len() implies a[i] == b[i] by {
                    if i >= 3 {
                        assert(a.skip(3)[i - 3] == b.skip(3)[i - 3]);
                    }
                }
            }
        } else if a.len() == b.len() {
            if a.len() == 1 {
                assert(a0 / 4 == b0 / 4 && (a0 % 4) * 16 == (b0 % 4) * 16);
                assert(a =~= b);
            } else {
                assert(a0 / 4 == b0 / 4);
                assert((a0 % 4) * 16 + a1 / 16 == (b0 % 4) * 16 + b1 / 16);
                assert((a1 % 16) * 4 == (b1 % 16) * 4);
                assert(a0 == b0 && a1 == b1);
                assert(a =~= b);
            }
        } else {
            assert(false);
        }
    }
}

/// The content hash of a captured entry: its SHA-256 digest in lowercase hex.
pub fn hash_bytes(bytes: &[u8]) -> (res: String)
    ensures
        res@ == hex_lower(sha256(bytes@)),
        res@.len() == 64,
{
    let digest = sha256_digest(bytes);
    let res = to_hex_lower(digest.as_slice());
    proof {
        lemma_hex_lower_len(digest@);
    }
    res
}

/// Hex output has two characters per byte.
pub proof fn lemma_hex_lower_len(s: Seq<u8>)
    ensures
        hex_lower(s).len() == 2 * s.len(),
    decreases s.len(),
{
    if s.len() > 0 {
        lemma_hex_lower_len(s.drop_last());
    }
}

} // verus!
