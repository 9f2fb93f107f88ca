//! `file://` URLs from the pasteboard: prefix removal and percent-decoding.

use vstd::prelude::*;
use crate::formats::string_from_chars;

verus! {

/// Value of an ASCII hexadecimal digit.
pub open spec fn spec_hex_digit(b: u8) -> Option<u8> {
    if 48 <= b <= 57 {
        Some((b - 48) as u8)
    } else if 97 <= b <= 102 {
        Some((b - 97 + 10) as u8)
    } else if 65 <= b <= 70 {
        Some((b - 65 + 10) as u8)
    } else {
        None
    }
}

/// Value of an ASCII hexadecimal digit.
pub fn hex_digit(b: u8) -> (r: Option<u8>)
    ensures
        r == spec_hex_digit(b),
{
    if b >= 48 && b <= 57 {
        Some(b - 48)
    } else if b >= 97 && b <= 102 {
        Some(b - 97 + 10)
    } else if b >= 65 && b <= 70 {
        Some(b - 65 + 10)
    } else {
        None
    }
}

/// The character with the value of a byte (Latin-1).
pub open spec fn byte_char(b: u8) -> char {
    (b as u32) as char
}

/// Percent-decoding of `bytes` from index `i`: `%` and two hexadecimal
/// digits (with a byte after them) give the byte they spell; every other
/// byte stands for itself. Each byte becomes the character of that value.
pub open spec fn percent_decode_from(bytes: Seq<u8>, i: nat) -> Seq<char>
    decreases bytes.len() - i,
{
    if i >= bytes.len() {
        seq![]
    } else if bytes[i as int] == 37 && i + 2 < bytes.len() && spec_hex_digit(bytes[(i + 1) as int]) is Some
        && spec_hex_digit(bytes[(i + 2) as int]) is Some {
        seq![byte_char(
            (spec_hex_digit(bytes[(i + 1) as int])->0 * 16 + spec_hex_digit(bytes[(i + 2) as int])->0) as u8,
        )] + percent_decode_from(bytes, i + 3)
    } else {
        seq![byte_char(bytes[i as int])] + percent_decode_from(bytes, i + 1)
    }
}

/// The character for a byte.
fn char_of_byte(b: u8) -> (c: char)
    ensures
        c == byte_char(b),
{
    let c = b as char;
    proof {
        assert(c as u32 == b as u32);
        vstd::utf8::char_u32_cast(c, b as u32);
    }
    c
}

/// Percent-decode the UTF-8 bytes of `s`.
pub fn percent_decode(s: &str) -> (out: String)
    ensures
        out@ == percent_decode_from(vstd::utf8::encode_utf8(s@), 0),
{
    let bytes = s.as_bytes();
    let n = bytes.len();
    let mut out: Vec<char> = Vec::new();
    let mut i: usize = 0;
    while i < n
        invariant
            n == bytes@.len(),
            i <= n,
            percent_decode_from(bytes@, 0) == out@ + percent_decode_from(bytes@, i as nat),
        decreases n - i,
    {
        if bytes[i] == 37 && n - i > 2 {
            match (hex_digit(bytes[i + 1]), hex_digit(bytes[i + 2])) {
                (Some(h), Some(l)) => {
                    let c = char_of_byte(h * 16 + l);
                    assert(out@ + percent_decode_from(bytes@, i as nat) =~= out@.push(c)
                        + percent_decode_from(bytes@, (i + 3) as nat));
                    out.push(c);
                    i = i + 3;
                    continue;
                },
                _ => {},
            }
        }
        let c = char_of_byte(bytes[i]);
        assert(out@ + percent_decode_from(bytes@, i as nat) =~= out@.push(c) + percent_decode_from(
            bytes@,
            (i + 1) as nat,
        ));
        out.push(c);
        i = i + 1;
    }
    assert(out@ + Seq::<char>::empty() =~= out@);
    let r = string_from_chars(&out, out.len());
    assert(out@.take(out@.len() as int) =~= out@);
    r
}

/// The path of a `file://` URL, percent-decoded; `None` for other URLs.
pub fn file_url_str_to_path(url: &str) -> (r: Option<String>)
    ensures
        ({
            let b = vstd::utf8::encode_utf8(url@);
            let prefix = "file://"@;
            if url@.len() >= 7 && url@.take(7) == prefix {
                r matches Some(p) && p@ == percent_decode_from(b, 7)
            } else {
                r is None
            }
        }),
{
    proof {
        reveal_strlit("file://");
    }
    let bytes = url.as_bytes();
    let cs = crate::formats::chars_of(url);
    let prefix = crate::formats::chars_of("file://");
    assert(prefix@.len() == 7);
    if cs.len() < 7 {
        return None;
    }
    assert(cs@.subrange(0, 7).take(7) =~= url@.take(7));
    if !crate::text::range_starts_with(&cs, 0, 7, &prefix) {
        return None;
    }
    assert(url@.take(7) == "file://"@);
    proof {
        lemma_ascii_prefix_bytes(url@);
    }
    let rest = decode_from(bytes, 7);
    Some(rest)
}

/// The UTF-8 bytes of text starting with `file://` start with its seven
/// ASCII bytes.
proof fn lemma_ascii_prefix_bytes(s: Seq<char>)
    requires
        s.len() >= 7,
        s.take(7) == "file://"@,
    ensures
        vstd::utf8::encode_utf8(s).len() >= 7,
{
    reveal_strlit("file://");
    let p = s.take(7);
    let q = s.skip(7);
    assert(s =~= p + q);
    crate::html::lemma_encode_utf8_concat(p, q);
    vstd::utf8::is_ascii_chars_encode_utf8(p);
}

/// Percent-decoding of `bytes` from `start`.
fn decode_from(bytes: &[u8], start: usize) -> (out: String)
    requires
        start <= bytes@.len(),
    ensures
        out@ == percent_decode_from(bytes@, start as nat),
{
    let n = bytes.len();
    let mut out: Vec<char> = Vec::new();
    let mut i: usize = start;
    assert(out@ + percent_decode_from(bytes@, start as nat) =~= percent_decode_from(bytes@, start as nat));
    while i < n
        invariant
            n == bytes@.len(),
            start <= i <= n,
            percent_decode_from(bytes@, start as nat) == out@ + percent_decode_from(bytes@, i as nat),
        decreases n - i,
    {
        if bytes[i] == 37 && n - i > 2 {
            match (hex_digit(bytes[i + 1]), hex_digit(bytes[i + 2])) {
                (Some(h), Some(l)) => {
                    let c = char_of_byte(h * 16 + l);
                    assert(out@ + percent_decode_from(bytes@, i as nat) =~= out@.push(c)
                        + percent_decode_from(bytes@, (i + 3) as nat));
                    out.push(c);
                    i = i + 3;
                    continue;
                },
                _ => {},
            }
        }
        let c = char_of_byte(bytes[i]);
        assert(out@ + percent_decode_from(bytes@, i as nat) =~= out@.push(c) + percent_decode_from(
            bytes@,
            (i + 1) as nat,
        ));
        out.push(c);
        i = i + 1;
    }
    assert(out@ + Seq::<char>::empty() =~= out@);
    let r = string_from_chars(&out, out.len());
    assert(out@.take(out@.len() as int) =~= out@);
    r
}

} // verus!
