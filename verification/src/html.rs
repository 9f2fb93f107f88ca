//! The Windows "HTML Format" clipboard envelope: a `Version:` header with
//! ten-digit byte offsets, then the fragment between start and end markers.

use vstd::prelude::*;
use vstd::utf8::{decode_utf8, encode_utf8, valid_utf8};
use crate::formats::{chars_of, string_from_chars};
use crate::text::{
    pad10, parse_usize, push_pad10, range_starts_with, starts_with, trim, trim_range,
    parse_usize_range,
};

verus! {

/// Byte length of the header with ten-digit offsets.
pub const HTML_HEADER_LEN: u64 = 105;

/// Byte length of the markup before the fragment.
pub const HTML_PREFIX_LEN: u64 = 34;

/// Byte length of the markup after the fragment.
pub const HTML_SUFFIX_LEN: u64 = 34;

/// Markup before the fragment.
pub open spec fn html_prefix() -> Seq<char> {
    "<html><body>\r\n<!--StartFragment-->"@
}

/// Markup after the fragment.
pub open spec fn html_suffix() -> Seq<char> {
    "<!--EndFragment-->\r\n</body></html>"@
}

/// The header naming the four byte offsets.
pub open spec fn html_header(start_html: nat, end_html: nat, start_fragment: nat, end_fragment: nat) -> Seq<char> {
    "Version:0.9"@ + "\r\n"@ + "StartHTML:"@ + pad10(start_html) + "\r\n"@ + "EndHTML:"@ + pad10(
        end_html,
    ) + "\r\n"@ + "StartFragment:"@ + pad10(start_fragment) + "\r\n"@ + "EndFragment:"@ + pad10(
        end_fragment,
    ) + "\r\n"@
}

/// Byte offset where the fragment starts.
pub open spec fn fragment_start() -> nat {
    (HTML_HEADER_LEN + HTML_PREFIX_LEN) as nat
}

/// Byte offset where the fragment of `h` ends.
pub open spec fn fragment_end(h: Seq<char>) -> nat {
    fragment_start() + encode_utf8(h).len()
}

/// The envelope around fragment `h`, as text.
pub open spec fn html_envelope(h: Seq<char>) -> Seq<char> {
    html_header(
        HTML_HEADER_LEN as nat,
        fragment_end(h) + HTML_SUFFIX_LEN as nat,
        fragment_start(),
        fragment_end(h),
    ) + html_prefix() + h + html_suffix()
}

/// Index of the first line feed in `s`, or its length.
pub open spec fn first_newline(s: Seq<char>) -> nat
    decreases s.len(),
{
    if s.len() == 0 {
        0
    } else if s[0] == '\n' {
        0
    } else {
        1 + first_newline(s.drop_first())
    }
}

/// Field values after reading one header line.
pub open spec fn apply_field_line(line: Seq<char>, st: Option<usize>, en: Option<usize>) -> (
    Option<usize>,
    Option<usize>,
) {
    if starts_with(line, "StartFragment:"@) {
        (parse_usize(trim(line.skip("StartFragment:"@.len() as int))), en)
    } else if starts_with(line, "EndFragment:"@) {
        (st, parse_usize(trim(line.skip("EndFragment:"@.len() as int))))
    } else {
        (st, en)
    }
}

pub proof fn lemma_first_newline_bound(s: Seq<char>)
    ensures
        first_newline(s) <= s.len(),
        first_newline(s) < s.len() ==> s[first_newline(s) as int] == '\n',
        forall|k: int| 0 <= k < first_newline(s) ==> s[k] != '\n',
    decreases s.len(),
{
    if s.len() > 0 && s[0] != '\n' {
        lemma_first_newline_bound(s.drop_first());
        assert forall|k: int| 0 <= k < first_newline(s) implies s[k] != '\n' by {
            if k > 0 {
                assert(s[k] == s.drop_first()[k - 1]);
            }
        }
    }
}

/// The last `StartFragment:` and `EndFragment:` values of the lines of `text`,
/// starting from `st` and `en`.
pub open spec fn scan_fragment_fields(text: Seq<char>, st: Option<usize>, en: Option<usize>) -> (
    Option<usize>,
    Option<usize>,
)
    decreases text.len(),
{
    if text.len() == 0 {
        (st, en)
    } else {
        let e = first_newline(text);
        let r = apply_field_line(text.take(e as int), st, en);
        if e < text.len() {
            proof {
                lemma_first_newline_bound(text);
            }
            scan_fragment_fields(text.skip(e + 1 as int), r.0, r.1)
        } else {
            r
        }
    }
}

/// What `String::from_utf8_lossy` makes of `bytes`: their decoding, with
/// each invalid sequence replaced by U+FFFD.
pub uninterp spec fn utf8_lossy(bytes: Seq<u8>) -> Seq<char>;

/// `String::from_utf8_lossy` of `bytes`: their decoding when they are valid
/// UTF-8.
pub open spec fn lossy_text(bytes: Seq<u8>) -> Seq<char> {
    if valid_utf8(bytes) {
        decode_utf8(bytes)
    } else {
        utf8_lossy(bytes)
    }
}

/// The fragment named by an "HTML Format" payload.
pub open spec fn spec_unwrap_html_format(data: Seq<u8>) -> Option<Seq<char>> {
    if !valid_utf8(data) {
        None
    } else if !starts_with(decode_utf8(data), "Version:"@) {
        None
    } else {
        let (st, en) = scan_fragment_fields(decode_utf8(data), None, None);
        match (st, en) {
            (Some(s), Some(e)) => if s <= e && e <= data.len() {
                Some(lossy_text(data.subrange(s as int, e as int)))
            } else {
                None
            },
            _ => None,
        }
    }
}

// ---------------------------------------------------------------------------
// Trusted std conversions
// ---------------------------------------------------------------------------

/// `std::str::from_utf8`: a string slice exactly when the bytes are valid
/// UTF-8; its characters are their decoding.
#[verifier::external_body]
fn str_from_utf8(data: &[u8]) -> (r: Option<&str>)
    ensures
        r is Some <==> valid_utf8(data@),
        r matches Some(t) ==> t@ == decode_utf8(data@),
{
    std::str::from_utf8(data).ok()
}

/// `String::from_utf8_lossy`, owned. Its result is named by `utf8_lossy`;
/// on valid UTF-8 it is the plain decoding.
#[verifier::external_body]
fn utf8_lossy_string(bytes: &[u8]) -> (s: String)
    ensures
        s@ == utf8_lossy(bytes@),
        valid_utf8(bytes@) ==> s@ == decode_utf8(bytes@),
{
    String::from_utf8_lossy(bytes).into_owned()
}

// ---------------------------------------------------------------------------
// Wrapping
// ---------------------------------------------------------------------------

/// Appends the characters of `s`.
fn append_str(out: &mut Vec<char>, s: &str)
    ensures
        final(out)@ == old(out)@ + s@,
{
    let cs = chars_of(s);
    let ghost start = out@;
    let mut i: usize = 0;
    while i < cs.len()
        invariant
            i <= cs@.len(),
            out@ == start + cs@.take(i as int),
        decreases cs.len() - i,
    {
        out.push(cs[i]);
        assert(out@ =~= start + cs@.take(i + 1));
        i = i + 1;
    }
    assert(cs@.take(cs@.len() as int) =~= cs@);
}

/// Wrap `html` in the "HTML Format" envelope, with ten-digit byte offsets.
pub fn wrap_html_format(html: &str) -> (bytes: Vec<u8>)
    ensures
        bytes@ == encode_utf8(html_envelope(html@)),
{
    let hb: u128 = html.as_bytes().len() as u128;
    let start_html: u128 = HTML_HEADER_LEN as u128;
    let start_fragment: u128 = (HTML_HEADER_LEN + HTML_PREFIX_LEN) as u128;
    let end_fragment: u128 = start_fragment + hb;
    let end_html: u128 = end_fragment + HTML_SUFFIX_LEN as u128;
    let mut w: Vec<char> = Vec::new();
    append_str(&mut w, "Version:0.9");
    append_str(&mut w, "\r\n");
    append_str(&mut w, "StartHTML:");
    push_pad10(&mut w, start_html);
    append_str(&mut w, "\r\n");
    append_str(&mut w, "EndHTML:");
    push_pad10(&mut w, end_html);
    append_str(&mut w, "\r\n");
    append_str(&mut w, "StartFragment:");
    push_pad10(&mut w, start_fragment);
    append_str(&mut w, "\r\n");
    append_str(&mut w, "EndFragment:");
    push_pad10(&mut w, end_fragment);
    append_str(&mut w, "\r\n");
    append_str(&mut w, "<html><body>\r\n<!--StartFragment-->");
    append_str(&mut w, html);
    append_str(&mut w, "<!--EndFragment-->\r\n</body></html>");
    assert(hb == encode_utf8(html@).len());
    assert(end_fragment as nat == fragment_end(html@));
    assert(end_html as nat == fragment_end(html@) + HTML_SUFFIX_LEN as nat);
    assert(start_fragment as nat == fragment_start());
    assert(w@ =~= html_envelope(html@));
    let s = string_from_chars(&w, w.len());
    assert(w@.take(w@.len() as int) =~= w@);
    let b = s.as_str().as_bytes();
    vstd::slice::slice_to_vec(b)
}

// ---------------------------------------------------------------------------
// Unwrapping
// ---------------------------------------------------------------------------

/// `StartFragment:` and `EndFragment:` values of the lines of `cs`.
fn scan_fields(cs: &Vec<char>) -> (r: (Option<usize>, Option<usize>))
    ensures
        r == scan_fragment_fields(cs@, None, None),
{
    let sf = chars_of("StartFragment:");
    let ef = chars_of("EndFragment:");
    let n = cs.len();
    let mut p: usize = 0;
    let mut st: Option<usize> = None;
    let mut en: Option<usize> = None;
    assert(cs@.skip(0) =~= cs@);
    while p < n
        invariant
            n == cs@.len(),
            p <= n,
            sf@ == "StartFragment:"@,
            ef@ == "EndFragment:"@,
            scan_fragment_fields(cs@, None, None) == scan_fragment_fields(cs@.skip(p as int), st, en),
        decreases n - p,
    {
        let mut e: usize = p;
        while e < n && cs[e] != '\n'
            invariant
                p <= e <= n,
                n == cs@.len(),
                forall|k: int| p <= k < e ==> cs@[k] != '\n',
            decreases n - e,
        {
            e = e + 1;
        }
        let ghost t = cs@.skip(p as int);
        proof {
            lemma_first_newline_at(t, (e - p) as nat);
            assert(t.take((e - p) as int) =~= cs@.subrange(p as int, e as int));
        }
        if range_starts_with(cs, p, e, &sf) {
            let (a, b) = trim_range(cs, p + sf.len(), e);
            assert(cs@.subrange(p as int, e as int).skip(sf@.len() as int) =~= cs@.subrange(
                p + sf@.len(),
                e as int,
            ));
            st = parse_usize_range(cs, a, b);
        } else if range_starts_with(cs, p, e, &ef) {
            let (a, b) = trim_range(cs, p + ef.len(), e);
            assert(cs@.subrange(p as int, e as int).skip(ef@.len() as int) =~= cs@.subrange(
                p + ef@.len(),
                e as int,
            ));
            en = parse_usize_range(cs, a, b);
        }
        if e < n {
            assert(t.skip((e - p) + 1) =~= cs@.skip(e + 1));
            p = e + 1;
        } else {
            assert(cs@.skip(n as int) =~= Seq::<char>::empty());
            p = n;
        }
    }
    (st, en)
}

/// `first_newline` is the index of the first line feed.
pub proof fn lemma_first_newline_at(s: Seq<char>, e: nat)
    requires
        e <= s.len(),
        e < s.len() ==> s[e as int] == '\n',
        forall|k: int| 0 <= k < e ==> s[k] != '\n',
    ensures
        first_newline(s) == e,
    decreases e,
{
    if e > 0 {
        assert forall|k: int| 0 <= k < e - 1 implies s.drop_first()[k] != '\n' by {
            assert(s.drop_first()[k] == s[k + 1]);
        }
        lemma_first_newline_at(s.drop_first(), (e - 1) as nat);
    }
}

/// Extract the fragment from an "HTML Format" payload: `None` unless the
/// payload is UTF-8, starts with `Version:`, and names a `StartFragment` no
/// later than its `EndFragment`, which lies within the payload.
pub fn unwrap_html_format(data: &[u8]) -> (r: Option<String>)
    ensures
        match r {
            Some(s) => spec_unwrap_html_format(data@) == Some(s@),
            None => spec_unwrap_html_format(data@) is None,
        },
{
    let text = match str_from_utf8(data) {
        Some(t) => t,
        None => {
            return None;
        },
    };
    let cs = chars_of(text);
    let version = chars_of("Version:");
    if !range_starts_with(&cs, 0, cs.len(), &version) {
        assert(cs@.subrange(0, cs@.len() as int) =~= cs@);
        return None;
    }
    assert(cs@.subrange(0, cs@.len() as int) =~= cs@);
    let (st, en) = scan_fields(&cs);
    let start = match st {
        Some(s) => s,
        None => {
            return None;
        },
    };
    let end = match en {
        Some(e) => e,
        None => {
            return None;
        },
    };
    if start > end || end > data.len() {
        return None;
    }
    let fragment = vstd::slice::slice_subrange(data, start, end);
    Some(utf8_lossy_string(fragment))
}

// ---------------------------------------------------------------------------
// Round trip
// ---------------------------------------------------------------------------

/// A line of `t`, other than its first, opens with a fragment-offset field
/// name.
pub open spec fn has_field_line(t: Seq<char>) -> bool {
    exists|p: int|
        0 < p < t.len() && t[p - 1] == '\n' && (starts_with(t.skip(p), "StartFragment:"@)
            || starts_with(t.skip(p), "EndFragment:"@))
}

/// `s` opens with a fragment-offset field name.
pub open spec fn opens_field(s: Seq<char>) -> bool {
    starts_with(s, "StartFragment:"@) || starts_with(s, "EndFragment:"@)
}

/// UTF-8 encoding distributes over concatenation.
pub proof fn lemma_encode_utf8_concat(a: Seq<char>, b: Seq<char>)
    ensures
        encode_utf8(a + b) == encode_utf8(a) + encode_utf8(b),
    decreases a.len(),
{
    if a.len() == 0 {
        assert(a + b =~= b);
        assert(encode_utf8(a) + encode_utf8(b) =~= encode_utf8(b));
    } else {
        assert((a + b).drop_first() =~= a.drop_first() + b);
        assert((a + b)[0] == a[0]);
        lemma_encode_utf8_concat(a.drop_first(), b);
        assert(encode_utf8(a + b) =~= encode_scalar_of(a[0]) + (encode_utf8(a.drop_first())
            + encode_utf8(b)));
    }
}

/// UTF-8 bytes of one character.
pub open spec fn encode_scalar_of(c: char) -> Seq<u8> {
    vstd::utf8::encode_scalar(c as u32)
}

/// Reading one line and its line feed.
proof fn lemma_scan_line(line: Seq<char>, rest: Seq<char>, st: Option<usize>, en: Option<usize>)
    requires
        !line.contains('\n'),
    ensures
        scan_fragment_fields(line + seq!['\n'] + rest, st, en) == scan_fragment_fields(
            rest,
            apply_field_line(line, st, en).0,
            apply_field_line(line, st, en).1,
        ),
{
    let t = line + seq!['\n'] + rest;
    assert forall|k: int| 0 <= k < line.len() implies t[k] != '\n' by {
        assert(t[k] == line[k]);
    }
    lemma_first_newline_at(t, line.len());
    assert(t.take(line.len() as int) =~= line);
    assert(t.skip(line.len() + 1 as int) =~= rest);
}

/// Lines that open no field leave the field values alone.
proof fn lemma_scan_no_fields(t: Seq<char>, st: Option<usize>, en: Option<usize>)
    requires
        forall|p: int|
            0 <= p < t.len() && (p == 0 || t[p - 1] == '\n') ==> !opens_field(#[trigger] t.skip(p)),
    ensures
        scan_fragment_fields(t, st, en) == (st, en),
    decreases t.len(),
{
    if t.len() > 0 {
        let e = first_newline(t);
        lemma_first_newline_bound(t);
        assert(t.skip(0) =~= t);
        assert(!opens_field(t.skip(0)));
        let line = t.take(e as int);
        if starts_with(line, "StartFragment:"@) {
            assert(t.take("StartFragment:"@.len() as int) =~= line.take("StartFragment:"@.len() as int));
        }
        if starts_with(line, "EndFragment:"@) {
            assert(t.take("EndFragment:"@.len() as int) =~= line.take("EndFragment:"@.len() as int));
        }
        if e < t.len() {
            let r = t.skip(e + 1 as int);
            assert forall|q: int|
                0 <= q < r.len() && (q == 0 || r[q - 1] == '\n') implies !opens_field(
                #[trigger] r.skip(q),
            ) by {
                let p = e + 1 as int + q;
                assert(t.skip(p) =~= r.skip(q));
                if q > 0 {
                    assert(r[q - 1] == t[p - 1]);
                }
                assert(0 <= p < t.len() && (p == 0 || t[p - 1] == '\n'));
                assert(!opens_field(t.skip(p)));
            }
            lemma_scan_no_fields(r, st, en);
        }
    }
}

/// Text with no line feed: concatenation keeps that.
proof fn lemma_no_newline_concat(a: Seq<char>, b: Seq<char>)
    requires
        !a.contains('\n'),
        !b.contains('\n'),
    ensures
        !(a + b).contains('\n'),
{
    if (a + b).contains('\n') {
        let k = choose|k: int| 0 <= k < (a + b).len() && (a + b)[k] == '\n';
        if k < a.len() {
            assert(a[k] == '\n');
        } else {
            assert(b[k - a.len()] == '\n');
        }
    }
}

/// Padded decimal digits hold no line feed, and are ASCII.
proof fn lemma_pad10_plain(n: nat)
    ensures
        !pad10(n).contains('\n'),
        vstd::utf8::is_ascii_chars(pad10(n)),
        !crate::text::is_unicode_whitespace(pad10(n)[0]),
        !crate::text::is_unicode_whitespace(pad10(n).last()),
        pad10(n)[0] != '+',
{
    crate::text::lemma_pad10(n);
    let d = pad10(n);
    assert(crate::text::is_digit(d[0]));
    assert(crate::text::is_digit(d[d.len() - 1]));
    if d.contains('\n') {
        let k = choose|k: int| 0 <= k < d.len() && d[k] == '\n';
        assert(crate::text::is_digit(d[k]));
    }
    assert forall|i: int| 0 <= i < d.len() implies '\0' <= #[trigger] d[i] <= '\u{7f}' by {
        assert(crate::text::is_digit(d[i]));
    }
}

/// A field line's value reads back.
proof fn lemma_field_value(n: nat)
    requires
        n <= usize::MAX,
    ensures
        parse_usize(trim(pad10(n) + seq!['\r'])) == Some(n as usize),
{
    let d = pad10(n);
    let x = d + seq!['\r'];
    crate::text::lemma_pad10(n);
    lemma_pad10_plain(n);
    assert(x[0] == d[0]);
    assert(crate::text::trim_start(x) == x);
    assert(x.drop_last() =~= d);
    assert(crate::text::trim_end(x) == crate::text::trim_end(d));
    assert(crate::text::trim_end(d) == d);
}

/// One header line: a field name, a padded value and a CR.
pub open spec fn header_line(name: Seq<char>, n: nat) -> Seq<char> {
    name + pad10(n) + seq!['\r']
}

proof fn lemma_header_line_plain(name: Seq<char>, n: nat)
    requires
        !name.contains('\n'),
    ensures
        !header_line(name, n).contains('\n'),
{
    lemma_pad10_plain(n);
    lemma_no_newline_concat(name, pad10(n));
    lemma_no_newline_concat(name + pad10(n), seq!['\r']);
}

proof fn lemma_scan_version_line(rest: Seq<char>)
    ensures
        scan_fragment_fields("Version:0.9"@ + "\r\n"@ + rest, None, None)
            == scan_fragment_fields(rest, None, None),
{
    reveal_strlit("Version:0.9");
    reveal_strlit("\r\n");
    reveal_strlit("StartFragment:");
    reveal_strlit("EndFragment:");
    let l = "Version:0.9"@.push('\r');
    assert("Version:0.9"@ + "\r\n"@ + rest =~= l + seq!['\n'] + rest);
    assert(!l.contains('\n'));
    assert(!starts_with(l, "EndFragment:"@)) by {
        assert(l.take(12)[0] != "EndFragment:"@[0]);
    }
    lemma_scan_line(l, rest, None, None);
}

proof fn lemma_scan_start_html_line(n: nat, rest: Seq<char>)
    ensures
        scan_fragment_fields("StartHTML:"@ + pad10(n) + "\r\n"@ + rest, None, None)
            == scan_fragment_fields(rest, None, None),
{
    reveal_strlit("StartHTML:");
    reveal_strlit("\r\n");
    reveal_strlit("StartFragment:");
    reveal_strlit("EndFragment:");
    crate::text::lemma_pad10(n);
    let l = header_line("StartHTML:"@, n);
    assert("StartHTML:"@ + pad10(n) + "\r\n"@ + rest =~= l + seq!['\n'] + rest);
    lemma_header_line_plain("StartHTML:"@, n);
    assert(!starts_with(l, "StartFragment:"@)) by {
        assert(l.take(14)[5] != "StartFragment:"@[5]);
    }
    assert(!starts_with(l, "EndFragment:"@)) by {
        assert(l.take(12)[0] != "EndFragment:"@[0]);
    }
    lemma_scan_line(l, rest, None, None);
}

proof fn lemma_scan_end_html_line(n: nat, rest: Seq<char>)
    ensures
        scan_fragment_fields("EndHTML:"@ + pad10(n) + "\r\n"@ + rest, None, None)
            == scan_fragment_fields(rest, None, None),
{
    reveal_strlit("EndHTML:");
    reveal_strlit("\r\n");
    reveal_strlit("StartFragment:");
    reveal_strlit("EndFragment:");
    crate::text::lemma_pad10(n);
    let l = header_line("EndHTML:"@, n);
    assert("EndHTML:"@ + pad10(n) + "\r\n"@ + rest =~= l + seq!['\n'] + rest);
    lemma_header_line_plain("EndHTML:"@, n);
    assert(!starts_with(l, "StartFragment:"@)) by {
        assert(l.take(14)[0] != "StartFragment:"@[0]);
    }
    assert(!starts_with(l, "EndFragment:"@)) by {
        assert(l.take(12)[3] != "EndFragment:"@[3]);
    }
    lemma_scan_line(l, rest, None, None);
}

proof fn lemma_scan_start_fragment_line(n: nat, rest: Seq<char>)
    requires
        n <= usize::MAX,
    ensures
        scan_fragment_fields("StartFragment:"@ + pad10(n) + "\r\n"@ + rest, None, None)
            == scan_fragment_fields(rest, Some(n as usize), None),
{
    reveal_strlit("\r\n");
    reveal_strlit("StartFragment:");
    crate::text::lemma_pad10(n);
    let l = header_line("StartFragment:"@, n);
    assert("StartFragment:"@ + pad10(n) + "\r\n"@ + rest =~= l + seq!['\n'] + rest);
    lemma_header_line_plain("StartFragment:"@, n);
    assert(l.take(14) =~= "StartFragment:"@);
    assert(l.skip(14) =~= pad10(n) + seq!['\r']);
    lemma_field_value(n);
    lemma_scan_line(l, rest, None, None);
}

proof fn lemma_scan_end_fragment_line(n: nat, st: Option<usize>, rest: Seq<char>)
    requires
        n <= usize::MAX,
    ensures
        scan_fragment_fields("EndFragment:"@ + pad10(n) + "\r\n"@ + rest, st, None)
            == scan_fragment_fields(rest, st, Some(n as usize)),
{
    reveal_strlit("\r\n");
    reveal_strlit("StartFragment:");
    reveal_strlit("EndFragment:");
    crate::text::lemma_pad10(n);
    let l = header_line("EndFragment:"@, n);
    assert("EndFragment:"@ + pad10(n) + "\r\n"@ + rest =~= l + seq!['\n'] + rest);
    lemma_header_line_plain("EndFragment:"@, n);
    assert(!starts_with(l, "StartFragment:"@)) by {
        assert(l.take(14)[0] != "StartFragment:"@[0]);
    }
    assert(l.take(12) =~= "EndFragment:"@);
    assert(l.skip(12) =~= pad10(n) + seq!['\r']);
    lemma_field_value(n);
    lemma_scan_line(l, rest, st, None);
}

/// Reading the header yields its fragment offsets.
proof fn lemma_scan_header(sh: nat, eh: nat, sf: nat, ef: nat, rest: Seq<char>)
    requires
        sf <= usize::MAX,
        ef <= usize::MAX,
    ensures
        scan_fragment_fields(html_header(sh, eh, sf, ef) + rest, None, None)
            == scan_fragment_fields(rest, Some(sf as usize), Some(ef as usize)),
{
    let crlf = "\r\n"@;
    let r5 = "EndFragment:"@ + pad10(ef) + crlf + rest;
    let r4 = "StartFragment:"@ + pad10(sf) + crlf + r5;
    let r3 = "EndHTML:"@ + pad10(eh) + crlf + r4;
    let r2 = "StartHTML:"@ + pad10(sh) + crlf + r3;
    assert(html_header(sh, eh, sf, ef) + rest =~= "Version:0.9"@ + crlf + r2);
    lemma_scan_version_line(r2);
    lemma_scan_start_html_line(sh, r3);
    lemma_scan_end_html_line(eh, r4);
    lemma_scan_start_fragment_line(sf, r5);
    lemma_scan_end_fragment_line(ef, Some(sf as usize), rest);
}

/// The markup around a fragment opens no field line, so a fragment without
/// a line opening with `StartFragment:` or `EndFragment:` leaves the
/// offsets read so far as they are.
pub proof fn lemma_plain_fragment_keeps_offsets(h: Seq<char>, st: Option<usize>, en: Option<usize>)
    requires
        !has_field_line(h + html_suffix()),
    ensures
        scan_fragment_fields(html_prefix() + h + html_suffix(), st, en) == (st, en),
{
    reveal_strlit("<html><body>\r\n<!--StartFragment-->");
    reveal_strlit("<html><body>\r");
    reveal_strlit("<!--StartFragment-->");
    reveal_strlit("StartFragment:");
    reveal_strlit("EndFragment:");
    let b1 = "<html><body>\r"@;
    let hs = h + html_suffix();
    let t2 = "<!--StartFragment-->"@ + hs;
    assert(html_prefix() + h + html_suffix() =~= b1 + seq!['\n'] + t2);
    assert(!b1.contains('\n'));
    assert(!starts_with(b1, "StartFragment:"@));
    assert(!starts_with(b1, "EndFragment:"@)) by {
        assert(b1.take(12)[0] != "EndFragment:"@[0]);
    }
    lemma_scan_line(b1, t2, st, en);
    assert forall|p: int|
        0 <= p < t2.len() && (p == 0 || t2[p - 1] == '\n') implies !opens_field(
        #[trigger] t2.skip(p),
    ) by {
        if p < 20 {
            if p > 0 {
                assert(t2[p - 1] == "<!--StartFragment-->"@[p - 1]);
            }
            assert(t2.skip(p)[0] == '<');
            assert(t2.skip(p).take(14)[0] != "StartFragment:"@[0]);
            assert(t2.skip(p).take(12)[0] != "EndFragment:"@[0]);
        } else {
            let q = p - 20;
            assert(t2.skip(p) =~= hs.skip(q));
            if q == 0 {
                assert(t2[p - 1] == '>');
            } else {
                assert(hs[q - 1] == t2[p - 1]);
                assert(!(0 < q < hs.len() && hs[q - 1] == '\n' && opens_field(hs.skip(q))));
            }
        }
    }
    lemma_scan_no_fields(t2, st, en);
}

/// The envelope's bytes: the header and opening markup take the first
/// `fragment_start()` bytes, then come the fragment's bytes.
proof fn lemma_envelope_bytes(h: Seq<char>)
    requires
        fragment_end(h) + HTML_SUFFIX_LEN < 10000000000,
    ensures
        encode_utf8(html_envelope(h)).len() == fragment_end(h) + HTML_SUFFIX_LEN,
        encode_utf8(html_envelope(h)).subrange(fragment_start() as int, fragment_end(h) as int)
            == encode_utf8(h),
{
    let sh: nat = HTML_HEADER_LEN as nat;
    let ef: nat = fragment_end(h);
    let eh: nat = ef + HTML_SUFFIX_LEN as nat;
    let sf: nat = fragment_start();
    reveal_strlit("Version:0.9");
    reveal_strlit("\r\n");
    reveal_strlit("StartHTML:");
    reveal_strlit("EndHTML:");
    reveal_strlit("StartFragment:");
    reveal_strlit("EndFragment:");
    reveal_strlit("<html><body>\r\n<!--StartFragment-->");
    reveal_strlit("<!--EndFragment-->\r\n</body></html>");
    lemma_pad10_plain(sh);
    lemma_pad10_plain(eh);
    lemma_pad10_plain(sf);
    lemma_pad10_plain(ef);
    crate::text::lemma_pad10(sh);
    crate::text::lemma_pad10(eh);
    crate::text::lemma_pad10(sf);
    crate::text::lemma_pad10(ef);
    let head = html_header(sh, eh, sf, ef) + html_prefix();
    let tail = html_suffix();
    assert(html_envelope(h) =~= head + h + tail);
    lemma_encode_utf8_concat(head + h, tail);
    lemma_encode_utf8_concat(head, h);
    assert(vstd::utf8::is_ascii_chars(head)) by {
        let crlf = "\r\n"@;
        vstd::utf8::is_ascii_chars_concat("Version:0.9"@ + crlf, "Version:0.9"@, crlf);
        let a1 = "Version:0.9"@ + crlf;
        let a2 = a1 + "StartHTML:"@;
        vstd::utf8::is_ascii_chars_concat(a2, a1, "StartHTML:"@);
        let a3 = a2 + pad10(sh);
        vstd::utf8::is_ascii_chars_concat(a3, a2, pad10(sh));
        let a4 = a3 + crlf;
        vstd::utf8::is_ascii_chars_concat(a4, a3, crlf);
        let a5 = a4 + "EndHTML:"@;
        vstd::utf8::is_ascii_chars_concat(a5, a4, "EndHTML:"@);
        let a6 = a5 + pad10(eh);
        vstd::utf8::is_ascii_chars_concat(a6, a5, pad10(eh));
        let a7 = a6 + crlf;
        vstd::utf8::is_ascii_chars_concat(a7, a6, crlf);
        let a8 = a7 + "StartFragment:"@;
        vstd::utf8::is_ascii_chars_concat(a8, a7, "StartFragment:"@);
        let a9 = a8 + pad10(sf);
        vstd::utf8::is_ascii_chars_concat(a9, a8, pad10(sf));
        let a10 = a9 + crlf;
        vstd::utf8::is_ascii_chars_concat(a10, a9, crlf);
        let a11 = a10 + "EndFragment:"@;
        vstd::utf8::is_ascii_chars_concat(a11, a10, "EndFragment:"@);
        let a12 = a11 + pad10(ef);
        vstd::utf8::is_ascii_chars_concat(a12, a11, pad10(ef));
        let a13 = a12 + crlf;
        vstd::utf8::is_ascii_chars_concat(a13, a12, crlf);
        vstd::utf8::is_ascii_chars_concat(a13 + html_prefix(), a13, html_prefix());
        assert(head =~= a13 + html_prefix());
    }
    vstd::utf8::is_ascii_chars_encode_utf8(head);
    vstd::utf8::is_ascii_chars_encode_utf8(tail);
    assert(head.len() == 139);
    let hb = encode_utf8(h);
    let data = encode_utf8(html_envelope(h));
    assert(data =~= encode_utf8(head) + hb + encode_utf8(tail));
    assert(data.subrange(139, 139 + hb.len() as int) =~= hb);
}

/// Unwrapping a wrapped fragment gives the fragment back. Left out: a
/// fragment whose own lines name other fragment offsets than the header
/// does (the reader takes the last `StartFragment:` and `EndFragment:`
/// lines; [`lemma_plain_fragment_keeps_offsets`] shows that a fragment
/// without such lines names none), and offsets of more than ten digits or
/// beyond `usize` (the header then no longer has the length the offsets
/// assume, or the offsets cannot be read).
pub proof fn lemma_html_roundtrip(h: Seq<char>)
    requires
        fragment_end(h) + HTML_SUFFIX_LEN < 10000000000,
        fragment_end(h) + HTML_SUFFIX_LEN <= usize::MAX,
        scan_fragment_fields(
            html_prefix() + h + html_suffix(),
            Some(fragment_start() as usize),
            Some(fragment_end(h) as usize),
        ) == (Some(fragment_start() as usize), Some(fragment_end(h) as usize)),
    ensures
        spec_unwrap_html_format(encode_utf8(html_envelope(h))) == Some(h),
{
    let sh: nat = HTML_HEADER_LEN as nat;
    let ef: nat = fragment_end(h);
    let eh: nat = ef + HTML_SUFFIX_LEN as nat;
    let sf: nat = fragment_start();
    let w = html_envelope(h);
    let data = encode_utf8(w);
    vstd::utf8::encode_utf8_valid_utf8(w);
    vstd::utf8::encode_utf8_decode_utf8(w);
    reveal_strlit("Version:0.9");
    reveal_strlit("Version:");
    assert(w.take(8) =~= "Version:"@);
    let body = html_prefix() + h + html_suffix();
    assert(w =~= html_header(sh, eh, sf, ef) + body);
    lemma_scan_header(sh, eh, sf, ef, body);
    lemma_envelope_bytes(h);
    vstd::utf8::encode_utf8_valid_utf8(h);
    vstd::utf8::encode_utf8_decode_utf8(h);
}

} // verus!
