//! Clipboard format conversion: UTF-16LE text as RDP carries it, and the
//! mapping between macOS pasteboard types and RDP clipboard format ids.

use vstd::prelude::*;

verus! {

broadcast use {vstd::utf8::char_u32_cast, vstd::utf8::char_is_scalar};

/// Size of a `BITMAPINFOHEADER`.
pub const BITMAPINFOHEADER_SIZE: usize = 40;

/// Registered format id for Windows "HTML Format".
pub const FORMAT_ID_HTML: u32 = 0xD010;

/// Registered format id for `FileGroupDescriptorW`.
pub const FORMAT_ID_FILE_LIST: u32 = 0xD011;

/// Standard clipboard format `CF_UNICODETEXT`.
pub const CF_UNICODETEXT: u32 = 13;

/// Standard clipboard format `CF_DIB`.
pub const CF_DIB: u32 = 8;

// ---------------------------------------------------------------------------
// UTF-16 model
// ---------------------------------------------------------------------------

/// Code value of a high (leading) surrogate.
pub open spec fn is_high_surrogate(u: u16) -> bool {
    0xD800 <= u <= 0xDBFF
}

/// Code value of a low (trailing) surrogate.
pub open spec fn is_low_surrogate(u: u16) -> bool {
    0xDC00 <= u <= 0xDFFF
}

/// Code value of any surrogate.
pub open spec fn is_surrogate(u: u16) -> bool {
    0xD800 <= u <= 0xDFFF
}

/// Scalar value encoded by a surrogate pair.
pub open spec fn pair_scalar(hi: u16, lo: u16) -> int {
    0x10000 + (hi - 0xD800) * 0x400 + (lo - 0xDC00)
}

/// UTF-16 code units of one scalar value.
pub open spec fn utf16_units(c: char) -> Seq<u16> {
    let v = c as u32 as int;
    if v < 0x10000 {
        seq![v as u16]
    } else {
        seq![(0xD800 + (v - 0x10000) / 0x400) as u16, (0xDC00 + (v - 0x10000) % 0x400) as u16]
    }
}

/// UTF-16 encoding of a character sequence.
pub open spec fn encode_utf16(s: Seq<char>) -> Seq<u16>
    decreases s.len(),
{
    if s.len() == 0 {
        seq![]
    } else {
        utf16_units(s[0]) + encode_utf16(s.drop_first())
    }
}

/// `p` prepended to the decoded text, if there is one.
pub open spec fn prepend_opt(p: Seq<char>, o: Option<Seq<char>>) -> Option<Seq<char>> {
    match o {
        Some(r) => Some(p + r),
        None => None,
    }
}

/// Strict UTF-16 decoding: `None` when an unpaired surrogate occurs.
pub open spec fn decode_utf16(ws: Seq<u16>) -> Option<Seq<char>>
    decreases ws.len(),
{
    if ws.len() == 0 {
        Some(seq![])
    } else if !is_surrogate(ws[0]) {
        prepend_opt(seq![(ws[0] as u32) as char], decode_utf16(ws.drop_first()))
    } else if is_high_surrogate(ws[0]) && ws.len() >= 2 && is_low_surrogate(ws[1]) {
        prepend_opt(
            seq![(pair_scalar(ws[0], ws[1]) as u32) as char],
            decode_utf16(ws.subrange(2, ws.len() as int)),
        )
    } else {
        None
    }
}

/// Little-endian bytes of a sequence of code units.
pub open spec fn units_le_bytes(ws: Seq<u16>) -> Seq<u8> {
    Seq::new(
        2 * ws.len(),
        |i: int|
            if i % 2 == 0 {
                (ws[i / 2] % 256) as u8
            } else {
                (ws[i / 2] / 256) as u8
            },
    )
}

/// Code units read from consecutive little-endian byte pairs; a trailing odd
/// byte is ignored.
pub open spec fn le_units(bytes: Seq<u8>) -> Seq<u16> {
    Seq::new(bytes.len() / 2, |i: int| (bytes[2 * i] + 256 * bytes[2 * i + 1]) as u16)
}

/// `s` without its trailing NUL characters.
pub open spec fn trim_trailing_nul(s: Seq<char>) -> Seq<char>
    decreases s.len(),
{
    if s.len() > 0 && s.last() == '\0' {
        trim_trailing_nul(s.drop_last())
    } else {
        s
    }
}

/// NUL-terminated UTF-16LE bytes of `s`.
pub open spec fn utf16le_text_bytes(s: Seq<char>) -> Seq<u8> {
    units_le_bytes(encode_utf16(s).push(0u16))
}

/// Text read back from UTF-16LE bytes, trailing NULs removed.
pub open spec fn utf16le_text(data: Seq<u8>) -> Option<Seq<char>> {
    if data.len() == 0 {
        Some(seq![])
    } else {
        match decode_utf16(le_units(data)) {
            Some(cs) => Some(trim_trailing_nul(cs)),
            None => None,
        }
    }
}

// ---------------------------------------------------------------------------
// Lemmas
// ---------------------------------------------------------------------------

/// Encoding distributes over concatenation.
pub proof fn lemma_encode_utf16_concat(a: Seq<char>, b: Seq<char>)
    ensures
        encode_utf16(a + b) == encode_utf16(a) + encode_utf16(b),
    decreases a.len(),
{
    if a.len() == 0 {
        assert(a + b =~= b);
        assert(encode_utf16(a) =~= seq![]);
        assert(encode_utf16(a) + encode_utf16(b) =~= encode_utf16(b));
    } else {
        assert((a + b).drop_first() =~= a.drop_first() + b);
        assert((a + b)[0] == a[0]);
        lemma_encode_utf16_concat(a.drop_first(), b);
        assert(encode_utf16(a + b) =~= utf16_units(a[0]) + (encode_utf16(a.drop_first())
            + encode_utf16(b)));
    }
}

/// The units of one character, as a one-character encoding.
pub proof fn lemma_encode_utf16_single(c: char)
    ensures
        encode_utf16(seq![c]) == utf16_units(c),
{
    assert(seq![c].drop_first() =~= Seq::<char>::empty());
    assert(encode_utf16(Seq::<char>::empty()) =~= Seq::<u16>::empty());
    assert(utf16_units(c) + Seq::<u16>::empty() =~= utf16_units(c));
}

/// Extending the encoded prefix by one character.
pub proof fn lemma_encode_utf16_push(s: Seq<char>, c: char)
    ensures
        encode_utf16(s.push(c)) == encode_utf16(s) + utf16_units(c),
{
    assert(s.push(c) =~= s + seq![c]);
    lemma_encode_utf16_concat(s, seq![c]);
    lemma_encode_utf16_single(c);
}

/// A surrogate pair decodes back to the scalar it was made from.
pub proof fn lemma_pair_roundtrip(v: int)
    requires
        0x10000 <= v <= 0x10FFFF,
    ensures
        is_high_surrogate((0xD800 + (v - 0x10000) / 0x400) as u16),
        is_low_surrogate((0xDC00 + (v - 0x10000) % 0x400) as u16),
        pair_scalar(
            (0xD800 + (v - 0x10000) / 0x400) as u16,
            (0xDC00 + (v - 0x10000) % 0x400) as u16,
        ) == v,
{
    let w = v - 0x10000;
    vstd::arithmetic::div_mod::lemma_fundamental_div_mod(w, 0x400);
    assert(0 <= w / 0x400 < 0x400) by {
        vstd::arithmetic::div_mod::lemma_div_is_ordered(w, 0xFFFFF, 0x400);
    }
}

/// Decoding an encoding gives the text back.
pub proof fn lemma_decode_encode_utf16(s: Seq<char>)
    ensures
        decode_utf16(encode_utf16(s)) == Some(s),
    decreases s.len(),
{
    if s.len() == 0 {
    } else {
        let c = s[0];
        let rest = s.drop_first();
        let e = encode_utf16(s);
        lemma_decode_encode_utf16(rest);
        let v = c as u32 as int;
        vstd::utf8::char_is_scalar(c);
        vstd::utf8::char_u32_cast(c, c as u32);
        if v < 0x10000 {
            assert(e.drop_first() =~= encode_utf16(rest));
            assert(e[0] == v as u16);
            assert(!is_surrogate(e[0]));
            assert((e[0] as u32) == c as u32);
            assert(seq![c] + rest =~= s);
        } else {
            lemma_pair_roundtrip(v);
            assert(((v as u32) as char) == c);
            assert(e.subrange(2, e.len() as int) =~= encode_utf16(rest));
            assert(seq![c] + rest =~= s);
        }
    }
}

/// Reading the little-endian bytes of units gives the units back.
pub proof fn lemma_le_units_roundtrip(ws: Seq<u16>)
    ensures
        le_units(units_le_bytes(ws)) == ws,
{
    let b = units_le_bytes(ws);
    assert forall|i: int| 0 <= i < ws.len() implies #[trigger] le_units(b)[i] == ws[i] by {
        assert((2 * i) % 2 == 0);
        assert((2 * i) / 2 == i);
        assert((2 * i + 1) % 2 == 1);
        assert((2 * i + 1) / 2 == i);
    }
    assert(le_units(b) =~= ws);
}

/// A trailing NUL is dropped by trimming.
pub proof fn lemma_trim_push_nul(s: Seq<char>)
    ensures
        trim_trailing_nul(s.push('\0')) == trim_trailing_nul(s),
{
    assert(s.push('\0').drop_last() =~= s);
}

/// Text survives a round trip through NUL-terminated UTF-16LE, except for
/// trailing NUL characters, which the terminator convention cannot carry.
pub proof fn lemma_utf16le_text_roundtrip(s: Seq<char>)
    ensures
        utf16le_text(utf16le_text_bytes(s)) == Some(trim_trailing_nul(s)),
{
    let units = encode_utf16(s).push(0u16);
    lemma_le_units_roundtrip(units);
    lemma_encode_utf16_push(s, '\0');
    assert(utf16_units('\0') =~= seq![0u16]);
    assert(encode_utf16(s.push('\0')) =~= units);
    lemma_decode_encode_utf16(s.push('\0'));
    lemma_trim_push_nul(s);
}

// ---------------------------------------------------------------------------
// Executable conversions
// ---------------------------------------------------------------------------

/// The characters of `s`, in order.
pub fn chars_of(s: &str) -> (out: Vec<char>)
    ensures
        out@ == s@,
{
    let mut out: Vec<char> = Vec::new();
    for c in it: s.chars()
        invariant
            out@ == it.seq().take(it.index() as int),
            it.seq() == s@,
    {
        out.push(c);
    }
    out
}

/// UTF-16 code units of `cs`.
pub fn encode_utf16_units(cs: &Vec<char>) -> (ws: Vec<u16>)
    ensures
        ws@ == encode_utf16(cs@),
{
    let mut ws: Vec<u16> = Vec::new();
    let mut i: usize = 0;
    while i < cs.len()
        invariant
            i <= cs.len(),
            ws@ == encode_utf16(cs@.take(i as int)),
        decreases cs.len() - i,
    {
        let c = cs[i];
        let v: u32 = c as u32;
        proof {
            vstd::utf8::char_is_scalar(c);
            lemma_encode_utf16_push(cs@.take(i as int), c);
            assert(cs@.take(i as int).push(c) =~= cs@.take(i + 1));
        }
        if v < 0x10000 {
            ws.push(v as u16);
        } else {
            let w: u32 = v - 0x10000;
            ws.push((0xD800 + w / 0x400) as u16);
            ws.push((0xDC00 + w % 0x400) as u16);
        }
        assert(ws@ =~= encode_utf16(cs@.take(i + 1)));
        i = i + 1;
    }
    assert(cs@.take(cs.len() as int) =~= cs@);
    ws
}

/// Little-endian bytes of `ws`.
pub fn units_to_le_bytes(ws: &Vec<u16>) -> (out: Vec<u8>)
    ensures
        out@ == units_le_bytes(ws@),
{
    let mut out: Vec<u8> = Vec::new();
    let mut i: usize = 0;
    while i < ws.len()
        invariant
            i <= ws.len(),
            out@.len() == 2 * i,
            forall|k: int|
                0 <= k < 2 * i ==> #[trigger] out@[k] == units_le_bytes(ws@)[k],
        decreases ws.len() - i,
    {
        let w = ws[i];
        out.push((w % 256) as u8);
        out.push((w / 256) as u8);
        proof {
            assert((2 * i as int) % 2 == 0);
            assert((2 * i as int) / 2 == i);
            assert((2 * i as int + 1) % 2 == 1);
            assert((2 * i as int + 1) / 2 == i);
        }
        i = i + 1;
    }
    assert(out@ =~= units_le_bytes(ws@));
    out
}

/// Code units read from consecutive little-endian byte pairs.
pub fn le_bytes_to_units(data: &[u8]) -> (ws: Vec<u16>)
    ensures
        ws@ == le_units(data@),
{
    let mut ws: Vec<u16> = Vec::new();
    let n: usize = data.len() / 2;
    let mut i: usize = 0;
    while i < n
        invariant
            n == data@.len() / 2,
            i <= n,
            ws@.len() == i,
            forall|k: int| 0 <= k < i ==> #[trigger] ws@[k] == le_units(data@)[k],
        decreases n - i,
    {
        assert(2 * (i as int) + 1 < data.len());
        let lo = data[2 * i] as u16;
        let hi = data[2 * i + 1] as u16;
        ws.push(lo + 256 * hi);
        i = i + 1;
    }
    assert(ws@ =~= le_units(data@));
    ws
}

/// The character with scalar value `v` (`char::from_u32`), `None` exactly
/// when `v` is not a Unicode scalar value.
#[verifier::external_body]
fn char_from_u32(v: u32) -> (r: Option<char>)
    ensures
        r is Some <==> (v < 0xD800 || (0xDFFF < v && v <= 0x10FFFF)),
        r matches Some(c) ==> c as u32 == v,
{
    char::from_u32(v)
}

/// Appends `c` to `s` (`String::push`).
#[verifier::external_body]
fn push_char(s: &mut String, c: char)
    ensures
        final(s)@ == old(s)@.push(c),
{
    s.push(c)
}

proof fn lemma_prepend_push(out: Seq<char>, c: char, o: Option<Seq<char>>)
    ensures
        prepend_opt(out, prepend_opt(seq![c], o)) == prepend_opt(out.push(c), o),
{
    match o {
        Some(r) => {
            assert(out + (seq![c] + r) =~= out.push(c) + r);
        },
        None => {},
    }
}

/// Strict UTF-16 decoding of `ws`.
pub fn decode_utf16_units(ws: &Vec<u16>) -> (r: Option<Vec<char>>)
    ensures
        match r {
            Some(cs) => decode_utf16(ws@) == Some(cs@),
            None => decode_utf16(ws@) is None,
        },
{
    let n = ws.len();
    let mut out: Vec<char> = Vec::new();
    let mut i: usize = 0;
    assert(ws@.subrange(0, n as int) =~= ws@);
    assert(out@ + Seq::<char>::empty() =~= out@);
    while i < n
        invariant
            n == ws@.len(),
            i <= n,
            decode_utf16(ws@) == prepend_opt(out@, decode_utf16(ws@.subrange(i as int, n as int))),
        decreases n - i,
    {
        let rest = Ghost(ws@.subrange(i as int, n as int));
        let u = ws[i];
        if u < 0xD800 || u > 0xDFFF {
            let c = match char_from_u32(u as u32) {
                Some(c) => c,
                None => { return None; },
            };
            proof {
                assert(rest@.drop_first() =~= ws@.subrange(i + 1, n as int));
                vstd::utf8::char_u32_cast(c, u as u32);
                lemma_prepend_push(out@, c, decode_utf16(rest@.drop_first()));
            }
            out.push(c);
            i = i + 1;
        } else if u <= 0xDBFF && i + 1 < n && ws[i + 1] >= 0xDC00 && ws[i + 1] <= 0xDFFF {
            let lo = ws[i + 1];
            let v: u32 = 0x10000 + ((u - 0xD800) as u32) * 0x400 + ((lo - 0xDC00) as u32);
            let c = match char_from_u32(v) {
                Some(c) => c,
                None => { return None; },
            };
            proof {
                assert(rest@.subrange(2, rest@.len() as int) =~= ws@.subrange(i + 2, n as int));
                vstd::utf8::char_u32_cast(c, v);
                lemma_prepend_push(out@, c, decode_utf16(ws@.subrange(i + 2, n as int)));
            }
            out.push(c);
            i = i + 2;
        } else {
            return None;
        }
    }
    assert(ws@.subrange(n as int, n as int) =~= Seq::<u16>::empty());
    assert(out@ + Seq::<char>::empty() =~= out@);
    Some(out)
}

/// Length of `cs` once its trailing NULs are dropped.
fn trimmed_len(cs: &Vec<char>) -> (k: usize)
    ensures
        k <= cs.len(),
        cs@.take(k as int) == trim_trailing_nul(cs@),
{
    let mut k: usize = cs.len();
    assert(cs@.take(k as int) =~= cs@);
    while k > 0 && cs[k - 1] == '\0'
        invariant
            k <= cs.len(),
            trim_trailing_nul(cs@.take(k as int)) == trim_trailing_nul(cs@),
        decreases k,
    {
        assert(cs@.take(k as int).drop_last() =~= cs@.take(k - 1));
        k = k - 1;
    }
    k
}

/// A `String` holding the first `end` characters of `cs`.
pub fn string_from_chars(cs: &Vec<char>, end: usize) -> (s: String)
    requires
        end <= cs.len(),
    ensures
        s@ == cs@.take(end as int),
{
    let mut s = String::new();
    let mut i: usize = 0;
    while i < end
        invariant
            i <= end <= cs.len(),
            s@ == cs@.take(i as int),
        decreases end - i,
    {
        push_char(&mut s, cs[i]);
        assert(cs@.take(i as int).push(cs@[i as int]) =~= cs@.take(i + 1));
        i = i + 1;
    }
    s
}

/// NUL-terminated UTF-16LE bytes of `s`.
pub fn utf8_to_utf16le(s: &str) -> (out: Vec<u8>)
    ensures
        out@ == utf16le_text_bytes(s@),
{
    let cs = chars_of(s);
    let mut ws = encode_utf16_units(&cs);
    ws.push(0u16);
    units_to_le_bytes(&ws)
}

/// Text from UTF-16LE bytes, trailing NULs removed; `None` when the code
/// units hold an unpaired surrogate. A trailing odd byte is ignored.
pub fn utf16le_to_utf8(data: &[u8]) -> (r: Option<String>)
    ensures
        match r {
            Some(s) => utf16le_text(data@) == Some(s@),
            None => utf16le_text(data@) is None,
        },
{
    if data.len() == 0 {
        return Some(String::new());
    }
    let ws = le_bytes_to_units(data);
    match decode_utf16_units(&ws) {
        Some(cs) => {
            let k = trimmed_len(&cs);
            Some(string_from_chars(&cs, k))
        },
        None => None,
    }
}

// ---------------------------------------------------------------------------
// Pasteboard types and RDP format ids
// ---------------------------------------------------------------------------

/// Whether `a` and `b` hold the same characters.
pub fn str_eq(a: &str, b: &str) -> (r: bool)
    ensures
        r == (a@ == b@),
{
    let x = chars_of(a);
    let y = chars_of(b);
    if x.len() != y.len() {
        return false;
    }
    let mut i: usize = 0;
    while i < x.len()
        invariant
            x@ == a@,
            y@ == b@,
            x@.len() == y@.len(),
            i <= x@.len(),
            forall|k: int| 0 <= k < i ==> x@[k] == y@[k],
        decreases x.len() - i,
    {
        if x[i] != y[i] {
            assert(x@[i as int] != y@[i as int]);
            return false;
        }
        i = i + 1;
    }
    assert(x@ =~= y@);
    true
}

/// RDP clipboard format id for a macOS pasteboard type.
pub open spec fn spec_uti_to_rdp_format_id(uti: Seq<char>) -> Option<u32> {
    if uti == "public.utf8-plain-text"@ || uti == "public.plain-text"@ {
        Some(CF_UNICODETEXT)
    } else if uti == "public.png"@ || uti == "public.tiff"@ || uti == "public.jpeg"@ {
        Some(CF_DIB)
    } else if uti == "public.html"@ {
        Some(FORMAT_ID_HTML)
    } else if uti == "public.file-url"@ {
        Some(FORMAT_ID_FILE_LIST)
    } else {
        None
    }
}

/// Map a macOS pasteboard type to its RDP clipboard format id.
pub fn uti_to_rdp_format_id(uti: &str) -> (r: Option<u32>)
    ensures
        r == spec_uti_to_rdp_format_id(uti@),
{
    if str_eq(uti, "public.utf8-plain-text") || str_eq(uti, "public.plain-text") {
        Some(CF_UNICODETEXT)
    } else if str_eq(uti, "public.png") || str_eq(uti, "public.tiff") || str_eq(uti, "public.jpeg") {
        Some(CF_DIB)
    } else if str_eq(uti, "public.html") {
        Some(FORMAT_ID_HTML)
    } else if str_eq(uti, "public.file-url") {
        Some(FORMAT_ID_FILE_LIST)
    } else {
        None
    }
}

/// Pasteboard type for an RDP clipboard format id.
pub open spec fn spec_rdp_format_id_to_uti(format_id: u32) -> Option<Seq<char>> {
    if format_id == CF_UNICODETEXT {
        Some("public.utf8-plain-text"@)
    } else if format_id == CF_DIB {
        Some("public.png"@)
    } else if format_id == FORMAT_ID_HTML {
        Some("public.html"@)
    } else if format_id == FORMAT_ID_FILE_LIST {
        Some("public.file-url"@)
    } else {
        None
    }
}

/// Map an RDP clipboard format id to a macOS pasteboard type.
pub fn rdp_format_id_to_uti(format_id: u32) -> (r: Option<&'static str>)
    ensures
        match r {
            Some(u) => spec_rdp_format_id_to_uti(format_id) == Some(u@),
            None => spec_rdp_format_id_to_uti(format_id) is None,
        },
{
    if format_id == CF_UNICODETEXT {
        Some("public.utf8-plain-text")
    } else if format_id == CF_DIB {
        Some("public.png")
    } else if format_id == FORMAT_ID_HTML {
        Some("public.html")
    } else if format_id == FORMAT_ID_FILE_LIST {
        Some("public.file-url")
    } else {
        None
    }
}

/// Every format id the pasteboard side names maps back to a pasteboard type
/// that names the same id.
pub proof fn lemma_format_id_uti_roundtrip(format_id: u32)
    requires
        spec_rdp_format_id_to_uti(format_id) is Some,
    ensures
        spec_uti_to_rdp_format_id(spec_rdp_format_id_to_uti(format_id)->0) == Some(format_id),
{
    reveal_strlit("public.utf8-plain-text");
    reveal_strlit("public.plain-text");
    reveal_strlit("public.png");
    reveal_strlit("public.tiff");
    reveal_strlit("public.jpeg");
    reveal_strlit("public.html");
    reveal_strlit("public.file-url");
    assert("public.utf8-plain-text"@.len() == 22);
    assert("public.plain-text"@.len() == 17);
    assert("public.png"@.len() == 10);
    assert("public.file-url"@.len() == 15);
    if format_id == FORMAT_ID_HTML {
        assert("public.html"@[7] != "public.png"@[7]);
        assert("public.html"@[7] != "public.tiff"@[7]);
        assert("public.html"@[7] != "public.jpeg"@[7]);
        assert("public.html"@ != "public.utf8-plain-text"@);
        assert("public.html"@ != "public.plain-text"@);
    } else if format_id == CF_DIB {
        assert("public.png"@ != "public.utf8-plain-text"@);
        assert("public.png"@ != "public.plain-text"@);
    } else if format_id == FORMAT_ID_FILE_LIST {
        assert("public.file-url"@ != "public.utf8-plain-text"@);
        assert("public.file-url"@ != "public.plain-text"@);
        assert("public.file-url"@ != "public.png"@);
        assert("public.file-url"@ != "public.tiff"@);
        assert("public.file-url"@ != "public.jpeg"@);
        assert("public.file-url"@ != "public.html"@);
    }
}

} // verus!
