//! Plain-text clipboard payloads (`CF_UNICODETEXT`): NUL-terminated UTF-16LE
//! with CRLF line endings on the wire, LF line endings on the host.

use vstd::prelude::*;
use crate::formats::{
    chars_of, decode_utf16, decode_utf16_units, encode_utf16, encode_utf16_units, le_units,
    le_bytes_to_units, units_le_bytes, units_to_le_bytes, utf16_units, string_from_chars,
    lemma_decode_encode_utf16, lemma_encode_utf16_push, lemma_le_units_roundtrip,
};

verus! {

/// Why a `CF_UNICODETEXT` payload was refused.
#[derive(Debug, Clone, Copy, PartialEq, Eq, Structural)]
pub enum UnicodeTextError {
    /// The payload has an odd number of bytes.
    OddLength,
    /// The code units hold an unpaired surrogate.
    InvalidUtf16,
}

/// Host line endings: every CRLF pair and every other CR becomes LF.
pub open spec fn to_lf(s: Seq<char>) -> Seq<char>
    decreases s.len(),
{
    if s.len() == 0 {
        s
    } else if s.len() >= 2 && s.last() == '\n' && s[s.len() - 2] == '\r' {
        to_lf(s.subrange(0, s.len() - 2)).push('\n')
    } else if s.last() == '\r' {
        to_lf(s.drop_last()).push('\n')
    } else {
        to_lf(s.drop_last()).push(s.last())
    }
}

/// Wire line endings: every LF becomes CRLF.
pub open spec fn to_crlf(s: Seq<char>) -> Seq<char>
    decreases s.len(),
{
    if s.len() == 0 {
        s
    } else if s.last() == '\n' {
        to_crlf(s.drop_last()) + seq!['\r', '\n']
    } else {
        to_crlf(s.drop_last()).push(s.last())
    }
}

/// `ws` without its trailing zero code units.
pub open spec fn trim_trailing_zero_units(ws: Seq<u16>) -> Seq<u16>
    decreases ws.len(),
{
    if ws.len() > 0 && ws.last() == 0 {
        trim_trailing_zero_units(ws.drop_last())
    } else {
        ws
    }
}

/// Wire bytes of host text `t`.
pub open spec fn unicode_text_bytes(t: Seq<char>) -> Seq<u8> {
    units_le_bytes(encode_utf16(to_crlf(to_lf(t))).push(0u16))
}

/// Host text carried by wire bytes `data`.
pub open spec fn unicode_text(data: Seq<u8>) -> Result<Seq<char>, UnicodeTextError> {
    if data.len() % 2 != 0 {
        Err(UnicodeTextError::OddLength)
    } else {
        match decode_utf16(trim_trailing_zero_units(le_units(data))) {
            Some(cs) => Ok(to_lf(cs)),
            None => Err(UnicodeTextError::InvalidUtf16),
        }
    }
}

/// Host line endings of `cs`.
pub fn normalize_line_endings(cs: &Vec<char>) -> (out: Vec<char>)
    ensures
        out@ == to_lf(cs@),
{
    let n = cs.len();
    let mut out: Vec<char> = Vec::new();
    let mut i: usize = 0;
    while i < n
        invariant
            n == cs@.len(),
            i <= n,
            out@ == to_lf(cs@.take(i as int)),
            (i > 0 && cs@[i - 1] == '\r' && i < n) ==> cs@[i as int] != '\n',
        decreases n - i,
    {
        let c = cs[i];
        if c == '\r' && i + 1 < n && cs[i + 1] == '\n' {
            assert(cs@.take(i + 2).subrange(0, i as int) =~= cs@.take(i as int));
            out.push('\n');
            i = i + 2;
        } else {
            assert(cs@.take(i + 1).drop_last() =~= cs@.take(i as int));
            if c == '\r' {
                out.push('\n');
            } else {
                out.push(c);
            }
            i = i + 1;
        }
    }
    assert(cs@.take(n as int) =~= cs@);
    out
}

/// Wire line endings of `cs`.
pub fn expand_line_endings(cs: &Vec<char>) -> (out: Vec<char>)
    ensures
        out@ == to_crlf(cs@),
{
    let n = cs.len();
    let mut out: Vec<char> = Vec::new();
    let mut i: usize = 0;
    while i < n
        invariant
            n == cs@.len(),
            i <= n,
            out@ == to_crlf(cs@.take(i as int)),
        decreases n - i,
    {
        let c = cs[i];
        assert(cs@.take(i + 1).drop_last() =~= cs@.take(i as int));
        if c == '\n' {
            out.push('\r');
            out.push('\n');
            assert(out@ =~= to_crlf(cs@.take(i as int)) + seq!['\r', '\n']);
        } else {
            out.push(c);
        }
        i = i + 1;
    }
    assert(cs@.take(n as int) =~= cs@);
    out
}

/// Wire bytes for host text: CRLF line endings, UTF-16LE, NUL-terminated.
pub fn encode_unicode_text(text: &str) -> (bytes: Vec<u8>)
    ensures
        bytes@ == unicode_text_bytes(text@),
{
    let cs = chars_of(text);
    let lf = normalize_line_endings(&cs);
    let crlf = expand_line_endings(&lf);
    let mut ws = encode_utf16_units(&crlf);
    ws.push(0u16);
    units_to_le_bytes(&ws)
}

/// Host text from wire bytes: trailing NUL units dropped, UTF-16 decoded
/// strictly, line endings turned to LF.
pub fn decode_unicode_text(data: &[u8]) -> (r: Result<String, UnicodeTextError>)
    ensures
        match r {
            Ok(s) => unicode_text(data@) == Ok::<Seq<char>, UnicodeTextError>(s@),
            Err(e) => unicode_text(data@) == Err::<Seq<char>, UnicodeTextError>(e),
        },
{
    if data.len() % 2 != 0 {
        return Err(UnicodeTextError::OddLength);
    }
    let mut units = le_bytes_to_units(data);
    while units.len() > 0 && units[units.len() - 1] == 0
        invariant
            trim_trailing_zero_units(units@) == trim_trailing_zero_units(le_units(data@)),
        decreases units.len(),
    {
        units.pop();
    }
    match decode_utf16_units(&units) {
        Some(cs) => {
            let lf = normalize_line_endings(&cs);
            let s = string_from_chars(&lf, lf.len());
            assert(lf@.take(lf@.len() as int) =~= lf@);
            Ok(s)
        },
        None => Err(UnicodeTextError::InvalidUtf16),
    }
}

// ---------------------------------------------------------------------------
// Round trip
// ---------------------------------------------------------------------------

/// Host line endings hold no CR.
pub proof fn lemma_to_lf_no_cr(s: Seq<char>)
    ensures
        !to_lf(s).contains('\r'),
    decreases s.len(),
{
    if s.len() == 0 {
    } else if s.len() >= 2 && s.last() == '\n' && s[s.len() - 2] == '\r' {
        lemma_to_lf_no_cr(s.subrange(0, s.len() - 2));
    } else {
        lemma_to_lf_no_cr(s.drop_last());
    }
    if to_lf(s).contains('\r') {
        let k = choose|k: int| 0 <= k < to_lf(s).len() && to_lf(s)[k] == '\r';
        if s.len() >= 2 && s.last() == '\n' && s[s.len() - 2] == '\r' {
            assert(to_lf(s.subrange(0, s.len() - 2))[k] == '\r' || k == to_lf(s).len() - 1);
        } else {
            assert(to_lf(s.drop_last())[k] == '\r' || k == to_lf(s).len() - 1);
        }
    }
}

/// Expanding and then normalizing text without CR gives it back.
pub proof fn lemma_to_lf_to_crlf(s: Seq<char>)
    requires
        !s.contains('\r'),
    ensures
        to_lf(to_crlf(s)) == s,
    decreases s.len(),
{
    if s.len() == 0 {
    } else {
        let p = s.drop_last();
        assert(!p.contains('\r')) by {
            if p.contains('\r') {
                let k = choose|k: int| 0 <= k < p.len() && p[k] == '\r';
                assert(s[k] == '\r');
            }
        }
        lemma_to_lf_to_crlf(p);
        let e = to_crlf(s);
        if s.last() == '\n' {
            assert(e.subrange(0, e.len() - 2) =~= to_crlf(p));
        } else {
            assert(s.last() != '\r') by {
                assert(s[s.len() - 1] == s.last());
            }
            assert(e.drop_last() =~= to_crlf(p));
        }
        assert(p.push(s.last()) =~= s);
    }
}

/// The last character of the wire text is a NUL exactly when the host
/// text's was.
pub proof fn lemma_last_not_nul(t: Seq<char>)
    requires
        t.len() == 0 || t.last() != '\0',
    ensures
        to_crlf(to_lf(t)).len() == 0 || to_crlf(to_lf(t)).last() != '\0',
{
    let l = to_lf(t);
    assert(l.len() == 0 || l.last() != '\0');
}

/// The encoding of text not ending in NUL does not end in a zero unit.
pub proof fn lemma_encoding_last_nonzero(y: Seq<char>)
    requires
        y.len() == 0 || y.last() != '\0',
    ensures
        trim_trailing_zero_units(encode_utf16(y).push(0u16)) == encode_utf16(y),
{
    let e = encode_utf16(y);
    assert(e.push(0u16).drop_last() =~= e);
    if y.len() > 0 {
        let c = y.last();
        lemma_encode_utf16_push(y.drop_last(), c);
        assert(y.drop_last().push(c) =~= y);
        vstd::utf8::char_is_scalar(c);
        assert(c as u32 != 0) by {
            if c as u32 == 0 {
                vstd::utf8::char_u32_cast(c, 0);
                vstd::utf8::char_u32_cast('\0', 0);
            }
        }
        assert(utf16_units(c).last() != 0);
        assert(e.last() == utf16_units(c).last());
        assert(trim_trailing_zero_units(e) == e);
    } else {
        assert(e =~= Seq::<u16>::empty());
        assert(trim_trailing_zero_units(e) == e);
    }
}

/// Host text survives the wire round trip up to its line endings, which come
/// back as LF; text ending in NUL is left out, since the terminator
/// convention cannot carry a trailing NUL.
pub proof fn lemma_unicode_text_roundtrip(t: Seq<char>)
    requires
        t.len() == 0 || t.last() != '\0',
    ensures
        unicode_text(unicode_text_bytes(t)) == Ok::<Seq<char>, UnicodeTextError>(to_lf(t)),
{
    let y = to_crlf(to_lf(t));
    let units = encode_utf16(y).push(0u16);
    lemma_le_units_roundtrip(units);
    assert(units_le_bytes(units).len() % 2 == 0);
    lemma_last_not_nul(t);
    lemma_encoding_last_nonzero(y);
    lemma_decode_encode_utf16(y);
    lemma_to_lf_no_cr(t);
    lemma_to_lf_to_crlf(to_lf(t));
}

} // verus!
