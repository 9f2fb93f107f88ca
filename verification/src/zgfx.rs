//! RDP_SEGMENTED_DATA (ZGFX) framing in uncompressed mode.
//!
//! Every graphics-pipeline PDU travels inside a segmented-data envelope: a
//! single segment (`0xE0`, compression type, payload) when the payload fits in
//! one segment, otherwise a multipart envelope (`0xE1`, segment count,
//! uncompressed size, then `size`-prefixed segments).

use vstd::prelude::*;

use crate::bytes::{
    extend_from_range, get_le16, get_le32, le16, le32, lemma_le16_roundtrip, lemma_le32_roundtrip,
    push_le16, push_le32, read_le16, read_le32,
};

verus! {

/// Descriptor of a single-segment envelope.
pub const ZGFX_SINGLE: u8 = 0xE0;

/// Descriptor of a multipart envelope.
pub const ZGFX_MULTIPART: u8 = 0xE1;

/// Compression type "uncompressed".
pub const ZGFX_UNCOMPRESSED: u8 = 0x04;

/// Largest payload of one segment; the 32-bit segment size also counts the
/// compression-type byte, so it stays at most 0xFFFF.
pub const MAX_SEG_DATA: usize = 65534;

/// Segments of a multipart envelope carrying `data`: each one is its size
/// (payload + 1), the compression type and up to `MAX_SEG_DATA` payload bytes.
pub open spec fn zgfx_segments(data: Seq<u8>) -> Seq<u8>
    decreases data.len(),
{
    if data.len() == 0 {
        seq![]
    } else {
        let n: int = if data.len() <= MAX_SEG_DATA {
            data.len() as int
        } else {
            MAX_SEG_DATA as int
        };
        le32((n + 1) as nat) + seq![ZGFX_UNCOMPRESSED] + data.take(n) + zgfx_segments(
            data.skip(n),
        )
    }
}

/// Number of segments needed for `len` payload bytes.
pub open spec fn segment_count(len: nat) -> nat {
    ((len + MAX_SEG_DATA - 1) as int / (MAX_SEG_DATA as int)) as nat
}

/// The envelope produced for `data`.  The multipart header stores the
/// segment count and the payload length truncated to 16 and 32 bits.
pub open spec fn spec_wrap_zgfx(data: Seq<u8>) -> Seq<u8> {
    if data.len() <= MAX_SEG_DATA {
        seq![ZGFX_SINGLE, ZGFX_UNCOMPRESSED] + data
    } else {
        seq![ZGFX_MULTIPART] + le16(segment_count(data.len())) + le32(data.len()) + zgfx_segments(
            data,
        )
    }
}

/// Payload recovered from the segments in `rest`, reading at most `count`
/// segments and stopping at the first truncated header or compressed segment.
pub open spec fn parse_segments(rest: Seq<u8>, count: nat) -> Seq<u8>
    decreases count,
{
    if count == 0 || rest.len() < 4 {
        seq![]
    } else {
        let size = read_le32(rest, 0);
        let after = rest.skip(4);
        if after.len() > 0 && after[0] == ZGFX_UNCOMPRESSED && size >= 1 {
            let body = after.skip(1);
            let take: int = if size - 1 <= body.len() {
                size - 1
            } else {
                body.len() as int
            };
            body.take(take) + parse_segments(body.skip(take), (count - 1) as nat)
        } else {
            seq![]
        }
    }
}

/// Whether reading the segments in `rest` reaches an uncompressed segment
/// that declares size 0, whose payload range would end before it starts.
pub open spec fn segments_have_empty_size(rest: Seq<u8>, count: nat) -> bool
    decreases count,
{
    if count == 0 || rest.len() < 4 {
        false
    } else {
        let size = read_le32(rest, 0);
        let after = rest.skip(4);
        if after.len() > 0 && after[0] == ZGFX_UNCOMPRESSED {
            if size == 0 {
                true
            } else {
                let body = after.skip(1);
                let take: int = if size - 1 <= body.len() {
                    size - 1
                } else {
                    body.len() as int
                };
                segments_have_empty_size(body.skip(take), (count - 1) as nat)
            }
        } else {
            false
        }
    }
}

/// Payload of an envelope, or `None` when `data` is not an uncompressed
/// segmented-data envelope.
pub open spec fn spec_unwrap_zgfx(data: Seq<u8>) -> Option<Seq<u8>> {
    if data.len() == 0 {
        None
    } else if data[0] == ZGFX_SINGLE {
        if data.len() > 2 && data[1] == ZGFX_UNCOMPRESSED {
            Some(data.skip(2))
        } else {
            None
        }
    } else if data[0] == ZGFX_MULTIPART {
        if data.len() < 7 {
            None
        } else {
            Some(parse_segments(data.skip(7), read_le16(data, 1)))
        }
    } else {
        None
    }
}

/// Whether unwrapping `data` meets an uncompressed segment of declared size 0
/// (the only envelopes on which unwrapping has no defined result).
pub open spec fn unwrap_meets_empty_segment(data: Seq<u8>) -> bool {
    data.len() >= 7 && data[0] == ZGFX_MULTIPART && segments_have_empty_size(
        data.skip(7),
        read_le16(data, 1),
    )
}

/// Wraps a PDU payload in a segmented-data envelope.
pub fn wrap_zgfx(data: &[u8]) -> (out: Vec<u8>)
    ensures
        out@ == spec_wrap_zgfx(data@),
{
    let len = data.len();
    let mut out: Vec<u8> = Vec::new();
    if len <= MAX_SEG_DATA {
        out.push(ZGFX_SINGLE);
        out.push(ZGFX_UNCOMPRESSED);
        extend_from_range(&mut out, data, 0, len);
        assert(data@.subrange(0, len as int) == data@);
        out
    } else {
        out.push(ZGFX_MULTIPART);
        push_le16(&mut out, segment_count_u16(len));
        push_le32(&mut out, len_u32(len));
        push_zgfx_segments(&mut out, data);
        out
    }
}

/// Segment count for `len` payload bytes, truncated to 16 bits.
fn segment_count_u16(len: usize) -> (c: u16)
    ensures
        le16(c as nat) == le16(segment_count(len as nat)),
{
    let seg_count: usize = len / MAX_SEG_DATA + (if len % MAX_SEG_DATA == 0 {
        0usize
    } else {
        1usize
    });
    proof {
        lemma_ceil_div(len as nat, MAX_SEG_DATA as nat);
        assert(seg_count == segment_count(len as nat));
        assert((seg_count % 65536) % 256 == seg_count % 256) by {
            vstd::arithmetic::div_mod::lemma_mod_mod(seg_count as int, 256, 256);
        }
        lemma_div_mod_16(seg_count as nat);
    }
    (seg_count % 65536) as u16
}

proof fn lemma_div_mod_16(v: nat)
    ensures
        ((v % 65536) / 256) % 256 == (v / 256) % 256,
{
    vstd::arithmetic::div_mod::lemma_mod_breakdown(v as int, 256, 256);
    vstd::arithmetic::div_mod::lemma_mod_pos_bound(v as int, 256);
    vstd::arithmetic::div_mod::lemma_mod_pos_bound((v / 256) as int, 256);
    vstd::arithmetic::div_mod::lemma_fundamental_div_mod_converse(
        (v % 65536) as int,
        256,
        ((v / 256) % 256) as int,
        (v % 256) as int,
    );
    vstd::arithmetic::div_mod::lemma_mod_twice((v / 256) as int, 256);
}

/// Payload length truncated to 32 bits.
fn len_u32(len: usize) -> (l: u32)
    ensures
        le32(l as nat) == le32(len as nat),
{
    proof {
        lemma_le32_mod(len as nat);
    }
    ((len as u64) % 0x1_0000_0000u64) as u32
}

/// Appends the multipart segments carrying `data` to `out`.
fn push_zgfx_segments(out: &mut Vec<u8>, data: &[u8])
    ensures
        final(out)@ == old(out)@ + zgfx_segments(data@),
{
    let len = data.len();
    let mut off: usize = 0;
    assert(data@.skip(0) == data@);
    while off < len
        invariant
            off <= len == data@.len(),
            old(out)@ + zgfx_segments(data@) == out@ + zgfx_segments(data@.skip(off as int)),
        decreases len - off,
    {
        let rem = len - off;
        let n: usize = if rem <= MAX_SEG_DATA {
            rem
        } else {
            MAX_SEG_DATA
        };
        let ghost rest = data@.skip(off as int);
        assert(zgfx_segments(rest) == le32((n + 1) as nat) + seq![ZGFX_UNCOMPRESSED] + rest.take(
            n as int,
        ) + zgfx_segments(rest.skip(n as int)));
        assert(rest.take(n as int) == data@.subrange(off as int, (off + n) as int));
        assert(rest.skip(n as int) == data@.skip((off + n) as int));
        let ghost before = out@;
        push_le32(out, (n + 1) as u32);
        out.push(ZGFX_UNCOMPRESSED);
        extend_from_range(out, data, off, off + n);
        assert(out@ == before + le32((n + 1) as nat) + seq![ZGFX_UNCOMPRESSED] + rest.take(
            n as int,
        ));
        off = off + n;
    }
    assert(data@.skip(len as int) == Seq::<u8>::empty());
    assert(zgfx_segments(data@.skip(len as int)) == Seq::<u8>::empty());
    assert(out@ + Seq::<u8>::empty() == out@);
}

proof fn lemma_ceil_div(len: nat, d: nat)
    requires
        d > 0,
    ensures
        len / d + (if len % d == 0 {
            0nat
        } else {
            1nat
        }) == (len + d - 1) as int / (d as int),
{
    vstd::arithmetic::div_mod::lemma_fundamental_div_mod(len as int, d as int);
    let q = len / d;
    let r = len % d;
    assert(len == q * d + r) by (nonlinear_arith)
        requires
            len == d * q + r,
    ;
    if r == 0 {
        assert(len + d - 1 == q * d + (d - 1));
        vstd::arithmetic::div_mod::lemma_fundamental_div_mod_converse(
            (len + d - 1) as int,
            d as int,
            q as int,
            (d - 1) as int,
        );
    } else {
        assert(len + d - 1 == (q + 1) * d + (r - 1)) by (nonlinear_arith)
            requires
                len == q * d + r,
                r >= 1,
        ;
        vstd::arithmetic::div_mod::lemma_fundamental_div_mod_converse(
            (len + d - 1) as int,
            d as int,
            (q + 1) as int,
            (r - 1) as int,
        );
    }
}

proof fn lemma_le32_mod(v: nat)
    ensures
        le32(v % 0x1_0000_0000) == le32(v),
{
    let m = v % 0x1_0000_0000;
    assert(m % 256 == v % 256) by {
        vstd::arithmetic::div_mod::lemma_mod_mod(v as int, 256, 16777216);
    }
    assert((m / 256) % 256 == (v / 256) % 256) by {
        lemma_div_mod_shift(v, 256, 16777216);
    }
    assert((m / 65536) % 256 == (v / 65536) % 256) by {
        lemma_div_mod_shift(v, 65536, 65536);
    }
    assert((m / 16777216) % 256 == (v / 16777216) % 256) by {
        lemma_div_mod_shift(v, 16777216, 256);
    }
}

/// `(v % (a*b)) / a % 256 == (v / a) % 256` when `b` is a multiple of 256.
proof fn lemma_div_mod_shift(v: nat, a: nat, b: nat)
    requires
        a > 0,
        b > 0,
        b % 256 == 0,
        a * b == 0x1_0000_0000,
    ensures
        ((v % 0x1_0000_0000) / a) % 256 == (v / a) % 256,
{
    vstd::arithmetic::div_mod::lemma_mod_breakdown(v as int, a as int, b as int);
    vstd::arithmetic::div_mod::lemma_mod_pos_bound(v as int, a as int);
    vstd::arithmetic::div_mod::lemma_mod_pos_bound((v / a) as int, b as int);
    let q = (v / a) % b;
    assert(a * q == q * a) by (nonlinear_arith);
    vstd::arithmetic::div_mod::lemma_fundamental_div_mod_converse(
        (v % (a * b)) as int,
        a as int,
        ((v / a) % b) as int,
        (v % a) as int,
    );
    assert(b == 256 * (b / 256));
    vstd::arithmetic::div_mod::lemma_mod_mod((v / a) as int, 256, (b / 256) as int);
}

/// Whether [`unwrap_zgfx`] meets an uncompressed segment of declared size 0.
pub fn zgfx_has_empty_segment(data: &[u8]) -> (b: bool)
    ensures
        b == unwrap_meets_empty_segment(data@),
{
    let len = data.len();
    if len < 7 || data[0] != ZGFX_MULTIPART {
        return false;
    }
    let seg_count = get_le16(data, 1);
    assert(unwrap_meets_empty_segment(data@) == segments_have_empty_size(
        data@.skip(7),
        seg_count as nat,
    ));
    let mut off: usize = 7;
    let mut i: u16 = 0;
    while i < seg_count
        invariant
            7 <= off <= len == data@.len(),
            i <= seg_count,
            seg_count == read_le16(data@, 1),
            unwrap_meets_empty_segment(data@) == segments_have_empty_size(
                data@.skip(7),
                seg_count as nat,
            ),
            segments_have_empty_size(data@.skip(7), seg_count as nat) == segments_have_empty_size(
                data@.skip(off as int),
                (seg_count - i) as nat,
            ),
        decreases seg_count - i,
    {
        let ghost rest = data@.skip(off as int);
        let ghost cnt = (seg_count - i) as nat;
        assert(rest.len() == len - off);
        if len - off < 4 {
            assert(!segments_have_empty_size(rest, cnt));
            return false;
        }
        let size = get_le32(data, off);
        assert(read_le32(rest, 0) == size);
        let hdr = off;
        off = off + 4;
        assert(rest.skip(4) == data@.skip(off as int));
        if !(off < len && data[off] == ZGFX_UNCOMPRESSED) {
            assert(rest.skip(4).len() > 0 ==> rest.skip(4)[0] == data@[off as int]);
            assert(!segments_have_empty_size(rest, cnt));
            return false;
        }
        assert(rest.skip(4)[0] == data@[off as int]);
        if size == 0 {
            assert(segments_have_empty_size(rest, cnt));
            return true;
        }
        off = off + 1;
        let body_len = len - off;
        let take: usize = if (size - 1) as usize <= body_len {
            (size - 1) as usize
        } else {
            body_len
        };
        assert(rest.skip(4).skip(1) == data@.skip(off as int));
        assert(data@.skip(off as int).skip(take as int) == data@.skip((off + take) as int));
        assert(segments_have_empty_size(rest, cnt) == segments_have_empty_size(
            data@.skip((off + take) as int),
            (cnt - 1) as nat,
        ));
        off = off + take;
        i = i + 1;
    }
    false
}

/// Extracts the payload of a segmented-data envelope received from a client;
/// `None` when `data` is not an uncompressed envelope.
pub fn unwrap_zgfx(data: &[u8]) -> (r: Option<Vec<u8>>)
    requires
        !unwrap_meets_empty_segment(data@),
    ensures
        match r {
            Some(v) => spec_unwrap_zgfx(data@) == Some(v@),
            None => spec_unwrap_zgfx(data@) is None,
        },
{
    let len = data.len();
    if len == 0 {
        return None;
    }
    if data[0] == ZGFX_SINGLE {
        if len > 2 && data[1] == ZGFX_UNCOMPRESSED {
            let mut out: Vec<u8> = Vec::new();
            extend_from_range(&mut out, data, 2, len);
            assert(data@.subrange(2, len as int) == data@.skip(2));
            return Some(out);
        } else {
            return None;
        }
    }
    if data[0] != ZGFX_MULTIPART {
        return None;
    }
    if len < 7 {
        return None;
    }
    let seg_count = get_le16(data, 1);
    assert(spec_unwrap_zgfx(data@) == Some(parse_segments(data@.skip(7), seg_count as nat)));
    let mut off: usize = 7;
    let mut i: u16 = 0;
    let mut out: Vec<u8> = Vec::new();
    while i < seg_count
        invariant
            7 <= off <= len == data@.len(),
            i <= seg_count,
            seg_count == read_le16(data@, 1),
            spec_unwrap_zgfx(data@) == Some(parse_segments(data@.skip(7), seg_count as nat)),
            !segments_have_empty_size(data@.skip(off as int), (seg_count - i) as nat),
            parse_segments(data@.skip(7), seg_count as nat) == out@ + parse_segments(
                data@.skip(off as int),
                (seg_count - i) as nat,
            ),
        decreases seg_count - i,
    {
        let ghost rest = data@.skip(off as int);
        let ghost cnt = (seg_count - i) as nat;
        assert(rest.len() == len - off);
        if len - off < 4 {
            assert(parse_segments(rest, cnt) == Seq::<u8>::empty());
            assert(out@ + Seq::<u8>::empty() == out@);
            return Some(out);
        }
        let size = get_le32(data, off);
        assert(read_le32(rest, 0) == size);
        off = off + 4;
        assert(rest.skip(4) == data@.skip(off as int));
        if !(off < len && data[off] == ZGFX_UNCOMPRESSED) {
            assert(rest.skip(4).len() > 0 ==> rest.skip(4)[0] == data@[off as int]);
            assert(parse_segments(rest, cnt) == Seq::<u8>::empty());
            assert(out@ + Seq::<u8>::empty() == out@);
            return Some(out);
        }
        assert(rest.skip(4)[0] == data@[off as int]);
        assert(size >= 1);
        off = off + 1;
        let body_len = len - off;
        let take: usize = if (size - 1) as usize <= body_len {
            (size - 1) as usize
        } else {
            body_len
        };
        let ghost body = data@.skip(off as int);
        assert(rest.skip(4).skip(1) == body);
        assert(body.take(take as int) == data@.subrange(off as int, (off + take) as int));
        assert(body.skip(take as int) == data@.skip((off + take) as int));
        assert(parse_segments(rest, cnt) == body.take(take as int) + parse_segments(
            body.skip(take as int),
            (cnt - 1) as nat,
        ));
        assert(!segments_have_empty_size(body.skip(take as int), (cnt - 1) as nat));
        extend_from_range(&mut out, data, off, off + take);
        off = off + take;
        i = i + 1;
    }
    assert(out@ + Seq::<u8>::empty() == out@);
    Some(out)
}

proof fn lemma_parse_wrapped_segments(d: Seq<u8>, extra: Seq<u8>)
    ensures
        parse_segments(zgfx_segments(d) + extra, segment_count(d.len())) == d,
        !segments_have_empty_size(zgfx_segments(d) + extra, segment_count(d.len())),
    decreases d.len(),
{
    if d.len() == 0 {
        assert(segment_count(0) == 0) by {
            assert(((MAX_SEG_DATA - 1) as nat) / (MAX_SEG_DATA as nat) == 0);
        }
    } else {
        let n: int = if d.len() <= MAX_SEG_DATA {
            d.len() as int
        } else {
            MAX_SEG_DATA as int
        };
        let tail = d.skip(n);
        let whole = zgfx_segments(d) + extra;
        assert(zgfx_segments(d) == le32((n + 1) as nat) + seq![ZGFX_UNCOMPRESSED] + d.take(n)
            + zgfx_segments(tail));
        lemma_le32_roundtrip((n + 1) as nat);
        assert(read_le32(whole, 0) == read_le32(le32((n + 1) as nat), 0));
        assert(whole.skip(4) == seq![ZGFX_UNCOMPRESSED] + d.take(n) + zgfx_segments(tail)
            + extra);
        let body = whole.skip(4).skip(1);
        assert(body == d.take(n) + (zgfx_segments(tail) + extra));
        assert(body.take(n) == d.take(n));
        assert(body.skip(n) == zgfx_segments(tail) + extra);
        assert(segment_count(d.len()) == segment_count(tail.len()) + 1) by {
            if d.len() <= MAX_SEG_DATA {
                assert(tail.len() == 0);
                assert(segment_count(0) == 0) by {
                    assert(((MAX_SEG_DATA - 1) as nat) / (MAX_SEG_DATA as nat) == 0);
                }
                assert(segment_count(d.len()) == 1) by {
                    assert(((d.len() + MAX_SEG_DATA - 1) as nat) / (MAX_SEG_DATA as nat) == 1)
                        by (nonlinear_arith)
                        requires
                            1 <= d.len() <= MAX_SEG_DATA,
                    {
                        vstd::arithmetic::div_mod::lemma_div_is_ordered(
                            MAX_SEG_DATA as int,
                            (d.len() + MAX_SEG_DATA - 1) as int,
                            MAX_SEG_DATA as int,
                        );
                    }
                }
            } else {
                assert(tail.len() == d.len() - MAX_SEG_DATA);
                vstd::arithmetic::div_mod::lemma_div_plus_one(
                    (tail.len() + MAX_SEG_DATA - 1) as int,
                    MAX_SEG_DATA as int,
                );
                assert((tail.len() + MAX_SEG_DATA - 1) + MAX_SEG_DATA == d.len() + MAX_SEG_DATA - 1);
            }
        }
        lemma_parse_wrapped_segments(tail, extra);
        assert(d.take(n) + tail == d);
    }
}

/// The envelope header describes the payload: a payload of at most
/// `MAX_SEG_DATA` bytes follows a single-segment header as it is; a longer
/// one gets a multipart header whose 16-bit segment count is the number of
/// `MAX_SEG_DATA`-byte segments needed (rounded up, modulo 2^16) and whose
/// 32-bit uncompressed size at offset 3 is the payload length (modulo 2^32).
pub proof fn lemma_zgfx_header(data: Seq<u8>)
    ensures
        data.len() <= MAX_SEG_DATA ==> spec_wrap_zgfx(data) == seq![ZGFX_SINGLE, ZGFX_UNCOMPRESSED] + data,
        data.len() > MAX_SEG_DATA ==> {
            let w = spec_wrap_zgfx(data);
            &&& w.len() >= 7
            &&& w[0] == ZGFX_MULTIPART
            &&& read_le16(w, 1) == ((data.len() + 65533) / 65534) % 0x1_0000
            &&& read_le32(w, 3) == data.len() % 0x1_0000_0000
        },
{
    if data.len() > MAX_SEG_DATA {
        let w = spec_wrap_zgfx(data);
        let c = segment_count(data.len());
        let n = data.len();
        assert(c == (n + 65533) / 65534);
        let cm = c % 0x1_0000;
        assert(cm % 256 == c % 256) by {
            vstd::arithmetic::div_mod::lemma_mod_mod(c as int, 256, 256);
        }
        lemma_div_mod_16(c);
        assert(le16(cm) == le16(c));
        lemma_le16_roundtrip(cm);
        lemma_le32_mod(n);
        lemma_le32_roundtrip(n % 0x1_0000_0000);
        assert(w[0] == ZGFX_MULTIPART);
        assert(read_le16(w, 1) == read_le16(le16(c), 0));
        assert(read_le32(w, 3) == read_le32(le32(n), 0));
    }
}

/// Segment `k` of the segments carrying `d` starts at byte `65539 * k`: its
/// size field holds its payload length plus one, then comes the
/// uncompressed type and payload bytes `65534 * k` onward, up to 65534 of
/// them.
proof fn lemma_segment_at(d: Seq<u8>, k: nat)
    requires
        65534 * k < d.len(),
    ensures
        ({
            let z = zgfx_segments(d);
            let off: int = (65539 * k) as int;
            let start: int = (65534 * k) as int;
            let m: int = if d.len() - start <= 65534 {
                d.len() - start
            } else {
                65534
            };
            &&& off + 5 + m <= z.len()
            &&& read_le32(z, off) == m + 1
            &&& z[off + 4] == ZGFX_UNCOMPRESSED
            &&& z.subrange(off + 5, off + 5 + m) == d.subrange(start, start + m)
        }),
    decreases d.len(),
{
    let n: int = if d.len() <= MAX_SEG_DATA {
        d.len() as int
    } else {
        MAX_SEG_DATA as int
    };
    let head = le32((n + 1) as nat) + seq![ZGFX_UNCOMPRESSED] + d.take(n);
    let tail = d.skip(n);
    let z = zgfx_segments(d);
    assert(z == head + zgfx_segments(tail));
    assert(head.len() == n + 5);
    if k == 0 {
        lemma_le32_roundtrip((n + 1) as nat);
        assert(read_le32(z, 0) == read_le32(le32((n + 1) as nat), 0));
        assert(z.subrange(5, 5 + n) =~= d.subrange(0, n));
    } else {
        assert(n == 65534);
        let k1 = (k - 1) as nat;
        assert(65534 * k1 < tail.len());
        lemma_segment_at(tail, k1);
        let zt = zgfx_segments(tail);
        let off: int = (65539 * k) as int;
        let off1: int = (65539 * k1) as int;
        let start1: int = (65534 * k1) as int;
        let m: int = if tail.len() - start1 <= 65534 {
            tail.len() - start1
        } else {
            65534
        };
        assert(off == 65539 + off1);
        assert(65534 * k == 65534 + start1);
        assert(z[off] == zt[off1]);
        assert(z[off + 1] == zt[off1 + 1]);
        assert(z[off + 2] == zt[off1 + 2]);
        assert(z[off + 3] == zt[off1 + 3]);
        assert(z[off + 4] == zt[off1 + 4]);
        assert(z.subrange(off + 5, off + 5 + m) =~= zt.subrange(off1 + 5, off1 + 5 + m));
        assert(tail.subrange(start1, start1 + m) =~= d.subrange(65534 + start1, 65534 + start1 + m));
    }
}

/// A multipart envelope is the 7-byte header and then segments of 65539
/// bytes apart: segment `k` has size field (payload length + 1), the
/// uncompressed type, and payload bytes `65534 * k` onward, 65534 of them
/// except in the last segment, which carries the rest.
pub proof fn lemma_zgfx_segment_layout(data: Seq<u8>, k: nat)
    requires
        data.len() > MAX_SEG_DATA,
        65534 * k < data.len(),
    ensures
        ({
            let w = spec_wrap_zgfx(data);
            let off: int = (7 + 65539 * k) as int;
            let start: int = (65534 * k) as int;
            let m: int = if data.len() - start <= 65534 {
                data.len() - start
            } else {
                65534
            };
            &&& off + 5 + m <= w.len()
            &&& read_le32(w, off) == m + 1
            &&& w[off + 4] == ZGFX_UNCOMPRESSED
            &&& w.subrange(off + 5, off + 5 + m) == data.subrange(start, start + m)
        }),
{
    lemma_segment_at(data, k);
    let w = spec_wrap_zgfx(data);
    let z = zgfx_segments(data);
    let hdr = seq![ZGFX_MULTIPART] + le16(segment_count(data.len())) + le32(data.len());
    assert(w == hdr + z);
    assert(hdr.len() == 7);
    let off0: int = (65539 * k) as int;
    let start: int = (65534 * k) as int;
    let m: int = if data.len() - start <= 65534 {
        data.len() - start
    } else {
        65534
    };
    assert(w[7 + off0] == z[off0]);
    assert(w[7 + off0 + 1] == z[off0 + 1]);
    assert(w[7 + off0 + 2] == z[off0 + 2]);
    assert(w[7 + off0 + 3] == z[off0 + 3]);
    assert(w[7 + off0 + 4] == z[off0 + 4]);
    assert(w.subrange(7 + off0 + 5, 7 + off0 + 5 + m) =~= z.subrange(off0 + 5, off0 + 5 + m));
}

/// Unwrapping what [`wrap_zgfx`] produced gives back the payload, for every
/// non-empty payload whose segment count fits the 16-bit header field.
pub proof fn lemma_zgfx_roundtrip(data: Seq<u8>)
    requires
        0 < data.len(),
        segment_count(data.len()) < 0x1_0000,
    ensures
        !unwrap_meets_empty_segment(spec_wrap_zgfx(data)),
        spec_unwrap_zgfx(spec_wrap_zgfx(data)) == Some(data),
{
    let w = spec_wrap_zgfx(data);
    if data.len() <= MAX_SEG_DATA {
        assert(w.skip(2) == data);
    } else {
        let c = segment_count(data.len());
        lemma_le16_roundtrip(c);
        assert(read_le16(w, 1) == c);
        assert(w.skip(7) == zgfx_segments(data) + Seq::<u8>::empty());
        lemma_parse_wrapped_segments(data, Seq::<u8>::empty());
    }
}

} // verus!
