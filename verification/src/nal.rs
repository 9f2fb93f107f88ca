//! H.264 bitstreams: access units of the hardware encoder, whose NAL units
//! carry big-endian length prefixes, turned into the start-code form sent
//! to clients, and a summary of the NAL units of a start-code stream.

use vstd::prelude::*;
use crate::bytes::{read_be32, get_be32, extend_from_range};

verus! {

/// The four-byte start code put before every NAL unit.
pub open spec fn start_code() -> Seq<u8> {
    seq![0u8, 0u8, 0u8, 1u8]
}

/// The NAL unit type in the first byte of a unit.
pub open spec fn nal_type(first: u8) -> u8 {
    first & 0x1F
}

/// Unit types that reach the client: slices (1), IDR slices (5), sequence
/// (7) and picture (8) parameter sets. SEI, delimiters and filler are left
/// out, since some decoders reset their reference buffers on the encoder's
/// SEI.
pub open spec fn kept_nal_type(t: u8) -> bool {
    t == 1 || t == 5 || t == 7 || t == 8
}

/// Whether the walk over the length-prefixed units of `data` from `offset`
/// on reads only within the data and moves forward: every prefix that fits
/// is followed by the four bytes of its big-endian length, and no unit is
/// an empty unit behind an empty prefix. With `stop_at_idr` the walk ends
/// at the first IDR slice.
pub open spec fn avcc_walk_ok(data: Seq<u8>, len_size: nat, offset: nat, stop_at_idr: bool) -> bool
    decreases data.len() - offset,
{
    if offset + len_size <= data.len() {
        if offset + 4 > data.len() {
            false
        } else {
            let n = read_be32(data, offset as int);
            let start = offset + len_size;
            if start + n > data.len() {
                true
            } else if stop_at_idr && n > 0 && nal_type(data[start as int]) == 5 {
                true
            } else if start + n <= offset {
                false
            } else {
                avcc_walk_ok(data, len_size, start + n, stop_at_idr)
            }
        }
    } else {
        true
    }
}

/// Prefixes of at least four bytes always make a sound walk.
pub proof fn lemma_avcc_walk_ok(data: Seq<u8>, len_size: nat, offset: nat, stop_at_idr: bool)
    requires
        len_size >= 4,
    ensures
        avcc_walk_ok(data, len_size, offset, stop_at_idr),
    decreases data.len() - offset,
{
    if offset + len_size <= data.len() {
        let n = read_be32(data, offset as int);
        let start = offset + len_size;
        if start + n <= data.len() {
            lemma_avcc_walk_ok(data, len_size, start + n, stop_at_idr);
        }
    }
}

/// Whether the length-prefixed units of `data` from `offset` on hold an
/// IDR slice. Each prefix takes `len_size` bytes, of which the first four
/// are read as a big-endian length; the walk stops at a unit that does not
/// fit.
pub open spec fn avcc_has_idr(data: Seq<u8>, len_size: nat, offset: nat) -> bool
    decreases data.len() - offset,
{
    if offset + len_size <= data.len() && offset + 4 <= data.len() {
        let n = read_be32(data, offset as int);
        let start = offset + len_size;
        if start + n > data.len() {
            false
        } else if n > 0 && nal_type(data[start as int]) == 5 {
            true
        } else if start + n <= offset {
            false
        } else {
            avcc_has_idr(data, len_size, start + n)
        }
    } else {
        false
    }
}

/// The start-code form of the kept units of `data` from `offset` on.
pub open spec fn avcc_units_annex_b(data: Seq<u8>, len_size: nat, offset: nat) -> Seq<u8>
    decreases data.len() - offset,
{
    if offset + len_size <= data.len() && offset + 4 <= data.len() {
        let n = read_be32(data, offset as int);
        let start = offset + len_size;
        if start + n > data.len() || start + n <= offset {
            seq![]
        } else {
            let unit = if n > 0 && kept_nal_type(nal_type(data[start as int])) {
                start_code() + data.subrange(start as int, (start + n) as int)
            } else {
                seq![]
            };
            unit + avcc_units_annex_b(data, len_size, start + n)
        }
    } else {
        seq![]
    }
}

/// Parameter sets, each after a start code, in order.
pub open spec fn param_sets_annex_b(sets: Seq<Seq<u8>>) -> Seq<u8>
    decreases sets.len(),
{
    if sets.len() == 0 {
        seq![]
    } else {
        param_sets_annex_b(sets.drop_last()) + start_code() + sets.last()
    }
}

/// The length-prefix size the format description reports, or four when it
/// reports none.
pub fn nal_length_size(header_len: i32) -> (n: usize)
    ensures
        n == (if header_len > 0 { header_len as int } else { 4 }),
{
    if header_len > 0 {
        header_len as usize
    } else {
        4
    }
}

/// Whether a length-prefixed access unit holds an IDR slice, that is,
/// whether it is a keyframe.
pub fn avcc_contains_idr(data: &[u8], nal_len_size: usize) -> (b: bool)
    requires
        avcc_walk_ok(data@, nal_len_size as nat, 0, true),
    ensures
        b == avcc_has_idr(data@, nal_len_size as nat, 0),
{
    let total = data.len();
    let mut offset: usize = 0;
    while offset <= total && nal_len_size <= total - offset
        invariant
            total == data@.len(),
            offset <= total,
            avcc_walk_ok(data@, nal_len_size as nat, offset as nat, true),
            avcc_has_idr(data@, nal_len_size as nat, offset as nat) == avcc_has_idr(data@, nal_len_size as nat, 0),
        decreases total - offset,
    {
        let n = get_be32(data, offset) as usize;
        let start = offset + nal_len_size;
        if n > total - start {
            return false;
        }
        if n > 0 && data[start] & 0x1F == 5 {
            return true;
        }
        offset = start + n;
    }
    false
}

/// Appends a start code to `out`.
fn push_start_code(out: &mut Vec<u8>)
    ensures
        final(out)@ == old(out)@ + start_code(),
{
    let ghost before = out@;
    out.push(0);
    out.push(0);
    out.push(0);
    out.push(1);
    assert(out@ =~= before + start_code());
}

/// An encoded access unit in start-code form: for a keyframe the parameter
/// sets `param_sets` first, then every kept unit of `data`. Also says
/// whether it is a keyframe.
pub fn avcc_to_annex_b(data: &[u8], nal_len_size: usize, param_sets: &Vec<Vec<u8>>) -> (r: (Vec<u8>, bool))
    requires
        avcc_walk_ok(data@, nal_len_size as nat, 0, true),
        avcc_walk_ok(data@, nal_len_size as nat, 0, false),
    ensures
        r.1 == avcc_has_idr(data@, nal_len_size as nat, 0),
        r.0@ == (if r.1 {
            param_sets_annex_b(param_sets@.map_values(|p: Vec<u8>| p@))
        } else {
            Seq::<u8>::empty()
        }) + avcc_units_annex_b(data@, nal_len_size as nat, 0),
{
    let is_keyframe = avcc_contains_idr(data, nal_len_size);
    let ghost sets = param_sets@.map_values(|p: Vec<u8>| p@);
    let mut out: Vec<u8> = Vec::new();
    if is_keyframe {
        let mut k: usize = 0;
        while k < param_sets.len()
            invariant
                k <= param_sets@.len(),
                sets == param_sets@.map_values(|p: Vec<u8>| p@),
                out@ == param_sets_annex_b(sets.take(k as int)),
            decreases param_sets.len() - k,
        {
            push_start_code(&mut out);
            let p = &param_sets[k];
            extend_from_range(&mut out, p.as_slice(), 0, p.len());
            proof {
                assert(sets.take(k + 1).drop_last() =~= sets.take(k as int));
                assert(p@.subrange(0, p@.len() as int) =~= p@);
            }
            k = k + 1;
        }
        proof {
            assert(sets.take(param_sets@.len() as int) =~= sets);
        }
    }
    let ghost head = out@;
    assert(head == (if is_keyframe {
        param_sets_annex_b(param_sets@.map_values(|p: Vec<u8>| p@))
    } else {
        Seq::<u8>::empty()
    }));
    let total = data.len();
    let mut offset: usize = 0;
    while offset <= total && nal_len_size <= total - offset
        invariant
            total == data@.len(),
            offset <= total,
            avcc_walk_ok(data@, nal_len_size as nat, offset as nat, false),
            out@ + avcc_units_annex_b(data@, nal_len_size as nat, offset as nat) == head
                + avcc_units_annex_b(data@, nal_len_size as nat, 0),
        ensures
            out@ == head + avcc_units_annex_b(data@, nal_len_size as nat, 0),
        decreases total - offset,
    {
        let ghost before = out@;
        let n = get_be32(data, offset) as usize;
        let start = offset + nal_len_size;
        if n > total - start {
            assert(avcc_units_annex_b(data@, nal_len_size as nat, offset as nat) == Seq::<u8>::empty());
            assert(out@ + Seq::<u8>::empty() =~= out@);
            break;
        }
        if n > 0 && (data[start] & 0x1F == 1 || data[start] & 0x1F == 5 || data[start] & 0x1F == 7
            || data[start] & 0x1F == 8) {
            push_start_code(&mut out);
            extend_from_range(&mut out, data, start, start + n);
        }
        proof {
            let rest = avcc_units_annex_b(data@, nal_len_size as nat, (start + n) as nat);
            let unit = out@.subrange(before.len() as int, out@.len() as int);
            assert(out@ =~= before + unit);
            assert(avcc_units_annex_b(data@, nal_len_size as nat, offset as nat) == unit + rest);
            assert(before + (unit + rest) =~= (before + unit) + rest);
        }
        offset = start + n;
    }
    proof {
        assert(out@ + Seq::<u8>::empty() =~= out@);
    }
    (out, is_keyframe)
}

/// Outcome of one encoder callback that brought no frame.
#[derive(Debug, Clone, Copy, PartialEq, Eq, Structural)]
pub enum EncodeCallbackFailure {
    /// The encoder dropped the frame on purpose (rate control or input
    /// checks), with no error status.
    FrameDropped,
    /// An error status, or no sample buffer, without the dropped flag.
    Failed,
}

/// The encoder's "frame dropped" information flag.
pub const ENCODE_INFO_FRAME_DROPPED: u32 = 0x2;

/// How to read an encoder callback: `None` when it carries a frame (zero
/// status and a sample buffer), else why it does not.
pub fn encode_callback_failure(status: i32, buffer_missing: bool, info_flags: u32) -> (r: Option<
    EncodeCallbackFailure,
>)
    ensures
        r == (if status == 0 && !buffer_missing {
            None
        } else if info_flags & ENCODE_INFO_FRAME_DROPPED != 0 {
            Some(EncodeCallbackFailure::FrameDropped)
        } else {
            Some(EncodeCallbackFailure::Failed)
        }),
{
    if status == 0 && !buffer_missing {
        None
    } else if info_flags & ENCODE_INFO_FRAME_DROPPED != 0 {
        Some(EncodeCallbackFailure::FrameDropped)
    } else {
        Some(EncodeCallbackFailure::Failed)
    }
}

// ---------------------------------------------------------------------------
// Summary of a start-code stream
// ---------------------------------------------------------------------------

/// Whether a start code stands at `i` of `d`.
pub open spec fn start_code_at(d: Seq<u8>, i: int) -> bool {
    d[i] == 0 && d[i + 1] == 0 && d[i + 2] == 0 && d[i + 3] == 1
}

/// The types of the NAL units found from `scan` on: the scan looks for a
/// start code with at least one byte after it, takes the type of that byte,
/// and goes on from it.
pub open spec fn scanned_nal_types(d: Seq<u8>, scan: nat) -> Seq<u8>
    decreases d.len() - scan,
{
    if scan + 4 < d.len() {
        if start_code_at(d, scan as int) {
            seq![nal_type(d[(scan + 4) as int])] + scanned_nal_types(d, scan + 4)
        } else {
            scanned_nal_types(d, scan + 1)
        }
    } else {
        seq![]
    }
}

/// Profile, constraint flags and level of the last sequence parameter set
/// found from `scan` on whose three bytes after the header are present.
pub open spec fn scanned_sps_profile(d: Seq<u8>, scan: nat) -> Option<(u8, u8, u8)>
    decreases d.len() - scan,
{
    if scan + 4 < d.len() {
        if start_code_at(d, scan as int) {
            let s = scan + 4;
            let later = scanned_sps_profile(d, s);
            if later is Some {
                later
            } else if nal_type(d[s as int]) == 7 && s + 3 < d.len() {
                Some((d[(s + 1) as int], d[(s + 2) as int], d[(s + 3) as int]))
            } else {
                None
            }
        } else {
            scanned_sps_profile(d, scan + 1)
        }
    } else {
        None
    }
}

/// The NAL units of an encoded frame, for diagnostics.
pub struct NalSummary {
    /// Unit types, in stream order.
    pub nal_types: Vec<u8>,
    /// Profile, constraint flags and level of the last sequence parameter set.
    pub profile: Option<(u8, u8, u8)>,
}

/// The NAL unit types and the stream profile of a start-code stream.
pub fn summarize_nal_units(nal_data: &[u8]) -> (s: NalSummary)
    ensures
        s.nal_types@ == scanned_nal_types(nal_data@, 0),
        s.profile == scanned_sps_profile(nal_data@, 0),
{
    let ghost d = nal_data@;
    let len = nal_data.len();
    let mut types: Vec<u8> = Vec::new();
    let mut profile: Option<(u8, u8, u8)> = None;
    let mut scan: usize = 0;
    while scan < len && len - scan > 4
        invariant
            len == d.len(),
            d == nal_data@,
            scan <= len,
            types@ + scanned_nal_types(d, scan as nat) == scanned_nal_types(d, 0),
            (match scanned_sps_profile(d, scan as nat) {
                Some(p) => Some(p),
                None => profile,
            }) == scanned_sps_profile(d, 0),
        decreases len - scan,
    {
        if nal_data[scan] == 0 && nal_data[scan + 1] == 0 && nal_data[scan + 2] == 0 && nal_data[scan
            + 3] == 1 {
            let s = scan + 4;
            let t = nal_data[s] & 0x1F;
            let ghost before = types@;
            types.push(t);
            proof {
                assert(before + scanned_nal_types(d, scan as nat) =~= types@ + scanned_nal_types(
                    d,
                    s as nat,
                ));
            }
            if t == 7 && len - s > 3 {
                profile = Some((nal_data[s + 1], nal_data[s + 2], nal_data[s + 3]));
            }
            scan = s;
        } else {
            scan = scan + 1;
        }
    }
    NalSummary { nal_types: types, profile }
}

/// Readable name of a NAL unit type.
pub fn nal_type_name(t: u8) -> (name: &'static str)
    ensures
        name@ == (if t == 1 {
            "P-slice"@
        } else if t == 5 {
            "IDR"@
        } else if t == 6 {
            "SEI"@
        } else if t == 7 {
            "SPS"@
        } else if t == 8 {
            "PPS"@
        } else if t == 9 {
            "AUD"@
        } else {
            "other"@
        }),
{
    match t {
        1 => "P-slice",
        5 => "IDR",
        6 => "SEI",
        7 => "SPS",
        8 => "PPS",
        9 => "AUD",
        _ => "other",
    }
}

/// Readable name of an H.264 profile.
pub fn profile_name(profile_idc: u8) -> (name: &'static str)
    ensures
        name@ == (if profile_idc == 66 {
            "Baseline"@
        } else if profile_idc == 77 {
            "Main"@
        } else if profile_idc == 100 {
            "High"@
        } else {
            "Unknown"@
        }),
{
    match profile_idc {
        66 => "Baseline",
        77 => "Main",
        100 => "High",
        _ => "Unknown",
    }
}

} // verus!
