//! Graphics-pipeline capability advertisement: a lenient parser that keeps
//! unknown capability versions, and the negotiation that picks the
//! capability set to confirm.

use vstd::prelude::*;

use crate::bytes::{extend_from_range, get_le16, get_le32, read_le16, read_le32};

verus! {

/// PDU type of a CapabilitiesAdvertise PDU.
pub const CAPS_ADVERTISE_PDU_TYPE: u16 = 0x0012;

pub const CAPVERSION_8: u32 = 0x0008_0004;
pub const CAPVERSION_81: u32 = 0x0008_0105;
pub const CAPVERSION_10: u32 = 0x000a_0002;
pub const CAPVERSION_101: u32 = 0x000a_0100;
pub const CAPVERSION_102: u32 = 0x000a_0200;
pub const CAPVERSION_103: u32 = 0x000a_0301;
pub const CAPVERSION_104: u32 = 0x000a_0400;
pub const CAPVERSION_105: u32 = 0x000a_0502;
pub const CAPVERSION_106: u32 = 0x000a_0600;
pub const CAPVERSION_106_ERR: u32 = 0x000a_0601;
pub const CAPVERSION_107: u32 = 0x000a_0701;

/// Flags defined for each capability version (MS-RDPEGFX): `THIN_CLIENT`
/// (0x1) and `SMALL_CACHE` (0x2) for 8; those and `AVC420_ENABLED` (0x10)
/// for 8.1; `SMALL_CACHE` and `AVC_DISABLED` (0x20) for 10 and 10.2;
/// `AVC_DISABLED` and `AVC_THIN_CLIENT` (0x40) for 10.3; `SMALL_CACHE`,
/// `AVC_DISABLED` and `AVC_THIN_CLIENT` for 10.4 to 10.6; those and
/// `SCALEDMAP_DISABLE` (0x80) for 10.7.  Other bits of a flag word are
/// dropped.
pub const CAPS_FLAGS_V8: u32 = 0x03;
pub const CAPS_FLAGS_V81: u32 = 0x13;
pub const CAPS_FLAGS_V10: u32 = 0x22;
pub const CAPS_FLAGS_V103: u32 = 0x60;
pub const CAPS_FLAGS_V104: u32 = 0x62;
pub const CAPS_FLAGS_V107: u32 = 0xE2;

/// `RDPGFX_CAPS_FLAG_AVC420_ENABLED` (version 8.1).
pub const CAPS_FLAG_AVC420_ENABLED: u32 = 0x10;

/// `RDPGFX_CAPS_FLAG_AVC_DISABLED` (versions 10 and later).
pub const CAPS_FLAG_AVC_DISABLED: u32 = 0x20;

/// One advertised capability set.  Known versions carry the defined bits
/// of their flag word (the first four body bytes, 0 when the body is
/// shorter); unknown versions keep their body.
#[derive(Debug, PartialEq, Eq)]
pub enum CapabilitySet {
    V8 { flags: u32 },
    V8_1 { flags: u32 },
    V10 { flags: u32 },
    V10_1,
    V10_2 { flags: u32 },
    V10_3 { flags: u32 },
    V10_4 { flags: u32 },
    V10_5 { flags: u32 },
    V10_6 { flags: u32 },
    V10_6Err { flags: u32 },
    V10_7 { flags: u32 },
    Unknown(Vec<u8>),
}

/// Mathematical form of a capability set.
pub enum CapSpec {
    V8 { flags: u32 },
    V8_1 { flags: u32 },
    V10 { flags: u32 },
    V10_1,
    V10_2 { flags: u32 },
    V10_3 { flags: u32 },
    V10_4 { flags: u32 },
    V10_5 { flags: u32 },
    V10_6 { flags: u32 },
    V10_6Err { flags: u32 },
    V10_7 { flags: u32 },
    Unknown(Seq<u8>),
}

impl View for CapabilitySet {
    type V = CapSpec;

    open spec fn view(&self) -> CapSpec {
        match self {
            CapabilitySet::V8 { flags } => CapSpec::V8 { flags: *flags },
            CapabilitySet::V8_1 { flags } => CapSpec::V8_1 { flags: *flags },
            CapabilitySet::V10 { flags } => CapSpec::V10 { flags: *flags },
            CapabilitySet::V10_1 => CapSpec::V10_1,
            CapabilitySet::V10_2 { flags } => CapSpec::V10_2 { flags: *flags },
            CapabilitySet::V10_3 { flags } => CapSpec::V10_3 { flags: *flags },
            CapabilitySet::V10_4 { flags } => CapSpec::V10_4 { flags: *flags },
            CapabilitySet::V10_5 { flags } => CapSpec::V10_5 { flags: *flags },
            CapabilitySet::V10_6 { flags } => CapSpec::V10_6 { flags: *flags },
            CapabilitySet::V10_6Err { flags } => CapSpec::V10_6Err { flags: *flags },
            CapabilitySet::V10_7 { flags } => CapSpec::V10_7 { flags: *flags },
            CapabilitySet::Unknown(body) => CapSpec::Unknown(body@),
        }
    }
}

/// Views of a list of capability sets.
pub open spec fn caps_view(caps: Seq<CapabilitySet>) -> Seq<CapSpec> {
    caps.map_values(|c: CapabilitySet| c@)
}

/// Flag word of a capability body: its first four bytes, or 0.
pub open spec fn flag_word(body: Seq<u8>) -> u32 {
    if body.len() >= 4 {
        read_le32(body, 0) as u32
    } else {
        0
    }
}

/// Capability set for a version and body.
pub open spec fn cap_of(version: u32, body: Seq<u8>) -> CapSpec {
    let f = flag_word(body);
    if version == CAPVERSION_8 {
        CapSpec::V8 { flags: f & CAPS_FLAGS_V8 }
    } else if version == CAPVERSION_81 {
        CapSpec::V8_1 { flags: f & CAPS_FLAGS_V81 }
    } else if version == CAPVERSION_10 {
        CapSpec::V10 { flags: f & CAPS_FLAGS_V10 }
    } else if version == CAPVERSION_101 {
        CapSpec::V10_1
    } else if version == CAPVERSION_102 {
        CapSpec::V10_2 { flags: f & CAPS_FLAGS_V10 }
    } else if version == CAPVERSION_103 {
        CapSpec::V10_3 { flags: f & CAPS_FLAGS_V103 }
    } else if version == CAPVERSION_104 {
        CapSpec::V10_4 { flags: f & CAPS_FLAGS_V104 }
    } else if version == CAPVERSION_105 {
        CapSpec::V10_5 { flags: f & CAPS_FLAGS_V104 }
    } else if version == CAPVERSION_106 {
        CapSpec::V10_6 { flags: f & CAPS_FLAGS_V104 }
    } else if version == CAPVERSION_106_ERR {
        CapSpec::V10_6Err { flags: f & CAPS_FLAGS_V104 }
    } else if version == CAPVERSION_107 {
        CapSpec::V10_7 { flags: f & CAPS_FLAGS_V107 }
    } else {
        CapSpec::Unknown(body)
    }
}

/// The `count` capability sets starting at `off`: each is a version, a body
/// length and the body.  `None` when one of them is truncated.
pub open spec fn parse_cap_list(data: Seq<u8>, off: int, count: nat) -> Option<Seq<CapSpec>>
    decreases count,
{
    if count == 0 {
        Some(seq![])
    } else if off + 8 > data.len() {
        None
    } else {
        let version = read_le32(data, off) as u32;
        let body_len = read_le32(data, off + 4);
        let start = off + 8;
        if start + body_len > data.len() {
            None
        } else {
            match parse_cap_list(data, start + body_len, (count - 1) as nat) {
                Some(rest) => Some(
                    seq![cap_of(version, data.subrange(start, start + body_len))] + rest,
                ),
                None => None,
            }
        }
    }
}

/// Capability sets of a CapabilitiesAdvertise PDU (`pduType` 0x0012, flags,
/// length, a 16-bit count at offset 8, then the sets).  `None` when `data` is
/// not such a PDU or is truncated.
pub open spec fn spec_parse_caps_advertise(data: Seq<u8>) -> Option<Seq<CapSpec>> {
    if data.len() < 2 || read_le16(data, 0) != CAPS_ADVERTISE_PDU_TYPE {
        None
    } else if data.len() < 10 {
        None
    } else {
        parse_cap_list(data, 10, read_le16(data, 8))
    }
}

/// Builds the capability set for a version and the body `data[from..to]`.
fn make_cap(version: u32, data: &[u8], from: usize, to: usize) -> (c: CapabilitySet)
    requires
        from <= to <= data@.len(),
    ensures
        c@ == cap_of(version, data@.subrange(from as int, to as int)),
{
    let ghost body = data@.subrange(from as int, to as int);
    let f: u32 = if to - from >= 4 {
        let v = get_le32(data, from);
        assert(read_le32(body, 0) == read_le32(data@, from as int));
        v
    } else {
        0
    };
    assert(f == flag_word(body));
    if version == CAPVERSION_8 {
        CapabilitySet::V8 { flags: f & CAPS_FLAGS_V8 }
    } else if version == CAPVERSION_81 {
        CapabilitySet::V8_1 { flags: f & CAPS_FLAGS_V81 }
    } else if version == CAPVERSION_10 {
        CapabilitySet::V10 { flags: f & CAPS_FLAGS_V10 }
    } else if version == CAPVERSION_101 {
        CapabilitySet::V10_1
    } else if version == CAPVERSION_102 {
        CapabilitySet::V10_2 { flags: f & CAPS_FLAGS_V10 }
    } else if version == CAPVERSION_103 {
        CapabilitySet::V10_3 { flags: f & CAPS_FLAGS_V103 }
    } else if version == CAPVERSION_104 {
        CapabilitySet::V10_4 { flags: f & CAPS_FLAGS_V104 }
    } else if version == CAPVERSION_105 {
        CapabilitySet::V10_5 { flags: f & CAPS_FLAGS_V104 }
    } else if version == CAPVERSION_106 {
        CapabilitySet::V10_6 { flags: f & CAPS_FLAGS_V104 }
    } else if version == CAPVERSION_106_ERR {
        CapabilitySet::V10_6Err { flags: f & CAPS_FLAGS_V104 }
    } else if version == CAPVERSION_107 {
        CapabilitySet::V10_7 { flags: f & CAPS_FLAGS_V107 }
    } else {
        let mut b: Vec<u8> = Vec::new();
        extend_from_range(&mut b, data, from, to);
        assert(b@ == body);
        CapabilitySet::Unknown(b)
    }
}

/// Parses a CapabilitiesAdvertise PDU, keeping capability versions that are
/// not known as [`CapabilitySet::Unknown`] so the known ones are still seen.
pub fn parse_caps_advertise_lenient(data: &[u8]) -> (r: Option<Vec<CapabilitySet>>)
    ensures
        match r {
            Some(v) => spec_parse_caps_advertise(data@) == Some(caps_view(v@)),
            None => spec_parse_caps_advertise(data@) is None,
        },
{
    let len = data.len();
    if len < 2 || get_le16(data, 0) != CAPS_ADVERTISE_PDU_TYPE {
        return None;
    }
    if len < 10 {
        return None;
    }
    let count = get_le16(data, 8);
    let mut off: usize = 10;
    let mut i: u16 = 0;
    let mut out: Vec<CapabilitySet> = Vec::new();
    while i < count
        invariant
            10 <= off <= len == data@.len(),
            i <= count,
            count == read_le16(data@, 8),
            spec_parse_caps_advertise(data@) == parse_cap_list(data@, 10, count as nat),
            parse_cap_list(data@, 10, count as nat) == match parse_cap_list(
                data@,
                off as int,
                (count - i) as nat,
            ) {
                Some(rest) => Some(caps_view(out@) + rest),
                None => None::<Seq<CapSpec>>,
            },
        decreases count - i,
    {
        let ghost cnt = (count - i) as nat;
        if len - off < 8 {
            return None;
        }
        let version = get_le32(data, off);
        let body_len = get_le32(data, off + 4);
        let start = off + 8;
        if (body_len as usize) > len - start {
            return None;
        }
        let end = start + body_len as usize;
        let cap = make_cap(version, data, start, end);
        let ghost before = out@;
        out.push(cap);
        proof {
            assert(caps_view(out@) == caps_view(before).push(cap@));
            match parse_cap_list(data@, end as int, (cnt - 1) as nat) {
                Some(rest) => {
                    assert(caps_view(before) + (seq![cap@] + rest) == caps_view(before).push(
                        cap@,
                    ) + rest);
                },
                None => {},
            }
        }
        off = end;
        i = i + 1;
    }
    assert(caps_view(out@) + Seq::<CapSpec>::empty() == caps_view(out@));
    Some(out)
}

/// State of the negotiation after some capability sets: whether AVC420 and
/// AVC444 were found, the index of the set chosen so far, and whether the
/// scan has stopped.
pub struct NegotiationState {
    pub avc420: bool,
    pub avc444: bool,
    pub best: Option<nat>,
    pub done: bool,
}

/// The AVC-disabled flag is clear.
pub open spec fn avc_enabled(flags: u32) -> bool {
    flags & CAPS_FLAG_AVC_DISABLED == 0
}

/// Negotiation step for the capability set at index `i`.
pub open spec fn negotiate_step(s: NegotiationState, cap: CapSpec, i: nat) -> NegotiationState {
    let keep_or = |b: Option<nat>|
        if b is None {
            Some(i)
        } else {
            b
        };
    match cap {
        CapSpec::V10_7 { flags } if avc_enabled(flags) => NegotiationState {
            avc420: true,
            avc444: true,
            best: Some(i),
            done: true,
        },
        CapSpec::V10_6 { flags } if avc_enabled(flags) => NegotiationState {
            avc420: true,
            avc444: true,
            best: Some(i),
            done: false,
        },
        CapSpec::V10_6Err { flags } if avc_enabled(flags) => NegotiationState {
            avc420: true,
            avc444: true,
            best: Some(i),
            done: false,
        },
        CapSpec::V10_5 { flags } if avc_enabled(flags) => NegotiationState {
            avc420: true,
            avc444: true,
            best: keep_or(s.best),
            done: false,
        },
        CapSpec::V10_4 { flags } if avc_enabled(flags) => NegotiationState {
            avc420: true,
            avc444: true,
            best: keep_or(s.best),
            done: false,
        },
        CapSpec::V10_3 { flags } if avc_enabled(flags) => NegotiationState {
            avc420: true,
            avc444: true,
            best: keep_or(s.best),
            done: false,
        },
        CapSpec::V10_2 { flags } if avc_enabled(flags) => NegotiationState {
            avc420: true,
            avc444: true,
            best: keep_or(s.best),
            done: false,
        },
        CapSpec::V10 { flags } if avc_enabled(flags) => NegotiationState {
            avc420: true,
            avc444: true,
            best: keep_or(s.best),
            done: false,
        },
        CapSpec::V10_1 => NegotiationState {
            avc420: true,
            avc444: true,
            best: keep_or(s.best),
            done: false,
        },
        CapSpec::V8_1 { flags } if flags & CAPS_FLAG_AVC420_ENABLED != 0 => NegotiationState {
            avc420: true,
            avc444: s.avc444,
            best: keep_or(s.best),
            done: false,
        },
        _ => NegotiationState { avc420: s.avc420, avc444: s.avc444, best: keep_or(s.best), done: false },
    }
}

/// Negotiation state after scanning the first `n` capability sets.
pub open spec fn negotiate_prefix(caps: Seq<CapSpec>, n: nat) -> NegotiationState
    decreases n,
{
    if n == 0 {
        NegotiationState { avc420: false, avc444: false, best: None, done: false }
    } else {
        let s = negotiate_prefix(caps, (n - 1) as nat);
        if s.done || n > caps.len() {
            s
        } else {
            negotiate_step(s, caps[n - 1], (n - 1) as nat)
        }
    }
}

/// Outcome of capability negotiation.  `confirmed` is the index of the
/// capability set to confirm; `None` means confirming an empty version-8 set.
#[derive(Debug, Clone, Copy, PartialEq, Eq, Structural)]
pub struct CapsNegotiation {
    pub avc420: bool,
    pub avc444: bool,
    pub confirmed: Option<usize>,
}

/// Chooses the capability set to confirm: the first version-10.7 set with AVC
/// enabled wins outright; otherwise the last version-10.6 set with AVC
/// enabled; otherwise the first set of any kind.  Reports whether AVC420 and
/// AVC444 were found among the sets that were scanned.
pub fn negotiate_caps(caps: &Vec<CapabilitySet>) -> (r: CapsNegotiation)
    ensures
        ({
            let s = negotiate_prefix(caps_view(caps@), caps@.len());
            &&& r.avc420 == s.avc420
            &&& r.avc444 == s.avc444
            &&& match r.confirmed {
                Some(i) => s.best == Some(i as nat),
                None => s.best is None,
            }
        }),
{
    let ghost cv = caps_view(caps@);
    let mut avc420 = false;
    let mut avc444 = false;
    let mut best: Option<usize> = None;
    let mut i: usize = 0;
    while i < caps.len()
        invariant
            i <= caps@.len(),
            cv == caps_view(caps@),
            ({
                let s = negotiate_prefix(cv, i as nat);
                &&& !s.done
                &&& avc420 == s.avc420
                &&& avc444 == s.avc444
                &&& match best {
                    Some(b) => s.best == Some(b as nat),
                    None => s.best is None,
                }
            }),
        decreases caps.len() - i,
    {
        let keep = match best {
            Some(b) => Some(b),
            None => Some(i),
        };
        assert(cv[i as int] == caps@[i as int]@);
        let (kind, flags): (u8, u32) = match &caps[i] {
            CapabilitySet::V10_7 { flags } => (7, *flags),
            CapabilitySet::V10_6 { flags } => (6, *flags),
            CapabilitySet::V10_6Err { flags } => (6, *flags),
            CapabilitySet::V10_5 { flags } => (5, *flags),
            CapabilitySet::V10_4 { flags } => (5, *flags),
            CapabilitySet::V10_3 { flags } => (5, *flags),
            CapabilitySet::V10_2 { flags } => (5, *flags),
            CapabilitySet::V10 { flags } => (5, *flags),
            CapabilitySet::V10_1 => (1, 0),
            CapabilitySet::V8_1 { flags } => (8, *flags),
            _ => (0, 0),
        };
        let avc_ok = flags & CAPS_FLAG_AVC_DISABLED == 0;
        if kind == 7 && avc_ok {
            proof {
                lemma_negotiate_stops(cv, (i + 1) as nat);
            }
            return CapsNegotiation { avc420: true, avc444: true, confirmed: Some(i) };
        } else if kind == 6 && avc_ok {
            avc420 = true;
            avc444 = true;
            best = Some(i);
        } else if (kind == 5 && avc_ok) || kind == 1 {
            avc420 = true;
            avc444 = true;
            best = keep;
        } else if kind == 8 && flags & CAPS_FLAG_AVC420_ENABLED != 0 {
            avc420 = true;
            best = keep;
        } else {
            best = keep;
        }
        i = i + 1;
    }
    CapsNegotiation { avc420, avc444, confirmed: best }
}

/// A version-10.7 capability set with the AVC-disabled flag clear.
pub open spec fn avc_v107(c: CapSpec) -> bool {
    c matches CapSpec::V10_7 { flags } && flags & CAPS_FLAG_AVC_DISABLED == 0
}

/// A version-10.6 (or 10.6-err) capability set with the AVC-disabled flag
/// clear.
pub open spec fn avc_v106(c: CapSpec) -> bool {
    ||| c matches CapSpec::V10_6 { flags } && flags & CAPS_FLAG_AVC_DISABLED == 0
    ||| c matches CapSpec::V10_6Err { flags } && flags & CAPS_FLAG_AVC_DISABLED == 0
}

/// What the scan of the first `n` sets has chosen: the scan stops exactly at
/// the first AVC-enabled 10.7 set and chooses it; until then it holds the
/// last AVC-enabled 10.6 set seen, or else the first set.
proof fn lemma_negotiate_scan(caps: Seq<CapSpec>, n: nat)
    requires
        n <= caps.len(),
    ensures
        ({
            let s = negotiate_prefix(caps, n);
            &&& s.done ==> (s.best matches Some(k) && k < n && avc_v107(caps[k as int]) && forall|j: int|
                0 <= j < k ==> !avc_v107(#[trigger] caps[j]))
            &&& !s.done ==> forall|j: int| 0 <= j < n ==> !avc_v107(#[trigger] caps[j])
            &&& !s.done && (exists|j: int| 0 <= j < n && avc_v106(#[trigger] caps[j])) ==> (s.best matches Some(
                k,
            ) && k < n && avc_v106(caps[k as int]) && forall|j: int| k < j < n ==> !avc_v106(#[trigger] caps[j]))
            &&& !s.done && !(exists|j: int| 0 <= j < n && avc_v106(#[trigger] caps[j])) ==> s.best == (if n
                == 0 {
                None::<nat>
            } else {
                Some(0nat)
            })
        }),
    decreases n,
{
    if n > 0 {
        let m = (n - 1) as nat;
        lemma_negotiate_scan(caps, m);
        let s0 = negotiate_prefix(caps, m);
        let s = negotiate_prefix(caps, n);
        let c = caps[m as int];
        if !s0.done {
            assert(s == negotiate_step(s0, c, m));
            if avc_v107(c) {
                assert(s.best == Some(m));
            } else if avc_v106(c) {
                assert(s.best == Some(m));
                assert(!s.done);
                assert(avc_v106(caps[m as int]));
            } else {
                assert(!s.done);
                assert(s.best == (if s0.best is None {
                    Some(m)
                } else {
                    s0.best
                }));
                assert forall|j: int| 0 <= j < n implies !avc_v107(#[trigger] caps[j]) by {
                    if j == m {
                    }
                }
                if exists|j: int| 0 <= j < n && avc_v106(#[trigger] caps[j]) {
                    let w = choose|j: int| 0 <= j < n && avc_v106(#[trigger] caps[j]);
                    assert(w != m);
                    assert(0 <= w < m && avc_v106(caps[w]));
                    let k = s0.best->0;
                    assert forall|j: int| k < j < n implies !avc_v106(#[trigger] caps[j]) by {
                        if j == m {
                        }
                    }
                } else {
                    assert(!(exists|j: int| 0 <= j < m && avc_v106(#[trigger] caps[j])));
                }
            }
        }
    }
}

/// The capability set that the negotiation confirms: the first AVC-enabled
/// 10.7 set when there is one; otherwise the last AVC-enabled 10.6 or
/// 10.6-err set when there is one; otherwise the first set (none when the
/// list is empty).
pub proof fn lemma_negotiate_choice(caps: Seq<CapSpec>)
    ensures
        ({
            let s = negotiate_prefix(caps, caps.len());
            let n = caps.len();
            &&& (exists|j: int| 0 <= j < n && avc_v107(#[trigger] caps[j])) ==> (s.best matches Some(k) && k < n
                && avc_v107(caps[k as int]) && forall|j: int| 0 <= j < k ==> !avc_v107(#[trigger] caps[j]))
            &&& (forall|j: int| 0 <= j < n ==> !avc_v107(#[trigger] caps[j])) && (exists|j: int|
                0 <= j < n && avc_v106(#[trigger] caps[j])) ==> (s.best matches Some(k) && k < n && avc_v106(
                caps[k as int],
            ) && forall|j: int| k < j < n ==> !avc_v106(#[trigger] caps[j]))
            &&& (forall|j: int| 0 <= j < n ==> !avc_v107(#[trigger] caps[j])) && (forall|j: int|
                0 <= j < n ==> !avc_v106(#[trigger] caps[j])) ==> s.best == (if n == 0 {
                None::<nat>
            } else {
                Some(0nat)
            })
        }),
{
    let n = caps.len();
    lemma_negotiate_scan(caps, n);
    let s = negotiate_prefix(caps, n);
    if s.done {
        let k = s.best->0;
        assert(avc_v107(caps[k as int]));
    }
}

/// A capability set that offers AVC444 (and AVC420): version 10.1, or a
/// version-10 or later set with the AVC-disabled flag clear.
pub open spec fn offers_avc444(c: CapSpec) -> bool {
    match c {
        CapSpec::V10 { flags } => flags & CAPS_FLAG_AVC_DISABLED == 0,
        CapSpec::V10_1 => true,
        CapSpec::V10_2 { flags } => flags & CAPS_FLAG_AVC_DISABLED == 0,
        CapSpec::V10_3 { flags } => flags & CAPS_FLAG_AVC_DISABLED == 0,
        CapSpec::V10_4 { flags } => flags & CAPS_FLAG_AVC_DISABLED == 0,
        CapSpec::V10_5 { flags } => flags & CAPS_FLAG_AVC_DISABLED == 0,
        CapSpec::V10_6 { flags } => flags & CAPS_FLAG_AVC_DISABLED == 0,
        CapSpec::V10_6Err { flags } => flags & CAPS_FLAG_AVC_DISABLED == 0,
        CapSpec::V10_7 { flags } => flags & CAPS_FLAG_AVC_DISABLED == 0,
        _ => false,
    }
}

/// A capability set that offers AVC420: one that offers AVC444, or a
/// version-8.1 set with the AVC420-enabled flag set.
pub open spec fn offers_avc420(c: CapSpec) -> bool {
    offers_avc444(c) || (c matches CapSpec::V8_1 { flags } && flags & CAPS_FLAG_AVC420_ENABLED != 0)
}

/// The set at index `j` is scanned: no AVC-enabled 10.7 set comes before it.
pub open spec fn scanned(caps: Seq<CapSpec>, j: int) -> bool {
    forall|i: int| 0 <= i < j ==> !avc_v107(#[trigger] caps[i])
}

proof fn lemma_negotiate_avc_scan(caps: Seq<CapSpec>, n: nat)
    requires
        n <= caps.len(),
    ensures
        negotiate_prefix(caps, n).avc444 == exists|j: int|
            0 <= j < n && offers_avc444(#[trigger] caps[j]) && scanned(caps, j),
        negotiate_prefix(caps, n).avc420 == exists|j: int|
            0 <= j < n && offers_avc420(#[trigger] caps[j]) && scanned(caps, j),
    decreases n,
{
    if n > 0 {
        let m = (n - 1) as nat;
        lemma_negotiate_avc_scan(caps, m);
        lemma_negotiate_scan(caps, m);
        let s0 = negotiate_prefix(caps, m);
        let s = negotiate_prefix(caps, n);
        let c = caps[m as int];
        if s0.done {
            let k = s0.best->0;
            assert(!scanned(caps, m as int)) by {
                assert(avc_v107(caps[k as int]));
            }
            assert(s == s0);
            if exists|j: int| 0 <= j < n && offers_avc444(#[trigger] caps[j]) && scanned(caps, j) {
                let w = choose|j: int| 0 <= j < n && offers_avc444(#[trigger] caps[j]) && scanned(caps, j);
                assert(w != m);
            }
            if exists|j: int| 0 <= j < n && offers_avc420(#[trigger] caps[j]) && scanned(caps, j) {
                let w = choose|j: int| 0 <= j < n && offers_avc420(#[trigger] caps[j]) && scanned(caps, j);
                assert(w != m);
            }
        } else {
            assert(scanned(caps, m as int));
            assert(s == negotiate_step(s0, c, m));
            if offers_avc444(c) {
                assert(s.avc444 && s.avc420);
                assert(offers_avc420(caps[m as int]));
            } else {
                assert(s.avc444 == s0.avc444);
                if exists|j: int| 0 <= j < n && offers_avc444(#[trigger] caps[j]) && scanned(caps, j) {
                    let w = choose|j: int| 0 <= j < n && offers_avc444(#[trigger] caps[j]) && scanned(caps, j);
                    assert(w != m);
                }
                if offers_avc420(c) {
                    assert(s.avc420);
                    assert(offers_avc420(caps[m as int]));
                } else {
                    assert(s.avc420 == s0.avc420);
                    if exists|j: int| 0 <= j < n && offers_avc420(#[trigger] caps[j]) && scanned(caps, j) {
                        let w = choose|j: int| 0 <= j < n && offers_avc420(#[trigger] caps[j]) && scanned(caps, j);
                        assert(w != m);
                    }
                }
            }
        }
    }
}

/// AVC444 is reported exactly when a scanned set (one with no AVC-enabled
/// 10.7 set before it) offers it, and AVC420 likewise.
pub proof fn lemma_negotiate_avc(caps: Seq<CapSpec>)
    ensures
        negotiate_prefix(caps, caps.len()).avc444 == exists|j: int|
            0 <= j < caps.len() && offers_avc444(#[trigger] caps[j]) && scanned(caps, j),
        negotiate_prefix(caps, caps.len()).avc420 == exists|j: int|
            0 <= j < caps.len() && offers_avc420(#[trigger] caps[j]) && scanned(caps, j),
{
    lemma_negotiate_avc_scan(caps, caps.len());
}

/// Once the scan has stopped, later sets do not change the outcome.
proof fn lemma_negotiate_stops(caps: Seq<CapSpec>, n: nat)
    requires
        negotiate_prefix(caps, n).done,
    ensures
        negotiate_prefix(caps, caps.len()) == negotiate_prefix(caps, n),
    decreases caps.len() - n,
{
    if n < caps.len() {
        assert(negotiate_prefix(caps, n + 1) == negotiate_prefix(caps, n));
        lemma_negotiate_stops(caps, n + 1);
    } else if n > caps.len() {
        lemma_negotiate_past_end(caps, n);
    }
}

proof fn lemma_negotiate_past_end(caps: Seq<CapSpec>, n: nat)
    requires
        n > caps.len(),
    ensures
        negotiate_prefix(caps, n) == negotiate_prefix(caps, caps.len()),
    decreases n,
{
    if n - 1 > caps.len() {
        lemma_negotiate_past_end(caps, (n - 1) as nat);
    }
}

/// The chosen set is one of the scanned sets.
pub proof fn lemma_best_in_range(caps: Seq<CapSpec>, n: nat)
    ensures
        negotiate_prefix(caps, n).best matches Some(i) ==> i < n && i < caps.len(),
    decreases n,
{
    if n > 0 {
        lemma_best_in_range(caps, (n - 1) as nat);
    }
}

} // verus!
