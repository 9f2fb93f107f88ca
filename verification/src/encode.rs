//! H.264 encoder selection: preference parsing, backend order, creation
//! attempts, and the sizes the encoders work in.

use vstd::prelude::*;
use crate::formats::chars_of;

verus! {

/// Quality preset.
#[derive(Debug, Clone, Copy, PartialEq, Eq, Structural)]
pub enum Quality {
    LowLatency,
    Balanced,
    HighQuality,
}

/// Encoder preference.
#[derive(Debug, Clone, Copy, PartialEq, Eq, Structural)]
pub enum EncoderPreference {
    /// OpenH264 CPU encoder.
    Software,
    /// VideoToolbox GPU encoder.
    Hardware,
    /// Platform hardware when available, with software fallback.
    Auto,
}

/// Encoder backends, in the order creation tries them.
#[derive(Debug, Clone, Copy, PartialEq, Eq, Structural)]
pub enum EncoderBackend {
    VideoToolbox,
    OpenH264,
}

/// `c` with ASCII capitals lowered.
pub open spec fn ascii_lower_char(c: char) -> char {
    if 'A' <= c <= 'Z' {
        ((c as u32 + 32) as u32) as char
    } else {
        c
    }
}

/// `s` with ASCII capitals lowered.
pub open spec fn ascii_lower(s: Seq<char>) -> Seq<char> {
    Seq::new(s.len(), |i: int| ascii_lower_char(s[i]))
}

/// `s`, lowercased, is `word` (an ASCII word without `k`: no other character
/// lowercases into such a word).
pub open spec fn lower_is(s: Seq<char>, word: Seq<char>) -> bool {
    ascii_lower(s) == word
}

/// Preference named by a configuration string.
pub open spec fn spec_encoder_preference(s: Option<Seq<char>>) -> EncoderPreference {
    match s {
        Some(t) => if lower_is(t, "hardware"@) || lower_is(t, "gpu"@) || lower_is(t, "videotoolbox"@)
            || lower_is(t, "vt"@) {
            EncoderPreference::Hardware
        } else if lower_is(t, "software"@) || lower_is(t, "cpu"@) || lower_is(t, "openh264"@)
            || lower_is(t, "oh264"@) {
            EncoderPreference::Software
        } else {
            EncoderPreference::Auto
        },
        None => EncoderPreference::Auto,
    }
}

/// Whether `s` lowercases to `word`.
fn lower_eq(s: &Vec<char>, word: &str) -> (r: bool)
    ensures
        r == lower_is(s@, word@),
{
    let w = chars_of(word);
    if s.len() != w.len() {
        assert(ascii_lower(s@).len() != word@.len());
        return false;
    }
    let mut i: usize = 0;
    while i < s.len()
        invariant
            w@ == word@,
            s@.len() == w@.len(),
            i <= s@.len(),
            forall|k: int| 0 <= k < i ==> ascii_lower_char(s@[k]) == w@[k],
        decreases s.len() - i,
    {
        let c = s[i];
        let lc = if 'A' <= c && c <= 'Z' {
            lower_ascii_letter(c)
        } else {
            c
        };
        if lc != w[i] {
            assert(ascii_lower(s@)[i as int] != word@[i as int]);
            return false;
        }
        i = i + 1;
    }
    assert(ascii_lower(s@) =~= word@);
    true
}

/// The lowercase letter for an ASCII capital.
fn lower_ascii_letter(c: char) -> (r: char)
    requires
        'A' <= c <= 'Z',
    ensures
        r == ascii_lower_char(c),
{
    let v: u32 = c as u32 + 32;
    let mut r = 'a';
    let mut k: u32 = 97;
    while k < v
        invariant
            97 <= k <= v,
            v <= 122,
            r as u32 == k,
        decreases v - k,
    {
        r = next_letter(r);
        k = k + 1;
    }
    proof {
        vstd::utf8::char_u32_cast(r, v);
    }
    r
}

/// The next lowercase letter.
fn next_letter(c: char) -> (r: char)
    requires
        'a' <= c < 'z',
    ensures
        r as u32 == c as u32 + 1,
{
    if c == 'a' { 'b' } else if c == 'b' { 'c' } else if c == 'c' { 'd' } else if c == 'd' { 'e' }
    else if c == 'e' { 'f' } else if c == 'f' { 'g' } else if c == 'g' { 'h' } else if c == 'h' { 'i' }
    else if c == 'i' { 'j' } else if c == 'j' { 'k' } else if c == 'k' { 'l' } else if c == 'l' { 'm' }
    else if c == 'm' { 'n' } else if c == 'n' { 'o' } else if c == 'o' { 'p' } else if c == 'p' { 'q' }
    else if c == 'q' { 'r' } else if c == 'r' { 's' } else if c == 's' { 't' } else if c == 't' { 'u' }
    else if c == 'u' { 'v' } else if c == 'v' { 'w' } else if c == 'w' { 'x' } else if c == 'x' { 'y' }
    else { 'z' }
}

impl EncoderPreference {
    /// Preference named by a configuration string, case-insensitively;
    /// anything unrecognised, or nothing, means `Auto`.
    pub fn from_str_opt(s: Option<&str>) -> (p: Self)
        ensures
            p == spec_encoder_preference(
                match s {
                    Some(t) => Some(t@),
                    None => None,
                },
            ),
    {
        match s {
            None => EncoderPreference::Auto,
            Some(t) => {
                let cs = chars_of(t);
                if lower_eq(&cs, "hardware") || lower_eq(&cs, "gpu") || lower_eq(&cs, "videotoolbox")
                    || lower_eq(&cs, "vt") {
                    EncoderPreference::Hardware
                } else if lower_eq(&cs, "software") || lower_eq(&cs, "cpu") || lower_eq(
                    &cs,
                    "openh264",
                ) || lower_eq(&cs, "oh264") {
                    EncoderPreference::Software
                } else {
                    EncoderPreference::Auto
                }
            },
        }
    }

    /// Whether this preference prepares for platform hardware encoding, on
    /// a platform that is macOS exactly when `on_macos` holds.
    pub fn prefers_hardware_on_this_platform(self, on_macos: bool) -> (b: bool)
        ensures
            b == (on_macos && (self == EncoderPreference::Hardware || self
                == EncoderPreference::Auto)),
    {
        on_macos && match self {
            EncoderPreference::Hardware => true,
            EncoderPreference::Auto => true,
            EncoderPreference::Software => false,
        }
    }
}

/// Backends to try, in order, for `preference`.
pub open spec fn spec_backend_order(preference: EncoderPreference, on_macos: bool) -> Seq<EncoderBackend> {
    if on_macos && preference != EncoderPreference::Software {
        seq![EncoderBackend::VideoToolbox, EncoderBackend::OpenH264]
    } else {
        seq![EncoderBackend::OpenH264]
    }
}

/// Backends to try, in order: VideoToolbox first where the platform has it
/// and the preference allows hardware, then OpenH264.
pub fn encoder_backend_order(preference: EncoderPreference, on_macos: bool) -> (order: Vec<EncoderBackend>)
    ensures
        order@ == spec_backend_order(preference, on_macos),
{
    let mut order: Vec<EncoderBackend> = Vec::new();
    if on_macos && preference != EncoderPreference::Software {
        order.push(EncoderBackend::VideoToolbox);
    }
    order.push(EncoderBackend::OpenH264);
    assert(order@ =~= spec_backend_order(preference, on_macos));
    order
}

/// One encoder creation attempt: a backend, and whether AVC444 is asked of it.
#[derive(Debug, Clone, Copy, PartialEq, Eq, Structural)]
pub struct EncoderAttempt {
    pub backend: EncoderBackend,
    pub mode_444: bool,
}

/// Attempts for one backend: with AVC444 when asked, then without.
pub open spec fn backend_attempts(backend: EncoderBackend, mode_444: bool) -> Seq<EncoderAttempt> {
    if mode_444 {
        seq![
            EncoderAttempt { backend, mode_444: true },
            EncoderAttempt { backend, mode_444: false },
        ]
    } else {
        seq![EncoderAttempt { backend, mode_444: false }]
    }
}

/// Every attempt encoder creation makes, in order, until one succeeds.
pub open spec fn spec_encoder_attempts(preference: EncoderPreference, mode_444: bool, on_macos: bool) -> Seq<EncoderAttempt> {
    if on_macos && preference != EncoderPreference::Software {
        backend_attempts(EncoderBackend::VideoToolbox, mode_444) + backend_attempts(
            EncoderBackend::OpenH264,
            mode_444,
        )
    } else {
        backend_attempts(EncoderBackend::OpenH264, mode_444)
    }
}

/// The creation attempts `create_encoder` makes, in order, stopping at the
/// first that succeeds: each backend of the preferred order, with AVC444
/// when it is asked for and then, should that fail, with AVC420.
pub fn encoder_attempts(preference: EncoderPreference, mode_444: bool, on_macos: bool) -> (a: Vec<EncoderAttempt>)
    ensures
        a@ == spec_encoder_attempts(preference, mode_444, on_macos),
{
    let order = encoder_backend_order(preference, on_macos);
    let mut a: Vec<EncoderAttempt> = Vec::new();
    let mut i: usize = 0;
    while i < order.len()
        invariant
            order@ == spec_backend_order(preference, on_macos),
            i <= order@.len(),
            a@ == (if i == 0 {
                Seq::<EncoderAttempt>::empty()
            } else if i == 1 {
                backend_attempts(order@[0], mode_444)
            } else {
                backend_attempts(order@[0], mode_444) + backend_attempts(order@[1], mode_444)
            }),
        decreases order.len() - i,
    {
        let backend = order[i];
        if mode_444 {
            a.push(EncoderAttempt { backend, mode_444: true });
        }
        a.push(EncoderAttempt { backend, mode_444: false });
        if i == 0 {
            assert(a@ =~= backend_attempts(order@[0], mode_444));
        } else {
            assert(a@ =~= backend_attempts(order@[0], mode_444) + backend_attempts(order@[1], mode_444));
        }
        i = i + 1;
    }
    if on_macos && preference != EncoderPreference::Software {
        assert(a@ =~= spec_encoder_attempts(preference, mode_444, on_macos));
    } else {
        assert(a@ =~= spec_encoder_attempts(preference, mode_444, on_macos));
    }
    a
}

/// `v` rounded up to a multiple of 16 (the H.264 macroblock size).
pub fn align16(v: u32) -> (r: u32)
    requires
        v <= u32::MAX - 15,
    ensures
        r % 16 == 0,
        v <= r < v + 16,
        r == (v + 15) / 16 * 16,
{
    let s: u32 = v + 15;
    let r = s & !15u32;
    assert(r == s / 16 * 16 && r % 16 == 0 && r <= s && s - r < 16) by (bit_vector)
        requires
            r == s & !15u32,
    ;
    r
}

/// Highest bitrate OpenH264 is configured with (below its level limit).
pub const OPENH264_MAX_BITRATE: u32 = 250_000_000;

/// The bitrate OpenH264 is configured with for a requested one.
pub fn openh264_bitrate(requested: u32) -> (b: u32)
    ensures
        b == (if requested < OPENH264_MAX_BITRATE { requested } else { OPENH264_MAX_BITRATE }),
{
    if requested < OPENH264_MAX_BITRATE {
        requested
    } else {
        OPENH264_MAX_BITRATE
    }
}

/// One encoded H.264 picture.
pub struct EncodedFrame {
    /// NAL units, Annex B framed.
    pub data: Vec<u8>,
    /// Whether this is an IDR or I picture.
    pub is_keyframe: bool,
    pub width: u32,
    pub height: u32,
}

/// An AVC444 picture: main and auxiliary YUV420 streams.
pub struct Avc444EncodedFrame {
    pub main_view: EncodedFrame,
    pub aux_view: EncodedFrame,
}

impl Avc444EncodedFrame {
    /// Both views at the same encoder size.
    pub fn new(main_data: Vec<u8>, main_keyframe: bool, aux_data: Vec<u8>, aux_keyframe: bool, w: u32, h: u32) -> (f: Self)
        ensures
            f.main_view.data@ == main_data@,
            f.main_view.is_keyframe == main_keyframe,
            f.aux_view.data@ == aux_data@,
            f.aux_view.is_keyframe == aux_keyframe,
            f.main_view.width == w && f.main_view.height == h,
            f.aux_view.width == w && f.aux_view.height == h,
    {
        Avc444EncodedFrame {
            main_view: EncodedFrame { data: main_data, is_keyframe: main_keyframe, width: w, height: h },
            aux_view: EncodedFrame { data: aux_data, is_keyframe: aux_keyframe, width: w, height: h },
        }
    }
}

/// Copies the Y, U and V planes, in that order, to the front of `dst`.
pub fn pack_i420(y: &[u8], u: &[u8], v: &[u8], dst: &mut Vec<u8>)
    requires
        y@.len() + u@.len() + v@.len() <= old(dst)@.len(),
    ensures
        final(dst)@ == y@ + u@ + v@ + old(dst)@.skip(y@.len() + u@.len() + v@.len() as int),
{
    let ghost start = dst@;
    let ghost n = y@.len() + u@.len() + v@.len();
    let dl = dst.len();
    let mut i: usize = 0;
    while i < y.len()
        invariant
            i <= y@.len(),
            n == y@.len() + u@.len() + v@.len(),
            dst@.len() == start.len(),
            dl == start.len(),
            n <= start.len(),
            dst@ == y@.take(i as int) + start.skip(i as int),
        decreases y.len() - i,
    {
        dst.set(i, y[i]);
        assert(dst@ =~= y@.take(i + 1) + start.skip(i + 1));
        i = i + 1;
    }
    let yl = y.len();
    let mut j: usize = 0;
    while j < u.len()
        invariant
            yl == y@.len(),
            j <= u@.len(),
            n == y@.len() + u@.len() + v@.len(),
            dst@.len() == start.len(),
            dl == start.len(),
            n <= start.len(),
            dst@ == y@ + u@.take(j as int) + start.skip(yl + j),
        decreases u.len() - j,
    {
        dst.set(yl + j, u[j]);
        assert(dst@ =~= y@ + u@.take(j + 1) + start.skip(yl + j + 1));
        j = j + 1;
    }
    let ul = u.len();
    let mut k: usize = 0;
    while k < v.len()
        invariant
            yl == y@.len(),
            ul == u@.len(),
            k <= v@.len(),
            n == y@.len() + u@.len() + v@.len(),
            dst@.len() == start.len(),
            dl == start.len(),
            n <= start.len(),
            dst@ == y@ + u@ + v@.take(k as int) + start.skip(yl + ul + k),
        decreases v.len() - k,
    {
        dst.set(yl + ul + k, v[k]);
        assert(dst@ =~= y@ + u@ + v@.take(k + 1) + start.skip(yl + ul + k + 1));
        k = k + 1;
    }
    assert(y@.take(yl as int) =~= y@);
    assert(u@.take(ul as int) =~= u@);
    assert(v@.take(v@.len() as int) =~= v@);
}

} // verus!
