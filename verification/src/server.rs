//! Startup policy: credentials, resolution, chroma mode, input tap, video
//! settings and TLS file locations.

use vstd::prelude::*;
use crate::config::ServerConfig;
use crate::encode::Quality;
use crate::formats::{chars_of, str_eq, string_from_chars};
use crate::text::{find_char, find_char_index, parse_decimal, parse_decimal_range, trim, trim_range};

verus! {

/// Startup behaviour.
#[derive(Debug, Clone, Copy, PartialEq, Eq, Structural)]
pub struct ServerStartupOptions {
    /// Whether startup requests and checks the macOS permissions.
    pub request_permissions: bool,
}

impl Default for ServerStartupOptions {
    fn default() -> (o: Self)
        ensures
            o.request_permissions,
    {
        ServerStartupOptions { request_permissions: true }
    }
}

/// Credentials generated for this process.
#[derive(Debug)]
pub struct GeneratedCredentials {
    pub username: String,
    pub password: String,
}

/// The credentials the server authenticates against.
#[derive(Debug)]
pub struct ResolvedCredentials {
    pub username: String,
    pub password: String,
    pub generated: bool,
}

/// Why startup refused its configuration.
#[derive(Debug, PartialEq, Eq)]
pub enum StartupError {
    /// Neither a usable username and password nor permission to generate them.
    CredentialsRequired,
    /// The system random source failed while generating a password.
    RandomUnavailable,
    /// `chroma_mode` is neither `avc420` nor `avc444`.
    InvalidChromaMode(String),
    /// `input_tap` is not a known tap location.
    InvalidInputTap(String),
    /// Only one of `cert_path` and `key_path` is set.
    TlsPartialPaths,
    /// The configured certificate or key file does not exist.
    TlsFilesMissing,
}

/// The message shown for a startup error.
pub open spec fn startup_error_text(e: StartupError) -> Seq<char> {
    match e {
        StartupError::CredentialsRequired =>
            "RDP credentials are required; configure non-empty username/password or explicitly enable generated credentials"@,
        StartupError::RandomUnavailable => "the system random source failed while generating credentials"@,
        StartupError::InvalidChromaMode(v) => "Invalid chroma_mode `"@ + v@ + "`; expected `avc420` or `avc444`"@,
        StartupError::InvalidInputTap(v) => "Invalid input_tap `"@ + v@
            + "`; expected `session`, `annotated_session`, or `hid`"@,
        StartupError::TlsPartialPaths =>
            "TLS cert_path and key_path must both be set or both unset; partial configuration is not supported"@,
        StartupError::TlsFilesMissing =>
            "Configured TLS cert/key not found; the daemon will not generate certificates at operator-supplied paths"@,
    }
}

impl StartupError {
    /// The error's message.
    pub fn message(&self) -> (s: String)
        ensures
            s@ == startup_error_text(*self),
    {
        match self {
            StartupError::CredentialsRequired => String::from_str(
                "RDP credentials are required; configure non-empty username/password or explicitly enable generated credentials",
            ),
            StartupError::RandomUnavailable => String::from_str(
                "the system random source failed while generating credentials",
            ),
            StartupError::InvalidChromaMode(v) => {
                let mut s = String::from_str("Invalid chroma_mode `");
                s.append(v.as_str());
                s.append("`; expected `avc420` or `avc444`");
                s
            },
            StartupError::InvalidInputTap(v) => {
                let mut s = String::from_str("Invalid input_tap `");
                s.append(v.as_str());
                s.append("`; expected `session`, `annotated_session`, or `hid`");
                s
            },
            StartupError::TlsPartialPaths => String::from_str(
                "TLS cert_path and key_path must both be set or both unset; partial configuration is not supported",
            ),
            StartupError::TlsFilesMissing => String::from_str(
                "Configured TLS cert/key not found; the daemon will not generate certificates at operator-supplied paths",
            ),
        }
    }
}

// ---------------------------------------------------------------------------
// Generated passwords
// ---------------------------------------------------------------------------

/// Password alphabet: letters and digits without the look-alikes `0 O 1 I l`.
pub const PASSWORD_ALPHABET: &'static str = "ABCDEFGHJKLMNPQRSTUVWXYZabcdefghijkmnopqrstuvwxyz23456789";

/// Random bytes at or above this are discarded, so that every alphabet
/// character is equally likely.
pub const PASSWORD_BYTE_THRESHOLD: u8 = 228;

/// The password characters a sequence of random bytes yields: each byte
/// below the threshold picks the alphabet character at its remainder.
pub open spec fn sample_password(alphabet: Seq<char>, bytes: Seq<u8>) -> Seq<char>
    decreases bytes.len(),
{
    if bytes.len() == 0 {
        seq![]
    } else {
        let prev = sample_password(alphabet, bytes.drop_last());
        let b = bytes.last();
        if b < PASSWORD_BYTE_THRESHOLD {
            prev.push(alphabet[(b % 57) as int])
        } else {
            prev
        }
    }
}

/// One byte from the operating system's random source (`OsRng`), or `None`
/// when the source fails. Nothing is promised of the byte.
#[verifier::external_body]
fn random_byte() -> Option<u8> {
    let mut byte = [0u8; 1];
    match rand::RngCore::try_fill_bytes(&mut rand::rngs::OsRng, &mut byte) {
        Ok(()) => Some(byte[0]),
        Err(_) => None,
    }
}

/// One step of the rejection sampling: a drawn byte below the threshold
/// adds the alphabet character at its remainder modulo 57; any other byte
/// adds nothing.
pub fn push_password_char(out: &mut Vec<char>, b: u8)
    ensures
        b < PASSWORD_BYTE_THRESHOLD ==> final(out)@ == old(out)@.push(PASSWORD_ALPHABET@[(b % 57) as int]),
        b >= PASSWORD_BYTE_THRESHOLD ==> final(out)@ == old(out)@,
{
    proof {
        reveal_strlit("ABCDEFGHJKLMNPQRSTUVWXYZabcdefghijkmnopqrstuvwxyz23456789");
    }
    if b < PASSWORD_BYTE_THRESHOLD {
        let c = PASSWORD_ALPHABET.get_char((b % 57) as usize);
        out.push(c);
    }
}

/// A password of `len` characters drawn by rejection sampling from the
/// system random source, each drawn byte handled by
/// [`push_password_char`]; `None` if the source fails (or, never in
/// practice, after `u64::MAX` draws). An empty password needs no draw and
/// is always made.
pub fn generate_password(len: usize) -> (r: Option<String>)
    ensures
        r matches Some(p) ==> (p@.len() == len && exists|bytes: Seq<u8>|
            p@ == #[trigger] sample_password(PASSWORD_ALPHABET@, bytes)),
        len == 0 ==> (r matches Some(p) && p@.len() == 0),
{
    let mut out: Vec<char> = Vec::new();
    let ghost mut drawn: Seq<u8> = seq![];
    let mut attempts: u64 = 0;
    while out.len() < len
        invariant
            out@.len() <= len,
            out@ == sample_password(PASSWORD_ALPHABET@, drawn),
        decreases u64::MAX - attempts,
    {
        if attempts == u64::MAX {
            return None;
        }
        attempts = attempts + 1;
        let b = match random_byte() {
            Some(b) => b,
            None => {
                return None;
            },
        };
        push_password_char(&mut out, b);
        proof {
            let d2 = drawn.push(b);
            assert(d2.drop_last() =~= drawn);
            drawn = d2;
        }
    }
    let p = string_from_chars(&out, out.len());
    assert(out@.take(out@.len() as int) =~= out@);
    assert(p@ == sample_password(PASSWORD_ALPHABET@, drawn));
    Some(p)
}

/// Generated passwords hold only alphabet characters, so none of the
/// look-alikes `0 O 1 I l`.
pub proof fn lemma_password_alphabet(bytes: Seq<u8>)
    ensures
        forall|i: int|
            0 <= i < sample_password(PASSWORD_ALPHABET@, bytes).len() ==> PASSWORD_ALPHABET@.contains(
                #[trigger] sample_password(PASSWORD_ALPHABET@, bytes)[i],
            ),
        !sample_password(PASSWORD_ALPHABET@, bytes).contains('0'),
        !sample_password(PASSWORD_ALPHABET@, bytes).contains('O'),
        !sample_password(PASSWORD_ALPHABET@, bytes).contains('1'),
        !sample_password(PASSWORD_ALPHABET@, bytes).contains('I'),
        !sample_password(PASSWORD_ALPHABET@, bytes).contains('l'),
    decreases bytes.len(),
{
    reveal_strlit("ABCDEFGHJKLMNPQRSTUVWXYZabcdefghijkmnopqrstuvwxyz23456789");
    let a = PASSWORD_ALPHABET@;
    let s = sample_password(a, bytes);
    if bytes.len() > 0 {
        lemma_password_alphabet(bytes.drop_last());
        let prev = sample_password(a, bytes.drop_last());
        assert forall|i: int| 0 <= i < s.len() implies a.contains(#[trigger] s[i]) by {
            if i < prev.len() {
                assert(s[i] == prev[i]);
            } else {
                assert(a[(bytes.last() % 57) as int] == s[i]);
            }
        }
    }
    assert forall|c: char| #![trigger a.contains(c)] a.contains(c) implies c != '0' && c != 'O' && c != '1' && c != 'I' && c != 'l' by {
        let k = choose|k: int| 0 <= k < a.len() && a[k] == c;
    }
    if s.contains('0') || s.contains('O') || s.contains('1') || s.contains('I') || s.contains('l') {
        let k = choose|k: int| 0 <= k < s.len() && (s[k] == '0' || s[k] == 'O' || s[k] == '1' || s[k] == 'I' || s[k] == 'l');
        assert(a.contains(s[k]));
    }
}

// ---------------------------------------------------------------------------
// Credentials
// ---------------------------------------------------------------------------

/// The configured username and password are usable: both set, neither blank.
pub open spec fn configured_credentials_usable(username: Option<Seq<char>>, password: Option<Seq<char>>) -> bool {
    &&& username matches Some(u) && trim(u).len() > 0
    &&& password matches Some(p) && trim(p).len() > 0
}

/// Whether `s` is empty once trimmed.
fn is_blank(s: &String) -> (b: bool)
    ensures
        b == (trim(s@).len() == 0),
{
    let cs = chars_of(s.as_str());
    let (a, e) = trim_range(&cs, 0, cs.len());
    assert(cs@.subrange(0, cs@.len() as int) =~= cs@);
    a == e
}

/// Credentials for the server: the configured ones when both are set and
/// not blank; generated ones (user `macrdp`, a 24-character password) when
/// both are unset and generation is allowed; otherwise refused.
pub fn resolve_credentials(config: &ServerConfig) -> (r: Result<ResolvedCredentials, StartupError>)
    ensures
        configured_credentials_usable(config@.username, config@.password) ==> (r matches Ok(c)
            && Some(c.username@) == config@.username && Some(c.password@) == config@.password
            && !c.generated),
        !configured_credentials_usable(config@.username, config@.password) && config@.username is None
            && config@.password is None && config@.allow_generated_credentials ==> match r {
            Ok(c) => c.generated && c.username@ == "macrdp"@ && c.password@.len() == 24
                && (exists|bytes: Seq<u8>| c.password@ == #[trigger] sample_password(PASSWORD_ALPHABET@, bytes)),
            Err(e) => e == StartupError::RandomUnavailable,
        },
        !configured_credentials_usable(config@.username, config@.password) && !(config@.username is None
            && config@.password is None && config@.allow_generated_credentials) ==> r
            == Err::<ResolvedCredentials, StartupError>(StartupError::CredentialsRequired),
{
    match (&config.username, &config.password) {
        (Some(u), Some(p)) => {
            if !is_blank(u) && !is_blank(p) {
                return Ok(ResolvedCredentials { username: u.clone(), password: p.clone(), generated: false });
            }
            Err(StartupError::CredentialsRequired)
        },
        (None, None) => {
            if config.allow_generated_credentials {
                match generate_password(24) {
                    Some(pw) => Ok(ResolvedCredentials {
                        username: String::from_str("macrdp"),
                        password: pw,
                        generated: true,
                    }),
                    None => Err(StartupError::RandomUnavailable),
                }
            } else {
                Err(StartupError::CredentialsRequired)
            }
        },
        _ => Err(StartupError::CredentialsRequired),
    }
}

// ---------------------------------------------------------------------------
// Resolution, chroma, input tap, quality
// ---------------------------------------------------------------------------

pub open spec fn sat_mul_u16(a: u16, b: u16) -> u16 {
    if a * b > u16::MAX { u16::MAX } else { (a * b) as u16 }
}

fn saturating_mul_u16(a: u16, b: u16) -> (r: u16)
    ensures
        r == sat_mul_u16(a, b),
{
    assert(a as u32 * b as u32 <= 0xFFFF * 0xFFFF) by (nonlinear_arith)
        requires
            a <= 0xFFFF,
            b <= 0xFFFF,
    ;
    let p: u32 = a as u32 * b as u32;
    if p > 0xFFFF { 0xFFFF } else { p as u16 }
}

/// The option's text, if any.
pub open spec fn opt_str_view(o: Option<&str>) -> Option<Seq<char>> {
    match o {
        Some(s) => Some(s@),
        None => None,
    }
}

/// `(width, height, is_auto)` for the `resolution` setting: `auto` (the
/// default) scales the logical size by the display scale (1 when unknown);
/// `WxH` is explicit; an integer is a legacy scale factor, clamped to 1..=4;
/// anything else keeps the logical size as automatic.
pub open spec fn spec_resolve_resolution(mode: Seq<char>, base_w: u16, base_h: u16, display_scale: Option<u32>) -> (u16, u16, bool) {
    if mode == "auto"@ {
        let scale = match display_scale { Some(s) => s, None => 1 };
        (sat_mul_u16(base_w, scale as u16), sat_mul_u16(base_h, scale as u16), true)
    } else if find_char(mode, 'x') matches Some(i) && parse_decimal(mode.take(i as int), 0xFFFF) is Some
        && parse_decimal(mode.skip(i + 1 as int), 0xFFFF) is Some {
        let i = find_char(mode, 'x')->0;
        (parse_decimal(mode.take(i as int), 0xFFFF)->0 as u16, parse_decimal(mode.skip(i + 1 as int), 0xFFFF)->0 as u16, false)
    } else if parse_decimal(mode, 0xFFFF_FFFF) is Some {
        let v = parse_decimal(mode, 0xFFFF_FFFF)->0;
        let scale: u16 = if v < 1 { 1 } else if v > 4 { 4 } else { v as u16 };
        (sat_mul_u16(base_w, scale), sat_mul_u16(base_h, scale), false)
    } else {
        (base_w, base_h, true)
    }
}

/// Parse the `resolution` setting against the logical display size
/// `base_w` x `base_h`; `display_scale` is the display's backing scale, if
/// it could be read.
pub fn resolve_resolution(resolution: Option<&str>, base_w: u16, base_h: u16, display_scale: Option<u32>) -> (r: (u16, u16, bool))
    ensures
        r == spec_resolve_resolution(
            match resolution { Some(s) => s@, None => "auto"@ },
            base_w,
            base_h,
            display_scale,
        ),
{
    let mode: &str = match resolution {
        Some(s) => s,
        None => "auto",
    };
    if str_eq(mode, "auto") {
        let scale: u32 = match display_scale {
            Some(s) => s,
            None => 1,
        };
        return (
            saturating_mul_u16(base_w, scale as u16),
            saturating_mul_u16(base_h, scale as u16),
            true,
        );
    }
    let cs = chars_of(mode);
    match find_char_index(&cs, 'x') {
        Some(i) => {
            let w = parse_decimal_range(&cs, 0, i, 0xFFFF);
            let h = parse_decimal_range(&cs, i + 1, cs.len(), 0xFFFF);
            assert(cs@.subrange(0, i as int) =~= cs@.take(i as int));
            assert(cs@.subrange(i + 1, cs@.len() as int) =~= cs@.skip(i + 1));
            match (w, h) {
                (Some(w), Some(h)) => {
                    return (w as u16, h as u16, false);
                },
                _ => {},
            }
        },
        None => {},
    }
    assert(cs@.subrange(0, cs@.len() as int) =~= cs@);
    match parse_decimal_range(&cs, 0, cs.len(), 0xFFFF_FFFF) {
        Some(v) => {
            let scale: u16 = if v < 1 {
                1
            } else if v > 4 {
                4
            } else {
                v as u16
            };
            (saturating_mul_u16(base_w, scale), saturating_mul_u16(base_h, scale), false)
        },
        None => (base_w, base_h, true),
    }
}

/// Whether AVC444 is configured: unset or `avc420` means no, `avc444` yes,
/// anything else is refused.
pub fn resolve_chroma_mode(chroma_mode: Option<&str>) -> (r: Result<bool, StartupError>)
    ensures
        match chroma_mode {
            None => r == Ok::<bool, StartupError>(false),
            Some(m) => if m@ == "avc420"@ {
                r == Ok::<bool, StartupError>(false)
            } else if m@ == "avc444"@ {
                r == Ok::<bool, StartupError>(true)
            } else {
                r matches Err(StartupError::InvalidChromaMode(v)) && v@ == m@
            },
        },
{
    match chroma_mode {
        None => Ok(false),
        Some(m) => {
            if str_eq(m, "avc420") {
                Ok(false)
            } else if str_eq(m, "avc444") {
                Ok(true)
            } else {
                Err(StartupError::InvalidChromaMode(String::from_str(m)))
            }
        },
    }
}

/// Where synthesized input events are posted.
#[derive(Debug, Clone, Copy, PartialEq, Eq, Structural)]
pub enum InputTapLocation {
    Session,
    AnnotatedSession,
    Hid,
}

/// The input tap: unset or `session` means the session tap;
/// `annotated_session` and `hid` name the others; anything else is refused.
pub fn resolve_input_tap(input_tap: Option<&str>) -> (r: Result<InputTapLocation, StartupError>)
    ensures
        match input_tap {
            None => r == Ok::<InputTapLocation, StartupError>(InputTapLocation::Session),
            Some(m) => if m@ == "session"@ {
                r == Ok::<InputTapLocation, StartupError>(InputTapLocation::Session)
            } else if m@ == "annotated_session"@ {
                r == Ok::<InputTapLocation, StartupError>(InputTapLocation::AnnotatedSession)
            } else if m@ == "hid"@ {
                r == Ok::<InputTapLocation, StartupError>(InputTapLocation::Hid)
            } else {
                r matches Err(StartupError::InvalidInputTap(v)) && v@ == m@
            },
        },
{
    match input_tap {
        None => Ok(InputTapLocation::Session),
        Some(m) => {
            if str_eq(m, "session") {
                Ok(InputTapLocation::Session)
            } else if str_eq(m, "annotated_session") {
                Ok(InputTapLocation::AnnotatedSession)
            } else if str_eq(m, "hid") {
                Ok(InputTapLocation::Hid)
            } else {
                Err(StartupError::InvalidInputTap(String::from_str(m)))
            }
        },
    }
}

/// The quality preset: `low_latency`, `balanced`, otherwise high quality.
pub fn resolve_quality(quality: Option<&str>) -> (q: Quality)
    ensures
        q == (match quality {
            Some(m) => if m@ == "low_latency"@ {
                Quality::LowLatency
            } else if m@ == "balanced"@ {
                Quality::Balanced
            } else {
                Quality::HighQuality
            },
            None => Quality::HighQuality,
        }),
{
    match quality {
        Some(m) => {
            if str_eq(m, "low_latency") {
                Quality::LowLatency
            } else if str_eq(m, "balanced") {
                Quality::Balanced
            } else {
                Quality::HighQuality
            }
        },
        None => Quality::HighQuality,
    }
}

/// The display's size is probed unless the configuration fixes it and
/// permissions are not being requested.
pub open spec fn spec_needs_display_detection(request_permissions: bool, config_width: u32, config_height: u32) -> bool {
    request_permissions || !(config_width > 0 && config_height > 0)
}

pub fn needs_display_detection(request_permissions: bool, config_width: u32, config_height: u32) -> (b: bool)
    ensures
        b == spec_needs_display_detection(request_permissions, config_width, config_height),
{
    request_permissions || !(config_width > 0 && config_height > 0)
}

/// The capture (ScreenCaptureKit) and pointer (CoreGraphics) display sizes:
/// the configured size for both when no probe is needed; otherwise the
/// capture probe's size, or 1920x1080 when it failed, and the pointer
/// probe's size, or the capture size when it failed.
pub open spec fn spec_display_sizes(
    request_permissions: bool,
    config_width: u32,
    config_height: u32,
    capture_probe: Option<(u32, u32)>,
    pointer_probe: Option<(u32, u32)>,
) -> ((u16, u16), (u16, u16)) {
    if !spec_needs_display_detection(request_permissions, config_width, config_height) {
        ((config_width as u16, config_height as u16), (config_width as u16, config_height as u16))
    } else {
        let capture: (u16, u16) = match capture_probe {
            Some((w, h)) => (w as u16, h as u16),
            None => (1920u16, 1080u16),
        };
        let pointer: (u16, u16) = match pointer_probe {
            Some((w, h)) => (w as u16, h as u16),
            None => capture,
        };
        (capture, pointer)
    }
}

/// See [`spec_display_sizes`]; the probes' results are ignored when no
/// probe is needed.
pub fn display_sizes(
    request_permissions: bool,
    config_width: u32,
    config_height: u32,
    capture_probe: Option<(u32, u32)>,
    pointer_probe: Option<(u32, u32)>,
) -> (r: ((u16, u16), (u16, u16)))
    ensures
        r == spec_display_sizes(request_permissions, config_width, config_height, capture_probe, pointer_probe),
{
    if !needs_display_detection(request_permissions, config_width, config_height) {
        let fixed = (config_width as u16, config_height as u16);
        return (fixed, fixed);
    }
    let capture: (u16, u16) = match capture_probe {
        Some((w, h)) => (w as u16, h as u16),
        None => (1920, 1080),
    };
    let pointer: (u16, u16) = match pointer_probe {
        Some((w, h)) => (w as u16, h as u16),
        None => capture,
    };
    (capture, pointer)
}

/// The resolution before the `resolution` setting applies: the configured
/// size when both sides are set, else the detected display size.
pub fn base_resolution(config_width: u32, config_height: u32, detected_w: u16, detected_h: u16) -> (r: (u16, u16))
    ensures
        r == (if config_width > 0 && config_height > 0 {
            (config_width as u16, config_height as u16)
        } else {
            (detected_w, detected_h)
        }),
{
    if config_width > 0 && config_height > 0 {
        (config_width as u16, config_height as u16)
    } else {
        (detected_w, detected_h)
    }
}

/// Video settings derived from the configuration.
#[derive(Debug, Clone, Copy, PartialEq, Eq, Structural)]
pub struct DisplaySettings {
    /// The resolution is fixed rather than following the client.
    pub fixed_resolution: bool,
    /// Bitrate override in bits per second.
    pub bitrate_override: Option<u32>,
    pub skip_unchanged: bool,
    /// Seconds between idle keyframes, when skipping unchanged frames.
    pub idle_keyframe_sec: Option<u32>,
}

/// Fixed when both sides or a `resolution` setting are configured; the
/// bitrate in bits per second; skipping unchanged frames by default exactly
/// when an idle keyframe interval is set, with a five-second interval when
/// none is.
pub fn display_settings(config: &ServerConfig) -> (s: DisplaySettings)
    requires
        config.bitrate_mbps matches Some(m) ==> m * 1_000_000 <= u32::MAX,
    ensures
        s.fixed_resolution == ((config.width > 0 && config.height > 0) || config.resolution is Some),
        s.bitrate_override == (match config.bitrate_mbps {
            Some(m) => Some((m * 1_000_000) as u32),
            None => None,
        }),
        s.skip_unchanged == (match config.skip_unchanged {
            Some(b) => b,
            None => config.idle_keyframe_sec is Some,
        }),
        s.idle_keyframe_sec == (if s.skip_unchanged {
            Some(match config.idle_keyframe_sec { Some(v) => v, None => 5 })
        } else {
            None
        }),
{
    let fixed_resolution = (config.width > 0 && config.height > 0) || config.resolution.is_some();
    let bitrate_override = match config.bitrate_mbps {
        Some(m) => Some(m * 1_000_000),
        None => None,
    };
    let skip_unchanged = match config.skip_unchanged {
        Some(b) => b,
        None => config.idle_keyframe_sec.is_some(),
    };
    let idle_keyframe_sec = if skip_unchanged {
        Some(match config.idle_keyframe_sec {
            Some(v) => v,
            None => 5,
        })
    } else {
        None
    };
    DisplaySettings { fixed_resolution, bitrate_override, skip_unchanged, idle_keyframe_sec }
}

// ---------------------------------------------------------------------------
// TLS files
// ---------------------------------------------------------------------------

/// Where the TLS certificate and key come from.
#[derive(Debug)]
pub enum TlsPaths {
    /// Paths the operator configured; the files must exist.
    Explicit { cert: String, key: String },
    /// The default location, where a self-signed pair is generated if missing.
    Defaults,
}

/// Both paths or neither: a single configured path is refused.
pub fn resolve_tls_paths(cert_path: Option<&str>, key_path: Option<&str>) -> (r: Result<TlsPaths, StartupError>)
    ensures
        match (cert_path, key_path) {
            (Some(c), Some(k)) => r matches Ok(TlsPaths::Explicit { cert, key }) && cert@ == c@ && key@ == k@,
            (None, None) => r matches Ok(TlsPaths::Defaults),
            _ => r == Err::<TlsPaths, StartupError>(StartupError::TlsPartialPaths),
        },
{
    match (cert_path, key_path) {
        (Some(c), Some(k)) => Ok(TlsPaths::Explicit { cert: String::from_str(c), key: String::from_str(k) }),
        (None, None) => Ok(TlsPaths::Defaults),
        _ => Err(StartupError::TlsPartialPaths),
    }
}

/// What to do with the TLS files.
#[derive(Debug, Clone, Copy, PartialEq, Eq, Structural)]
pub enum TlsAction {
    UseExisting,
    GenerateSelfSigned,
}

/// Configured files are used as they are and never generated; at the
/// default location a self-signed pair is generated when either file is
/// missing.
pub fn ensure_tls_files(paths: &TlsPaths, cert_exists: bool, key_exists: bool) -> (r: Result<TlsAction, StartupError>)
    ensures
        (*paths is Explicit) && !(cert_exists && key_exists) ==> r == Err::<TlsAction, StartupError>(StartupError::TlsFilesMissing),
        cert_exists && key_exists ==> r == Ok::<TlsAction, StartupError>(TlsAction::UseExisting),
        (*paths is Defaults) && !(cert_exists && key_exists) ==> r == Ok::<TlsAction, StartupError>(TlsAction::GenerateSelfSigned),
{
    if cert_exists && key_exists {
        Ok(TlsAction::UseExisting)
    } else {
        match paths {
            TlsPaths::Explicit { .. } => Err(StartupError::TlsFilesMissing),
            TlsPaths::Defaults => Ok(TlsAction::GenerateSelfSigned),
        }
    }
}

// ---------------------------------------------------------------------------
// Lifecycle
// ---------------------------------------------------------------------------

/// What the server reports of itself.
pub struct ServerStatus {
    pub running: bool,
    pub state: String,
    pub uptime_secs: u64,
}

/// The status reported when startup or the session loop failed.
pub fn error_status(message: &str) -> (s: ServerStatus)
    ensures
        !s.running,
        s.state@ == "error: "@ + message@,
        s.uptime_secs == 0,
{
    let mut cs: Vec<char> = Vec::new();
    crate::config::append(&mut cs, "error: ");
    crate::config::append(&mut cs, message);
    ServerStatus { running: false, state: string_from_chars(&cs, cs.len()), uptime_secs: 0 }
}

/// Whether a started server has been stopped; it runs until then.
pub struct ServerLifecycle {
    stopped: bool,
}

impl ServerLifecycle {
    pub closed spec fn stopped(&self) -> bool {
        self.stopped
    }

    /// A server that has just started.
    pub fn new() -> (l: Self)
        ensures
            !l.stopped(),
    {
        ServerLifecycle { stopped: false }
    }

    /// The status: running with the given uptime, or stopped with none.
    pub fn status(&self, uptime_secs: u64) -> (s: ServerStatus)
        ensures
            s.running == !self.stopped(),
            s.state@ == (if self.stopped() { "stopped"@ } else { "running"@ }),
            s.uptime_secs == (if self.stopped() { 0 } else { uptime_secs }),
    {
        if self.stopped {
            ServerStatus { running: false, state: String::from_str("stopped"), uptime_secs: 0 }
        } else {
            ServerStatus { running: true, state: String::from_str("running"), uptime_secs }
        }
    }

    /// A stop request. The first one returns `true`: the shutdown is
    /// signalled and the session thread and metrics task are ended. Any
    /// later one returns `false` and does nothing, so stopping is
    /// idempotent.
    pub fn stop(&mut self) -> (first: bool)
        ensures
            first == !old(self).stopped(),
            final(self).stopped(),
    {
        if self.stopped {
            false
        } else {
            self.stopped = true;
            true
        }
    }

    /// Whether dropping the handle must still signal the shutdown: only
    /// when the server was not stopped.
    pub fn needs_shutdown_signal(&self) -> (b: bool)
        ensures
            b == !self.stopped(),
    {
        !self.stopped
    }
}

} // verus!
