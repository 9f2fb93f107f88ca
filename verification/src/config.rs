//! Server configuration: defaults, a log-safe rendering that never shows
//! the password, and the locations of the daemon's files.

use vstd::prelude::*;
use crate::formats::{chars_of, string_from_chars};
use crate::text::{dec_digits, push_dec_digits};

verus! {

/// Server configuration, shared between the command line and the UI.
pub struct ServerConfig {
    pub bind_address: String,
    pub port: u16,
    pub frame_rate: u32,
    /// Resolution width (0 = detect from the display).
    pub width: u32,
    /// Resolution height (0 = detect from the display).
    pub height: u32,
    pub username: Option<String>,
    pub password: Option<String>,
    pub allow_generated_credentials: bool,
    pub cert_path: Option<String>,
    pub key_path: Option<String>,
    pub log_path: Option<String>,
    pub idle_timeout_secs: u64,
    /// trace, debug, info, warn, error.
    pub log_level: Option<String>,
    /// "text" or "json".
    pub log_format: Option<String>,
    /// low_latency, balanced, high_quality.
    pub quality: Option<String>,
    /// software, hardware, auto.
    pub encoder: Option<String>,
    /// "avc420" or "avc444".
    pub chroma_mode: Option<String>,
    pub hidpi_scale: Option<u32>,
    /// Include the macOS cursor in captured frames.
    pub show_cursor: Option<bool>,
    /// Target bitrate in Mbps.
    pub bitrate_mbps: Option<u32>,
    /// Skip encoding frames known to be unchanged.
    pub skip_unchanged: Option<bool>,
    /// Seconds between idle keyframes.
    pub idle_keyframe_sec: Option<u32>,
    /// "auto", "WxH", or an integer scale factor.
    pub resolution: Option<String>,
    /// session, annotated_session, hid.
    pub input_tap: Option<String>,
    pub advanced_input: Option<bool>,
}

/// Mathematical form of a configuration.
pub struct ServerConfigView {
    pub bind_address: Seq<char>,
    pub port: u16,
    pub frame_rate: u32,
    pub width: u32,
    pub height: u32,
    pub username: Option<Seq<char>>,
    pub password: Option<Seq<char>>,
    pub allow_generated_credentials: bool,
    pub cert_path: Option<Seq<char>>,
    pub key_path: Option<Seq<char>>,
    pub log_path: Option<Seq<char>>,
    pub idle_timeout_secs: u64,
    pub log_level: Option<Seq<char>>,
    pub log_format: Option<Seq<char>>,
    pub quality: Option<Seq<char>>,
    pub encoder: Option<Seq<char>>,
    pub chroma_mode: Option<Seq<char>>,
    pub hidpi_scale: Option<u32>,
    pub show_cursor: Option<bool>,
    pub bitrate_mbps: Option<u32>,
    pub skip_unchanged: Option<bool>,
    pub idle_keyframe_sec: Option<u32>,
    pub resolution: Option<Seq<char>>,
    pub input_tap: Option<Seq<char>>,
    pub advanced_input: Option<bool>,
}

impl View for ServerConfig {
    type V = ServerConfigView;

    open spec fn view(&self) -> ServerConfigView {
        ServerConfigView {
            bind_address: self.bind_address@,
            port: self.port,
            frame_rate: self.frame_rate,
            width: self.width,
            height: self.height,
            username: self.username.deep_view(),
            password: self.password.deep_view(),
            allow_generated_credentials: self.allow_generated_credentials,
            cert_path: self.cert_path.deep_view(),
            key_path: self.key_path.deep_view(),
            log_path: self.log_path.deep_view(),
            idle_timeout_secs: self.idle_timeout_secs,
            log_level: self.log_level.deep_view(),
            log_format: self.log_format.deep_view(),
            quality: self.quality.deep_view(),
            encoder: self.encoder.deep_view(),
            chroma_mode: self.chroma_mode.deep_view(),
            hidpi_scale: self.hidpi_scale,
            show_cursor: self.show_cursor,
            bitrate_mbps: self.bitrate_mbps,
            skip_unchanged: self.skip_unchanged,
            idle_keyframe_sec: self.idle_keyframe_sec,
            resolution: self.resolution.deep_view(),
            input_tap: self.input_tap.deep_view(),
            advanced_input: self.advanced_input,
        }
    }
}

/// The default configuration.
pub open spec fn default_config_view() -> ServerConfigView {
    ServerConfigView {
        bind_address: "0.0.0.0"@,
        port: 3389,
        frame_rate: 60,
        width: 0,
        height: 0,
        username: None,
        password: None,
        allow_generated_credentials: false,
        cert_path: None,
        key_path: None,
        log_path: None,
        idle_timeout_secs: 1800,
        log_level: None,
        log_format: None,
        quality: None,
        encoder: None,
        chroma_mode: None,
        hidpi_scale: None,
        show_cursor: None,
        bitrate_mbps: None,
        skip_unchanged: None,
        idle_keyframe_sec: None,
        resolution: None,
        input_tap: None,
        advanced_input: None,
    }
}

impl Default for ServerConfig {
    /// Listen on all IPv4 interfaces, port 3389, 60 frames per second,
    /// resolution from the display, no credentials, 30-minute idle timeout.
    fn default() -> (c: Self)
        ensures
            c@ == default_config_view(),
    {
        ServerConfig {
            bind_address: String::from_str("0.0.0.0"),
            port: 3389,
            frame_rate: 60,
            width: 0,
            height: 0,
            username: None,
            password: None,
            allow_generated_credentials: false,
            cert_path: None,
            key_path: None,
            log_path: None,
            idle_timeout_secs: 1800,
            log_level: None,
            log_format: None,
            quality: None,
            encoder: None,
            chroma_mode: None,
            hidpi_scale: None,
            show_cursor: None,
            bitrate_mbps: None,
            skip_unchanged: None,
            idle_keyframe_sec: None,
            resolution: None,
            input_tap: None,
            advanced_input: None,
        }
    }
}

// ---------------------------------------------------------------------------
// Rendering for logs
// ---------------------------------------------------------------------------

/// What `format!("{:?}", s)` makes of a string: it quoted and escaped.
pub uninterp spec fn str_debug(s: Seq<char>) -> Seq<char>;

/// `format!("{:?}", s)`: the string quoted, with escapes. Named by
/// `str_debug`.
#[verifier::external_body]
fn debug_quoted(s: &str) -> (r: String)
    ensures
        r@ == str_debug(s@),
{
    format!("{:?}", s)
}

pub open spec fn bool_debug(b: bool) -> Seq<char> {
    if b { "true"@ } else { "false"@ }
}

pub open spec fn opt_str_debug(o: Option<Seq<char>>) -> Seq<char> {
    match o {
        Some(s) => "Some("@ + str_debug(s) + ")"@,
        None => "None"@,
    }
}

pub open spec fn opt_u32_debug(o: Option<u32>) -> Seq<char> {
    match o {
        Some(n) => "Some("@ + dec_digits(n as nat) + ")"@,
        None => "None"@,
    }
}

pub open spec fn opt_bool_debug(o: Option<bool>) -> Seq<char> {
    match o {
        Some(b) => "Some("@ + bool_debug(b) + ")"@,
        None => "None"@,
    }
}

/// The password is shown only as set or unset.
pub open spec fn password_debug(o: Option<Seq<char>>) -> Seq<char> {
    if o is Some { "Some(\"<redacted>\")"@ } else { "None"@ }
}

/// The log rendering of a configuration, in `Debug` struct form.
pub open spec fn config_debug(c: ServerConfigView) -> Seq<char> {
    "ServerConfig { bind_address: "@ + str_debug(c.bind_address)
        + ", port: "@ + dec_digits(c.port as nat)
        + ", frame_rate: "@ + dec_digits(c.frame_rate as nat)
        + ", width: "@ + dec_digits(c.width as nat)
        + ", height: "@ + dec_digits(c.height as nat)
        + ", username: "@ + opt_str_debug(c.username)
        + ", password: "@ + password_debug(c.password)
        + ", allow_generated_credentials: "@ + bool_debug(c.allow_generated_credentials)
        + ", cert_path: "@ + opt_str_debug(c.cert_path)
        + ", key_path: "@ + opt_str_debug(c.key_path)
        + ", log_path: "@ + opt_str_debug(c.log_path)
        + ", idle_timeout_secs: "@ + dec_digits(c.idle_timeout_secs as nat)
        + ", log_level: "@ + opt_str_debug(c.log_level)
        + ", log_format: "@ + opt_str_debug(c.log_format)
        + ", quality: "@ + opt_str_debug(c.quality)
        + ", encoder: "@ + opt_str_debug(c.encoder)
        + ", chroma_mode: "@ + opt_str_debug(c.chroma_mode)
        + ", hidpi_scale: "@ + opt_u32_debug(c.hidpi_scale)
        + ", show_cursor: "@ + opt_bool_debug(c.show_cursor)
        + ", bitrate_mbps: "@ + opt_u32_debug(c.bitrate_mbps)
        + ", skip_unchanged: "@ + opt_bool_debug(c.skip_unchanged)
        + ", idle_keyframe_sec: "@ + opt_u32_debug(c.idle_keyframe_sec)
        + " }"@
}

/// Appends the characters of `s`.
pub(crate) fn append(out: &mut Vec<char>, s: &str)
    ensures
        final(out)@ == old(out)@ + s@,
{
    let cs = chars_of(s);
    append_chars(out, &cs);
}

/// Appends `cs`.
pub(crate) fn append_chars(out: &mut Vec<char>, cs: &Vec<char>)
    ensures
        final(out)@ == old(out)@ + cs@,
{
    let ghost start = out@;
    let mut i: usize = 0;
    while i < cs.len()
        invariant
            i <= cs@.len(),
            out@ == start + cs@.take(i as int),
        decreases cs.len() - i,
    {
        out.push(cs[i]);
        assert(out@ =~= start + cs@.take(i + 1));
        i = i + 1;
    }
    assert(cs@.take(cs@.len() as int) =~= cs@);
}

fn append_str_debug(out: &mut Vec<char>, s: &String)
    ensures
        final(out)@ == old(out)@ + str_debug(s@),
{
    let q = debug_quoted(s.as_str());
    append(out, q.as_str());
}

fn append_bool(out: &mut Vec<char>, b: bool)
    ensures
        final(out)@ == old(out)@ + bool_debug(b),
{
    if b {
        append(out, "true");
    } else {
        append(out, "false");
    }
}

fn append_opt_str(out: &mut Vec<char>, o: &Option<String>)
    ensures
        final(out)@ == old(out)@ + opt_str_debug(o.deep_view()),
{
    match o {
        Some(s) => {
            append(out, "Some(");
            append_str_debug(out, s);
            append(out, ")");
        },
        None => {
            append(out, "None");
        },
    }
}

fn append_opt_u32(out: &mut Vec<char>, o: Option<u32>)
    ensures
        final(out)@ == old(out)@ + opt_u32_debug(o),
{
    match o {
        Some(n) => {
            append(out, "Some(");
            push_dec_digits(out, n as u128);
            append(out, ")");
        },
        None => {
            append(out, "None");
        },
    }
}

fn append_opt_bool(out: &mut Vec<char>, o: Option<bool>)
    ensures
        final(out)@ == old(out)@ + opt_bool_debug(o),
{
    match o {
        Some(b) => {
            append(out, "Some(");
            append_bool(out, b);
            append(out, ")");
        },
        None => {
            append(out, "None");
        },
    }
}

impl ServerConfig {
    /// The configuration as `Debug` renders it for logs, with the password
    /// shown only as `Some("<redacted>")` or `None`.
    pub fn debug_string(&self) -> (s: String)
        ensures
            s@ == config_debug(self@),
    {
        let mut out: Vec<char> = Vec::new();
        append(&mut out, "ServerConfig { bind_address: ");
        append_str_debug(&mut out, &self.bind_address);
        append(&mut out, ", port: ");
        push_dec_digits(&mut out, self.port as u128);
        append(&mut out, ", frame_rate: ");
        push_dec_digits(&mut out, self.frame_rate as u128);
        append(&mut out, ", width: ");
        push_dec_digits(&mut out, self.width as u128);
        append(&mut out, ", height: ");
        push_dec_digits(&mut out, self.height as u128);
        append(&mut out, ", username: ");
        append_opt_str(&mut out, &self.username);
        append(&mut out, ", password: ");
        if self.password.is_some() {
            append(&mut out, "Some(\"<redacted>\")");
        } else {
            append(&mut out, "None");
        }
        append(&mut out, ", allow_generated_credentials: ");
        append_bool(&mut out, self.allow_generated_credentials);
        append(&mut out, ", cert_path: ");
        append_opt_str(&mut out, &self.cert_path);
        append(&mut out, ", key_path: ");
        append_opt_str(&mut out, &self.key_path);
        append(&mut out, ", log_path: ");
        append_opt_str(&mut out, &self.log_path);
        append(&mut out, ", idle_timeout_secs: ");
        push_dec_digits(&mut out, self.idle_timeout_secs as u128);
        append(&mut out, ", log_level: ");
        append_opt_str(&mut out, &self.log_level);
        append(&mut out, ", log_format: ");
        append_opt_str(&mut out, &self.log_format);
        append(&mut out, ", quality: ");
        append_opt_str(&mut out, &self.quality);
        append(&mut out, ", encoder: ");
        append_opt_str(&mut out, &self.encoder);
        append(&mut out, ", chroma_mode: ");
        append_opt_str(&mut out, &self.chroma_mode);
        append(&mut out, ", hidpi_scale: ");
        append_opt_u32(&mut out, self.hidpi_scale);
        append(&mut out, ", show_cursor: ");
        append_opt_bool(&mut out, self.show_cursor);
        append(&mut out, ", bitrate_mbps: ");
        append_opt_u32(&mut out, self.bitrate_mbps);
        append(&mut out, ", skip_unchanged: ");
        append_opt_bool(&mut out, self.skip_unchanged);
        append(&mut out, ", idle_keyframe_sec: ");
        append_opt_u32(&mut out, self.idle_keyframe_sec);
        append(&mut out, " }");
        let s = string_from_chars(&out, out.len());
        assert(out@.take(out@.len() as int) =~= out@);
        s
    }
}

/// Two configurations that differ only in the password's text render the
/// same: the rendering shows whether a password is set, never what it is.
pub proof fn lemma_debug_hides_password(a: ServerConfigView, b: ServerConfigView)
    requires
        (ServerConfigView { password: None, ..a }) == (ServerConfigView { password: None, ..b }),
        a.password is Some <==> b.password is Some,
    ensures
        config_debug(a) == config_debug(b),
{
    assert(a.bind_address == b.bind_address);
}

} // verus!
