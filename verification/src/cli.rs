//! The daemon's command line and how it overrides the configuration file.

use vstd::prelude::*;
use crate::config::{ServerConfig, ServerConfigView};

verus! {

/// Command line of the daemon.
pub struct Cli {
    /// TCP port to listen on.
    pub port: Option<u16>,
    /// IP address to listen on.
    pub bind_address: Option<String>,
    /// Path to the configuration file.
    pub config: Option<String>,
    /// Path to the TLS certificate file.
    pub cert_path: Option<String>,
    /// Path to the TLS private key file.
    pub key_path: Option<String>,
    /// Path to append daemon logs to.
    pub log_path: Option<String>,
    /// RDP user name.
    pub username: Option<String>,
    /// Environment variable holding the RDP password.
    pub password_env: Option<String>,
    /// Allow temporary generated credentials when none are configured.
    pub allow_generated_credentials: bool,
    /// Target frame rate (30, 60 or 120).
    pub frame_rate: Option<u32>,
    /// H.264 encoder: software, hardware, auto.
    pub encoder: Option<String>,
    /// Target bitrate in Mbps.
    pub bitrate_mbps: Option<u32>,
    /// Chroma mode: avc420 or avc444.
    pub chroma_mode: Option<String>,
    /// Resolution: "auto", "WxH" or a scale factor.
    pub resolution: Option<String>,
    /// Log level: trace, debug, info, warn, error.
    pub log_level: Option<String>,
    /// Log format: text or json.
    pub log_format: Option<String>,
    /// Input tap: session, annotated_session or hid.
    pub input_tap: Option<String>,
    /// Advertise the advanced-input channel.
    pub advanced_input: bool,
    /// Print the permission status and exit.
    pub check_permissions: bool,
    /// Output format of the permission check: text or json.
    pub check_permissions_format: String,
    /// Store the RDP password in the Keychain and exit.
    pub keychain_set_password: bool,
    /// Read the RDP password from the Keychain at startup.
    pub password_keychain: bool,
}

/// `o` when it is given, else `fallback`.
pub open spec fn or_keep<T>(o: Option<T>, fallback: T) -> T {
    match o {
        Some(v) => v,
        None => fallback,
    }
}

/// `Some` of `o` when it is given, else `fallback`.
pub open spec fn or_keep_opt<T>(o: Option<T>, fallback: Option<T>) -> Option<T> {
    match o {
        Some(v) => Some(v),
        None => fallback,
    }
}

/// The configuration `c` with the command line's overrides: each option
/// given on the command line replaces the file's value; the two switches
/// only turn their setting on; the password is the one read for the
/// command line, when there is one.
pub open spec fn overridden_config(c: ServerConfigView, cli: Cli, password: Option<Seq<char>>) -> ServerConfigView {
    ServerConfigView {
        port: or_keep(cli.port, c.port),
        bind_address: or_keep(cli.bind_address.deep_view(), c.bind_address),
        frame_rate: or_keep(cli.frame_rate, c.frame_rate),
        encoder: or_keep_opt(cli.encoder.deep_view(), c.encoder),
        bitrate_mbps: or_keep_opt(cli.bitrate_mbps, c.bitrate_mbps),
        chroma_mode: or_keep_opt(cli.chroma_mode.deep_view(), c.chroma_mode),
        resolution: or_keep_opt(cli.resolution.deep_view(), c.resolution),
        log_level: or_keep_opt(cli.log_level.deep_view(), c.log_level),
        log_format: or_keep_opt(cli.log_format.deep_view(), c.log_format),
        input_tap: or_keep_opt(cli.input_tap.deep_view(), c.input_tap),
        advanced_input: if cli.advanced_input { Some(true) } else { c.advanced_input },
        cert_path: or_keep_opt(cli.cert_path.deep_view(), c.cert_path),
        key_path: or_keep_opt(cli.key_path.deep_view(), c.key_path),
        log_path: or_keep_opt(cli.log_path.deep_view(), c.log_path),
        username: or_keep_opt(cli.username.deep_view(), c.username),
        password: or_keep_opt(password, c.password),
        allow_generated_credentials: cli.allow_generated_credentials || c.allow_generated_credentials,
        ..c
    }
}

/// The command line's value of an optional setting when given, else `cur`.
fn override_opt(cli_val: &Option<String>, cur: Option<String>) -> (r: Option<String>)
    ensures
        r.deep_view() == or_keep_opt(cli_val.deep_view(), cur.deep_view()),
{
    match cli_val {
        Some(s) => Some(s.clone()),
        None => cur,
    }
}

/// Which configuration file to read: the one named on the command line,
/// else the default one when it exists, else none.
pub fn choose_config_path(cli_config: &Option<String>, default_path: &String, default_exists: bool) -> (r:
    Option<String>)
    ensures
        r.deep_view() == (match *cli_config {
            Some(p) => Some(p@),
            None => if default_exists {
                Some(default_path@)
            } else {
                None
            },
        }),
{
    match cli_config {
        Some(p) => Some(p.clone()),
        None => if default_exists {
            Some(default_path.clone())
        } else {
            None
        },
    }
}

/// The password the command line brings: from the Keychain when asked
/// for, else from the named environment variable when one is named.
pub open spec fn cli_password(
    cli: Cli,
    env_password: Option<Seq<char>>,
    keychain_password: Option<Seq<char>>,
) -> Option<Seq<char>> {
    if cli.password_keychain && keychain_password is Some {
        keychain_password
    } else if cli.password_env is Some && env_password is Some {
        env_password
    } else {
        None
    }
}

/// Applies the command line to a configuration loaded from file.
/// `env_password` is the value read from the variable that `password_env`
/// names, `keychain_password` the one read from the Keychain; the Keychain
/// wins when both are given.
pub fn apply_cli_overrides(
    config: ServerConfig,
    cli: &Cli,
    env_password: Option<String>,
    keychain_password: Option<String>,
) -> (r: ServerConfig)
    ensures
        r@ == overridden_config(
            config@,
            *cli,
            cli_password(*cli, env_password.deep_view(), keychain_password.deep_view()),
        ),
{
    let ServerConfig {
        bind_address,
        port,
        frame_rate,
        width,
        height,
        username,
        password,
        allow_generated_credentials,
        cert_path,
        key_path,
        log_path,
        idle_timeout_secs,
        log_level,
        log_format,
        quality,
        encoder,
        chroma_mode,
        hidpi_scale,
        show_cursor,
        bitrate_mbps,
        skip_unchanged,
        idle_keyframe_sec,
        resolution,
        input_tap,
        advanced_input,
    } = config;
    let bind_address = match &cli.bind_address {
        Some(b) => b.clone(),
        None => bind_address,
    };
    let password = override_password(cli, env_password, keychain_password, password);
    ServerConfig {
        bind_address,
        port: match cli.port {
            Some(p) => p,
            None => port,
        },
        frame_rate: match cli.frame_rate {
            Some(f) => f,
            None => frame_rate,
        },
        width,
        height,
        username: override_opt(&cli.username, username),
        password,
        allow_generated_credentials: cli.allow_generated_credentials || allow_generated_credentials,
        cert_path: override_opt(&cli.cert_path, cert_path),
        key_path: override_opt(&cli.key_path, key_path),
        log_path: override_opt(&cli.log_path, log_path),
        idle_timeout_secs,
        log_level: override_opt(&cli.log_level, log_level),
        log_format: override_opt(&cli.log_format, log_format),
        quality,
        encoder: override_opt(&cli.encoder, encoder),
        chroma_mode: override_opt(&cli.chroma_mode, chroma_mode),
        hidpi_scale,
        show_cursor,
        bitrate_mbps: match cli.bitrate_mbps {
            Some(b) => Some(b),
            None => bitrate_mbps,
        },
        skip_unchanged,
        idle_keyframe_sec,
        resolution: override_opt(&cli.resolution, resolution),
        input_tap: override_opt(&cli.input_tap, input_tap),
        advanced_input: if cli.advanced_input {
            Some(true)
        } else {
            advanced_input
        },
    }
}

/// The password after the command line: the Keychain's when it was asked
/// for and read, else the environment's when a variable was named and
/// read, else `cur`.
fn override_password(
    cli: &Cli,
    env_password: Option<String>,
    keychain_password: Option<String>,
    cur: Option<String>,
) -> (r: Option<String>)
    ensures
        r.deep_view() == or_keep_opt(
            cli_password(*cli, env_password.deep_view(), keychain_password.deep_view()),
            cur.deep_view(),
        ),
{
    if cli.password_keychain && keychain_password.is_some() {
        keychain_password
    } else if cli.password_env.is_some() && env_password.is_some() {
        env_password
    } else {
        cur
    }
}

/// The Keychain account a password is stored under: the given user name,
/// else the login user (`env_user`, read from `USER`), else "default".
pub fn account(username: Option<&str>, env_user: Option<String>) -> (r: String)
    ensures
        r@ == (match username {
            Some(u) => u@,
            None => match env_user {
                Some(e) => e@,
                None => "default"@,
            },
        }),
{
    match username {
        Some(u) => String::from_str(u),
        None => match env_user {
            Some(e) => e,
            None => String::from_str("default"),
        },
    }
}

} // verus!
