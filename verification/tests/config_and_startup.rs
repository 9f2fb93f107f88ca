use macrdp::server::{error_status, push_password_char, ServerLifecycle};
use macrdp::cli::{account, apply_cli_overrides, choose_config_path, Cli};
use macrdp::config::ServerConfig;
use macrdp::encode::Quality;
use macrdp::paths::{
    config_dir, config_dir_from, default_cert_path, default_config_path, default_key_path, default_log_path,
    default_paths_in, default_tls_dir, join_path,
};
use macrdp::server::{
    base_resolution, display_sizes, ensure_tls_files, needs_display_detection, generate_password, resolve_chroma_mode, resolve_credentials,
    resolve_input_tap, resolve_quality, resolve_resolution, resolve_tls_paths, InputTapLocation, StartupError,
    TlsAction, TlsPaths, PASSWORD_ALPHABET,
};

fn empty_cli() -> Cli {
    Cli {
        port: None,
        bind_address: None,
        config: None,
        cert_path: None,
        key_path: None,
        log_path: None,
        username: None,
        password_env: None,
        allow_generated_credentials: false,
        frame_rate: None,
        encoder: None,
        bitrate_mbps: None,
        chroma_mode: None,
        resolution: None,
        log_level: None,
        log_format: None,
        input_tap: None,
        advanced_input: false,
        check_permissions: false,
        check_permissions_format: "text".to_string(),
        keychain_set_password: false,
        password_keychain: false,
    }
}

#[test]
fn config_test_default_config() {
    let config = ServerConfig::default();
    assert_eq!(config.port, 3389);
    assert_eq!(config.bind_address, "0.0.0.0");
    assert_eq!(config.frame_rate, 60);
    assert!(config.username.is_none());
}

#[test]
fn test_default_config() {
    let config = ServerConfig::default();
    assert_eq!(config.port, 3389);
    assert_eq!(config.frame_rate, 60);
    assert!(config.username.is_none());
}

#[test]
fn test_default_encoding_config() {
    let config = ServerConfig::default();
    assert!(config.skip_unchanged.is_none());
    assert!(config.idle_keyframe_sec.is_none());
}

#[test]
fn debug_redacts_password() {
    let config = ServerConfig {
        username: Some("admin".to_string()),
        password: Some("hunter2".to_string()),
        ..ServerConfig::default()
    };

    let rendered = config.debug_string();

    assert!(!rendered.contains("hunter2"), "password leaked: {rendered}");
    assert!(rendered.contains("<redacted>"));
    assert!(rendered.contains("admin"));
}

#[test]
fn debug_redaction_marks_unset_password_as_none() {
    let config = ServerConfig::default();
    let rendered = config.debug_string();
    assert!(rendered.contains("password: None"));
}

#[test]
fn debug_rendering_starts_like_derived_debug() {
    let rendered = ServerConfig::default().debug_string();
    assert!(rendered.starts_with("ServerConfig { bind_address: \"0.0.0.0\", port: 3389, frame_rate: 60"));
    assert!(rendered.ends_with('}'));
}

#[test]
fn default_paths_share_config_dir() {
    let base = config_dir();

    assert!(default_config_path().starts_with(&base));
    assert!(default_log_path().starts_with(&base));
    assert!(default_tls_dir().starts_with(&base));
    assert!(default_cert_path().starts_with(&default_tls_dir()));
    assert!(default_key_path().starts_with(&default_tls_dir()));
}

#[test]
fn default_paths_are_named_under_the_directory() {
    let p = default_paths_in("/home/u/.config/macrdp");
    assert_eq!(p.config, "/home/u/.config/macrdp/config.toml");
    assert_eq!(p.log, "/home/u/.config/macrdp/logs/macrdp.log");
    assert_eq!(p.tls_dir, "/home/u/.config/macrdp/tls");
    assert_eq!(p.cert, "/home/u/.config/macrdp/tls/cert.pem");
    assert_eq!(p.key, "/home/u/.config/macrdp/tls/key.pem");
    assert_eq!(join_path("/a/", "b"), "/a/b");
    assert_eq!(join_path("/a", "b"), "/a/b");
}

#[test]
fn config_dir_prefers_native_then_home() {
    assert_eq!(config_dir_from(Some("/cfg"), Some("/home/u")), "/cfg/macrdp");
    assert_eq!(config_dir_from(None, Some("/home/u")), "/home/u/.config/macrdp");
    assert_eq!(config_dir_from(None, None), ".macrdp");
}

#[test]
fn resolves_configured_credentials() {
    let config = ServerConfig {
        username: Some("admin".to_string()),
        password: Some("secret".to_string()),
        ..ServerConfig::default()
    };

    let credentials = resolve_credentials(&config).unwrap();

    assert_eq!(credentials.username, "admin");
    assert_eq!(credentials.password, "secret");
    assert!(!credentials.generated);
}

#[test]
fn rejects_missing_credentials_by_default() {
    let err = resolve_credentials(&ServerConfig::default()).unwrap_err();

    assert!(err.message().contains("credentials are required"));
}

#[test]
fn rejects_partial_or_blank_credentials() {
    let partial = ServerConfig { username: Some("admin".to_string()), password: None, ..ServerConfig::default() };
    assert!(resolve_credentials(&partial).is_err());

    let blank =
        ServerConfig { username: Some(" ".to_string()), password: Some(" ".to_string()), ..ServerConfig::default() };
    assert!(resolve_credentials(&blank).is_err());
}

#[test]
fn generates_credentials_only_when_explicitly_allowed() {
    let config = ServerConfig { allow_generated_credentials: true, ..ServerConfig::default() };

    let credentials = resolve_credentials(&config).unwrap();

    assert_eq!(credentials.username, "macrdp");
    assert_eq!(credentials.password.len(), 24);
    assert!(credentials.password.chars().all(|c| c.is_ascii_alphanumeric()));
    assert!(credentials.generated);
}

#[test]
fn does_not_generate_when_partial_credentials_are_set() {
    let only_username = ServerConfig {
        username: Some("admin".to_string()),
        password: None,
        allow_generated_credentials: true,
        ..ServerConfig::default()
    };
    assert!(resolve_credentials(&only_username).is_err());

    let only_password = ServerConfig {
        username: None,
        password: Some("secret".to_string()),
        allow_generated_credentials: true,
        ..ServerConfig::default()
    };
    assert!(resolve_credentials(&only_password).is_err());
}

#[test]
fn does_not_generate_when_credentials_are_blank_not_none() {
    let config = ServerConfig {
        username: Some("".to_string()),
        password: Some("".to_string()),
        allow_generated_credentials: true,
        ..ServerConfig::default()
    };
    assert!(resolve_credentials(&config).is_err());
}

#[test]
fn generated_passwords_use_unambiguous_alphabet() {
    const FORBIDDEN: &[char] = &['0', 'O', '1', 'I', 'l'];
    for _ in 0..32 {
        let password = generate_password(64).unwrap();
        for c in password.chars() {
            assert!(c.is_ascii_alphanumeric(), "non-alphanumeric character: {c:?}");
            assert!(!FORBIDDEN.contains(&c), "ambiguous character {c:?} leaked into generated password");
            assert!(PASSWORD_ALPHABET.contains(c));
        }
    }
}

#[test]
fn generated_passwords_are_distinct_across_calls() {
    let mut seen = std::collections::HashSet::new();
    for _ in 0..16 {
        let password = generate_password(24).unwrap();
        assert_eq!(password.len(), 24);
        assert!(seen.insert(password), "duplicate 24-char password");
    }
}

#[test]
fn generated_passwords_exercise_full_alphabet() {
    let password = generate_password(2048).unwrap();
    let unique: std::collections::HashSet<char> = password.chars().collect();
    assert!(unique.len() >= 40, "expected broad alphabet coverage, got {} distinct chars", unique.len());
}

#[test]
fn chroma_mode_defaults_to_avc420() {
    assert!(!resolve_chroma_mode(None).unwrap());
    assert!(!resolve_chroma_mode(Some("avc420")).unwrap());
}

#[test]
fn chroma_mode_allows_explicit_avc444() {
    assert!(resolve_chroma_mode(Some("avc444")).unwrap());
}

#[test]
fn chroma_mode_rejects_unknown_values() {
    let err = resolve_chroma_mode(Some("h264")).unwrap_err();

    assert!(err.message().contains("Invalid chroma_mode"));
}

#[test]
fn input_tap_defaults_to_session() {
    assert_eq!(resolve_input_tap(None).unwrap(), InputTapLocation::Session);
    assert_eq!(resolve_input_tap(Some("session")).unwrap(), InputTapLocation::Session);
}

#[test]
fn input_tap_allows_explicit_hid_and_annotated_session() {
    assert_eq!(resolve_input_tap(Some("hid")).unwrap(), InputTapLocation::Hid);
    assert_eq!(resolve_input_tap(Some("annotated_session")).unwrap(), InputTapLocation::AnnotatedSession);
}

#[test]
fn input_tap_rejects_unknown_values() {
    let err = resolve_input_tap(Some("device")).unwrap_err();

    assert!(err.message().contains("Invalid input_tap"));
}

#[test]
fn quality_names_select_presets() {
    assert_eq!(resolve_quality(Some("low_latency")), Quality::LowLatency);
    assert_eq!(resolve_quality(Some("high_quality")), Quality::HighQuality);
    assert_eq!(resolve_quality(Some("balanced")), Quality::Balanced);
    assert_eq!(resolve_quality(None), Quality::HighQuality);
    assert_eq!(resolve_quality(Some("fast")), Quality::HighQuality);
}

#[test]
fn resolution_forms_are_resolved() {
    assert_eq!(resolve_resolution(Some("3840x2160"), 1920, 1080, Some(2)), (3840, 2160, false));
    assert_eq!(resolve_resolution(Some("2"), 1920, 1080, None), (3840, 2160, false));
    assert_eq!(resolve_resolution(Some("9"), 100, 100, None), (400, 400, false));
    assert_eq!(resolve_resolution(Some("auto"), 1920, 1080, Some(2)), (3840, 2160, true));
    assert_eq!(resolve_resolution(None, 1920, 1080, None), (1920, 1080, true));
    assert_eq!(resolve_resolution(Some("wide"), 1920, 1080, Some(2)), (1920, 1080, true));
    assert_eq!(base_resolution(0, 0, 1440, 900), (1440, 900));
    assert_eq!(base_resolution(1280, 720, 1440, 900), (1280, 720));
}

#[test]
fn tls_paths_must_come_in_pairs() {
    assert!(matches!(resolve_tls_paths(None, None), Ok(TlsPaths::Defaults)));
    assert!(matches!(resolve_tls_paths(Some("c.pem"), Some("k.pem")), Ok(TlsPaths::Explicit { .. })));
    assert!(matches!(resolve_tls_paths(Some("c.pem"), None), Err(StartupError::TlsPartialPaths)));
    assert!(matches!(resolve_tls_paths(None, Some("k.pem")), Err(StartupError::TlsPartialPaths)));
}

#[test]
fn explicit_tls_files_are_never_generated() {
    let explicit = TlsPaths::Explicit { cert: "c".to_string(), key: "k".to_string() };
    assert_eq!(ensure_tls_files(&explicit, true, true), Ok(TlsAction::UseExisting));
    assert_eq!(ensure_tls_files(&explicit, true, false), Err(StartupError::TlsFilesMissing));
    assert_eq!(ensure_tls_files(&TlsPaths::Defaults, false, true), Ok(TlsAction::GenerateSelfSigned));
    assert_eq!(ensure_tls_files(&TlsPaths::Defaults, true, true), Ok(TlsAction::UseExisting));
}

#[test]
fn cli_overrides_loaded_config() {
    let file_config = ServerConfig {
        port: 13389,
        frame_rate: 30,
        log_level: Some("warn".to_string()),
        password: Some("from-config".to_string()),
        ..ServerConfig::default()
    };
    let cli = Cli {
        port: Some(3390),
        bind_address: Some("127.0.0.1".to_string()),
        username: Some("daemon".to_string()),
        allow_generated_credentials: true,
        frame_rate: Some(60),
        encoder: Some("hardware".to_string()),
        bitrate_mbps: Some(20),
        chroma_mode: Some("avc444".to_string()),
        resolution: Some("2".to_string()),
        log_level: Some("debug".to_string()),
        input_tap: Some("hid".to_string()),
        advanced_input: true,
        cert_path: Some("/tmp/cert.pem".to_string()),
        password_env: Some("PW".to_string()),
        ..empty_cli()
    };
    let config = apply_cli_overrides(file_config, &cli, Some("from-env".to_string()), None);
    assert_eq!(config.port, 3390);
    assert_eq!(config.bind_address, "127.0.0.1");
    assert_eq!(config.frame_rate, 60);
    assert_eq!(config.username.as_deref(), Some("daemon"));
    assert!(config.allow_generated_credentials);
    assert_eq!(config.log_level.as_deref(), Some("debug"));
    assert_eq!(config.encoder.as_deref(), Some("hardware"));
    assert_eq!(config.bitrate_mbps, Some(20));
    assert_eq!(config.chroma_mode.as_deref(), Some("avc444"));
    assert_eq!(config.resolution.as_deref(), Some("2"));
    assert_eq!(config.input_tap.as_deref(), Some("hid"));
    assert_eq!(config.advanced_input, Some(true));
    assert_eq!(config.cert_path.as_deref(), Some("/tmp/cert.pem"));
    assert_eq!(config.password.as_deref(), Some("from-env"));
}

#[test]
fn cli_without_options_keeps_the_file_config() {
    let file_config = ServerConfig { port: 13389, ..ServerConfig::default() };
    let config = apply_cli_overrides(file_config, &empty_cli(), None, None);
    assert_eq!(config.port, 13389);
    assert_eq!(config.bind_address, "0.0.0.0");
    assert!(config.password.is_none());
    assert!(config.advanced_input.is_none());
}

#[test]
fn keychain_password_wins_over_environment() {
    let cli = Cli { password_env: Some("PW".to_string()), password_keychain: true, ..empty_cli() };
    let config =
        apply_cli_overrides(ServerConfig::default(), &cli, Some("env".to_string()), Some("keychain".to_string()));
    assert_eq!(config.password.as_deref(), Some("keychain"));
}

#[test]
fn config_path_prefers_the_command_line() {
    let default = "/home/u/.config/macrdp/config.toml".to_string();
    assert_eq!(choose_config_path(&Some("/etc/m.toml".to_string()), &default, true), Some("/etc/m.toml".to_string()));
    assert_eq!(choose_config_path(&None, &default, true), Some(default.clone()));
    assert_eq!(choose_config_path(&None, &default, false), None);
}

#[test]
fn account_uses_provided_username() {
    assert_eq!(account(Some("alice"), Some("bob".to_string())), "alice");
}

#[test]
fn account_falls_back_to_env_user() {
    assert_eq!(account(None, Some("bob".to_string())), "bob");
    assert_eq!(account(None, None), "default");
}

#[test]
fn self_signed_certificate_is_pem() {
    let (cert, key) = macrdp::tls::generate_self_signed_cert_pem().unwrap();
    assert!(cert.starts_with("-----BEGIN CERTIFICATE-----"));
    assert!(key.contains("PRIVATE KEY-----"));
    let (cert2, _) = macrdp::tls::generate_self_signed_cert_pem().unwrap();
    assert_ne!(cert, cert2);
}

#[test]
fn explicit_paths_must_already_exist() {
    let paths = resolve_tls_paths(Some("cert.pem"), Some("key.pem")).unwrap();
    let err = ensure_tls_files(&paths, false, false)
        .expect_err("operator-supplied paths that don't exist must error");
    assert_eq!(err, StartupError::TlsFilesMissing);
    let msg = err.message();
    assert!(msg.contains("not found"), "got: {msg}");
}

#[test]
fn asymmetric_path_config_is_rejected() {
    let err = resolve_tls_paths(Some("cert.pem"), None).expect_err("cert-only must error");
    assert!(err.message().contains("both"));

    let err = resolve_tls_paths(None, Some("key.pem")).expect_err("key-only must error");
    assert!(err.message().contains("both"));
}

#[test]
fn test_cli_overrides_core_config() {
    // The configuration file: port 13389, frame_rate 30, log_level "warn".
    let file_config = ServerConfig {
        port: 13389,
        frame_rate: 30,
        log_level: Some("warn".to_string()),
        ..ServerConfig::default()
    };
    let cli = Cli {
        port: Some(3390),
        bind_address: Some("127.0.0.1".to_string()),
        config: Some("/tmp/macrdp-test/config.toml".to_string()),
        cert_path: Some("/tmp/macrdp-test/cert.pem".to_string()),
        key_path: Some("/tmp/macrdp-test/key.pem".to_string()),
        log_path: Some("/tmp/macrdp-test/macrdp.log".to_string()),
        username: Some("daemon".to_string()),
        allow_generated_credentials: true,
        frame_rate: Some(60),
        encoder: Some("hardware".to_string()),
        bitrate_mbps: Some(20),
        chroma_mode: Some("avc444".to_string()),
        resolution: Some("2".to_string()),
        log_level: Some("debug".to_string()),
        input_tap: Some("hid".to_string()),
        advanced_input: true,
        ..empty_cli()
    };
    let config = apply_cli_overrides(file_config, &cli, None, None);
    assert_eq!(config.port, 3390);
    assert_eq!(config.bind_address, "127.0.0.1");
    assert_eq!(config.frame_rate, 60);
    assert_eq!(config.username.as_deref(), Some("daemon"));
    assert!(config.allow_generated_credentials);
    assert_eq!(config.log_level.as_deref(), Some("debug"));
    assert_eq!(config.encoder.as_deref(), Some("hardware"));
    assert_eq!(config.bitrate_mbps, Some(20));
    assert_eq!(config.chroma_mode.as_deref(), Some("avc444"));
    assert_eq!(config.resolution.as_deref(), Some("2"));
    assert_eq!(config.input_tap.as_deref(), Some("hid"));
    assert_eq!(config.advanced_input, Some(true));
    assert_eq!(config.cert_path.as_deref(), Some("/tmp/macrdp-test/cert.pem"));
    assert_eq!(config.key_path.as_deref(), Some("/tmp/macrdp-test/key.pem"));
    assert_eq!(config.log_path.as_deref(), Some("/tmp/macrdp-test/macrdp.log"));
}

#[test]
fn test_cli_can_override_config_port_to_default_rdp_port() {
    let file_config = ServerConfig { port: 13389, ..ServerConfig::default() };
    let cli = Cli { port: Some(3389), config: Some("/tmp/macrdp-test/config.toml".to_string()), ..empty_cli() };
    let config = apply_cli_overrides(file_config, &cli, None, None);
    assert_eq!(config.port, 3389);
}

#[test]
fn test_cli_password_env_overrides_config_password() {
    let file_config = ServerConfig {
        username: Some("admin".to_string()),
        password: Some("from-config".to_string()),
        ..ServerConfig::default()
    };
    let cli = Cli {
        config: Some("/tmp/macrdp-test/config.toml".to_string()),
        password_env: Some("MACRDP_TEST_PASSWORD_ENV".to_string()),
        ..empty_cli()
    };
    // The daemon reads the named variable and hands its value over.
    let config = apply_cli_overrides(file_config, &cli, Some("from-env".to_string()), None);
    assert_eq!(config.password.as_deref(), Some("from-env"));
}

#[test]
fn empty_password_needs_no_random_bytes() {
    assert_eq!(generate_password(0), Some(String::new()));
}

#[test]
fn development_certificate_request() {
    let req = macrdp::tls::cert_request();
    assert_eq!(req.names, vec!["localhost".to_string(), "127.0.0.1".to_string()]);
    assert_eq!(req.common_name, "macrdp");
    assert_eq!(req.organization, "macrdp");
    assert_eq!(req.not_after, (2027, 3, 24));
    assert!(macrdp::tls::sign_request(req).is_ok());
}

#[test]
fn display_sizes_fall_back_from_capture_to_pointer_probe() {
    assert!(!needs_display_detection(false, 2560, 1440));
    assert!(needs_display_detection(true, 2560, 1440));
    assert!(needs_display_detection(false, 0, 1440));
    assert_eq!(display_sizes(false, 2560, 1440, Some((1, 1)), None), ((2560, 1440), (2560, 1440)));
    assert_eq!(display_sizes(false, 0, 0, Some((1512, 982)), Some((1512, 945))), ((1512, 982), (1512, 945)));
    assert_eq!(display_sizes(true, 0, 0, None, None), ((1920, 1080), (1920, 1080)));
    assert_eq!(display_sizes(false, 0, 0, Some((1440, 900)), None), ((1440, 900), (1440, 900)));
}

#[test]
fn certificate_request_accepts_the_last_day_of_a_month() {
    let mut req = macrdp::tls::cert_request();
    req.not_after = (2024, 2, 29);
    assert!(macrdp::tls::sign_request(req).is_ok());
}

#[test]
fn password_steps_follow_the_drawn_byte() {
    let mut out = Vec::new();
    for b in [0u8, 56, 57, 227, 228, 255, 8] {
        push_password_char(&mut out, b);
    }
    assert_eq!(out, vec!['A', '9', 'A', '9', 'J']);
}

#[test]
fn server_lifecycle_stops_once() {
    let mut life = ServerLifecycle::new();
    let s = life.status(42);
    assert!(s.running);
    assert_eq!((s.state.as_str(), s.uptime_secs), ("running", 42));
    assert!(life.needs_shutdown_signal());
    assert!(life.stop());
    assert!(!life.stop());
    assert!(!life.needs_shutdown_signal());
    let s = life.status(42);
    assert!(!s.running);
    assert_eq!((s.state.as_str(), s.uptime_secs), ("stopped", 0));
    let e = error_status("bind failed");
    assert!(!e.running);
    assert_eq!(e.state, "error: bind failed");
}
