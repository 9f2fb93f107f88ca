use macrdp::swift_runtime::{has_modern_system_swift_runtime, rpath_link_arg, swift_lib_candidates, swift_rpath};

#[test]
fn modern_runtime_needs_macos_12_3_or_later() {
    assert!(has_modern_system_swift_runtime(true, Some("14.2.1\n")));
    assert!(has_modern_system_swift_runtime(true, Some("13")));
    assert!(has_modern_system_swift_runtime(true, Some("12.3")));
    assert!(has_modern_system_swift_runtime(true, Some(" 12.4.1 ")));
    assert!(!has_modern_system_swift_runtime(true, Some("12.2.1")));
    assert!(!has_modern_system_swift_runtime(true, Some("12")));
    assert!(!has_modern_system_swift_runtime(true, Some("11.7")));
    assert!(!has_modern_system_swift_runtime(true, Some("garbage")));
    assert!(!has_modern_system_swift_runtime(true, Some("")));
    assert!(!has_modern_system_swift_runtime(true, None));
    assert!(!has_modern_system_swift_runtime(false, Some("14.0")));
}

#[test]
fn candidates_for_command_line_tools() {
    let v = swift_lib_candidates(None, Some("/Library/Developer/CommandLineTools\n"));
    assert_eq!(
        v,
        vec![
            "/usr/lib/swift".to_string(),
            "/Library/Developer/CommandLineTools/usr/lib/swift/macosx".to_string(),
            "/Library/Developer/CommandLineTools/usr/lib/swift-5.5/macosx".to_string(),
            "/Library/Developer/CommandLineTools/usr/lib/swift/macosx".to_string(),
            "/Library/Developer/CommandLineTools/usr/lib/swift-5.5/macosx".to_string(),
        ]
    );
}

#[test]
fn candidates_for_xcode_with_user_path_first() {
    let v = swift_lib_candidates(Some("/opt/swift/lib"), Some("/Applications/Xcode.app/Contents/Developer"));
    assert_eq!(v.len(), 6);
    assert_eq!(v[0], "/opt/swift/lib");
    assert_eq!(v[1], "/usr/lib/swift");
    assert_eq!(
        v[2],
        "/Applications/Xcode.app/Contents/Developer/Toolchains/XcodeDefault.xctoolchain/usr/lib/swift/macosx"
    );
    assert_eq!(
        v[3],
        "/Applications/Xcode.app/Contents/Developer/Toolchains/XcodeDefault.xctoolchain/usr/lib/swift-5.5/macosx"
    );
}

#[test]
fn candidates_without_developer_tools() {
    let v = swift_lib_candidates(None, None);
    assert_eq!(v.len(), 3);
    assert_eq!(v[0], "/usr/lib/swift");
}

#[test]
fn rpath_prefers_user_dir_then_system_then_first_candidate() {
    let candidates = vec!["/a".to_string(), "/b".to_string(), "/c".to_string()];
    let has_lib = vec![false, true, true];
    assert_eq!(swift_rpath(Some("/user"), true, &candidates, &has_lib), Some("/user".to_string()));
    assert_eq!(swift_rpath(None, true, &candidates, &has_lib), Some("/usr/lib/swift".to_string()));
    assert_eq!(swift_rpath(None, false, &candidates, &has_lib), Some("/b".to_string()));
    assert_eq!(swift_rpath(None, false, &candidates, &vec![false, false, false]), None);
}

#[test]
fn rpath_directive_text() {
    assert_eq!(rpath_link_arg("/usr/lib/swift"), "cargo:rustc-link-arg=-Wl,-rpath,/usr/lib/swift");
}
