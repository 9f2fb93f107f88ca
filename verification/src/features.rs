//! What the daemon supports in its first release, and what it defers.

use vstd::prelude::*;

verus! {

/// The features the daemon supports.
pub open spec fn supported_features() -> Seq<Seq<char>> {
    seq![
        "single-client session"@,
        "single-monitor desktop"@,
        "keyboard input"@,
        "mouse input"@,
        "RDPGFX AVC420/AVC444 video"@,
        "bitmap fallback"@,
        "clipboard text redirection"@,
        "audio output (RDPSND)"@,
    ]
}

/// The features the daemon leaves for later.
pub open spec fn deferred_features() -> Seq<Seq<char>> {
    seq![
        "printer redirection"@,
        "file/drive redirection"@,
        "smartcard redirection"@,
        "broad multi-monitor desktop"@,
    ]
}

/// RDP features the daemon supports.
pub fn supported_daemon_features() -> (f: Vec<&'static str>)
    ensures
        f@.map_values(|s: &'static str| s@) == supported_features(),
{
    let f = vec![
        "single-client session",
        "single-monitor desktop",
        "keyboard input",
        "mouse input",
        "RDPGFX AVC420/AVC444 video",
        "bitmap fallback",
        "clipboard text redirection",
        "audio output (RDPSND)",
    ];
    assert(f@.map_values(|s: &'static str| s@) =~= supported_features());
    f
}

/// RDP features deliberately left out of the daemon.
pub fn deferred_daemon_features() -> (f: Vec<&'static str>)
    ensures
        f@.map_values(|s: &'static str| s@) == deferred_features(),
{
    let f = vec!["printer redirection", "file/drive redirection", "smartcard redirection", "broad multi-monitor desktop"];
    assert(f@.map_values(|s: &'static str| s@) =~= deferred_features());
    f
}

} // verus!
