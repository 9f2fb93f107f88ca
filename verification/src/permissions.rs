//! macOS permissions: the report of what is granted and where the user
//! grants what is missing, and what the startup checks decide.

use vstd::prelude::*;
use crate::config::append;
use crate::formats::string_from_chars;

verus! {

/// Where the user grants screen recording.
pub const SCREEN_RECORDING_PATH: &'static str = "System Settings > Privacy & Security > Screen Recording";

/// Where the user grants accessibility (input injection).
pub const ACCESSIBILITY_PATH: &'static str = "System Settings > Privacy & Security > Accessibility";

/// Which permissions the process holds.
#[derive(Debug, Clone, Copy, PartialEq, Eq, Structural)]
pub struct PermissionStatus {
    pub screen_capture: bool,
    pub accessibility: bool,
    pub microphone: bool,
}

/// Output format of the permission report.
#[derive(Debug, Clone, Copy, PartialEq, Eq, Structural)]
pub enum ReportFormat {
    Text,
    Json,
}

/// One permission of the report.
#[derive(Debug, Clone, Copy)]
pub struct PermissionEntry {
    pub granted: bool,
    /// Where in System Settings the user grants it.
    pub grant_path: &'static str,
}

/// The permission report.
#[derive(Debug, Clone, Copy)]
pub struct PermissionReport {
    pub all_granted: bool,
    pub screen_recording: PermissionEntry,
    pub accessibility: PermissionEntry,
}

/// The permission status from the two system checks; the microphone is
/// not used.
pub fn check_permissions(screen_recording_granted: bool, accessibility_granted: bool) -> (s: PermissionStatus)
    ensures
        s == (PermissionStatus {
            screen_capture: screen_recording_granted,
            accessibility: accessibility_granted,
            microphone: false,
        }),
{
    PermissionStatus { screen_capture: screen_recording_granted, accessibility: accessibility_granted, microphone: false }
}

/// The report of a permission status: all granted exactly when screen
/// recording and accessibility both are.
pub fn permission_report(status: PermissionStatus) -> (r: PermissionReport)
    ensures
        r.all_granted == (status.screen_capture && status.accessibility),
        r.screen_recording.granted == status.screen_capture,
        r.screen_recording.grant_path@ == SCREEN_RECORDING_PATH@,
        r.accessibility.granted == status.accessibility,
        r.accessibility.grant_path@ == ACCESSIBILITY_PATH@,
{
    PermissionReport {
        all_granted: status.screen_capture && status.accessibility,
        screen_recording: PermissionEntry { granted: status.screen_capture, grant_path: SCREEN_RECORDING_PATH },
        accessibility: PermissionEntry { granted: status.accessibility, grant_path: ACCESSIBILITY_PATH },
    }
}

/// `n` spaces.
pub open spec fn spaces(n: nat) -> Seq<char> {
    Seq::new(n, |i: int| ' ')
}

/// `s` padded with spaces on the right to `width` characters.
pub open spec fn pad_right(s: Seq<char>, width: nat) -> Seq<char> {
    if s.len() < width {
        s + spaces((width - s.len()) as nat)
    } else {
        s
    }
}

/// Width of the name column of the text report.
pub const NAME_WIDTH: usize = 18;

/// One line of the text report, without its line break.
pub open spec fn report_row(name: Seq<char>, entry: PermissionEntry) -> Seq<char> {
    if entry.granted {
        pad_right(name, NAME_WIDTH as nat) + " granted"@
    } else {
        pad_right(name, NAME_WIDTH as nat) + " NOT granted — grant at: "@ + entry.grant_path@
    }
}

/// The text report: a line for screen recording and one for
/// accessibility, each ending in a line break.
pub open spec fn report_text(r: PermissionReport) -> Seq<char> {
    report_row("Screen Recording:"@, r.screen_recording) + "\n"@ + report_row("Accessibility:"@, r.accessibility)
        + "\n"@
}

fn append_padded(out: &mut Vec<char>, name: &str, width: usize)
    ensures
        final(out)@ == old(out)@ + pad_right(name@, width as nat),
{
    let ghost start = out@;
    append(out, name);
    let n = name.unicode_len();
    if n < width {
        let mut k: usize = n;
        while k < width
            invariant
                n == name@.len(),
                n <= k <= width,
                out@ == start + name@ + spaces((k - n) as nat),
            decreases width - k,
        {
            out.push(' ');
            k = k + 1;
            assert(out@ =~= start + name@ + spaces((k - n) as nat));
        }
    } else {
        assert(out@ =~= start + pad_right(name@, width as nat));
    }
}

fn append_row(out: &mut Vec<char>, name: &str, entry: PermissionEntry)
    ensures
        final(out)@ == old(out)@ + report_row(name@, entry),
{
    let ghost start = out@;
    append_padded(out, name, NAME_WIDTH);
    if entry.granted {
        append(out, " granted");
        assert(out@ =~= start + report_row(name@, entry));
    } else {
        append(out, " NOT granted — grant at: ");
        append(out, entry.grant_path);
        assert(out@ =~= start + report_row(name@, entry));
    }
}

/// The permission report as text for people: one line per permission,
/// with where to grant each missing one.
pub fn format_report_text(report: &PermissionReport) -> (s: String)
    ensures
        s@ == report_text(*report),
{
    let mut out: Vec<char> = Vec::new();
    append_row(&mut out, "Screen Recording:", report.screen_recording);
    append(&mut out, "\n");
    append_row(&mut out, "Accessibility:", report.accessibility);
    append(&mut out, "\n");
    assert(out@ =~= report_text(*report));
    let n = out.len();
    let s = string_from_chars(&out, n);
    assert(out@.take(n as int) =~= out@);
    s
}

/// What became of one permission at startup.
#[derive(Debug, Clone, Copy, PartialEq, Eq, Structural)]
pub enum PermissionOutcome {
    /// It was already granted.
    Granted,
    /// It was asked for and is granted now.
    GrantedAfterRequest,
    /// Still missing after asking; System Settings is opened for it.
    DeniedOpenSettings,
    /// Still missing after asking; System Settings is left closed.
    Denied,
}

/// The outcome for a permission that was `granted_before` the request and
/// `granted_after` it; System Settings opens only when `may_open_settings`.
pub fn permission_outcome(granted_before: bool, granted_after: bool, may_open_settings: bool) -> (o:
    PermissionOutcome)
    ensures
        o == (if granted_before {
            PermissionOutcome::Granted
        } else if granted_after {
            PermissionOutcome::GrantedAfterRequest
        } else if may_open_settings {
            PermissionOutcome::DeniedOpenSettings
        } else {
            PermissionOutcome::Denied
        }),
{
    if granted_before {
        PermissionOutcome::Granted
    } else if granted_after {
        PermissionOutcome::GrantedAfterRequest
    } else if may_open_settings {
        PermissionOutcome::DeniedOpenSettings
    } else {
        PermissionOutcome::Denied
    }
}

/// What the screen capture framework reported when asked for displays.
#[derive(Debug)]
pub enum SckPreflight {
    /// It lists this many displays.
    Displays(usize),
    /// It lists none.
    NoDisplays,
    /// The query failed with this message.
    Error(String),
}

/// Why screen capture cannot start.
#[derive(Debug)]
pub enum SckError {
    /// No display is listed though the display is awake: the capture
    /// scope of the permission is missing for this binary.
    NoDisplays,
    /// The query failed with this message.
    QueryFailed(String),
}

/// Whether capture can start: the number of displays; zero displays is
/// accepted while the display sleeps.
pub fn verify_sck_capture_ready(preflight: SckPreflight, display_asleep: bool) -> (r: Result<usize, SckError>)
    ensures
        match preflight {
            SckPreflight::Displays(n) => (r matches Ok(m) && m == n),
            SckPreflight::NoDisplays => if display_asleep {
                (r matches Ok(m) && m == 0)
            } else {
                (r matches Err(SckError::NoDisplays))
            },
            SckPreflight::Error(e) => (r matches Err(SckError::QueryFailed(m)) && m@ == e@),
        },
{
    match preflight {
        SckPreflight::Displays(n) => Ok(n),
        SckPreflight::NoDisplays => {
            if display_asleep {
                Ok(0)
            } else {
                Err(SckError::NoDisplays)
            }
        },
        SckPreflight::Error(e) => Err(SckError::QueryFailed(e)),
    }
}

} // verus!
