use macrdp::audio::{
    audio_frame_size, chunk_duration_ms, fade_frames, find_matching_format, ring_excess, silence_wave, AudioConverter,
    AudioFormat, AudioStreamState, ChunkShaping, MacAudioHandler, WAVE_FORMAT_PCM,
};
use macrdp::features::{deferred_daemon_features, supported_daemon_features};
use macrdp::input::{MouseButton, MouseEvent};
use macrdp::input_handler::{InputHandlerState, MouseAction, MouseCoordMapper};
use macrdp::log_bridge::{json_log_line, level_name, LogLevel, MessageVisitor};
use macrdp::nal::{
    avcc_contains_idr, avcc_to_annex_b, encode_callback_failure, nal_length_size, nal_type_name, profile_name,
    summarize_nal_units, EncodeCallbackFailure,
};
use macrdp::permissions::{
    format_report_text, permission_outcome, permission_report, verify_sck_capture_ready, PermissionEntry,
    PermissionOutcome, PermissionReport, PermissionStatus, SckError, SckPreflight, ACCESSIBILITY_PATH,
    SCREEN_RECORDING_PATH,
};
use macrdp::transfer::{
    file_within_limit, is_suspicious_name_str, ContentsStep, FileDescriptor, FileTransferManager, RequestKind,
    FILECONTENTS_RANGE, FILECONTENTS_SIZE,
};
use macrdp::yuv::bgra_to_yuv420_padded;

fn pcm_48k_stereo() -> AudioFormat {
    AudioFormat {
        format: WAVE_FORMAT_PCM,
        n_channels: 2,
        n_samples_per_sec: 48000,
        n_avg_bytes_per_sec: 192000,
        n_block_align: 4,
        bits_per_sample: 16,
    }
}

#[test]
fn match_format_pcm_found() {
    let server_formats = vec![pcm_48k_stereo()];
    let client_formats = vec![pcm_48k_stereo()];
    assert_eq!(find_matching_format(&server_formats, &client_formats), Some(0));
}

#[test]
fn match_format_no_match() {
    let server_formats = vec![pcm_48k_stereo()];
    let client_formats = vec![AudioFormat {
        format: WAVE_FORMAT_PCM,
        n_channels: 1,
        n_samples_per_sec: 44100,
        n_avg_bytes_per_sec: 88200,
        n_block_align: 2,
        bits_per_sample: 16,
    }];
    assert_eq!(find_matching_format(&server_formats, &client_formats), None);
}

#[test]
fn match_format_prefers_the_last_server_format() {
    let mono = AudioFormat { n_channels: 1, n_avg_bytes_per_sec: 96000, n_block_align: 2, ..pcm_48k_stereo() };
    let server = vec![pcm_48k_stereo(), mono, pcm_48k_stereo()];
    assert_eq!(find_matching_format(&server, &[mono, pcm_48k_stereo()]), Some(2));
    assert_eq!(find_matching_format(&server, &[mono]), Some(1));
}

#[test]
fn audio_handler_selects_and_stops() {
    let mut h = MacAudioHandler::new(48000, 2);
    assert_eq!(h.get_formats(), &[pcm_48k_stereo()]);
    assert_eq!(h.start(&[pcm_48k_stereo()]), Some(0));
    assert!(h.ready());
    assert_eq!(h.selected_format(), Some(0));
    h.stop();
    assert!(!h.ready());
    assert_eq!(h.selected_format(), None);
    assert_eq!(h.start(&[]), None);
}

#[test]
fn interleave_stereo() {
    let left = [0.1f32, 0.2, 0.3];
    let right = [0.4f32, 0.5, 0.6];
    let result = AudioConverter::interleave(&[&left, &right], 3);
    assert_eq!(result.len(), 6);
    let expected = [0.1f32, 0.4, 0.2, 0.5, 0.3, 0.6];
    for (a, b) in result.iter().zip(expected.iter()) {
        assert!((a - b).abs() < 1e-6);
    }
}

#[test]
fn interleave_mono() {
    let mono = [0.1f32, 0.2, 0.3];
    let result = AudioConverter::interleave(&[&mono], 3);
    assert_eq!(result.len(), 3);
    let expected = [0.1f32, 0.2, 0.3];
    for (a, b) in result.iter().zip(expected.iter()) {
        assert!((a - b).abs() < 1e-6);
    }
}

#[test]
fn audio_loop_bookkeeping() {
    let frame = audio_frame_size(48000, 2);
    assert_eq!(frame, 1920);
    assert_eq!(fade_frames(48000), 240);
    assert_eq!(chunk_duration_ms(frame, 48000, 2), 20);
    assert_eq!(ring_excess(frame * 25 + 7, frame), 7);
    assert_eq!(ring_excess(100, frame), 0);
    assert_eq!(silence_wave(3), vec![0u8; 6]);
}

#[test]
fn chunk_shaping_fades_in_and_crossfades() {
    let mut s = AudioStreamState::new();
    assert_eq!(s.on_chunk(false, true), ChunkShaping::FadeIn);
    assert_eq!(s.on_chunk(false, true), ChunkShaping::Crossfade);
    assert_eq!(s.on_chunk(false, false), ChunkShaping::Unchanged);
    assert_eq!(s.on_chunk(true, true), ChunkShaping::Unchanged);
    s.on_underrun();
    assert!(s.was_silent);
    s.record_sent(1920, 2);
    assert_eq!(s.samples_sent, 960);
    assert_eq!(s.wave_timestamp(1000, 48000), 1020);
}

#[test]
fn v1_policy_defers_non_daemon_redirection_features() {
    let deferred = deferred_daemon_features();
    for feature in ["printer redirection", "file/drive redirection", "smartcard redirection", "broad multi-monitor desktop"]
    {
        assert!(deferred.contains(&feature), "{feature} should remain explicitly deferred for v1");
    }
}

#[test]
fn v1_policy_keeps_clipboard_as_supported_redirection() {
    assert!(supported_daemon_features().contains(&"clipboard text redirection"));
    assert!(!deferred_daemon_features().contains(&"clipboard text redirection"));
}

fn sample_report(screen: bool, access: bool) -> PermissionReport {
    PermissionReport {
        all_granted: screen && access,
        screen_recording: PermissionEntry { granted: screen, grant_path: SCREEN_RECORDING_PATH },
        accessibility: PermissionEntry { granted: access, grant_path: ACCESSIBILITY_PATH },
    }
}

#[test]
fn all_granted_only_true_when_both_granted() {
    assert!(!sample_report(false, false).all_granted);
    assert!(!sample_report(true, false).all_granted);
    assert!(!sample_report(false, true).all_granted);
    assert!(sample_report(true, true).all_granted);
}

#[test]
fn permission_report_follows_status() {
    for (screen, access) in [(false, false), (true, false), (false, true), (true, true)] {
        let r = permission_report(PermissionStatus { screen_capture: screen, accessibility: access, microphone: false });
        assert_eq!(r.all_granted, screen && access);
        assert_eq!(r.screen_recording.granted, screen);
        assert_eq!(r.accessibility.grant_path, ACCESSIBILITY_PATH);
    }
}

#[test]
fn text_report_lists_grant_paths_for_missing_permissions() {
    let out = format_report_text(&sample_report(true, false));
    assert!(out.contains("Screen Recording:"));
    assert!(out.contains("granted"));
    assert!(out.contains("Accessibility:"));
    assert!(out.contains("NOT granted"));
    assert!(out.contains(ACCESSIBILITY_PATH));
    assert_eq!(
        out,
        format!("Screen Recording:  granted\nAccessibility:     NOT granted — grant at: {ACCESSIBILITY_PATH}\n")
    );
}

#[test]
fn permission_request_outcomes() {
    assert_eq!(permission_outcome(true, false, true), PermissionOutcome::Granted);
    assert_eq!(permission_outcome(false, true, true), PermissionOutcome::GrantedAfterRequest);
    assert_eq!(permission_outcome(false, false, true), PermissionOutcome::DeniedOpenSettings);
    assert_eq!(permission_outcome(false, false, false), PermissionOutcome::Denied);
}

#[test]
fn capture_readiness_tolerates_a_sleeping_display() {
    assert!(matches!(verify_sck_capture_ready(SckPreflight::Displays(2), false), Ok(2)));
    assert!(matches!(verify_sck_capture_ready(SckPreflight::NoDisplays, true), Ok(0)));
    assert!(matches!(verify_sck_capture_ready(SckPreflight::NoDisplays, false), Err(SckError::NoDisplays)));
    match verify_sck_capture_ready(SckPreflight::Error("boom".to_string()), false) {
        Err(SckError::QueryFailed(m)) => assert_eq!(m, "boom"),
        other => panic!("unexpected {other:?}"),
    }
}

#[test]
fn json_log_lines_escape_quotes_and_backslashes() {
    assert_eq!(level_name(LogLevel::Warn), "warn");
    assert_eq!(
        json_log_line(LogLevel::Info, "say \"hi\" \\ ok", "2024-01-01 00:00:00.000"),
        "{\"level\":\"info\",\"message\":\"say \\\"hi\\\" \\\\ ok\",\"timestamp\":\"2024-01-01 00:00:00.000\"}"
    );
}

#[test]
fn message_visitor_collects_fields() {
    let mut v = MessageVisitor::new();
    v.record_rendered("port", "3389");
    assert_eq!(v.message, "port = 3389");
    v.record_rendered("addr", "\"0.0.0.0\"");
    assert_eq!(v.message, "port = 3389 addr = \"0.0.0.0\"");
    v.record_rendered("message", "started");
    assert_eq!(v.message, "started");
}

fn avcc(units: &[&[u8]]) -> Vec<u8> {
    let mut out = Vec::new();
    for u in units {
        out.extend_from_slice(&(u.len() as u32).to_be_bytes());
        out.extend_from_slice(u);
    }
    out
}

#[test]
fn avcc_keyframe_gets_parameter_sets_and_loses_sei() {
    let data = avcc(&[&[0x06, 0xAA], &[0x65, 0x01, 0x02]]);
    assert!(avcc_contains_idr(&data, 4));
    let (annex_b, key) = avcc_to_annex_b(&data, 4, &vec![vec![0x67, 0x42], vec![0x68, 0xCE]]);
    assert!(key);
    assert_eq!(
        annex_b,
        vec![0, 0, 0, 1, 0x67, 0x42, 0, 0, 0, 1, 0x68, 0xCE, 0, 0, 0, 1, 0x65, 0x01, 0x02]
    );
}

#[test]
fn avcc_delta_frame_has_no_parameter_sets() {
    let data = avcc(&[&[0x41, 0x9A], &[0x09, 0xF0]]);
    let (annex_b, key) = avcc_to_annex_b(&data, 4, &vec![vec![0x67]]);
    assert!(!key);
    assert_eq!(annex_b, vec![0, 0, 0, 1, 0x41, 0x9A]);
    // A truncated unit ends the walk.
    let mut cut = avcc(&[&[0x41, 0x01]]);
    cut.extend_from_slice(&[0, 0, 0, 9, 0x65]);
    assert_eq!(avcc_to_annex_b(&cut, 4, &vec![]).0, vec![0, 0, 0, 1, 0x41, 0x01]);
    assert_eq!(nal_length_size(0), 4);
    assert_eq!(nal_length_size(4), 4);
}

#[test]
fn encode_callback_failures_are_told_apart() {
    assert_eq!(encode_callback_failure(0, false, 0), None);
    assert_eq!(encode_callback_failure(0, true, 0x2), Some(EncodeCallbackFailure::FrameDropped));
    assert_eq!(encode_callback_failure(-12902, false, 0), Some(EncodeCallbackFailure::Failed));
}

#[test]
fn nal_summary_lists_types_and_profile() {
    let stream = [0, 0, 0, 1, 0x67, 100, 0x00, 40, 0, 0, 0, 1, 0x68, 0xCE, 0, 0, 0, 1, 0x65, 0x88];
    let s = summarize_nal_units(&stream);
    assert_eq!(s.nal_types, vec![7, 8, 5]);
    assert_eq!(s.profile, Some((100, 0x00, 40)));
    assert_eq!(nal_type_name(7), "SPS");
    assert_eq!(nal_type_name(2), "other");
    assert_eq!(profile_name(100), "High");
}

#[test]
fn yuv420_conversion_writes_luma_and_chroma() {
    // A 2x2 white frame into a 2x2 encoder buffer.
    let bgra = vec![255u8; 16];
    let mut yuv = vec![0u8; 6];
    bgra_to_yuv420_padded(&bgra, 2, 2, 8, 2, 2, &mut yuv);
    assert_eq!(yuv, vec![235, 235, 235, 235, 128, 128]);
    // A black pixel padded into a 2x2 buffer keeps the padding.
    let mut padded = vec![7u8; 6];
    bgra_to_yuv420_padded(&[0, 0, 0, 255], 1, 1, 4, 2, 2, &mut padded);
    assert_eq!(padded, vec![16, 7, 7, 7, 128, 128]);
}

#[test]
fn input_state_tracks_buttons_and_position() {
    let mut s = InputHandlerState::new();
    assert_eq!(s.mouse_action(MouseEvent::Move { x: 10, y: 20 }, (5, 6)), MouseAction::MoveTo { x: 5, y: 6 });
    let a = s.mouse_action(MouseEvent::LeftPressed, (0, 0));
    assert_eq!(a, MouseAction::Button { button: MouseButton::Left, pressed: true, x: 5, y: 6 });
    s.button_injected(MouseButton::Left, true, true);
    s.button_injected(MouseButton::Middle, true, false);
    assert_eq!(s.mouse_action(MouseEvent::Scroll { x: 0, y: 120 }, (0, 0)), MouseAction::Scroll { x: 0, y: 120 });
    assert_eq!(s.mouse_action(MouseEvent::Button4Pressed, (0, 0)), MouseAction::Ignore);
    assert_eq!(s.reset_mouse_buttons(), vec![MouseButton::Left]);
    assert!(!s.left_pressed);
}

fn descriptor(name: &str, size: u64) -> FileDescriptor {
    FileDescriptor { name: name.to_string(), file_size: Some(size) }
}

#[test]
fn generate_and_handle_incoming() {
    let mut mgr = FileTransferManager::new("/tmp/macrdp-test".to_string(), 1024 * 1024);
    mgr.set_incoming_descriptors(vec![descriptor("a.txt", 5), descriptor("b.txt", 3)]);
    let requests = mgr.generate_contents_requests();
    assert_eq!(requests.len(), 4);
    assert_eq!(requests[0].kind, RequestKind::Size);
    assert_eq!(requests[1].kind, RequestKind::Data);
    assert_eq!(requests[1].requested_size, 5);

    mgr.handle_contents_response(requests[1].stream_id, b"hello");
    assert!(!mgr.all_incoming_complete());
    mgr.handle_contents_response(requests[3].stream_id, b"bye");
    assert!(mgr.all_incoming_complete());

    let files = mgr.take_incoming_files();
    assert_eq!(files.len(), 2);
    assert_eq!(files[0], ("a.txt".to_string(), b"hello".to_vec()));
    assert_eq!(files[1], ("b.txt".to_string(), b"bye".to_vec()));
}

#[test]
fn suspicious_names_are_not_written() {
    let mut mgr = FileTransferManager::new("/tmp/x".to_string(), 100);
    mgr.set_incoming_descriptors(vec![descriptor("../evil", 1), descriptor("ok", 1)]);
    let requests = mgr.generate_contents_requests();
    mgr.handle_contents_response(requests[1].stream_id, b"x");
    mgr.handle_contents_response(requests[3].stream_id, b"y");
    mgr.handle_contents_response(999, b"ignored");
    let files = mgr.take_incoming_files();
    assert_eq!(files, vec![("ok".to_string(), b"y".to_vec())]);
    assert!(is_suspicious_name_str("/etc/passwd"));
    assert!(is_suspicious_name_str("\\share"));
    assert!(!is_suspicious_name_str("a.b.c"));
}

#[test]
fn unlock_clears_state() {
    let mut mgr = FileTransferManager::new("/tmp/x".to_string(), 1024 * 1024);
    mgr.set_local_files(vec!["/tmp/fake".to_string()]);
    mgr.lock();
    assert!(mgr.is_locked());
    mgr.unlock();
    assert!(!mgr.is_locked());
    assert!(mgr.incoming_data_is_empty());
}

#[test]
fn contents_requests_are_answered_by_kind_and_limit() {
    let mut mgr = FileTransferManager::new("/tmp/x".to_string(), 100);
    mgr.set_local_files(vec!["/tmp/a".to_string()]);
    assert_eq!(mgr.contents_request_step(0, FILECONTENTS_SIZE), ContentsStep::QuerySize(0));
    assert_eq!(mgr.contents_request_step(0, FILECONTENTS_RANGE), ContentsStep::ReadRange(0));
    assert_eq!(mgr.contents_request_step(1, FILECONTENTS_SIZE), ContentsStep::Error);
    assert_eq!(mgr.contents_request_step(0, 0), ContentsStep::Error);
    assert_eq!(mgr.size_answer(11), Some(11));
    assert_eq!(mgr.size_answer(200), None);
    assert!(file_within_limit(100, 100));
    assert!(!file_within_limit(101, 100));
    assert_eq!(mgr.local_file(0).map(|s| s.as_str()), Some("/tmp/a"));
}

#[test]
fn check_permissions_never_reports_microphone() {
    let s = macrdp::permissions::check_permissions(true, false);
    assert_eq!(s, PermissionStatus { screen_capture: true, accessibility: false, microphone: false });
}

#[test]
fn coord_mapper_scales_desktop_to_logical_size() {
    let mut m = MouseCoordMapper::new(1440, 900, 2880, 1800);
    assert_eq!(m.map(0, 0), (0, 0));
    assert_eq!(m.map(2879, 1799), (1439, 899));
    assert_eq!(m.map(1001, 3), (500, 1));
    m.update_rdp_size(1440, 900);
    assert_eq!(m.map(1001, 3), (1001, 3));
}

#[test]
fn coord_mapper_treats_zero_desktop_as_one_and_saturates() {
    let m = MouseCoordMapper::new(65535, 65535, 0, 0);
    assert_eq!(m.map(1, 0), (65535, 0));
    assert_eq!(m.map(2, 2), (65535, 65535));
}

#[test]
fn handle_size_request() {
    // A local 11-byte file ("hello world") under a 1 MiB limit.
    let mut mgr = FileTransferManager::new("/tmp/size".to_string(), 1024 * 1024);
    mgr.set_local_files(vec!["/tmp/size/test.txt".to_string()]);
    assert_eq!(mgr.contents_request_step(0, FILECONTENTS_SIZE), ContentsStep::QuerySize(0));
    assert_eq!(mgr.local_file(0).map(|s| s.as_str()), Some("/tmp/size/test.txt"));
    assert_eq!(mgr.size_answer(11), Some(11));
}

#[test]
fn size_limit_enforcement() {
    // A local 200-byte file under a 100-byte limit: the answer is empty.
    let mut mgr = FileTransferManager::new("/tmp/limit".to_string(), 100);
    mgr.set_local_files(vec!["/tmp/limit/big.bin".to_string()]);
    assert_eq!(mgr.contents_request_step(0, FILECONTENTS_SIZE), ContentsStep::QuerySize(0));
    assert_eq!(mgr.size_answer(200), None);
}
