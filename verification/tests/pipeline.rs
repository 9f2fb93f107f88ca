use ironrdp_pdu::input::mouse::PointerFlags;
use macrdp::display::{
    resize_display,
    after_encode, first_encode_path, AfterEncode, EncodeOutcome, EncodePath,
    backpressure_skip_count, bitmap_fallback_decision, bitrate_change_exceeds_hysteresis, capture_pixel_format,
    dirty_bounding_box, extract_region, gfx_caps_timeout_frames, gfx_pipeline_decision, layout_request_size,
    AdaptiveBitrateController, BitmapFallbackBlock, BitmapSourceKind, CapturePixelFormat, DisplayGeometry,
    GfxPipelineDecision, GfxStatus, IdleFrameController, IdleFrameDecision, Rect, MAX_ENCODE_LONG, MAX_ENCODE_SHORT,
};
use macrdp::encode::{
    align16, encoder_backend_order, openh264_bitrate, pack_i420, EncoderBackend, EncoderPreference,
};
use macrdp::gfx_caps::{parse_caps_advertise_lenient, CapabilitySet};
use macrdp::gfx_session::{client_message, client_payload_data, ClientMessage, DecodedClientPdu, GfxSession, RawGfxPdu};
use macrdp::input::{
    modifier_flag_for_keycode, scroll_lines, KeyboardModifiers, MouseEvent, MouseInjector, AINPUT_FLAG_MOVE, AINPUT_FLAG_WHEEL,
    AINPUT_WHEEL_SCALE, FLAG_COMMAND, FLAG_SHIFT, LINES_PER_DETENT, MAX_SCROLL_LINES, WHEEL_DELTA,
};
use macrdp::zgfx::{unwrap_zgfx, wrap_zgfx};

const SECOND_NS: u64 = 1_000_000_000;

fn status(channel_open: bool, caps_confirmed: bool, avc420: bool) -> GfxStatus {
    GfxStatus {
        channel_open,
        caps_confirmed,
        avc420_supported: avc420,
        avc444_supported: false,
        avc444_enabled: false,
    }
}

#[test]
fn backpressure_skip_count_scales_with_pending_acks() {
    assert_eq!(backpressure_skip_count(0), 0);
    assert_eq!(backpressure_skip_count(4), 0);
    assert_eq!(backpressure_skip_count(5), 1);
    assert_eq!(backpressure_skip_count(9), 1);
    assert_eq!(backpressure_skip_count(10), 2);
    assert_eq!(backpressure_skip_count(19), 2);
    assert_eq!(backpressure_skip_count(20), 3);
    assert_eq!(backpressure_skip_count(100), 3);
}

#[test]
fn dirty_bounding_box_cases() {
    fn r(x: u32, y: u32, width: u32, height: u32) -> Rect {
        Rect { x, y, width, height }
    }
    let cases: Vec<(Vec<Rect>, Option<(u32, u32, u32, u32)>)> = vec![
        (vec![], None),
        (vec![r(10, 20, 30, 40)], Some((10, 20, 30, 40))),
        (vec![r(10, 10, 10, 10), r(100, 50, 20, 30)], Some((10, 10, 110, 70))),
        (vec![r(1900, 1060, 100, 100)], Some((1900, 1060, 20, 20))),
        (vec![r(1920, 1080, 10, 10)], None),
        (vec![r(50, 50, 0, 0)], None),
        (vec![r(0, 0, 1920, 1080)], Some((0, 0, 1920, 1080))),
    ];
    for (rects, expected) in &cases {
        assert_eq!(dirty_bounding_box(rects, 1920, 1080), *expected);
    }
}

#[test]
fn extract_region_copies_rows() {
    // 3x2 frame, 4 bytes per pixel, stride 12.
    let frame: Vec<u8> = (0u8..24).collect();
    assert_eq!(extract_region(&frame, 12, 1, 0, 2, 2), vec![4, 5, 6, 7, 8, 9, 10, 11, 16, 17, 18, 19, 20, 21, 22, 23]);
}

#[test]
fn flexible_display_adopts_and_clamps_requested_sizes() {
    let mut g = DisplayGeometry::new(1920, 1080, 1920, 1080, false);
    assert!(g.apply_resize_request(1280, 720));
    assert_eq!((g.width, g.height), (1280, 720));
    assert!(g.apply_resize_request(5000, 3000));
    assert_eq!((g.width, g.height), (MAX_ENCODE_LONG, MAX_ENCODE_SHORT));
    let mut p = DisplayGeometry::new(1080, 1920, 1080, 1920, false);
    assert!(p.apply_resize_request(3000, 5000));
    assert_eq!((p.width, p.height), (MAX_ENCODE_SHORT, MAX_ENCODE_LONG));
    assert!(!p.apply_resize_request(3000, 5000));
    let mut fixed = DisplayGeometry::new(1920, 1080, 1920, 1080, true);
    assert!(!fixed.apply_resize_request(1280, 720));
    assert_eq!((fixed.width, fixed.height), (1920, 1080));
}

#[test]
fn layout_requests_take_a_single_monitor() {
    assert_eq!(layout_request_size(1, 1440, 900), Some((1440, 900)));
    assert_eq!(layout_request_size(2, 1440, 900), None);
    assert_eq!(layout_request_size(1, 70000, 900), None);
}

#[test]
fn vt_encoder_falls_back_to_software_at_non_native_resolution() {
    let native = DisplayGeometry::new(1920, 1080, 1920, 1080, false);
    assert_eq!(native.effective_encoder_pref(EncoderPreference::Auto, true), EncoderPreference::Auto);
    let scaled = DisplayGeometry::new(1280, 720, 1920, 1080, false);
    assert_eq!(scaled.effective_encoder_pref(EncoderPreference::Auto, true), EncoderPreference::Software);
    assert_eq!(scaled.effective_encoder_pref(EncoderPreference::Software, true), EncoderPreference::Software);
}

#[test]
fn avc420_uses_nv12_only_when_encoder_supports_zero_copy_pixel_buffers() {
    assert_eq!(capture_pixel_format(false, Some(true)), CapturePixelFormat::Nv12);
}

#[test]
fn software_and_no_encoder_capture_use_bgra_for_bgra_encoding_or_bitmap_fallback() {
    assert_eq!(capture_pixel_format(false, Some(false)), CapturePixelFormat::Bgra);
    assert_eq!(capture_pixel_format(false, None), CapturePixelFormat::Bgra);
}

#[test]
fn avc444_capture_uses_bgra_even_with_zero_copy_encoder() {
    assert_eq!(capture_pixel_format(true, Some(true)), CapturePixelFormat::Bgra);
}

#[test]
fn adaptive_bitrate_respects_interval_and_hysteresis() {
    let mut controller = AdaptiveBitrateController::new(10_000_000);
    let adaptive = |quality: f32| (10_000_000f32 * quality) as u32;
    assert_eq!(controller.next_update(29, adaptive(0.8)), None);
    assert_eq!(controller.next_update(30, adaptive(0.8)), Some(8_000_000));
    assert_eq!(controller.next_update(60, adaptive(0.75)), None);
    assert_eq!(controller.next_update(60, adaptive(0.5)), Some(5_000_000));
}

#[test]
fn adaptive_bitrate_clamps_to_floor_and_base() {
    let controller = AdaptiveBitrateController::new(10_000_000);
    assert_eq!(controller.recommended_bitrate((10_000_000f32 * 0.01) as u32), 500_000);
    assert_eq!(controller.recommended_bitrate((10_000_000f32 * 1.5) as u32), 10_000_000);
}

#[test]
fn hysteresis_needs_a_tenth_or_a_megabit() {
    assert!(bitrate_change_exceeds_hysteresis(0, 1));
    assert!(!bitrate_change_exceeds_hysteresis(0, 0));
    assert!(bitrate_change_exceeds_hysteresis(10_000_000, 9_000_000));
    assert!(!bitrate_change_exceeds_hysteresis(10_000_000, 9_500_000));
    assert!(bitrate_change_exceeds_hysteresis(1_000_000, 900_000));
}

#[test]
fn idle_controller_skips_known_unchanged_frames_until_interval() {
    let mut controller = IdleFrameController::new(true, Some(5 * SECOND_NS));
    let start = 7 * SECOND_NS;
    assert_eq!(controller.next_decision(false, start), IdleFrameDecision::Encode { force_keyframe: false });
    controller.record_sent(start);
    assert_eq!(controller.next_decision(true, start + 4 * SECOND_NS), IdleFrameDecision::Skip);
    assert_eq!(controller.next_decision(true, start + 5 * SECOND_NS), IdleFrameDecision::Encode { force_keyframe: true });
}

#[test]
fn idle_controller_treats_unknown_dirty_rects_as_changed() {
    let mut controller = IdleFrameController::new(true, Some(5 * SECOND_NS));
    controller.record_sent(0);
    let known_unchanged = macrdp::display::is_known_unchanged_frame(false, 0);
    assert!(!known_unchanged);
    assert_eq!(controller.next_decision(known_unchanged, SECOND_NS), IdleFrameDecision::Encode { force_keyframe: false });
}

#[test]
fn idle_controller_can_disable_skipping() {
    let mut controller = IdleFrameController::new(false, Some(5 * SECOND_NS));
    controller.record_sent(0);
    assert_eq!(controller.next_decision(true, SECOND_NS), IdleFrameDecision::Encode { force_keyframe: false });
    assert_eq!(controller.record_skipped(), 1);
    assert_eq!(controller.record_skipped(), 2);
}

#[test]
fn gfx_decision_waits_while_encoder_available_and_gfx_negotiates() {
    assert_eq!(
        gfx_pipeline_decision(status(false, false, false), true, false, 0, 300),
        GfxPipelineDecision {
            ready: false,
            use_444: false,
            hopeless: false,
            no_caps_timed_out: false,
            channel_open: false,
            caps_confirmed: false,
        }
    );
    assert_eq!(
        gfx_pipeline_decision(status(true, false, false), true, false, 299, 300),
        GfxPipelineDecision {
            ready: false,
            use_444: false,
            hopeless: false,
            no_caps_timed_out: false,
            channel_open: true,
            caps_confirmed: false,
        }
    );
}

#[test]
fn gfx_decision_falls_back_when_open_channel_never_sends_capabilities() {
    assert_eq!(
        gfx_pipeline_decision(status(true, false, false), true, false, 300, 300),
        GfxPipelineDecision {
            ready: false,
            use_444: false,
            hopeless: true,
            no_caps_timed_out: true,
            channel_open: true,
            caps_confirmed: false,
        }
    );
}

#[test]
fn gfx_decision_falls_back_only_after_confirmed_no_avc_support() {
    assert_eq!(
        gfx_pipeline_decision(status(true, true, false), true, false, 0, 300),
        GfxPipelineDecision {
            ready: false,
            use_444: false,
            hopeless: true,
            no_caps_timed_out: false,
            channel_open: true,
            caps_confirmed: true,
        }
    );
}

#[test]
fn bitmap_fallback_for_no_avc_client_requires_bgra_frame_data() {
    let gfx = gfx_pipeline_decision(status(true, true, false), true, false, 0, 300);
    assert_eq!(bitmap_fallback_decision(&gfx, BitmapSourceKind::Bgra), Ok(()));
    assert_eq!(
        bitmap_fallback_decision(&gfx, BitmapSourceKind::PixelBuffer),
        Err(BitmapFallbackBlock::Nv12AfterAvcDisabled)
    );
}

#[test]
fn bitmap_fallback_for_missing_caps_timeout_requires_bgra_frame_data() {
    let gfx = gfx_pipeline_decision(status(true, false, false), true, false, 300, 300);
    assert_eq!(bitmap_fallback_decision(&gfx, BitmapSourceKind::Bgra), Ok(()));
    assert_eq!(
        bitmap_fallback_decision(&gfx, BitmapSourceKind::PixelBuffer),
        Err(BitmapFallbackBlock::Nv12AfterNoCapsTimeout)
    );
}

#[test]
fn gfx_decision_uses_gfx_after_avc420_is_confirmed() {
    assert_eq!(
        gfx_pipeline_decision(status(true, true, true), true, false, 0, 300),
        GfxPipelineDecision {
            ready: true,
            use_444: false,
            hopeless: false,
            no_caps_timed_out: false,
            channel_open: true,
            caps_confirmed: true,
        }
    );
}

#[test]
fn gfx_decision_enables_avc444_only_when_config_and_client_allow_it() {
    let mut s = status(true, true, true);
    s.avc444_enabled = true;
    assert!(!gfx_pipeline_decision(s, true, true, 0, 300).use_444);
    s.avc444_supported = true;
    assert!(gfx_pipeline_decision(s, true, true, 0, 300).use_444);
    assert!(!gfx_pipeline_decision(s, true, false, 0, 300).use_444);
}

#[test]
fn caps_timeout_is_five_seconds_of_frames() {
    assert_eq!(gfx_caps_timeout_frames(60), 300);
    assert_eq!(gfx_caps_timeout_frames(0), 5);
}

fn cap_set(version: u32, flags: u32) -> (u32, Vec<u8>) {
    (version, flags.to_le_bytes().to_vec())
}

fn raw_caps_advertise(cap_sets: &[(u32, Vec<u8>)]) -> Vec<u8> {
    let caps_len: usize = cap_sets.iter().map(|(_, data)| 8 + data.len()).sum();
    let pdu_len = 10 + caps_len;
    let mut pdu = Vec::with_capacity(pdu_len);
    pdu.extend_from_slice(&0x0012u16.to_le_bytes());
    pdu.extend_from_slice(&0u16.to_le_bytes());
    pdu.extend_from_slice(&(pdu_len as u32).to_le_bytes());
    pdu.extend_from_slice(&(cap_sets.len() as u16).to_le_bytes());
    for (version, data) in cap_sets {
        pdu.extend_from_slice(&version.to_le_bytes());
        pdu.extend_from_slice(&(data.len() as u32).to_le_bytes());
        pdu.extend_from_slice(data);
    }
    pdu
}

fn negotiate(cap_sets: Vec<(u32, Vec<u8>)>) -> (GfxSession, Option<CapabilitySet>) {
    let mut session = GfxSession::new(1920, 1080, false);
    session.start(7);
    let caps = parse_caps_advertise_lenient(&raw_caps_advertise(&cap_sets)).expect("advertise parses");
    let confirm = session.on_caps_advertise(&caps);
    (session, confirm)
}

#[test]
fn avc420_negotiates_for_representative_client_capabilities() {
    let avc420_v81 = cap_set(0x0008_0105, 0x10);
    let v10_2 = cap_set(0x000a_0200, 0);
    let v10_4 = cap_set(0x000a_0400, 0);
    let v10_6 = cap_set(0x000a_0600, 0);
    let v10_7 = cap_set(0x000a_0701, 0);
    let unknown_future = cap_set(0x000a_0800, 0);
    let profiles = [
        ("mstsc", vec![unknown_future.clone(), v10_7]),
        ("Microsoft Remote Desktop for macOS", vec![v10_6.clone()]),
        ("Microsoft Remote Desktop for iOS/iPadOS", vec![v10_4]),
        ("FreeRDP", vec![unknown_future, v10_6]),
        ("Remmina", vec![v10_2]),
        ("legacy AVC420-only client", vec![avc420_v81]),
    ];
    for (client_name, cap_sets) in profiles {
        let (state, confirm) = negotiate(cap_sets);
        assert!(state.caps_confirmed, "{client_name} should complete GFX capability negotiation");
        assert!(state.avc420_supported, "{client_name} should negotiate AVC420");
        assert!(state.confirmed_cap.is_some(), "{client_name} should have a confirmed capability");
        assert!(confirm.is_some(), "{client_name} should receive exactly one CapabilitiesConfirm");
    }
}

#[test]
fn avc420_stays_disabled_when_client_disables_avc() {
    let (state, confirm) = negotiate(vec![cap_set(0x000a_0200, 0x20)]);
    assert!(state.caps_confirmed);
    assert!(!state.avc420_supported);
    assert!(!state.avc444_supported);
    assert_eq!(state.confirmed_cap, Some(CapabilitySet::V10_2 { flags: 0x20 }));
    assert!(confirm.is_some());
}

#[test]
fn second_advertise_is_ignored_once_confirmed() {
    let (mut state, _) = negotiate(vec![cap_set(0x000a_0600, 0)]);
    let caps = parse_caps_advertise_lenient(&raw_caps_advertise(&[cap_set(0x000a_0200, 0x20)])).unwrap();
    assert_eq!(state.on_caps_advertise(&caps), None);
    assert!(state.avc420_supported);
}

#[test]
fn frame_ids_count_pending_acks() {
    let mut session = GfxSession::new(1920, 1080, false);
    let first = session.next_frame_id();
    let second = session.next_frame_id();
    assert_eq!(second, first + 1);
    assert_eq!(session.pending_acks, 2);
    session.ack_frame(second);
    assert_eq!(session.pending_acks, 1);
    assert!(!session.is_ready());
}

#[test]
fn raw_pdu_reports_its_size() {
    let pdu = RawGfxPdu(vec![1, 2, 3]);
    assert_eq!(pdu.size(), 3);
    assert_eq!(pdu.name(), "GfxServerPdu");
}

#[test]
fn zgfx_wrap_unwrap_roundtrip() {
    // An empty message wraps to a bare header, which does not read back.
    assert_eq!(unwrap_zgfx(&wrap_zgfx(&[])), None);
    for len in [1usize, 100, 65534, 65535, 200_000] {
        let data: Vec<u8> = (0..len).map(|i| (i % 251) as u8).collect();
        let wrapped = wrap_zgfx(&data);
        assert_eq!(unwrap_zgfx(&wrapped), Some(data));
    }
    assert_eq!(&wrap_zgfx(&[7, 8])[..], &[0xE0, 0x04, 7, 8]);
}

#[test]
fn encoder_preference_aliases_parse_as_expected() {
    assert_eq!(EncoderPreference::from_str_opt(Some("videotoolbox")), EncoderPreference::Hardware);
    assert_eq!(EncoderPreference::from_str_opt(Some("OPENH264")), EncoderPreference::Software);
    assert_eq!(EncoderPreference::from_str_opt(Some("auto")), EncoderPreference::Auto);
    assert_eq!(EncoderPreference::from_str_opt(None), EncoderPreference::Auto);
}

#[test]
fn auto_prefers_videotoolbox_on_macos_with_openh264_fallback() {
    assert_eq!(
        encoder_backend_order(EncoderPreference::Auto, true),
        vec![EncoderBackend::VideoToolbox, EncoderBackend::OpenH264]
    );
    assert_eq!(encoder_backend_order(EncoderPreference::Auto, false), vec![EncoderBackend::OpenH264]);
}

#[test]
fn software_preference_skips_videotoolbox() {
    assert_eq!(encoder_backend_order(EncoderPreference::Software, true), vec![EncoderBackend::OpenH264]);
    assert_eq!(encoder_backend_order(EncoderPreference::Software, false), vec![EncoderBackend::OpenH264]);
}

#[test]
fn hardware_preparation_matches_platform_support() {
    assert!(EncoderPreference::Auto.prefers_hardware_on_this_platform(true));
    assert!(EncoderPreference::Hardware.prefers_hardware_on_this_platform(true));
    assert!(!EncoderPreference::Auto.prefers_hardware_on_this_platform(false));
    assert!(!EncoderPreference::Hardware.prefers_hardware_on_this_platform(false));
    assert!(!EncoderPreference::Software.prefers_hardware_on_this_platform(true));
    assert!(!EncoderPreference::Software.prefers_hardware_on_this_platform(false));
}

#[test]
fn encoder_sizes_and_bitrates() {
    assert_eq!(align16(1080), 1088);
    assert_eq!(align16(1920), 1920);
    assert_eq!(openh264_bitrate(300_000_000), 250_000_000);
    assert_eq!(openh264_bitrate(8_000_000), 8_000_000);
    let mut dst = vec![9u8; 8];
    pack_i420(&[1, 2, 3, 4], &[5], &[6], &mut dst);
    assert_eq!(dst, vec![1, 2, 3, 4, 5, 6, 9, 9]);
}

#[test]
fn units_to_lines_maps_detents() {
    assert_eq!(MouseInjector::units_to_lines(WHEEL_DELTA), LINES_PER_DETENT);
    assert_eq!(MouseInjector::units_to_lines(-WHEEL_DELTA), -LINES_PER_DETENT);
    assert_eq!(MouseInjector::units_to_lines(2 * WHEEL_DELTA), 2 * LINES_PER_DETENT);
}

#[test]
fn units_to_lines_zero_is_zero() {
    assert_eq!(MouseInjector::units_to_lines(0), 0);
}

#[test]
fn units_to_lines_truncates_sub_detent_rotations() {
    assert_eq!(MouseInjector::units_to_lines(WHEEL_DELTA / 2), 0);
    assert_eq!(MouseInjector::units_to_lines(-WHEEL_DELTA / 2), 0);
}

#[test]
fn units_to_lines_clamps_large_bursts() {
    assert_eq!(MouseInjector::units_to_lines(i32::MAX), MAX_SCROLL_LINES);
    assert_eq!(MouseInjector::units_to_lines(i32::MIN), -MAX_SCROLL_LINES);
}

#[test]
fn scroll_lines_skips_empty_scrolls() {
    assert_eq!(scroll_lines(0, 60), None);
    assert_eq!(scroll_lines(-240, 120), Some((1, -2)));
}

#[test]
fn vertical_wheel_maps_to_vertical_scroll() {
    let event = MouseEvent::from_pointer(PointerFlags::VERTICAL_WHEEL.bits(), 120, 100, 200);
    assert!(matches!(event, MouseEvent::Scroll { x: 0, y: 120 }), "got {event:?}");
}

#[test]
fn horizontal_wheel_maps_to_horizontal_scroll_not_move() {
    let event = MouseEvent::from_pointer(PointerFlags::HORIZONTAL_WHEEL.bits(), -120, 100, 200);
    assert!(matches!(event, MouseEvent::Scroll { x: -120, y: 0 }), "got {event:?}");
}

#[test]
fn plain_move_still_carries_position() {
    let event = MouseEvent::from_pointer(PointerFlags::MOVE.bits(), 0, 100, 200);
    assert!(matches!(event, MouseEvent::Move { x: 100, y: 200 }), "got {event:?}");
}

#[test]
fn button_flags_map_to_presses_and_releases() {
    let down = (PointerFlags::LEFT_BUTTON | PointerFlags::DOWN).bits();
    assert_eq!(MouseEvent::from_pointer(down, 0, 1, 2), MouseEvent::LeftPressed);
    assert_eq!(MouseEvent::from_pointer(PointerFlags::RIGHT_BUTTON.bits(), 0, 1, 2), MouseEvent::RightReleased);
}

#[test]
fn ainput_wheel_normalizes_fixed_point_to_wheel_delta_units() {
    let one_detent = 120 * AINPUT_WHEEL_SCALE;
    let event = MouseEvent::from_ainput(AINPUT_FLAG_WHEEL, 0, one_detent);
    assert!(matches!(event, MouseEvent::Scroll { x: 0, y: 120 }), "got {event:?}");
    let event = MouseEvent::from_ainput(AINPUT_FLAG_WHEEL, -one_detent, 0);
    assert!(matches!(event, MouseEvent::Scroll { x: -120, y: 0 }), "got {event:?}");
}

#[test]
fn modifier_keycodes_map_to_core_graphics_flags() {
    assert_eq!(modifier_flag_for_keycode(0x38), Some(FLAG_SHIFT));
    assert_eq!(modifier_flag_for_keycode(0x3B), Some(macrdp::input::FLAG_CONTROL));
    assert_eq!(modifier_flag_for_keycode(0x3A), Some(macrdp::input::FLAG_ALTERNATE));
    assert_eq!(modifier_flag_for_keycode(0x37), Some(FLAG_COMMAND));
    assert_eq!(modifier_flag_for_keycode(0x05), None);
}

#[test]
fn modifiers_are_tracked_and_released_on_reset() {
    let mut mods = KeyboardModifiers::new();
    assert_eq!(mods.flags_for_event(0x38, true), FLAG_SHIFT);
    assert_eq!(mods.flags_for_event(0x37, true), FLAG_SHIFT | FLAG_COMMAND);
    assert_eq!(mods.flags_for_event(0x05, true), FLAG_SHIFT | FLAG_COMMAND);
    let releases = mods.reset_modifiers();
    assert_eq!(releases.len(), 2);
    assert_eq!(mods.flags_for_event(0x05, false), 0);
}

use macrdp::capture::{display_scale, presentation_timestamp_us, sample_disposition, FrameStatus, SampleDisposition};

#[test]
fn capture_samples_are_sorted_by_status() {
    assert_eq!(sample_disposition(Some(FrameStatus::Idle)), SampleDisposition::Idle);
    assert_eq!(sample_disposition(Some(FrameStatus::Blank)), SampleDisposition::Discard);
    assert_eq!(sample_disposition(Some(FrameStatus::Stopped)), SampleDisposition::Discard);
    assert_eq!(sample_disposition(Some(FrameStatus::Complete)), SampleDisposition::Frame);
    assert_eq!(sample_disposition(None), SampleDisposition::Frame);
}

#[test]
fn capture_timestamps_and_scale() {
    assert_eq!(presentation_timestamp_us(3, 600), 5000);
    assert_eq!(presentation_timestamp_us(3, 0), 0);
    assert_eq!(display_scale(2880, 1440), 2);
    assert_eq!(display_scale(1000, 1440), 1);
    assert_eq!(display_scale(1000, 0), 1);
}

#[test]
fn rapid_layout_requests_coalesce_to_final_size() {
    let mut display = DisplayGeometry::new(1920, 1080, 1920, 1080, false);
    let mut pending: Option<(u16, u16)> = None;
    for (w, h) in [(2000u32, 1100u32), (2200, 1300), (2560, 1440)] {
        let (w, h) = layout_request_size(1, w, h).unwrap();
        if display.apply_resize_request(w, h) {
            pending = Some((display.width, display.height));
        }
    }
    assert_eq!(pending, Some((2560, 1440)), "only the final size should be pending after rapid requests");
}

/// A display of `width` x `height` at its native size, and the resize it
/// leaves pending after a request.
fn resize(display: &mut DisplayGeometry, width: u16, height: u16) -> Option<(u16, u16)> {
    if display.apply_resize_request(width, height) {
        Some((display.width, display.height))
    } else {
        None
    }
}

fn layout(display: &mut DisplayGeometry, monitors: usize, width: u32, height: u32) -> Option<(u16, u16)> {
    let (w, h) = layout_request_size(monitors, width, height)?;
    resize(display, w, h)
}

#[test]
fn flexible_display_adopts_client_requested_smaller_size() {
    let mut display = DisplayGeometry::new(1920, 1080, 1920, 1080, false);
    let pending = resize(&mut display, 1280, 720);
    assert_eq!((display.width, display.height), (1280, 720));
    assert_eq!(pending, Some((1280, 720)));
}

#[test]
fn flexible_display_adopts_client_requested_larger_size() {
    let mut display = DisplayGeometry::new(1920, 1080, 1920, 1080, false);
    resize(&mut display, 3840, 2160);
    assert_eq!((display.width, display.height), (3840, 2160));
}

#[test]
fn flexible_display_clamps_at_encoder_limit() {
    let mut display = DisplayGeometry::new(1920, 1080, 1920, 1080, false);
    resize(&mut display, 5000, 3000);
    assert_eq!(
        (display.width, display.height),
        (MAX_ENCODE_LONG, MAX_ENCODE_SHORT),
        "landscape: clamped to 3840x2160 encoder limit"
    );
}

#[test]
fn flexible_display_clamps_portrait_at_encoder_limit() {
    let mut display = DisplayGeometry::new(1080, 1920, 1080, 1920, false);
    resize(&mut display, 3000, 5000);
    assert_eq!(
        (display.width, display.height),
        (MAX_ENCODE_SHORT, MAX_ENCODE_LONG),
        "portrait: clamped to 2160x3840 encoder limit"
    );
}

#[test]
fn fixed_display_ignores_client_requested_size() {
    let mut display = DisplayGeometry::new(1920, 1080, 1920, 1080, true);
    let pending = resize(&mut display, 1280, 720);
    assert_eq!((display.width, display.height), (1920, 1080));
    assert_eq!(pending, None);
}

#[test]
fn display_control_layout_requests_resize() {
    let mut display = DisplayGeometry::new(1920, 1080, 1920, 1080, false);
    let pending = layout(&mut display, 1, 1440, 900);
    assert_eq!((display.width, display.height), (1440, 900));
    assert_eq!(pending, Some((1440, 900)));
}

#[test]
fn display_control_multi_monitor_layout_is_deferred() {
    let mut display = DisplayGeometry::new(1920, 1080, 1920, 1080, false);
    let pending = layout(&mut display, 2, 1440, 900);
    assert_eq!((display.width, display.height), (1920, 1080));
    assert_eq!(pending, None);
}

fn scale_of(display: &DisplayGeometry) -> (f64, f64) {
    let ((w, nw), (h, nh)) = display.mouse_scale();
    (w as f64 / nw as f64, h as f64 / nh as f64)
}

#[test]
fn mouse_scale_is_1_when_native_equals_configured() {
    let display = DisplayGeometry::new(1920, 1080, 1920, 1080, false);
    let (sx, sy) = scale_of(&display);
    assert!((sx - 1.0).abs() < 1e-9, "scale_x should be 1.0, got {sx}");
    assert!((sy - 1.0).abs() < 1e-9, "scale_y should be 1.0, got {sy}");
}

#[test]
fn mouse_scale_reflects_non_native_initial_resolution() {
    let display = DisplayGeometry::new(1280, 720, 1920, 1080, true);
    let (sx, sy) = scale_of(&display);
    let expected_x = 1280.0 / 1920.0;
    let expected_y = 720.0 / 1080.0;
    assert!((sx - expected_x).abs() < 1e-9, "scale_x should be {expected_x}, got {sx}");
    assert!((sy - expected_y).abs() < 1e-9, "scale_y should be {expected_y}, got {sy}");
}

#[test]
fn mouse_scale_updates_on_client_resize() {
    let mut display = DisplayGeometry::new(1920, 1080, 1920, 1080, false);
    display.apply_resize_request(1280, 720);
    let (sx, sy) = scale_of(&display);
    let expected_x = 1280.0 / 1920.0;
    let expected_y = 720.0 / 1080.0;
    assert!((sx - expected_x).abs() < 1e-9, "scale_x should update to {expected_x} after resize, got {sx}");
    assert!((sy - expected_y).abs() < 1e-9, "scale_y should update to {expected_y} after resize, got {sy}");
}

#[test]
fn client_payload_is_unwrapped_or_taken_raw() {
    let pdu = raw_caps_advertise(&[cap_set(0x000a_0200, 0x20)]);
    assert_eq!(client_payload_data(&wrap_zgfx(&pdu)), pdu);
    assert_eq!(client_payload_data(&pdu), pdu);
}

#[test]
fn undecodable_caps_advertise_is_salvaged_and_others_ignored() {
    let pdu = raw_caps_advertise(&[cap_set(0x000a_0200, 0x20)]);
    match client_message(&pdu, DecodedClientPdu::Failed) {
        ClientMessage::CapabilitiesAdvertise(caps) => {
            assert_eq!(caps, vec![CapabilitySet::V10_2 { flags: 0x20 }])
        }
        _ => panic!("expected a salvaged advertisement"),
    }
    assert!(matches!(client_message(&[0x0d, 0, 0, 0], DecodedClientPdu::Failed), ClientMessage::Ignored));
    assert!(matches!(client_message(&[0x12, 0x01], DecodedClientPdu::Failed), ClientMessage::Ignored));
    assert!(matches!(
        client_message(&[], DecodedClientPdu::FrameAcknowledge { frame_id: 9 }),
        ClientMessage::FrameAcknowledge { frame_id: 9 }
    ));
}

#[test]
fn started_channel_keeps_everything_but_its_id() {
    let mut session = GfxSession::new(1920, 1080, false);
    session.start(7);
    assert_eq!(session.channel_id, Some(7));
    assert!(!session.avc444_supported);
    assert!(session.confirmed_cap.is_none());
    assert_eq!((session.width, session.height), (1920, 1080));
}

#[test]
fn encode_results_lead_to_send_pointer_or_fallback() {
    assert_eq!(first_encode_path(true, true), EncodePath::PixelBuffer);
    assert_eq!(first_encode_path(false, true), EncodePath::Avc444);
    assert_eq!(first_encode_path(false, false), EncodePath::Avc420);
    assert_eq!(after_encode(EncodePath::Avc420, EncodeOutcome::Frame), AfterEncode::Send);
    assert_eq!(after_encode(EncodePath::Avc444, EncodeOutcome::Empty), AfterEncode::DefaultPointer);
    assert_eq!(after_encode(EncodePath::PixelBuffer, EncodeOutcome::Failed), AfterEncode::DefaultPointer);
    assert_eq!(after_encode(EncodePath::Avc444, EncodeOutcome::Failed), AfterEncode::TryAvc420);
    assert_eq!(after_encode(EncodePath::Avc420, EncodeOutcome::Failed), AfterEncode::BitmapPath);
}

#[test]
fn ainput_moves_need_the_move_flag_and_in_range_coordinates() {
    assert_eq!(MouseEvent::from_ainput(AINPUT_FLAG_MOVE, 100, 200), MouseEvent::Move { x: 100, y: 200 });
    assert_eq!(MouseEvent::from_ainput(AINPUT_FLAG_MOVE, -1, 70000), MouseEvent::Move { x: 0, y: 0 });
    assert_eq!(MouseEvent::from_ainput(AINPUT_FLAG_MOVE, 65535, 5), MouseEvent::Move { x: 65535, y: 5 });
    assert_eq!(MouseEvent::from_ainput(0, 100, 200), MouseEvent::Move { x: 0, y: 0 });
}

#[test]
fn capability_flags_keep_only_defined_bits() {
    let caps = parse_caps_advertise_lenient(&raw_caps_advertise(&[
        cap_set(0x0008_0105, 0xFFFF_FFFF),
        cap_set(0x000a_0200, 0xFFFF_FFFF),
        cap_set(0x000a_0301, 0xFFFF_FFFF),
        cap_set(0x000a_0600, 0xFFFF_FFFF),
        cap_set(0x000a_0701, 0xFFFF_FFFF),
        cap_set(0x0008_0004, 0xFFFF_FFFF),
    ]))
    .unwrap();
    assert_eq!(
        caps,
        vec![
            CapabilitySet::V8_1 { flags: 0x13 },
            CapabilitySet::V10_2 { flags: 0x22 },
            CapabilitySet::V10_3 { flags: 0x60 },
            CapabilitySet::V10_6 { flags: 0x62 },
            CapabilitySet::V10_7 { flags: 0xE2 },
            CapabilitySet::V8 { flags: 0x03 },
        ]
    );
}

#[test]
fn resize_updates_the_graphics_session_size() {
    let mut display = DisplayGeometry::new(1920, 1080, 1920, 1080, false);
    let mut session = GfxSession::new(1920, 1080, false);
    assert!(resize_display(&mut display, &mut session, 5000, 3000));
    assert_eq!((display.width, display.height), (3840, 2160));
    assert_eq!((session.width, session.height), (3840, 2160));
    assert!(!resize_display(&mut display, &mut session, 3840, 2160));
    let mut fixed = DisplayGeometry::new(1920, 1080, 1920, 1080, true);
    assert!(!resize_display(&mut fixed, &mut session, 1280, 720));
    assert_eq!((session.width, session.height), (3840, 2160));
}

#[test]
fn payloads_with_an_empty_segment_are_told_before_unwrapping() {
    // Multipart envelope with one segment of declared size 0.
    let data = [0xE1u8, 1, 0, 0, 0, 0, 0, 0, 0, 0, 0, 0x04];
    assert!(macrdp::zgfx::zgfx_has_empty_segment(&data));
    let pdu = raw_caps_advertise(&[cap_set(0x000a_0200, 0x20)]);
    assert!(!macrdp::zgfx::zgfx_has_empty_segment(&wrap_zgfx(&pdu)));
}
