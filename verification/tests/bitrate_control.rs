use macrdp::bitrate::{
    detect_network_phase1, detect_network_phase2, BitrateController, FrameStats, NetworkType,
};
use macrdp::net::{exec_is_private_ip, IpAddress};

fn v4(a: u8, b: u8, c: u8, d: u8) -> IpAddress {
    IpAddress::V4([a, b, c, d])
}

fn frames(ctrl: &mut BitrateController, count: usize, encode_ms: u64, bytes: u32, key: bool) {
    for _ in 0..count {
        ctrl.record_frame(FrameStats {
            encode_us: encode_ms * 1000,
            frame_bytes: bytes,
            is_keyframe: key,
        });
    }
}

/// Brings a fresh WAN controller down to its floor (30% of the initial
/// bitrate) at full frame rate, by repeated encoder overload.
fn controller_at_floor(initial: u32, target_fps: u32) -> BitrateController {
    let mut ctrl = BitrateController::new(initial, target_fps, false);
    let floor = (initial as u64 * 3 / 10) as u32;
    let mut rounds = 0;
    while ctrl.current_bitrate() > floor {
        frames(&mut ctrl, 40, 12, 50_000, false);
        ctrl.evaluate();
        rounds += 1;
        assert!(rounds < 32, "controller never reached its floor");
    }
    assert_eq!(ctrl.current_bitrate(), floor);
    assert_eq!(ctrl.current_fps(), target_fps);
    ctrl
}

#[test]
fn private_ipv4_ranges() {
    assert!(exec_is_private_ip(&v4(10, 0, 0, 1)));
    assert!(exec_is_private_ip(&v4(10, 255, 255, 255)));
    assert!(exec_is_private_ip(&v4(172, 16, 0, 1)));
    assert!(exec_is_private_ip(&v4(172, 31, 255, 255)));
    assert!(exec_is_private_ip(&v4(192, 168, 1, 1)));
    assert!(exec_is_private_ip(&v4(127, 0, 0, 1)));
    assert!(exec_is_private_ip(&v4(169, 254, 1, 1)));
}

#[test]
fn public_ipv4() {
    assert!(!exec_is_private_ip(&v4(8, 8, 8, 8)));
    assert!(!exec_is_private_ip(&v4(1, 1, 1, 1)));
    assert!(!exec_is_private_ip(&v4(203, 0, 113, 1)));
}

#[test]
fn ipv6() {
    assert!(exec_is_private_ip(&IpAddress::V6([0, 0, 0, 0, 0, 0, 0, 1])));
    assert!(exec_is_private_ip(&IpAddress::V6([0xfe80, 0, 0, 0, 0, 0, 0, 1])));
    assert!(!exec_is_private_ip(&IpAddress::V6([0x2001, 0xdb8, 0, 0, 0, 0, 0, 1])));
}

#[test]
fn phase1_detection() {
    assert_eq!(detect_network_phase1(v4(192, 168, 1, 1)), NetworkType::Lan);
    assert_eq!(detect_network_phase1(v4(8, 8, 8, 8)), NetworkType::Wan);
}

#[test]
fn phase2_rtt_correction() {
    assert_eq!(detect_network_phase2(NetworkType::Lan, 50_000), NetworkType::Wan);
    assert_eq!(detect_network_phase2(NetworkType::Lan, 3_000), NetworkType::Lan);
    assert_eq!(detect_network_phase2(NetworkType::Wan, 3_000), NetworkType::Wan);
}

#[test]
fn phase2_threshold_is_exclusive() {
    assert_eq!(detect_network_phase2(NetworkType::Lan, 10_000), NetworkType::Lan);
    assert_eq!(detect_network_phase2(NetworkType::Lan, 10_001), NetworkType::Wan);
}

#[test]
fn lan_bypass_no_adjustment() {
    let mut ctrl = BitrateController::new(10_000_000, 60, true);
    frames(&mut ctrl, 40, 20, 500_000, false);
    let decision = ctrl.evaluate();
    assert_eq!(decision.bitrate_bps, 10_000_000);
    assert_eq!(decision.fps, 60);
}

#[test]
fn bitrate_decrease_on_encode_overload() {
    let mut ctrl = BitrateController::new(10_000_000, 60, false);
    frames(&mut ctrl, 40, 12, 50_000, false);
    let decision = ctrl.evaluate();
    assert_eq!(decision.bitrate_bps, 8_500_000);
}

#[test]
fn bitrate_floor_enforced() {
    let mut ctrl = controller_at_floor(10_000_000, 60);
    let floor = ctrl.current_bitrate();
    frames(&mut ctrl, 40, 12, 50_000, false);
    let decision = ctrl.evaluate();
    assert!(decision.bitrate_bps >= floor);
}

#[test]
fn bitrate_recovery_only_when_fps_at_target() {
    let mut ctrl = controller_at_floor(10_000_000, 60);
    frames(&mut ctrl, 40, 14, 50_000, false);
    ctrl.evaluate();
    assert_eq!(ctrl.current_fps(), 30);
    let floor_bitrate = ctrl.current_bitrate();
    frames(&mut ctrl, 40, 3, 20_000, false);
    let decision = ctrl.evaluate();
    assert_eq!(decision.fps, 60);
    assert_eq!(decision.bitrate_bps, floor_bitrate);
    frames(&mut ctrl, 40, 3, 20_000, false);
    let decision2 = ctrl.evaluate();
    assert!(decision2.bitrate_bps > floor_bitrate);
    assert_eq!(decision2.bitrate_bps, 3_300_000);
}

#[test]
fn fps_decrease_after_bitrate_floor() {
    let mut ctrl = controller_at_floor(10_000_000, 60);
    frames(&mut ctrl, 40, 14, 50_000, false);
    let decision = ctrl.evaluate();
    assert_eq!(decision.fps, 30);
}

#[test]
fn keyframes_excluded_from_size_evaluation() {
    let mut ctrl = BitrateController::new(10_000_000, 60, false);
    frames(&mut ctrl, 40, 5, 500_000, true);
    let decision = ctrl.evaluate();
    assert_eq!(decision.bitrate_bps, 10_000_000);
}

#[test]
fn idle_recovery_resets() {
    let mut ctrl = BitrateController::new(10_000_000, 60, false);
    frames(&mut ctrl, 40, 12, 50_000, false);
    ctrl.evaluate();
    assert!(ctrl.current_bitrate() < 10_000_000);
    ctrl.on_idle_recovery();
    assert_eq!(ctrl.current_bitrate(), 10_000_000);
    assert_eq!(ctrl.current_fps(), 60);
}

#[test]
fn oversized_frames_reduce_bitrate_by_a_tenth() {
    // Budget at 10 Mbit/s and 60 fps is ~20833 bytes per frame; 40000-byte
    // frames exceed 1.5x of it while encoding stays in the middle band.
    let mut ctrl = BitrateController::new(10_000_000, 60, false);
    frames(&mut ctrl, 40, 8, 40_000, false);
    let decision = ctrl.evaluate();
    assert_eq!(decision.bitrate_bps, 9_000_000);
    assert_eq!(decision.fps, 60);
}

#[test]
fn empty_window_changes_nothing() {
    let mut ctrl = BitrateController::new(10_000_000, 60, false);
    let decision = ctrl.evaluate();
    assert_eq!(decision.bitrate_bps, 10_000_000);
    assert_eq!(decision.fps, 60);
    assert!(!ctrl.should_evaluate_at(5_000));
}

#[test]
fn lan_controller_switches_to_wan_on_high_rtt() {
    let mut ctrl = BitrateController::new(10_000_000, 60, true);
    ctrl.update_network_type(3_000);
    assert!(ctrl.is_lan());
    ctrl.update_network_type(50_000);
    assert!(!ctrl.is_lan());
    ctrl.update_network_type(1_000);
    assert!(!ctrl.is_lan());
}
