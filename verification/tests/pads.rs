//! The virtual pads.

use ps_aim_windows::aim_report::AimState;
use ps_aim_windows::ds4_mode::{Ds4Session, RelayEvent, RumbleRelay};
use ps_aim_windows::lightgun_mode::{
    held_still, stick_u8_to_i16_x, stick_u8_to_i16_y, AimSource, LightgunSession, X360Frame,
};
use ps_aim_windows::rumble::RumbleLed;

const MS: u64 = 1_000_000;

fn resting() -> AimState {
    AimState {
        lstick_x: 128,
        lstick_y: 128,
        rstick_x: 128,
        rstick_y: 128,
        dpad: 8,
        ..AimState::default()
    }
}

fn simple_report(dpad_and_face: u8) -> [u8; 10] {
    [0x01, 128, 128, 128, 128, dpad_and_face, 0, 0, 0, 0]
}

fn lightgun() -> LightgunSession<(i32, i32)> {
    LightgunSession::new(true)
}

fn enter(l: &mut LightgunSession<(i32, i32)>) {
    let held = AimState { r3: true, ..resting() };
    l.begin(&held, 0);
    assert!(l.begin(&held, 800 * MS).entered);
}

#[test]
fn nothing_is_passed_on_before_the_first_state() {
    let mut s = Ds4Session::new();
    assert_eq!(s.next_frame(), None);
    assert_eq!(s.on_report(&[0x07; 30]), None);
    assert_eq!(s.next_frame(), None);
}

#[test]
fn last_state_is_passed_on_again() {
    let mut s = Ds4Session::new();
    assert_eq!(s.on_report(&simple_report(0x08)), Some(true));
    let a = s.next_frame().unwrap();
    let b = s.next_frame().unwrap();
    assert_eq!((a.timestamp, b.timestamp), (0, 188));
    assert_eq!(a.buttons, b.buttons);
    assert_eq!(s.on_report(&[]), None);
    assert_eq!(s.next_frame().unwrap().timestamp, 376);
}

#[test]
fn timestamps_wrap() {
    let mut s = Ds4Session::new();
    s.on_report(&simple_report(0x08));
    for n in 0..1000u32 {
        assert_eq!(s.next_frame().unwrap().timestamp as u32, n * 188 % 65536);
    }
}

#[test]
fn ds4_buttons_have_their_bits() {
    let mut s = Ds4Session::new();
    s.on_report(&simple_report(0x20 | 0x03));
    assert_eq!(s.next_frame().unwrap().buttons, 0x0023);
    s.on_report(&simple_report(0x0F));
    assert_eq!(s.next_frame().unwrap().buttons, 0x0008);
    s.on_report(&[0x01, 1, 2, 3, 4, 0xF0 | 0x08, 0xFF, 0x03, 5, 6]);
    let f = s.next_frame().unwrap();
    assert_eq!((f.buttons, f.special), (0xFFF8, 3));
    assert_eq!((f.thumb_lx, f.thumb_ly, f.thumb_rx, f.thumb_ry), (1, 2, 3, 4));
    assert_eq!((f.trigger_l, f.trigger_r), (5, 6));
}

#[test]
fn ds4_motion_is_reordered() {
    let mut r = vec![0u8; 64];
    r[0] = 0x01;
    for i in 0..6 {
        r[12 + 2 * i] = i as u8 + 1;
    }
    let mut s = Ds4Session::new();
    assert_eq!(s.on_report(&r), Some(false));
    let f = s.next_frame().unwrap();
    assert_eq!((f.gyro_x, f.gyro_y, f.gyro_z), (1, 2, 3));
    assert_eq!((f.accel_x, f.accel_y, f.accel_z), (4, 5, 6));
}

#[test]
fn game_notifications_are_relayed_and_repeated() {
    let mut relay = RumbleRelay::new();
    let dark = RumbleLed { motor_weak: 0, motor_strong: 0, red: 0, green: 0, blue: 0 };
    let lit = RumbleLed { motor_weak: 1, motor_strong: 2, red: 3, green: 4, blue: 5 };
    assert_eq!(relay.step(RelayEvent::Timeout), Some(dark));
    let event = RelayEvent::Notification { small_motor: 1, large_motor: 2, red: 3, green: 4, blue: 5 };
    assert_eq!(relay.step(event), Some(lit));
    assert_eq!(relay.step(RelayEvent::Timeout), Some(lit));
    assert_eq!(relay.step(RelayEvent::Closed), None);
}

#[test]
fn sticks_reach_both_ends() {
    assert_eq!(stick_u8_to_i16_x(0), -32768);
    assert_eq!(stick_u8_to_i16_x(128), 0);
    assert_eq!(stick_u8_to_i16_x(255), 32512);
    assert_eq!(stick_u8_to_i16_y(0), 32767);
    assert_eq!(stick_u8_to_i16_y(128), 0);
    assert_eq!(stick_u8_to_i16_y(255), -32512);
}

#[test]
fn x360_buttons_have_their_bits() {
    let l = lightgun();
    let s = AimState { cross: true, l2_click: true, dpad: 7, r2_analog: 77, ..resting() };
    let f = l.report(&s, false, (5, -6));
    assert_eq!(
        f,
        X360Frame {
            buttons: 0x1000 | 0x0080 | 0x0001 | 0x0004,
            left_trigger: 0,
            right_trigger: 77,
            thumb_lx: 0,
            thumb_ly: 0,
            thumb_rx: 5,
            thumb_ry: -6,
        }
    );
    let all = AimState {
        cross: true,
        circle: true,
        square: true,
        triangle: true,
        l1: true,
        r1: true,
        share: true,
        options: true,
        ps_guide: true,
        l3: true,
        ..resting()
    };
    assert_eq!(l.report(&all, false, (0, 0)).buttons, 0xF770);
    let directions = [0x1, 0x9, 0x8, 0xA, 0x2, 0x6, 0x4, 0x5, 0x0];
    for (dpad, bits) in directions.iter().enumerate() {
        let s = AimState { dpad: dpad as u8, ..resting() };
        assert_eq!(l.report(&s, false, (0, 0)).buttons, *bits);
    }
}

#[test]
fn right_stick_click_is_not_reported() {
    let l = lightgun();
    let s = AimState { r3: true, rstick_x: 1, rstick_y: 2, l2_analog: 200, ..resting() };
    assert_eq!(l.report(&s, false, (1, 2)), l.report(&resting(), false, (1, 2)));
}

#[test]
fn nothing_is_reported_while_paused_or_calibrating() {
    let blank = X360Frame {
        buttons: 0,
        left_trigger: 0,
        right_trigger: 0,
        thumb_lx: 0,
        thumb_ly: 0,
        thumb_rx: 0,
        thumb_ry: 0,
    };
    let s = AimState { cross: true, r2_analog: 9, lstick_x: 0, ..resting() };
    let mut l = lightgun();
    assert_eq!(l.report(&s, true, (1, 2)), blank);
    enter(&mut l);
    assert_eq!(l.report(&s, false, (1, 2)), blank);
}

#[test]
fn aim_comes_from_the_camera_or_the_gyro() {
    let mut l = lightgun();
    assert_eq!(l.source(true), AimSource::Camera);
    assert_eq!(l.source(false), AimSource::Gyro);
    assert!(l.gyro_moves(false, false));
    assert!(!l.gyro_moves(false, true));
    assert!(!l.gyro_moves(true, false));
    enter(&mut l);
    assert_eq!(l.source(true), AimSource::Neutral);
    assert!(!l.gyro_moves(false, false));
    let blind: LightgunSession<(i32, i32)> = LightgunSession::new(false);
    assert_eq!(blind.source(true), AimSource::Gyro);
    assert!(blind.gyro_moves(false, true));
}

#[test]
fn aim_is_reset_by_two_buttons() {
    let mut l = lightgun();
    let guide = AimState { ps_guide: true, ..resting() };
    assert!(l.begin(&guide, 0).reset_aim);
    assert!(!l.begin(&guide, MS).reset_aim);
    assert!(!l.begin(&resting(), 2 * MS).reset_aim);
    let click = AimState { r3: true, ..resting() };
    assert!(!l.begin(&click, 3 * MS).reset_aim);
    assert!(l.begin(&resting(), 4 * MS).reset_aim);
}

#[test]
fn calibration_reads_the_analog_trigger() {
    let mut l = lightgun();
    enter(&mut l);
    let lightly = AimState { r2_analog: 60, ..resting() };
    assert!(!l.sample(&lightly, true).add);
    l.end_sampling(&lightly);
    let pulled = AimState { r2_analog: 61, ..resting() };
    assert!(l.sample(&pulled, true).add);
    l.end_sampling(&pulled);
    assert!(l.calib.last_trigger);
}

#[test]
fn stillness_needs_both_axes() {
    let s = AimState { gyro_pitch: 30, gyro_yaw: -30, gyro_roll: 900, ..resting() };
    assert!(held_still(&s));
    assert!(!held_still(&AimState { gyro_pitch: 31, ..s }));
    assert!(!held_still(&AimState { gyro_yaw: -31, ..s }));
    assert!(!held_still(&AimState { gyro_pitch: i16::MIN, ..s }));
    assert!(!held_still(&AimState { gyro_yaw: i16::MIN, ..s }));
}
