//! Calibrating the camera.

use ps_aim_windows::calibration::{
    CalibStep, Calibration, Captured, RightStick, SampleOutcome, StickAction,
};

const MS: u64 = 1_000_000;

fn started() -> Calibration<(i32, i32)> {
    let mut c = Calibration::new();
    c.enter();
    c
}

#[test]
fn short_click_is_a_tap() {
    let mut s = RightStick::new();
    assert_eq!(s.step(true, true, 0), StickAction::Nothing);
    assert_eq!(s.step(true, true, 799 * MS), StickAction::Nothing);
    assert_eq!(s.step(false, true, 799 * MS), StickAction::Tap);
    assert_eq!(s.step(false, true, 900 * MS), StickAction::Nothing);
}

#[test]
fn long_hold_enters_once() {
    let mut s = RightStick::new();
    s.step(true, true, 0);
    assert_eq!(s.step(true, true, 800 * MS), StickAction::EnterCalibration);
    assert_eq!(s.step(true, true, 1700 * MS), StickAction::Nothing);
    assert_eq!(s.step(false, true, 1800 * MS), StickAction::Nothing);
}

#[test]
fn long_hold_without_a_camera_is_a_tap() {
    let mut s = RightStick::new();
    s.step(true, false, 0);
    assert_eq!(s.step(true, false, 5000 * MS), StickAction::Nothing);
    assert_eq!(s.step(false, false, 5001 * MS), StickAction::Tap);
}

#[test]
fn steps_have_numbers_and_places() {
    let steps = [
        (CalibStep::Idle, 0, None),
        (CalibStep::WaitingTopLeft, 1, Some((0, 0))),
        (CalibStep::WaitingTopRight, 2, Some((65535, 0))),
        (CalibStep::WaitingBottomLeft, 3, Some((0, 65535))),
        (CalibStep::WaitingBottomRight, 4, Some((65535, 65535))),
        (CalibStep::WaitingCenter, 5, Some((32768, 32768))),
    ];
    for (step, code, place) in steps {
        assert_eq!(step.to_code(), code);
        assert_eq!(step.anchor(), place);
        assert_eq!(CalibStep::code_is_calibrating(code), step != CalibStep::Idle);
    }
    assert!(!CalibStep::code_is_calibrating(6));
    assert!(!CalibStep::code_is_calibrating(-1));
}

#[test]
fn five_captures_complete_a_calibration() {
    let mut c = started();
    assert_eq!(c.capture((1, 1)), Captured::Corner);
    assert_eq!(c.capture((2, 2)), Captured::Corner);
    assert_eq!(c.capture((3, 3)), Captured::Corner);
    assert_eq!(c.capture((4, 4)), Captured::Corners((1, 1), (2, 2), (3, 3), (4, 4)));
    assert_eq!(c.step, CalibStep::WaitingCenter);
    assert_eq!(c.capture((5, 5)), Captured::Center);
    assert!(c.idle());
    assert_eq!(c.top_left, None);
    assert!(c.suppress_trigger);
}

#[test]
fn trigger_is_no_shot_until_it_is_let_go() {
    let mut c = started();
    assert!(!c.armed(false));
    for i in 0..5 {
        c.capture((i, i));
    }
    c.end_frame(true, true);
    assert!(!c.armed(false));
    c.end_frame(false, true);
    assert!(!c.armed(false));
    c.end_frame(false, false);
    assert!(c.armed(false));
    assert!(!c.armed(true));
}

#[test]
fn gamepad_captures_on_release() {
    let mut c = started();
    let r = c.sample_until_release(true, true, true);
    assert_eq!((r.clear, r.add, r.outcome), (true, true, SampleOutcome::Pending));
    c.end_frame(true, true);
    let r = c.sample_until_release(true, true, false);
    assert_eq!((r.clear, r.add, r.outcome), (false, false, SampleOutcome::Pending));
    c.end_frame(true, true);
    let r = c.sample_until_release(true, false, true);
    assert_eq!((r.clear, r.add, r.outcome), (false, false, SampleOutcome::Capture));
    c.end_frame(false, false);
    assert_eq!(c.sample_until_release(true, false, true).outcome, SampleOutcome::Pending);
}

#[test]
fn gamepad_pull_without_the_sphere_is_not_captured() {
    let mut c = started();
    c.sample_until_release(true, true, false);
    c.end_frame(true, true);
    assert_eq!(c.sample_until_release(true, false, true).outcome, SampleOutcome::NotVisible);
    // Without a tracker nothing is sampled at all.
    assert_eq!(c.sample_until_release(false, false, true).outcome, SampleOutcome::Pending);
}

#[test]
fn mouse_mode_captures_after_a_while() {
    let mut c = started();
    let r = c.sample_for_a_while(true, true, true, 0);
    assert_eq!((r.clear, r.add, r.outcome), (true, true, SampleOutcome::Pending));
    c.end_frame(true, true);
    assert_eq!(c.sample_for_a_while(true, true, true, 199 * MS).outcome, SampleOutcome::Pending);
    c.end_frame(true, true);
    assert_eq!(c.sample_for_a_while(true, true, false, 200 * MS).outcome, SampleOutcome::Capture);
    c.end_frame(true, true);
    // One capture for a pull.
    assert_eq!(c.sample_for_a_while(true, true, true, 900 * MS).outcome, SampleOutcome::Pending);
}

#[test]
fn mouse_mode_reports_an_unseen_sphere() {
    let mut c = started();
    c.sample_for_a_while(true, true, false, 0);
    c.end_frame(true, true);
    assert_eq!(c.sample_for_a_while(true, true, false, 200 * MS).outcome, SampleOutcome::NotVisible);
    assert_eq!(c.sample_for_a_while(true, false, true, 300 * MS).outcome, SampleOutcome::Pending);
}

#[test]
fn nothing_is_captured_without_a_calibration() {
    let mut c: Calibration<(i32, i32)> = Calibration::new();
    assert_eq!(c.capture((1, 1)), Captured::Corner);
    assert_eq!(c, Calibration::new());
}

#[test]
fn full_count_does_not_matter_between_pulls() {
    let mut c = started();
    c.sample_count = u32::MAX;
    assert!(c.sample_until_release(true, true, true).clear);
    assert_eq!(c.sample_count, 1);
}
