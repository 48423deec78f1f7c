//! The mouse and keyboard mode.

use ps_aim_windows::aim_report::AimState;
use ps_aim_windows::gun::GunAction;
use ps_aim_windows::held_keys::{
    update_key, update_mouse_button, HeldState, InputEvent, Target, VK_A, VK_BACK, VK_D, VK_DOWN,
    VK_E, VK_ESCAPE, VK_LCONTROL, VK_LEFT, VK_LSHIFT, VK_Q, VK_R, VK_RETURN, VK_RIGHT, VK_S,
    VK_SPACE, VK_UP, VK_W,
};
use ps_aim_windows::rawinput_mode::{
    bias_adapts, moves, recenter_via_relative_burst, CursorKeeper, CursorTurn, GyroUse, RawSession,
};
use ps_aim_windows::rumble::RumbleLed;

const MS: u64 = 1_000_000;

fn resting() -> AimState {
    AimState {
        lstick_x: 128,
        lstick_y: 128,
        rstick_x: 128,
        rstick_y: 128,
        dpad: 8,
        ..AimState::default()
    }
}

fn down(vk: u16) -> InputEvent {
    InputEvent { target: Target::Key(vk), down: true }
}

fn up(vk: u16) -> InputEvent {
    InputEvent { target: Target::Key(vk), down: false }
}

fn session(camera: bool) -> RawSession<(i32, i32)> {
    RawSession::new(camera)
}

fn everything() -> AimState {
    AimState {
        lstick_x: 255,
        lstick_y: 0,
        cross: true,
        circle: true,
        square: true,
        triangle: true,
        l1: true,
        r1: true,
        share: true,
        options: true,
        ps_guide: true,
        dpad: 0,
        l2_click: true,
        r2_click: true,
        ..resting()
    }
}

#[test]
fn only_changes_are_sent() {
    let mut events = Vec::new();
    let mut held = false;
    update_key(&mut events, VK_W, true, &mut held);
    update_key(&mut events, VK_W, true, &mut held);
    assert!(held);
    update_key(&mut events, VK_W, false, &mut held);
    update_mouse_button(&mut events, false, false, &mut held);
    update_mouse_button(&mut events, false, true, &mut held);
    update_mouse_button(&mut events, true, false, &mut held);
    assert_eq!(
        events,
        vec![
            down(VK_W),
            up(VK_W),
            InputEvent { target: Target::RightButton, down: true },
            InputEvent { target: Target::LeftButton, down: false },
        ]
    );
}

#[test]
fn buttons_are_keys_in_a_fixed_order() {
    let mut h = HeldState::new();
    let mut expected = vec![];
    for vk in [
        VK_W, VK_D, VK_SPACE, VK_LCONTROL, VK_R, VK_E, VK_LSHIFT, VK_Q, VK_BACK, VK_RETURN,
        VK_ESCAPE, VK_UP,
    ] {
        expected.push(down(vk));
    }
    expected.push(InputEvent { target: Target::LeftButton, down: true });
    expected.push(InputEvent { target: Target::RightButton, down: true });
    assert_eq!(h.update(&everything(), true), expected);
    assert_eq!(h.update(&everything(), true), vec![]);
}

#[test]
fn stick_counts_beyond_its_threshold() {
    let mut h = HeldState::new();
    let s = AimState { lstick_x: 88, lstick_y: 168, ..resting() };
    assert_eq!(h.update(&s, true), vec![]);
    let s = AimState { lstick_x: 87, lstick_y: 169, ..resting() };
    assert_eq!(h.update(&s, true), vec![down(VK_S), down(VK_A)]);
}

#[test]
fn dpad_is_the_arrow_keys() {
    let mut h = HeldState::new();
    for (dpad, vk) in [(0, VK_UP), (2, VK_RIGHT), (4, VK_DOWN), (6, VK_LEFT)] {
        assert_eq!(h.update(&AimState { dpad, ..resting() }, true), vec![down(vk)]);
        assert_eq!(h.update(&AimState { dpad: dpad + 1, ..resting() }, true), vec![up(vk)]);
    }
}

#[test]
fn releasing_leaves_nothing_held() {
    let mut h = HeldState::new();
    let pressed = h.update(&everything(), true);
    let released = h.release_all();
    assert_eq!(released.len(), pressed.len());
    assert!(released.iter().all(|e| !e.down));
    assert!(pressed.iter().all(|e| !h.get(e.target)));
    assert_eq!(h, HeldState::new());
    assert_eq!(released[0], up(VK_W));
    assert_eq!(released[1], up(VK_D));
    assert_eq!(h.release_all(), vec![]);
}

#[test]
fn events_lead_from_state_to_state() {
    let mut h = HeldState::new();
    let mut seen: Vec<Target> = Vec::new();
    let states = [everything(), resting(), AimState { dpad: 4, ..everything() }, resting()];
    for (i, s) in states.iter().enumerate() {
        for e in h.update(s, i != 2) {
            if e.down {
                assert!(!seen.contains(&e.target));
                seen.push(e.target);
            } else {
                assert!(seen.contains(&e.target));
                seen.retain(|t| *t != e.target);
            }
        }
        assert!(seen.iter().all(|t| h.get(*t)));
    }
    assert!(seen.is_empty());
}

#[test]
fn paused_session_holds_nothing() {
    let mut l = session(false);
    assert_eq!(l.press(&everything(), false).len(), 14);
    assert_eq!(l.press(&everything(), true).len(), 14);
    assert_eq!(l.held, HeldState::new());
    assert_eq!(l.release(), vec![]);
}

#[test]
fn pausing_lets_everything_go() {
    let mut l = session(false);
    l.press(&everything(), false);
    assert_eq!(l.follow_gun(GunAction::Nothing), vec![]);
    let dark = RumbleLed { motor_weak: 0, motor_strong: 0, red: 0, green: 0, blue: 0 };
    assert_eq!(l.follow_gun(GunAction::Resumed(dark)), vec![]);
    assert_eq!(l.follow_gun(GunAction::Paused(dark)).len(), 14);
    assert_eq!(l.held, HeldState::new());
}

#[test]
fn trigger_is_no_click_while_calibrating() {
    let mut l = session(true);
    let held = AimState { r3: true, ..resting() };
    l.begin(&held, 0);
    assert!(l.begin(&held, 800 * MS).entered);
    let fire = AimState { r2_click: true, ..resting() };
    assert_eq!(l.press(&fire, false), vec![]);
}

#[test]
fn still_moves_are_not_sent() {
    assert!(!moves(0, 0));
    assert!(moves(0, -1));
    assert!(moves(1, 0));
}

#[test]
fn recentring_adds_up_to_the_way_back() {
    assert_eq!(recenter_via_relative_burst(0, 0), vec![]);
    for (dx, dy) in [(1, 0), (-39, 40), (1000, -1001), (i32::MAX, -i32::MAX)] {
        let steps = recenter_via_relative_burst(dx, dy);
        assert_eq!(steps.len(), 40);
        let sum_x: i64 = steps.iter().map(|s| s.0 as i64).sum();
        let sum_y: i64 = steps.iter().map(|s| s.1 as i64).sum();
        assert_eq!((sum_x, sum_y), (-(dx as i64), -(dy as i64)));
    }
    let steps = recenter_via_relative_burst(100, -50);
    assert_eq!(steps[0], (-2, 1));
    assert_eq!(steps[39], (-22, 11));
}

#[test]
fn recentring_steps_are_small() {
    for total in [-5000, -1, 0, 7, 39, 41, 123456] {
        for (dx, _) in recenter_via_relative_burst(total, 1) {
            assert!(dx.abs() <= total.abs() / 40 + 39);
        }
    }
}

#[test]
fn tap_recalibrates_and_undoes_the_moves() {
    let mut l = session(false);
    l.note_move(10, -4);
    l.note_move(5, 1);
    l.begin(&AimState { r3: true, ..resting() }, 0);
    let r = l.begin(&resting(), 100 * MS);
    assert_eq!(r.recenter, Some((15, -3)));
    assert_eq!((l.moved_x, l.moved_y), (0, 0));
    assert!(l.fast(699 * MS));
    assert!(!l.fast(700 * MS));
    assert!(!l.fast(0));
}

#[test]
fn tap_does_not_disturb_a_calibration() {
    let mut l = session(true);
    let held = AimState { r3: true, ..resting() };
    l.begin(&held, 0);
    l.begin(&held, 800 * MS);
    l.begin(&resting(), 900 * MS);
    l.begin(&held, 1000 * MS);
    let r = l.begin(&resting(), 1100 * MS);
    assert_eq!(r.recenter, None);
    assert_eq!(l.gyro_use(false), GyroUse::Dropped);
}

#[test]
fn guide_button_forgets_the_remainder() {
    let mut l = session(false);
    let guide = AimState { ps_guide: true, ..resting() };
    assert!(l.begin(&guide, 0).reset_remainder);
    assert!(!l.begin(&guide, 1).reset_remainder);
}

#[test]
fn gyro_gives_way_to_the_camera() {
    assert_eq!(session(false).gyro_use(true), GyroUse::Relative);
    assert_eq!(session(true).gyro_use(true), GyroUse::Dropped);
    assert_eq!(session(true).gyro_use(false), GyroUse::Kept);
    assert_eq!(session(true).gyro_step(false, false), Some(GyroUse::Kept));
    assert_eq!(session(false).gyro_step(false, true), Some(GyroUse::Relative));
    assert_eq!(session(false).gyro_step(true, false), None);
}

#[test]
fn bias_adapts_to_stillness() {
    assert!(bias_adapts(29, false));
    assert!(bias_adapts(-29, false));
    assert!(!bias_adapts(30, false));
    assert!(!bias_adapts(i16::MIN, false));
    assert!(bias_adapts(i16::MIN, true));
}

#[test]
fn real_mouse_gets_the_cursor_for_a_while() {
    let mut k = CursorKeeper::new();
    assert_eq!(k.tick(Some((9, 9)), false, 0), CursorTurn::Ours);
    k.sent(true, (100, 100));
    assert_eq!(k.tick(Some((104, 96)), false, MS), CursorTurn::Ours);
    assert_eq!(k.tick(Some((105, 100)), false, 2 * MS), CursorTurn::RealMouse(Some((105, 100))));
    assert_eq!(k.tick(None, false, 3 * MS), CursorTurn::RealMouse(None));
    assert_eq!(k.tick(Some((105, 100)), false, 1501 * MS), CursorTurn::RealMouse(Some((105, 100))));
    assert_eq!(k.tick(Some((105, 100)), false, 1502 * MS), CursorTurn::Ours);
}

#[test]
fn gyro_takes_the_cursor_back() {
    let mut k = CursorKeeper::new();
    k.sent(true, (0, 0));
    assert_eq!(k.tick(Some((0, -5)), false, 0), CursorTurn::RealMouse(Some((0, -5))));
    assert_eq!(k.tick(Some((0, -5)), true, MS), CursorTurn::Ours);
    k.sent(false, (0, 0));
    assert_eq!(k.last_sent, None);
    assert_eq!(k.tick(Some((i32::MIN, i32::MAX)), false, 2 * MS), CursorTurn::Ours);
}
