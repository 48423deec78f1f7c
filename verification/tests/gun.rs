//! The pad button, the recoil and the light.

use ps_aim_windows::config::SavedRecoilMode;
use ps_aim_windows::gun::{Gun, GunAction, GunFrame, GunLoop, GunSettings, PreviewStep};
use ps_aim_windows::pad_button::{PadAction, PadButton};
use ps_aim_windows::recoil::{
    active_led, apply_led, current_led, dim_led, fire_pulse, stop_pulse, RecoilMode, RecoilTimer,
};
use ps_aim_windows::rumble::RumbleLed;

const MS: u64 = 1_000_000;

const SETTINGS: GunSettings =
    GunSettings { intensity: 200, duration_ms: 140, interval_ms: 200, led: (100, 60, 20) };

fn told(intensity: u8, led: (u8, u8, u8)) -> RumbleLed {
    RumbleLed { motor_weak: 0, motor_strong: intensity, red: led.0, green: led.1, blue: led.2 }
}

fn gun(mode: RecoilMode) -> Gun {
    Gun::new(SETTINGS, mode, 0)
}

#[test]
fn modes_go_round() {
    let mode = RecoilMode::SingleKick;
    assert_eq!(mode.next(), RecoilMode::RapidFire);
    assert_eq!(mode.next().next(), RecoilMode::Off);
    assert_eq!(mode.next().next().next(), mode);
}

#[test]
fn modes_have_names_and_are_remembered() {
    assert_eq!(RecoilMode::SingleKick.label(), "Single Kick");
    assert_eq!(RecoilMode::RapidFire.label(), "Rapid Fire");
    assert_eq!(RecoilMode::Off.label(), "Vibration Off");
    for mode in [RecoilMode::SingleKick, RecoilMode::RapidFire, RecoilMode::Off] {
        assert_eq!(RecoilMode::from_saved(mode.to_saved()), mode);
    }
    assert_eq!(RecoilMode::Off.to_saved(), SavedRecoilMode::Off);
}

#[test]
fn light_dims_as_the_formula_says() {
    for v in 0..=255u8 {
        let expected = (v as f32 * 0.05) as u8;
        assert_eq!(dim_led((v, v, v)), (expected, expected, expected));
    }
    assert_eq!(current_led(true, (255, 100, 19)), (12, 5, 0));
    assert_eq!(current_led(false, (255, 100, 19)), (255, 100, 19));
}

#[test]
fn tracker_decides_the_colour() {
    assert_eq!(active_led(true, (1, 2, 3)), (80, 0, 150));
    assert_eq!(active_led(false, (1, 2, 3)), (1, 2, 3));
}

#[test]
fn pulses_drive_the_strong_motor() {
    assert_eq!(fire_pulse(9, (1, 2, 3)), told(9, (1, 2, 3)));
    assert_eq!(stop_pulse((1, 2, 3)), told(0, (1, 2, 3)));
    assert_eq!(apply_led((1, 2, 3)), told(0, (1, 2, 3)));
}

#[test]
fn tap_cycles_the_mode() {
    let mut b = PadButton::new(RecoilMode::SingleKick);
    assert_eq!(b.step(true, 1000 * MS), PadAction::Nothing);
    assert_eq!(b.step(false, 1100 * MS), PadAction::Cycled(RecoilMode::RapidFire));
    // Too soon after the last one.
    b.step(true, 1200 * MS);
    assert_eq!(b.step(false, 1450 * MS), PadAction::Nothing);
    b.step(true, 1500 * MS);
    assert_eq!(b.step(false, 1600 * MS), PadAction::Cycled(RecoilMode::Off));
    b.step(true, 2500 * MS);
    assert_eq!(b.step(false, 2600 * MS), PadAction::Cycled(RecoilMode::SingleKick));
}

#[test]
fn long_hold_pauses_and_a_press_resumes() {
    let mut b = PadButton::new(RecoilMode::SingleKick);
    assert_eq!(b.step(true, 0), PadAction::Nothing);
    assert_eq!(b.step(true, 5000 * MS), PadAction::Nothing);
    assert_eq!(b.step(true, 5000 * MS + 1), PadAction::Paused);
    assert!(b.input_disabled);
    assert_eq!(b.step(true, 6000 * MS), PadAction::Nothing);
    assert_eq!(b.step(false, 6100 * MS), PadAction::Nothing);
    assert_eq!(b.step(true, 6200 * MS), PadAction::Resumed);
    assert!(!b.input_disabled);
    // The press that resumed has had its effect.
    assert_eq!(b.step(true, 20_000 * MS), PadAction::Nothing);
    assert_eq!(b.step(false, 20_100 * MS), PadAction::Nothing);
    assert_eq!(b.mode, RecoilMode::SingleKick);
}

#[test]
fn hold_that_is_neither_long_nor_short_does_nothing() {
    let mut b = PadButton::new(RecoilMode::SingleKick);
    b.step(true, 0);
    assert_eq!(b.step(false, 5000 * MS), PadAction::Nothing);
}

#[test]
fn pull_kicks_once() {
    let mut g = gun(RecoilMode::SingleKick);
    assert_eq!(g.kick(true, true, 0), Some(told(200, (100, 60, 20))));
    assert_eq!(g.settle(0), (true, None));
    assert_eq!(g.kick(true, true, 10 * MS), None);
    assert_eq!(g.settle(139 * MS), (true, None));
    assert_eq!(g.settle(140 * MS), (false, Some(told(0, (100, 60, 20)))));
    assert_eq!(g.settle(141 * MS), (false, None));
    assert_eq!(g.kick(true, false, 150 * MS), None);
    assert_eq!(g.kick(true, true, 160 * MS), Some(told(200, (100, 60, 20))));
}

#[test]
fn rapid_fire_repeats() {
    let mut g = gun(RecoilMode::RapidFire);
    assert_eq!(g.kick(true, true, 0), None);
    assert_eq!(g.rapid(true, true, false, 0), Some(told(200, (100, 60, 20))));
    assert_eq!(g.rapid(true, true, true, 50 * MS), None);
    assert_eq!(g.rapid(true, true, false, 199 * MS), None);
    assert!(g.rapid(true, true, false, 200 * MS).is_some());
    // Letting go makes the next pull fire at once.
    assert_eq!(g.rapid(true, false, false, 210 * MS), None);
    assert!(g.rapid(true, true, false, 211 * MS).is_some());
}

#[test]
fn nothing_fires_unless_armed() {
    for mode in [RecoilMode::SingleKick, RecoilMode::RapidFire, RecoilMode::Off] {
        let mut g = gun(mode);
        assert_eq!(g.kick(false, true, 0), None);
        assert_eq!(g.rapid(false, true, false, 0), None);
    }
    let mut g = gun(RecoilMode::Off);
    assert_eq!(g.kick(true, true, 0), None);
    assert_eq!(g.rapid(true, true, false, 0), None);
}

#[test]
fn paused_gun_is_dim_and_still() {
    let mut g = gun(RecoilMode::RapidFire);
    assert_eq!(g.press_pad(true, 0), (PadAction::Nothing, None));
    assert_eq!(g.press_pad(true, 5001 * MS), (PadAction::Paused, Some(told(0, (5, 3, 1)))));
    assert_eq!(g.kick(true, true, 5002 * MS), None);
    assert_eq!(g.rapid(true, true, false, 5002 * MS), None);
    assert_eq!(g.refresh(false, 5003 * MS), Some(told(0, (5, 3, 1))));
    g.press_pad(false, 5100 * MS);
    assert_eq!(g.press_pad(true, 5200 * MS), (PadAction::Resumed, Some(told(0, (100, 60, 20)))));
}

#[test]
fn light_is_refreshed() {
    let mut g = gun(RecoilMode::Off);
    assert_eq!(g.refresh(false, 0), Some(told(0, (100, 60, 20))));
    g.led_sent(0);
    assert_eq!(g.refresh(false, 500 * MS), None);
    assert_eq!(g.refresh(true, 501 * MS), None);
    assert_eq!(g.refresh(false, 500 * MS + 1), Some(told(0, (100, 60, 20))));
}

#[test]
fn timer_starts_with_nothing_under_way() {
    let t = RecoilTimer::new(7);
    assert_eq!((t.until, t.next_rapid_fire, t.trigger_held, t.last_led), (None, 7, false, None));
}

#[test]
fn previews_show_the_mode() {
    let fire = PreviewStep::Send(told(200, (100, 60, 20)));
    let stop = PreviewStep::Send(told(0, (100, 60, 20)));
    let kick = vec![fire, PreviewStep::Wait(140), stop];
    let rapid = vec![
        fire,
        PreviewStep::Wait(140),
        stop,
        PreviewStep::Wait(60),
        fire,
        PreviewStep::Wait(140),
        stop,
        PreviewStep::Wait(60),
    ];
    assert_eq!(SETTINGS.gamepad_preview(RecoilMode::SingleKick), kick);
    assert_eq!(SETTINGS.gamepad_preview(RecoilMode::RapidFire), rapid);
    assert_eq!(SETTINGS.gamepad_preview(RecoilMode::Off), vec![]);
    assert_eq!(SETTINGS.raw_preview(RecoilMode::SingleKick), kick);
    assert_eq!(SETTINGS.raw_preview(RecoilMode::RapidFire), rapid);
    assert_eq!(SETTINGS.raw_preview(RecoilMode::Off), vec![stop]);
    let slow = GunSettings { interval_ms: 100, ..SETTINGS };
    assert_eq!(slow.raw_preview(RecoilMode::RapidFire)[3], PreviewStep::Wait(0));
}

#[test]
fn rapid_preview_lasts_two_intervals() {
    let mut total = 0;
    for step in SETTINGS.gamepad_preview(RecoilMode::RapidFire) {
        if let PreviewStep::Wait(ms) = step {
            total += ms;
        }
    }
    assert_eq!(total, 400);
}

#[test]
fn frames_take_five_steps_in_order() {
    let mut l = GunLoop::new(SETTINGS, RecoilMode::SingleKick, 0);
    let fire = GunFrame { pad: false, aimed: true, trigger: true };
    let mut actions = vec![];
    for i in 0..5 {
        actions.push(l.step(&fire, i * MS));
        l.sent(i * MS);
        assert_eq!(l.frame_over(), i == 4);
    }
    let mut expected = vec![GunAction::Nothing; 5];
    expected[1] = GunAction::Tell(told(200, (100, 60, 20)));
    assert_eq!(actions, expected);
    // A pulse does not count as setting the light; its end does.
    assert_eq!(l.gun.timer.last_led, None);
    for i in 0..5 {
        let action = l.step(&fire, (200 + i) * MS);
        l.sent((300 + i) * MS);
        let ends = i == 2;
        assert_eq!(action == GunAction::Nothing, !ends);
        assert_eq!(l.gun.timer.last_led, if i < 2 { None } else { Some(302 * MS) });
    }
}

#[test]
fn pad_actions_set_the_light() {
    let mut l = GunLoop::new(SETTINGS, RecoilMode::SingleKick, 0);
    let idle = GunFrame { pad: false, aimed: true, trigger: false };
    let held = GunFrame { pad: true, ..idle };
    let mut seen = vec![];
    for (f, ms) in [(held, 0), (idle, 100), (held, 1000), (held, 6001), (idle, 6100), (held, 6200)] {
        loop {
            let action = l.step(&f, ms * MS);
            if action != GunAction::Nothing {
                seen.push((action, l.sets_light));
            }
            l.sent(ms * MS);
            if l.frame_over() {
                break;
            }
        }
    }
    assert_eq!(
        seen,
        vec![
            (GunAction::Tell(told(0, (100, 60, 20))), true),
            (GunAction::Preview(RecoilMode::RapidFire), true),
            (GunAction::Tell(told(0, (100, 60, 20))), true),
            (GunAction::Paused(told(0, (5, 3, 1))), true),
            (GunAction::Resumed(told(0, (100, 60, 20))), true),
        ]
    );
}
