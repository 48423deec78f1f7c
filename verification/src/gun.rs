//! The gun that both lightgun modes share: the pad button, the trigger's recoil, and what
//! the controller is told on their account.

use crate::pad_button::{PadAction, PadButton};
use crate::recoil::{self, Colour, RecoilFrame, RecoilMode, RecoilTimer};
use crate::rumble::RumbleLed;
use vstd::prelude::*;

verus! {

/// The settings of the recoil and the light.
#[derive(Debug, Clone, Copy, PartialEq, Eq)]
pub struct GunSettings {
    /// How strong a pulse is.
    pub intensity: u8,
    /// How long a pulse is, in milliseconds.
    pub duration_ms: u64,
    /// Milliseconds from one pulse of rapid fire to the next.
    pub interval_ms: u64,
    pub led: Colour,
}

/// One step of showing a recoil mode to the player.
#[derive(Debug, Clone, Copy, PartialEq, Eq, Structural)]
pub enum PreviewStep {
    /// Send this to the controller.
    Send(RumbleLed),
    /// Wait this many milliseconds.
    Wait(u64),
}

/// The pad button, the recoil and the light.
#[derive(Debug, Clone, Copy, PartialEq, Eq)]
pub struct Gun {
    pub settings: GunSettings,
    pub pad: PadButton,
    pub timer: RecoilTimer,
}

/// What the controller is told to drive the motor with `intensity` and show `led`.
pub open spec fn output(intensity: u8, led: Colour) -> RumbleLed {
    RumbleLed { motor_weak: 0, motor_strong: intensity, red: led.0, green: led.1, blue: led.2 }
}

/// The colour at a twentieth of its brightness.
pub open spec fn dimmed(led: Colour) -> Colour {
    ((led.0 / 20) as u8, (led.1 / 20) as u8, (led.2 / 20) as u8)
}

/// The pulse that shows the single kick.
pub open spec fn kick_preview(g: GunSettings) -> Seq<PreviewStep> {
    seq![
        PreviewStep::Send(output(g.intensity, g.led)),
        PreviewStep::Wait(g.duration_ms),
        PreviewStep::Send(output(0, g.led)),
    ]
}

/// The two pulses that show rapid fire, with a pause of `gap_ms` after each.
pub open spec fn rapid_preview(g: GunSettings, gap_ms: u64) -> Seq<PreviewStep> {
    let pulse = kick_preview(g).push(PreviewStep::Wait(gap_ms));
    pulse + pulse
}

/// How the gamepad mode shows a recoil mode.
pub open spec fn gamepad_steps(g: GunSettings, mode: RecoilMode) -> Seq<PreviewStep> {
    match mode {
        RecoilMode::SingleKick => kick_preview(g),
        RecoilMode::RapidFire => rapid_preview(g, (g.interval_ms - g.duration_ms) as u64),
        RecoilMode::Off => Seq::empty(),
    }
}

/// How the mouse and keyboard mode shows a recoil mode.
pub open spec fn raw_steps(g: GunSettings, mode: RecoilMode) -> Seq<PreviewStep> {
    match mode {
        RecoilMode::SingleKick => kick_preview(g),
        RecoilMode::RapidFire => rapid_preview(
            g,
            if g.duration_ms <= g.interval_ms {
                (g.interval_ms - g.duration_ms) as u64
            } else {
                0
            },
        ),
        RecoilMode::Off => seq![PreviewStep::Send(output(0, g.led))],
    }
}

/// The milliseconds that a preview takes.
pub open spec fn preview_ms(steps: Seq<PreviewStep>) -> int
    decreases steps.len(),
{
    if steps.len() == 0 {
        0
    } else {
        preview_ms(steps.drop_last()) + match steps.last() {
            PreviewStep::Send(_) => 0,
            PreviewStep::Wait(ms) => ms as int,
        }
    }
}

impl GunSettings {
    /// One pulse.
    fn single(&self) -> (steps: Vec<PreviewStep>)
        ensures
            steps@ == kick_preview(*self),
    {
        let mut steps: Vec<PreviewStep> = Vec::new();
        steps.push(PreviewStep::Send(recoil::fire_pulse(self.intensity, self.led)));
        steps.push(PreviewStep::Wait(self.duration_ms));
        steps.push(PreviewStep::Send(recoil::stop_pulse(self.led)));
        assert(steps@ =~= kick_preview(*self));
        steps
    }

    /// Two pulses, with a pause after each.
    fn double(&self, gap_ms: u64) -> (steps: Vec<PreviewStep>)
        ensures
            steps@ == rapid_preview(*self, gap_ms),
    {
        let mut steps: Vec<PreviewStep> = self.single();
        steps.push(PreviewStep::Wait(gap_ms));
        let mut second: Vec<PreviewStep> = self.single();
        second.push(PreviewStep::Wait(gap_ms));
        steps.append(&mut second);
        assert(steps@ =~= rapid_preview(*self, gap_ms));
        steps
    }

    /// How the gamepad mode shows a recoil mode that has just been chosen. Its pulses keep
    /// the interval of rapid fire, which cannot be shorter than a pulse.
    pub fn gamepad_preview(&self, mode: RecoilMode) -> (steps: Vec<PreviewStep>)
        requires
            mode == RecoilMode::RapidFire ==> self.duration_ms <= self.interval_ms,
        ensures
            steps@ == gamepad_steps(*self, mode),
    {
        match mode {
            RecoilMode::SingleKick => self.single(),
            RecoilMode::RapidFire => self.double(self.interval_ms - self.duration_ms),
            RecoilMode::Off => Vec::new(),
        }
    }

    /// How the mouse and keyboard mode shows a recoil mode that has just been chosen. Where
    /// a pulse is longer than the interval, the next one follows at once; no recoil is shown
    /// by motors that stop.
    pub fn raw_preview(&self, mode: RecoilMode) -> (steps: Vec<PreviewStep>)
        ensures
            steps@ == raw_steps(*self, mode),
    {
        match mode {
            RecoilMode::SingleKick => self.single(),
            RecoilMode::RapidFire => {
                let gap_ms: u64 = if self.duration_ms <= self.interval_ms {
                    self.interval_ms - self.duration_ms
                } else {
                    0
                };
                self.double(gap_ms)
            },
            RecoilMode::Off => {
                let mut steps: Vec<PreviewStep> = Vec::new();
                steps.push(PreviewStep::Send(recoil::stop_pulse(self.led)));
                assert(steps@ =~= seq![PreviewStep::Send(output(0, self.led))]);
                steps
            },
        }
    }
}

/// The preview of rapid fire takes two intervals, so that it feels as rapid fire does.
pub proof fn rapid_preview_takes_two_intervals(g: GunSettings)
    requires
        g.duration_ms <= g.interval_ms,
    ensures
        preview_ms(rapid_preview(g, (g.interval_ms - g.duration_ms) as u64)) == 2 * g.interval_ms,
{
    let steps = rapid_preview(g, (g.interval_ms - g.duration_ms) as u64);
    assert(steps.len() == 8);
    reveal_with_fuel(preview_ms, 9);
    assert(steps.drop_last().last() == steps[6]);
    assert(steps.drop_last().drop_last().last() == steps[5]);
}

impl Gun {
    /// A gun that has not been touched.
    pub fn new(settings: GunSettings, mode: RecoilMode, now: u64) -> (g: Gun)
        ensures
            g.settings == settings,
            g.pad == (PadButton {
                since: None,
                actioned: false,
                last_mode_switch: None,
                input_disabled: false,
                mode,
            }),
            g.timer == (RecoilTimer {
                until: None,
                next_rapid_fire: now as u128,
                trigger_held: false,
                last_led: None,
            }),
    {
        Gun { settings, pad: PadButton::new(mode), timer: RecoilTimer::new(now) }
    }

    /// The colour that the light is to show.
    pub open spec fn shown(self) -> Colour {
        if self.pad.input_disabled {
            dimmed(self.settings.led)
        } else {
            self.settings.led
        }
    }

    /// What tells the controller to stop the motors and show the light.
    pub open spec fn still(self) -> RumbleLed {
        output(0, self.shown())
    }

    /// What tells the controller to start a pulse.
    pub open spec fn pulse(self) -> RumbleLed {
        output(self.settings.intensity, self.shown())
    }

    /// What the pad button has the controller told at once: pausing dims the light, resuming
    /// restores it.
    pub open spec fn told_by_pad(self, pressed: bool, now: u64) -> Option<RumbleLed> {
        match self.pad.action(pressed, now) {
            PadAction::Paused | PadAction::Resumed => Some(
                (Gun { pad: self.pad.after(pressed, now), ..self }).still(),
            ),
            _ => None,
        }
    }

    /// Takes a frame of the pad button into account. Returns what it did, and what to tell
    /// the controller at once: pausing dims the light, resuming restores it.
    pub fn press_pad(&mut self, pressed: bool, now: u64) -> (r: (PadAction, Option<RumbleLed>))
        ensures
            r.0 == old(self).pad.action(pressed, now),
            r.1 == old(self).told_by_pad(pressed, now),
            *final(self) == (Gun { pad: old(self).pad.after(pressed, now), ..*old(self) }),
    {
        let action = self.pad.step(pressed, now);
        let told = match action {
            PadAction::Paused => Some(recoil::apply_led(recoil::dim_led(self.settings.led))),
            PadAction::Resumed => Some(recoil::apply_led(self.settings.led)),
            _ => None,
        };
        (action, told)
    }

    /// Whether the trigger means a shot; `aimed` says that calibration lets it.
    pub open spec fn armed(self, aimed: bool) -> bool {
        aimed && !self.pad.input_disabled
    }

    /// The single kick of a frame: what to tell the controller, where there is one.
    pub fn kick(&mut self, aimed: bool, trigger: bool, now: u64) -> (told: Option<RumbleLed>)
        ensures
            told == if old(self).timer.kicks(old(self).armed(aimed), old(self).pad.mode, trigger) {
                Some(old(self).pulse())
            } else {
                None
            },
            *final(self) == (Gun {
                timer: old(self).timer.after_kick(
                    old(self).armed(aimed),
                    old(self).pad.mode,
                    trigger,
                    now,
                    old(self).settings.duration_ms,
                ),
                ..*old(self)
            }),
    {
        let armed = aimed && !self.pad.input_disabled;
        if self.timer.kick(armed, self.pad.mode, trigger, now, self.settings.duration_ms) {
            let led = recoil::current_led(self.pad.input_disabled, self.settings.led);
            Some(recoil::fire_pulse(self.settings.intensity, led))
        } else {
            None
        }
    }

    /// Lets a pulse run out. Returns whether one is still under way, and what to tell the
    /// controller when it has just ended.
    pub fn settle(&mut self, now: u64) -> (r: (bool, Option<RumbleLed>))
        ensures
            r.0 == old(self).timer.pulsing(now),
            r.1 == if old(self).timer.until is Some && !r.0 {
                Some(old(self).still())
            } else {
                None
            },
            *final(self) == (Gun { timer: old(self).timer.after_settle(now), ..*old(self) }),
    {
        let status = self.timer.settle(now);
        if status.ended {
            let led = recoil::current_led(self.pad.input_disabled, self.settings.led);
            (status.active, Some(recoil::stop_pulse(led)))
        } else {
            (status.active, None)
        }
    }

    /// Rapid fire: what to tell the controller, where a pulse is due.
    pub fn rapid(&mut self, aimed: bool, trigger: bool, active: bool, now: u64) -> (told: Option<
        RumbleLed,
    >)
        ensures
            told == if old(self).timer.rapid_fires(
                old(self).armed(aimed),
                old(self).pad.mode,
                trigger,
                active,
                now,
            ) {
                Some(old(self).pulse())
            } else {
                None
            },
            *final(self) == (Gun {
                timer: old(self).timer.after_rapid(
                    old(self).armed(aimed),
                    old(self).pad.mode,
                    trigger,
                    active,
                    now,
                    old(self).settings.duration_ms,
                    old(self).settings.interval_ms,
                ),
                ..*old(self)
            }),
    {
        let armed = aimed && !self.pad.input_disabled;
        if self.timer.rapid(
            armed,
            self.pad.mode,
            trigger,
            active,
            now,
            self.settings.duration_ms,
            self.settings.interval_ms,
        ) {
            let led = recoil::current_led(self.pad.input_disabled, self.settings.led);
            Some(recoil::fire_pulse(self.settings.intensity, led))
        } else {
            None
        }
    }

    /// What to tell the controller so that it goes on showing the light, when that is due.
    pub fn refresh(&self, active: bool, now: u64) -> (told: Option<RumbleLed>)
        ensures
            told == if self.timer.is_led_due(active, now) {
                Some(self.still())
            } else {
                None
            },
    {
        if self.timer.led_due(active, now) {
            let led = recoil::current_led(self.pad.input_disabled, self.settings.led);
            Some(recoil::stop_pulse(led))
        } else {
            None
        }
    }

    /// Notes that the controller has been told what to show.
    pub fn led_sent(&mut self, now: u64)
        ensures
            *final(self) == (Gun {
                timer: RecoilTimer { last_led: Some(now), ..old(self).timer },
                ..*old(self)
            }),
    {
        self.timer.led_sent(now);
    }
}

/// A paused gun does not fire: neither a kick nor rapid fire comes, and whatever it tells
/// the controller leaves the motors still and the light dimmed.
pub proof fn paused_gun_is_still(
    g: Gun,
    aimed: bool,
    mode: RecoilMode,
    trigger: bool,
    active: bool,
    now: u64,
)
    requires
        g.pad.input_disabled,
    ensures
        !g.timer.kicks(g.armed(aimed), mode, trigger),
        !g.timer.rapid_fires(g.armed(aimed), mode, trigger, active, now),
        g.still() == output(0, dimmed(g.settings.led)),
{
}

/// The steps of a frame, in order.
#[derive(Debug, Clone, Copy, PartialEq, Eq, Structural)]
pub enum GunPhase {
    /// The pad button is looked at.
    Pad,
    /// A pull of the trigger may kick.
    Kick,
    /// A pulse may run out.
    Settle,
    /// A pulse of rapid fire may be due.
    Rapid,
    /// The light may have to be set again.
    Refresh,
}

/// What a frame says of the gun.
#[derive(Debug, Clone, Copy, PartialEq, Eq, Structural)]
pub struct GunFrame {
    /// The pad button is held.
    pub pad: bool,
    /// Calibration lets the trigger mean a shot.
    pub aimed: bool,
    /// The trigger is clicked.
    pub trigger: bool,
}

/// What is to be done after a step of a frame.
#[derive(Debug, Clone, Copy, PartialEq, Eq, Structural)]
pub enum GunAction {
    Nothing,
    /// Tell the controller this.
    Tell(RumbleLed),
    /// Input is paused now: tell the controller this.
    Paused(RumbleLed),
    /// Input is resumed now: tell the controller this.
    Resumed(RumbleLed),
    /// The recoil mode has changed to this one: show and remember it.
    Preview(RecoilMode),
}

/// The gun, step by step through its frames. After each step its action is carried out, and
/// `sent` is called; sending takes time, so every call has a time of its own.
#[derive(Debug, Clone, Copy, PartialEq, Eq)]
pub struct GunLoop {
    pub gun: Gun,
    pub phase: GunPhase,
    /// A pulse was under way when the frame settled.
    pub active: bool,
    /// The action of the last step sets the light.
    pub sets_light: bool,
}

impl GunLoop {
    /// A gun that has not been touched, at the beginning of a frame.
    pub fn new(settings: GunSettings, mode: RecoilMode, now: u64) -> (l: GunLoop)
        ensures
            l.gun.settings == settings,
            l.gun.pad == (PadButton {
                since: None,
                actioned: false,
                last_mode_switch: None,
                input_disabled: false,
                mode,
            }),
            l.gun.timer == (RecoilTimer {
                until: None,
                next_rapid_fire: now as u128,
                trigger_held: false,
                last_led: None,
            }),
            l.phase == GunPhase::Pad,
            !l.active,
            !l.sets_light,
    {
        GunLoop {
            gun: Gun::new(settings, mode, now),
            phase: GunPhase::Pad,
            active: false,
            sets_light: false,
        }
    }

    /// What the present step of a frame leads to.
    pub open spec fn action(self, f: GunFrame, now: u64) -> GunAction {
        let g = self.gun;
        match self.phase {
            GunPhase::Pad => match g.pad.action(f.pad, now) {
                PadAction::Nothing => GunAction::Nothing,
                PadAction::Paused => GunAction::Paused(output(0, dimmed(g.settings.led))),
                PadAction::Resumed => GunAction::Resumed(output(0, g.settings.led)),
                PadAction::Cycled(mode) => GunAction::Preview(mode),
            },
            GunPhase::Kick => if g.timer.kicks(g.armed(f.aimed), g.pad.mode, f.trigger) {
                GunAction::Tell(g.pulse())
            } else {
                GunAction::Nothing
            },
            GunPhase::Settle => if g.timer.until is Some && !g.timer.pulsing(now) {
                GunAction::Tell(g.still())
            } else {
                GunAction::Nothing
            },
            GunPhase::Rapid => if g.timer.rapid_fires(
                g.armed(f.aimed),
                g.pad.mode,
                f.trigger,
                self.active,
                now,
            ) {
                GunAction::Tell(g.pulse())
            } else {
                GunAction::Nothing
            },
            GunPhase::Refresh => if g.timer.is_led_due(self.active, now) {
                GunAction::Tell(g.still())
            } else {
                GunAction::Nothing
            },
        }
    }

    /// The gun after the present step of a frame.
    pub open spec fn gun_after(self, f: GunFrame, now: u64) -> Gun {
        let g = self.gun;
        match self.phase {
            GunPhase::Pad => Gun { pad: g.pad.after(f.pad, now), ..g },
            GunPhase::Kick => Gun {
                timer: g.timer.after_kick(
                    g.armed(f.aimed),
                    g.pad.mode,
                    f.trigger,
                    now,
                    g.settings.duration_ms,
                ),
                ..g
            },
            GunPhase::Settle => Gun { timer: g.timer.after_settle(now), ..g },
            GunPhase::Rapid => Gun {
                timer: g.timer.after_rapid(
                    g.armed(f.aimed),
                    g.pad.mode,
                    f.trigger,
                    self.active,
                    now,
                    g.settings.duration_ms,
                    g.settings.interval_ms,
                ),
                ..g
            },
            GunPhase::Refresh => g,
        }
    }

    /// All of it after the present step of a frame. Whatever is told sets the light, and so
    /// does showing a mode; only starting a pulse does not count.
    pub open spec fn after_step(self, f: GunFrame, now: u64) -> GunLoop {
        GunLoop {
            gun: self.gun_after(f, now),
            phase: match self.phase {
                GunPhase::Pad => GunPhase::Kick,
                GunPhase::Kick => GunPhase::Settle,
                GunPhase::Settle => GunPhase::Rapid,
                GunPhase::Rapid => GunPhase::Refresh,
                GunPhase::Refresh => GunPhase::Pad,
            },
            active: if self.phase == GunPhase::Settle {
                self.gun.timer.pulsing(now)
            } else {
                self.active
            },
            sets_light: self.action(f, now) != GunAction::Nothing && self.phase != GunPhase::Kick
                && self.phase != GunPhase::Rapid,
        }
    }

    /// Takes one step of a frame.
    pub fn step(&mut self, f: &GunFrame, now: u64) -> (action: GunAction)
        ensures
            action == old(self).action(*f, now),
            *final(self) == old(self).after_step(*f, now),
    {
        let mut action = GunAction::Nothing;
        self.sets_light = false;
        match self.phase {
            GunPhase::Pad => {
                let led = self.gun.settings.led;
                let (pad, _) = self.gun.press_pad(f.pad, now);
                action = match pad {
                    PadAction::Nothing => GunAction::Nothing,
                    PadAction::Paused => GunAction::Paused(
                        recoil::apply_led(recoil::dim_led(led)),
                    ),
                    PadAction::Resumed => GunAction::Resumed(recoil::apply_led(led)),
                    PadAction::Cycled(mode) => GunAction::Preview(mode),
                };
                self.sets_light = match pad {
                    PadAction::Nothing => false,
                    _ => true,
                };
                self.phase = GunPhase::Kick;
            },
            GunPhase::Kick => {
                if let Some(rl) = self.gun.kick(f.aimed, f.trigger, now) {
                    action = GunAction::Tell(rl);
                }
                self.phase = GunPhase::Settle;
            },
            GunPhase::Settle => {
                let (active, ended) = self.gun.settle(now);
                self.active = active;
                if let Some(rl) = ended {
                    action = GunAction::Tell(rl);
                    self.sets_light = true;
                }
                self.phase = GunPhase::Rapid;
            },
            GunPhase::Rapid => {
                if let Some(rl) = self.gun.rapid(f.aimed, f.trigger, self.active, now) {
                    action = GunAction::Tell(rl);
                }
                self.phase = GunPhase::Refresh;
            },
            GunPhase::Refresh => {
                if let Some(rl) = self.gun.refresh(self.active, now) {
                    action = GunAction::Tell(rl);
                    self.sets_light = true;
                }
                self.phase = GunPhase::Pad;
            },
        }
        action
    }

    pub open spec fn after_sent(self, now: u64) -> GunLoop {
        if self.sets_light {
            GunLoop {
                gun: Gun {
                    timer: RecoilTimer { last_led: Some(now), ..self.gun.timer },
                    ..self.gun
                },
                sets_light: false,
                ..self
            }
        } else {
            self
        }
    }

    /// Notes that the action of the last step has been carried out.
    pub fn sent(&mut self, now: u64)
        ensures
            *final(self) == old(self).after_sent(now),
    {
        if self.sets_light {
            self.gun.led_sent(now);
            self.sets_light = false;
        }
    }

    /// Whether the next step is the first of a frame.
    pub open spec fn at_frame_start(self) -> bool {
        self.phase == GunPhase::Pad
    }

    /// Whether the next step is the first of a frame.
    pub fn frame_over(&self) -> (r: bool)
        ensures
            r == self.at_frame_start(),
    {
        self.phase == GunPhase::Pad
    }

    /// After some steps of a frame, each with the time at which it is taken and that at
    /// which its action has been carried out.
    pub open spec fn after_steps(self, f: GunFrame, times: Seq<(u64, u64)>) -> GunLoop
        decreases times.len(),
    {
        if times.len() == 0 {
            self
        } else {
            self.after_steps(f, times.drop_last()).after_step(f, times.last().0).after_sent(
                times.last().1,
            )
        }
    }
}

proof fn lemma_one_more_step(l: GunLoop, f: GunFrame, times: Seq<(u64, u64)>, k: int)
    requires
        0 <= k < times.len(),
    ensures
        l.after_steps(f, times.take(k + 1)) == l.after_steps(f, times.take(k)).after_step(
            f,
            times[k].0,
        ).after_sent(times[k].1),
{
    assert(times.take(k + 1).drop_last() =~= times.take(k));
}

/// A frame takes five steps, in the order kick, settle, rapid fire and refresh after the pad
/// button: they lead back to the beginning of a frame, do to the pad button what a frame of
/// it does, and to the timer what a frame of the recoil does, for a trigger that is armed as
/// the pad button leaves it.
pub proof fn frame_takes_five_steps(l: GunLoop, f: GunFrame, times: Seq<(u64, u64)>)
    requires
        l.phase == GunPhase::Pad,
        times.len() == 5,
    ensures
        ({
            let end = l.after_steps(f, times);
            let pad = l.gun.pad.after(f.pad, times[0].0);
            &&& end.phase == GunPhase::Pad
            &&& end.gun.settings == l.gun.settings
            &&& end.gun.pad == pad
            &&& end.gun.timer == l.gun.timer.after_frame(
                RecoilFrame {
                    armed: f.aimed && !pad.input_disabled,
                    mode: pad.mode,
                    trigger: f.trigger,
                    kick_at: times[1].0,
                    settle_at: times[2].0,
                    rapid_at: times[3].0,
                    duration_ms: l.gun.settings.duration_ms,
                    interval_ms: l.gun.settings.interval_ms,
                    last_led: end.gun.timer.last_led,
                },
            )
        }),
{
    assert(l.after_steps(f, times.take(0)) == l);
    lemma_one_more_step(l, f, times, 0);
    lemma_one_more_step(l, f, times, 1);
    lemma_one_more_step(l, f, times, 2);
    lemma_one_more_step(l, f, times, 3);
    lemma_one_more_step(l, f, times, 4);
    assert(times.take(5) =~= times);
}

/// Pulses are felt: the kick and the rapid-fire step of a frame tell the controller to drive
/// the strong motor with the configured intensity, and the present light, exactly when they
/// start a pulse on the timer. A pulse is started by the first frame of a pull in the one
/// mode, and in the other whenever the trigger is held, none is under way and the time has
/// come; never while input is paused or the trigger means no shot.
pub proof fn pulses_are_told(l: GunLoop, f: GunFrame, now: u64)
    requires
        l.phase == GunPhase::Kick || l.phase == GunPhase::Rapid,
    ensures
        ({
            let g = l.gun;
            let after = l.after_step(f, now).gun;
            let starts = f.aimed && !g.pad.input_disabled && f.trigger && if l.phase
                == GunPhase::Kick {
                g.pad.mode == RecoilMode::SingleKick && !g.timer.trigger_held
            } else {
                g.pad.mode == RecoilMode::RapidFire && !l.active && now >= g.timer.next_rapid_fire
            };
            &&& starts ==> (l.action(f, now) matches GunAction::Tell(rl) && {
                &&& rl.motor_strong == g.settings.intensity
                &&& rl.motor_weak == 0
                &&& (rl.red, rl.green, rl.blue) == g.settings.led
            })
            &&& !starts ==> l.action(f, now) == GunAction::Nothing
            &&& starts ==> (after.timer.until matches Some(end) && end == now
                + g.settings.duration_ms * 1_000_000)
            &&& !starts ==> after.timer.until == g.timer.until
            &&& after.pad == g.pad
            &&& after.settings == g.settings
            &&& l.after_step(f, now).active == l.active
        }),
{
    recoil::pull_kicks(
        l.gun.timer,
        l.gun.armed(f.aimed),
        l.gun.pad.mode,
        f.trigger,
        now,
        l.gun.settings.duration_ms,
        now,
    );
    recoil::rapid_fire_goes_on(
        l.gun.timer,
        l.gun.armed(f.aimed),
        f.trigger,
        l.active,
        now,
        l.gun.settings.duration_ms,
        l.gun.settings.interval_ms,
        now,
    );
    recoil::lemma_later_fits(now, l.gun.settings.duration_ms);
}

/// Motors are stopped when a pulse runs out, and the light is set again when that is due: the
/// other two steps tell the controller so, with the motors still, exactly then. The light is
/// the configured one, or that at a twentieth of its brightness while input is paused.
pub proof fn motors_are_stopped(l: GunLoop, f: GunFrame, now: u64)
    requires
        l.phase == GunPhase::Settle || l.phase == GunPhase::Refresh,
    ensures
        ({
            let g = l.gun;
            let end = l.after_step(f, now);
            let due = if l.phase == GunPhase::Settle {
                g.timer.until matches Some(t) && now >= t
            } else {
                !l.active && (g.timer.last_led matches Some(t) ==> now > t + 500_000_000)
            };
            &&& due ==> (l.action(f, now) matches GunAction::Tell(rl) && {
                &&& rl.motor_strong == 0
                &&& rl.motor_weak == 0
                &&& !g.pad.input_disabled ==> (rl.red, rl.green, rl.blue) == g.settings.led
                &&& g.pad.input_disabled ==> {
                    &&& 20 * rl.red <= g.settings.led.0 < 20 * rl.red + 20
                    &&& 20 * rl.green <= g.settings.led.1 < 20 * rl.green + 20
                    &&& 20 * rl.blue <= g.settings.led.2 < 20 * rl.blue + 20
                }
            })
            &&& !due ==> l.action(f, now) == GunAction::Nothing
            &&& l.phase == GunPhase::Settle ==> {
                &&& end.active <==> (g.timer.until matches Some(t) && now < t)
                &&& due ==> end.gun.timer.until is None
                &&& !due ==> end.gun == g
            }
            &&& l.phase == GunPhase::Refresh ==> end.gun == g && end.active == l.active
        }),
{
}

/// What the pad button does is told: the step of the pad button says that input is paused or
/// resumed exactly when it comes to be, with the motors still and the light dimmed to a
/// twentieth or restored, and shows a mode exactly when it is new.
pub proof fn pad_button_is_told(l: GunLoop, f: GunFrame, now: u64)
    requires
        l.phase == GunPhase::Pad,
    ensures
        ({
            let g = l.gun;
            let after = l.after_step(f, now).gun;
            let action = l.action(f, now);
            &&& action is Paused <==> !g.pad.input_disabled && after.pad.input_disabled
            &&& action is Resumed <==> g.pad.input_disabled && !after.pad.input_disabled
            &&& action is Preview <==> after.pad.mode != g.pad.mode
            &&& !(action is Tell)
            &&& action matches GunAction::Paused(rl) ==> {
                &&& rl.motor_strong == 0 && rl.motor_weak == 0
                &&& 20 * rl.red <= g.settings.led.0 < 20 * rl.red + 20
                &&& 20 * rl.green <= g.settings.led.1 < 20 * rl.green + 20
                &&& 20 * rl.blue <= g.settings.led.2 < 20 * rl.blue + 20
            }
            &&& action matches GunAction::Resumed(rl) ==> {
                &&& rl.motor_strong == 0 && rl.motor_weak == 0
                &&& (rl.red, rl.green, rl.blue) == g.settings.led
            }
            &&& action matches GunAction::Preview(mode) ==> mode == after.pad.mode
            &&& after.timer == g.timer
            &&& after.settings == g.settings
        }),
{
    crate::pad_button::actions_show(l.gun.pad, f.pad, now);
}

/// The light counts as set by everything that is told or shown but the start of a pulse: after
/// such an action has been carried out at `done`, and only then, that is when it was last set.
pub proof fn light_is_accounted_for(l: GunLoop, f: GunFrame, now: u64, done: u64)
    ensures
        ({
            let end = l.after_step(f, now).after_sent(done);
            let starts_pulse = l.phase == GunPhase::Kick || l.phase == GunPhase::Rapid;
            &&& end.gun.timer.last_led == if l.action(f, now) != GunAction::Nothing
                && !starts_pulse {
                Some(done)
            } else {
                l.gun.timer.last_led
            }
            &&& end.gun.pad == l.after_step(f, now).gun.pad
            &&& end.gun.timer.until == l.after_step(f, now).gun.timer.until
            &&& end.phase == l.after_step(f, now).phase
            &&& !end.sets_light
        }),
{
}

/// How often a preview drives the motor.
pub open spec fn preview_pulses(steps: Seq<PreviewStep>, intensity: u8) -> int
    decreases steps.len(),
{
    if steps.len() == 0 {
        0
    } else {
        preview_pulses(steps.drop_last(), intensity) + match steps.last() {
            PreviewStep::Send(rl) => if rl.motor_strong == intensity {
                1int
            } else {
                0
            },
            PreviewStep::Wait(_) => 0,
        }
    }
}

/// A preview shows the mode: one pulse of the configured strength and duration for the single
/// kick, two for rapid fire, in the configured light, and the motors are still at the end.
pub proof fn previews_show_their_mode(g: GunSettings, gap_ms: u64)
    requires
        g.intensity != 0,
    ensures
        preview_pulses(kick_preview(g), g.intensity) == 1,
        preview_ms(kick_preview(g)) == g.duration_ms,
        preview_pulses(rapid_preview(g, gap_ms), g.intensity) == 2,
        preview_ms(rapid_preview(g, gap_ms)) == 2 * (g.duration_ms + gap_ms),
        forall|i: int|
            0 <= i < kick_preview(g).len() ==> (#[trigger] kick_preview(g)[i] matches
                PreviewStep::Send(rl) ==> (rl.red, rl.green, rl.blue) == g.led && rl.motor_weak
                == 0),
        forall|i: int|
            0 <= i < rapid_preview(g, gap_ms).len() ==> (#[trigger] rapid_preview(
                g,
                gap_ms,
            )[i] matches PreviewStep::Send(rl) ==> (rl.red, rl.green, rl.blue) == g.led
                && rl.motor_weak == 0),
        kick_preview(g).last() matches PreviewStep::Send(rl) && rl.motor_strong == 0,
        rapid_preview(g, gap_ms)[6] matches PreviewStep::Send(rl) && rl.motor_strong == 0,
{
    let kick = kick_preview(g);
    let rapid = rapid_preview(g, gap_ms);
    assert(kick.len() == 3 && rapid.len() == 8);
    reveal_with_fuel(preview_ms, 9);
    reveal_with_fuel(preview_pulses, 9);
    assert(rapid.drop_last().last() == rapid[6]);
    assert(rapid.drop_last().drop_last().last() == rapid[5]);
    assert(kick.drop_last().last() == kick[1]);
    assert(kick.drop_last().drop_last().last() == kick[0]);
}

/// A chosen mode is shown as it will feel: one pulse for the single kick, two for rapid fire,
/// none while recoil is off, and in both ways of showing it the same but for the interval that
/// is too short for a pulse, where the second pulse follows the first at once.
pub proof fn chosen_modes_are_shown(g: GunSettings, mode: RecoilMode)
    requires
        g.intensity != 0,
    ensures
        preview_pulses(raw_steps(g, mode), g.intensity) == match mode {
            RecoilMode::SingleKick => 1int,
            RecoilMode::RapidFire => 2,
            RecoilMode::Off => 0,
        },
        preview_ms(raw_steps(g, mode)) == match mode {
            RecoilMode::SingleKick => g.duration_ms as int,
            RecoilMode::RapidFire => if g.duration_ms <= g.interval_ms {
                2 * g.interval_ms
            } else {
                2 * g.duration_ms
            },
            RecoilMode::Off => 0,
        },
        g.duration_ms <= g.interval_ms && mode != RecoilMode::Off ==> gamepad_steps(g, mode)
            == raw_steps(g, mode),
        gamepad_steps(g, RecoilMode::Off).len() == 0,
        mode == RecoilMode::Off ==> raw_steps(g, mode).len() == 1 && (raw_steps(
            g,
            mode,
        )[0] matches PreviewStep::Send(rl) && rl.motor_strong == 0 && (rl.red, rl.green, rl.blue)
            == g.led),
{
    previews_show_their_mode(g, (g.interval_ms - g.duration_ms) as u64);
    previews_show_their_mode(g, 0);
    reveal_with_fuel(preview_ms, 2);
    reveal_with_fuel(preview_pulses, 2);
}

/// The pad button has the controller told exactly when it pauses or resumes input: the motors
/// are still, and the light is at a twentieth while input is paused and as configured
/// otherwise.
pub proof fn pausing_shows_at_once(g: Gun, pressed: bool, now: u64)
    ensures
        ({
            let after = g.pad.after(pressed, now);
            &&& g.told_by_pad(pressed, now) is Some <==> after.input_disabled
                != g.pad.input_disabled
            &&& g.told_by_pad(pressed, now) matches Some(rl) ==> {
                &&& rl.motor_strong == 0 && rl.motor_weak == 0
                &&& !after.input_disabled ==> (rl.red, rl.green, rl.blue) == g.settings.led
                &&& after.input_disabled ==> {
                    &&& 20 * rl.red <= g.settings.led.0 < 20 * rl.red + 20
                    &&& 20 * rl.green <= g.settings.led.1 < 20 * rl.green + 20
                    &&& 20 * rl.blue <= g.settings.led.2 < 20 * rl.blue + 20
                }
            }
        }),
{
    crate::pad_button::actions_show(g.pad, pressed, now);
}

/// A frame is over after its fifth step and not before.
pub proof fn frame_is_over_after_five_steps(l: GunLoop, f: GunFrame, times: Seq<(u64, u64)>)
    requires
        l.at_frame_start(),
        times.len() <= 5,
    ensures
        l.after_steps(f, times).at_frame_start() <==> times.len() == 0 || times.len() == 5,
{
    assert(l.after_steps(f, times.take(0)) == l);
    if times.len() > 0 {
        lemma_one_more_step(l, f, times, 0);
    }
    if times.len() > 1 {
        lemma_one_more_step(l, f, times, 1);
    }
    if times.len() > 2 {
        lemma_one_more_step(l, f, times, 2);
    }
    if times.len() > 3 {
        lemma_one_more_step(l, f, times, 3);
    }
    if times.len() > 4 {
        lemma_one_more_step(l, f, times, 4);
    }
    assert(times.take(times.len() as int) =~= times);
}

} // verus!
