//! The trigger's recoil: what the motors and the light do, and when.

use crate::clock;
use crate::config::SavedRecoilMode;
use crate::rumble::RumbleLed;
use vstd::prelude::*;

verus! {

/// What pulling the trigger does to the motors.
#[derive(Debug, Clone, Copy, PartialEq, Eq, Structural)]
pub enum RecoilMode {
    /// One pulse for each pull.
    SingleKick,
    /// Pulses at an interval for as long as the trigger is held.
    RapidFire,
    Off,
}

impl RecoilMode {
    pub open spec fn next_mode(self) -> RecoilMode {
        match self {
            RecoilMode::SingleKick => RecoilMode::RapidFire,
            RecoilMode::RapidFire => RecoilMode::Off,
            RecoilMode::Off => RecoilMode::SingleKick,
        }
    }

    pub open spec fn saved(self) -> SavedRecoilMode {
        match self {
            RecoilMode::SingleKick => SavedRecoilMode::SingleKick,
            RecoilMode::RapidFire => SavedRecoilMode::RapidFire,
            RecoilMode::Off => SavedRecoilMode::Off,
        }
    }

    /// The mode that follows in the cycle.
    pub fn next(self) -> (mode: RecoilMode)
        ensures
            mode == self.next_mode(),
    {
        match self {
            RecoilMode::SingleKick => RecoilMode::RapidFire,
            RecoilMode::RapidFire => RecoilMode::Off,
            RecoilMode::Off => RecoilMode::SingleKick,
        }
    }

    /// The mode's name for people.
    pub open spec fn label_text(self) -> Seq<char> {
        match self {
            RecoilMode::SingleKick => "Single Kick"@,
            RecoilMode::RapidFire => "Rapid Fire"@,
            RecoilMode::Off => "Vibration Off"@,
        }
    }

    /// The mode's name for people.
    pub fn label(self) -> (name: &'static str)
        ensures
            name@ == self.label_text(),
    {
        match self {
            RecoilMode::SingleKick => "Single Kick",
            RecoilMode::RapidFire => "Rapid Fire",
            RecoilMode::Off => "Vibration Off",
        }
    }

    /// The mode as the settings keep it.
    pub fn to_saved(self) -> (mode: SavedRecoilMode)
        ensures
            mode == self.saved(),
    {
        match self {
            RecoilMode::SingleKick => SavedRecoilMode::SingleKick,
            RecoilMode::RapidFire => SavedRecoilMode::RapidFire,
            RecoilMode::Off => SavedRecoilMode::Off,
        }
    }

    /// The mode that the settings keep.
    pub fn from_saved(mode: SavedRecoilMode) -> (r: RecoilMode)
        ensures
            r.saved() == mode,
    {
        match mode {
            SavedRecoilMode::SingleKick => RecoilMode::SingleKick,
            SavedRecoilMode::RapidFire => RecoilMode::RapidFire,
            SavedRecoilMode::Off => RecoilMode::Off,
        }
    }
}

/// The cycle has three modes: three steps lead back, and fewer do not.
pub proof fn modes_cycle(mode: RecoilMode)
    ensures
        mode.next_mode().next_mode().next_mode() == mode,
        mode.next_mode() != mode,
        mode.next_mode().next_mode() != mode,
{
}

/// The settings tell the modes apart.
pub proof fn saved_modes_differ(a: RecoilMode, b: RecoilMode)
    requires
        a.saved() == b.saved(),
    ensures
        a == b,
{
}

/// A colour of the light: red, green, blue.
pub type Colour = (u8, u8, u8);

/// The colour that the camera tracker looks for.
pub const TRACKED_COLOUR: (u8, u8, u8) = (80, 0, 150);

/// The colour of the light: the one that the tracker looks for while it is in use, so that
/// the two programs do not quarrel over it.
pub open spec fn led_in_use(pseye_enabled: bool, configured: Colour) -> Colour {
    if pseye_enabled {
        TRACKED_COLOUR
    } else {
        configured
    }
}

/// The colour of the light.
pub fn active_led(pseye_enabled: bool, configured: Colour) -> (led: Colour)
    ensures
        led == led_in_use(pseye_enabled, configured),
{
    if pseye_enabled {
        TRACKED_COLOUR
    } else {
        configured
    }
}

/// The report that starts a pulse.
pub fn fire_pulse(intensity: u8, led: Colour) -> (rl: RumbleLed)
    ensures
        rl == (RumbleLed {
            motor_weak: 0,
            motor_strong: intensity,
            red: led.0,
            green: led.1,
            blue: led.2,
        }),
{
    RumbleLed { motor_weak: 0, motor_strong: intensity, red: led.0, green: led.1, blue: led.2 }
}

/// The report that ends a pulse.
pub fn stop_pulse(led: Colour) -> (rl: RumbleLed)
    ensures
        rl == (RumbleLed {
            motor_weak: 0,
            motor_strong: 0,
            red: led.0,
            green: led.1,
            blue: led.2,
        }),
{
    RumbleLed { motor_weak: 0, motor_strong: 0, red: led.0, green: led.1, blue: led.2 }
}

/// The report that sets the light, with the motors still.
pub fn apply_led(led: Colour) -> (rl: RumbleLed)
    ensures
        rl == (RumbleLed {
            motor_weak: 0,
            motor_strong: 0,
            red: led.0,
            green: led.1,
            blue: led.2,
        }),
{
    stop_pulse(led)
}

/// The light at a twentieth of its brightness, which shows that input is paused and saves
/// the battery.
pub fn dim_led(led: Colour) -> (dimmed: Colour)
    ensures
        dimmed.0 == led.0 / 20,
        dimmed.1 == led.1 / 20,
        dimmed.2 == led.2 / 20,
{
    (led.0 / 20, led.1 / 20, led.2 / 20)
}

/// The colour of the light in the present frame.
pub fn current_led(input_disabled: bool, led: Colour) -> (shown: Colour)
    ensures
        shown == if input_disabled {
            ((led.0 / 20) as u8, (led.1 / 20) as u8, (led.2 / 20) as u8)
        } else {
            led
        },
{
    if input_disabled {
        dim_led(led)
    } else {
        led
    }
}

/// Milliseconds after which the light is set again: the firmware falls back to an
/// indicator of its own otherwise.
pub const LED_REFRESH_MS: u64 = 500;

/// When the motors and the light are to change.
///
/// In every frame the steps are `kick`, `settle`, `rapid` and `led_due`, in this order and
/// each at the time at which it is taken, since sending a report takes time.
#[derive(Debug, Clone, Copy, PartialEq, Eq, Structural)]
pub struct RecoilTimer {
    /// The end of the pulse under way.
    pub until: Option<u128>,
    /// When the next pulse of rapid fire may come.
    pub next_rapid_fire: u128,
    /// Whether the trigger was held in the last frame.
    pub trigger_held: bool,
    /// When the light was last set.
    pub last_led: Option<u64>,
}

/// How the pulse under way stands.
#[derive(Debug, Clone, Copy, PartialEq, Eq, Structural)]
pub struct PulseStatus {
    /// A pulse is under way.
    pub active: bool,
    /// A pulse has just run out, and the motors are to be stopped.
    pub ended: bool,
}

impl RecoilTimer {
    /// No pulse, and a light that has yet to be set.
    pub fn new(now: u64) -> (t: RecoilTimer)
        ensures
            t == (RecoilTimer {
                until: None,
                next_rapid_fire: now as u128,
                trigger_held: false,
                last_led: None,
            }),
    {
        RecoilTimer { until: None, next_rapid_fire: now as u128, trigger_held: false, last_led: None
        }
    }

    /// Whether the single kick fires: on the first frame of a pull.
    pub open spec fn kicks(self, armed: bool, mode: RecoilMode, trigger: bool) -> bool {
        armed && mode == RecoilMode::SingleKick && trigger && !self.trigger_held
    }

    pub open spec fn after_kick(
        self,
        armed: bool,
        mode: RecoilMode,
        trigger: bool,
        now: u64,
        duration_ms: u64,
    ) -> RecoilTimer {
        RecoilTimer {
            until: if self.kicks(armed, mode, trigger) {
                Some(clock::later(now, duration_ms) as u128)
            } else {
                self.until
            },
            trigger_held: trigger,
            ..self
        }
    }

    /// The single kick. `armed` says that the trigger means a shot. Returns whether a
    /// pulse is to be started.
    pub fn kick(
        &mut self,
        armed: bool,
        mode: RecoilMode,
        trigger: bool,
        now: u64,
        duration_ms: u64,
    ) -> (fire: bool)
        ensures
            fire == old(self).kicks(armed, mode, trigger),
            *final(self) == old(self).after_kick(armed, mode, trigger, now, duration_ms),
    {
        let fire = armed && mode == RecoilMode::SingleKick && trigger && !self.trigger_held;
        if fire {
            self.until = Some(clock::deadline(now, duration_ms));
        }
        self.trigger_held = trigger;
        fire
    }

    /// Whether a pulse is under way at `now`.
    pub open spec fn pulsing(self, now: u64) -> bool {
        self.until matches Some(t) && now < t
    }

    pub open spec fn after_settle(self, now: u64) -> RecoilTimer {
        if self.pulsing(now) {
            self
        } else {
            RecoilTimer { until: None, ..self }
        }
    }

    /// Lets a pulse run out.
    pub fn settle(&mut self, now: u64) -> (status: PulseStatus)
        ensures
            status.active == old(self).pulsing(now),
            status.ended == (old(self).until is Some && !old(self).pulsing(now)),
            *final(self) == old(self).after_settle(now),
    {
        match self.until {
            Some(t) => if (now as u128) < t {
                PulseStatus { active: true, ended: false }
            } else {
                self.until = None;
                PulseStatus { active: false, ended: true }
            },
            None => PulseStatus { active: false, ended: false },
        }
    }

    /// Whether a pulse of rapid fire comes: the trigger is held, no pulse was under way
    /// when the frame settled, and the interval since the last one has passed.
    pub open spec fn rapid_fires(
        self,
        armed: bool,
        mode: RecoilMode,
        trigger: bool,
        active: bool,
        now: u64,
    ) -> bool {
        armed && mode == RecoilMode::RapidFire && trigger && !active && now
            >= self.next_rapid_fire
    }

    pub open spec fn after_rapid(
        self,
        armed: bool,
        mode: RecoilMode,
        trigger: bool,
        active: bool,
        now: u64,
        duration_ms: u64,
        interval_ms: u64,
    ) -> RecoilTimer {
        if self.rapid_fires(armed, mode, trigger, active, now) {
            RecoilTimer {
                until: Some(clock::later(now, duration_ms) as u128),
                next_rapid_fire: clock::later(now, interval_ms) as u128,
                ..self
            }
        } else if !trigger {
            RecoilTimer { next_rapid_fire: now as u128, ..self }
        } else {
            self
        }
    }

    /// Rapid fire. Returns whether a pulse is to be started. Letting the trigger go makes
    /// the next pull fire at once.
    pub fn rapid(
        &mut self,
        armed: bool,
        mode: RecoilMode,
        trigger: bool,
        active: bool,
        now: u64,
        duration_ms: u64,
        interval_ms: u64,
    ) -> (fire: bool)
        ensures
            fire == old(self).rapid_fires(armed, mode, trigger, active, now),
            *final(self) == old(self).after_rapid(
                armed,
                mode,
                trigger,
                active,
                now,
                duration_ms,
                interval_ms,
            ),
    {
        let fire = armed && mode == RecoilMode::RapidFire && trigger && !active && now as u128
            >= self.next_rapid_fire;
        if fire {
            self.until = Some(clock::deadline(now, duration_ms));
            self.next_rapid_fire = clock::deadline(now, interval_ms);
        }
        if !trigger {
            self.next_rapid_fire = now as u128;
        }
        fire
    }

    /// Whether the light is to be set again: it was not set for a while, and no pulse was
    /// under way when the frame settled.
    pub open spec fn is_led_due(self, active: bool, now: u64) -> bool {
        !active && (self.last_led matches Some(t) ==> clock::between(t, now) > LED_REFRESH_MS
            * clock::NANOS_PER_MS)
    }

    /// Whether the light is to be set again.
    pub fn led_due(&self, active: bool, now: u64) -> (due: bool)
        ensures
            due == self.is_led_due(active, now),
    {
        !active && match self.last_led {
            Some(t) => clock::elapsed(t, now) > LED_REFRESH_MS * clock::NANOS_PER_MS,
            None => true,
        }
    }

    /// Notes that the light has been set.
    pub fn led_sent(&mut self, now: u64)
        ensures
            *final(self) == (RecoilTimer { last_led: Some(now), ..*old(self) }),
    {
        self.last_led = Some(now);
    }
}

/// One frame, with the times at which its steps are taken.
pub struct RecoilFrame {
    pub armed: bool,
    pub mode: RecoilMode,
    pub trigger: bool,
    pub kick_at: u64,
    pub settle_at: u64,
    pub rapid_at: u64,
    pub duration_ms: u64,
    pub interval_ms: u64,
    /// When the light was last set, at the end of the frame.
    pub last_led: Option<u64>,
}

impl RecoilTimer {
    /// The timer after the kick and the settling of a frame.
    pub open spec fn settled(self, f: RecoilFrame) -> RecoilTimer {
        self.after_kick(f.armed, f.mode, f.trigger, f.kick_at, f.duration_ms).after_settle(
            f.settle_at,
        )
    }

    /// Whether a pulse is under way when the frame settles.
    pub open spec fn active(self, f: RecoilFrame) -> bool {
        self.after_kick(f.armed, f.mode, f.trigger, f.kick_at, f.duration_ms).pulsing(f.settle_at)
    }

    /// Whether the frame starts a pulse of rapid fire.
    pub open spec fn rapid_in(self, f: RecoilFrame) -> bool {
        self.settled(f).rapid_fires(f.armed, f.mode, f.trigger, self.active(f), f.rapid_at)
    }

    /// The timer after a frame.
    pub open spec fn after_frame(self, f: RecoilFrame) -> RecoilTimer {
        RecoilTimer {
            last_led: f.last_led,
            ..self.settled(f).after_rapid(
                f.armed,
                f.mode,
                f.trigger,
                self.active(f),
                f.rapid_at,
                f.duration_ms,
                f.interval_ms,
            )
        }
    }

    /// The timer after frames.
    pub open spec fn after_frames(self, frames: Seq<RecoilFrame>) -> RecoilTimer
        decreases frames.len(),
    {
        if frames.len() == 0 {
            self
        } else {
            self.after_frames(frames.drop_last()).after_frame(frames.last())
        }
    }
}

proof fn lemma_one_more_frame(t: RecoilTimer, frames: Seq<RecoilFrame>, k: int)
    requires
        0 <= k < frames.len(),
    ensures
        t.after_frames(frames.take(k + 1)) == t.after_frames(frames.take(k)).after_frame(frames[k]),
{
    assert(frames.take(k + 1).drop_last() =~= frames.take(k));
}

/// A pull of the trigger gives one kick at most: a frame whose predecessor had the trigger
/// held does not kick.
pub proof fn one_kick_per_pull(t: RecoilTimer, frames: Seq<RecoilFrame>, k: int)
    requires
        0 < k < frames.len(),
        frames[k - 1].trigger,
    ensures
        !t.after_frames(frames.take(k)).kicks(frames[k].armed, frames[k].mode, frames[k].trigger),
{
    lemma_one_more_frame(t, frames, k - 1);
}

pub proof fn lemma_later_fits(now: u64, ms: u64)
    ensures
        now <= clock::later(now, ms) <= u128::MAX,
{
    assert(0 <= ms * clock::NANOS_PER_MS <= u64::MAX * clock::NANOS_PER_MS) by (nonlinear_arith)
        requires
            ms <= u64::MAX,
    ;
}

proof fn lemma_rapid_waits(t: RecoilTimer, frames: Seq<RecoilFrame>, i: int, k: int)
    requires
        0 <= i < k <= frames.len(),
        forall|j: int| i <= j < k ==> (#[trigger] frames[j]).trigger,
        t.after_frames(frames.take(i)).rapid_in(frames[i]),
    ensures
        t.after_frames(frames.take(k)).next_rapid_fire >= clock::later(
            frames[i].rapid_at,
            frames[i].interval_ms,
        ),
    decreases k,
{
    let last = frames[k - 1];
    lemma_one_more_frame(t, frames, k - 1);
    assert(last.trigger);
    lemma_later_fits(last.rapid_at, last.interval_ms);
    if k - 1 > i {
        lemma_rapid_waits(t, frames, i, k - 1);
    }
}

/// Rapid fire keeps its interval: while the trigger stays held, a pulse comes no earlier
/// than the interval after any pulse before it.
pub proof fn rapid_fire_keeps_its_interval(
    t: RecoilTimer,
    frames: Seq<RecoilFrame>,
    i: int,
    k: int,
)
    requires
        0 <= i < k < frames.len(),
        forall|j: int| i <= j < k ==> (#[trigger] frames[j]).trigger,
        t.after_frames(frames.take(i)).rapid_in(frames[i]),
        t.after_frames(frames.take(k)).rapid_in(frames[k]),
    ensures
        frames[k].rapid_at >= clock::later(frames[i].rapid_at, frames[i].interval_ms),
{
    lemma_rapid_waits(t, frames, i, k);
}

/// A trigger that does not mean a shot (input is paused, or the camera is being
/// calibrated) starts no pulse, in any mode; nor does any trigger while recoil is off.
pub proof fn no_pulse_unless_armed(
    t: RecoilTimer,
    armed: bool,
    mode: RecoilMode,
    trigger: bool,
    active: bool,
    now: u64,
)
    requires
        !armed || mode == RecoilMode::Off || !trigger,
    ensures
        !t.kicks(armed, mode, trigger),
        !t.rapid_fires(armed, mode, trigger, active, now),
{
}

/// A pulse is stopped once: the first frame after its end reports it, and the next finds
/// none.
pub proof fn pulse_is_stopped_once(t: RecoilTimer, end: u128, now: u64, again: u64)
    requires
        t.until == Some(end),
        now >= end,
    ensures
        !t.pulsing(now),
        t.after_settle(now).until is None,
        t.after_settle(now).after_settle(again) == t.after_settle(now),
{
}

/// A pull kicks: in the mode of the single kick, the first frame of a pull that means a shot
/// starts a pulse, whatever else is under way, and nothing else does. The pulse lasts for its
/// duration from then on, and no longer.
pub proof fn pull_kicks(
    t: RecoilTimer,
    armed: bool,
    mode: RecoilMode,
    trigger: bool,
    now: u64,
    duration_ms: u64,
    at: u64,
)
    ensures
        ({
            let after = t.after_kick(armed, mode, trigger, now, duration_ms);
            &&& t.kicks(armed, mode, trigger) <==> {
                &&& mode == RecoilMode::SingleKick
                &&& armed
                &&& trigger
                &&& !t.trigger_held
            }
            &&& t.kicks(armed, mode, trigger) ==> (after.pulsing(at) <==> at < now + duration_ms
                * 1_000_000)
            &&& !t.kicks(armed, mode, trigger) ==> after.until == t.until
            &&& after.trigger_held == trigger
            &&& after.next_rapid_fire == t.next_rapid_fire
            &&& after.last_led == t.last_led
        }),
{
    lemma_later_fits(now, duration_ms);
}

/// A held trigger goes on firing: in the mode of rapid fire, while the trigger means a shot and
/// is held, a pulse comes as soon as none is under way and the time for it has come. After
/// a pulse at `now` that time is one interval later; after a frame without the trigger it is
/// that frame's time.
pub proof fn rapid_fire_goes_on(
    t: RecoilTimer,
    armed: bool,
    trigger: bool,
    active: bool,
    now: u64,
    duration_ms: u64,
    interval_ms: u64,
    at: u64,
)
    ensures
        ({
            let mode = RecoilMode::RapidFire;
            let after = t.after_rapid(armed, mode, trigger, active, now, duration_ms, interval_ms);
            let fires = t.rapid_fires(armed, mode, trigger, active, now);
            &&& fires <==> armed && trigger && !active && now >= t.next_rapid_fire
            &&& fires ==> (after.pulsing(at) <==> at < now + duration_ms * 1_000_000)
            &&& fires ==> (after.rapid_fires(true, mode, true, false, at) <==> at >= now
                + interval_ms * 1_000_000)
            &&& !fires ==> after.until == t.until
            &&& !fires && trigger ==> after.next_rapid_fire == t.next_rapid_fire
            &&& !trigger ==> (after.rapid_fires(true, mode, true, false, at) <==> at >= now)
            &&& after.trigger_held == t.trigger_held
            &&& after.last_led == t.last_led
        }),
{
    lemma_later_fits(now, duration_ms);
    lemma_later_fits(now, interval_ms);
}

/// Settling ends a pulse whose time is up, and touches nothing else.
pub proof fn settling_keeps_the_rest(t: RecoilTimer, now: u64, at: u64)
    ensures
        t.pulsing(now) ==> t.after_settle(now) == t,
        !t.pulsing(now) ==> !t.after_settle(now).pulsing(at),
        t.after_settle(now).next_rapid_fire == t.next_rapid_fire,
        t.after_settle(now).trigger_held == t.trigger_held,
        t.after_settle(now).last_led == t.last_led,
        t.until is None ==> !t.pulsing(now),
        t.until matches Some(end) ==> (t.pulsing(now) <==> now < end),
{
}

/// The light is set again once more than half a second has passed since it last was, or if it
/// never was; but not while a pulse is under way.
pub proof fn light_is_kept_up(t: RecoilTimer, now: u64)
    ensures
        !t.is_led_due(true, now),
        t.last_led is None ==> t.is_led_due(false, now),
        t.last_led matches Some(at) ==> (t.is_led_due(false, now) <==> now > at + 500_000_000),
{
}

/// The tracker finds the colour that it looks for, red 80 and blue 150, whatever colour is
/// configured; without it the light is as configured.
pub proof fn tracker_finds_its_colour(configured: Colour)
    ensures
        ({
            let (r, g, b) = led_in_use(true, configured);
            r == 80 && g == 0 && b == 150
        }),
        led_in_use(false, configured) == configured,
{
}

/// The cycle goes from the single kick to rapid fire and from there to off; the settings keep
/// each mode under its own name, and people read a name of its own for each.
pub proof fn modes_are_named(mode: RecoilMode)
    ensures
        mode.next_mode() == RecoilMode::RapidFire <==> mode == RecoilMode::SingleKick,
        mode.next_mode() == RecoilMode::Off <==> mode == RecoilMode::RapidFire,
        mode.saved() == SavedRecoilMode::SingleKick <==> mode == RecoilMode::SingleKick,
        mode.saved() == SavedRecoilMode::RapidFire <==> mode == RecoilMode::RapidFire,
        mode.saved() == SavedRecoilMode::Off <==> mode == RecoilMode::Off,
        mode.label_text() == "Single Kick"@ <==> mode == RecoilMode::SingleKick,
        mode.label_text() == "Rapid Fire"@ <==> mode == RecoilMode::RapidFire,
        mode.label_text() == "Vibration Off"@ <==> mode == RecoilMode::Off,
{
    reveal_strlit("Single Kick");
    reveal_strlit("Rapid Fire");
    reveal_strlit("Vibration Off");
    assert("Single Kick"@.len() == 11 && "Rapid Fire"@.len() == 10 && "Vibration Off"@.len() == 13);
}

} // verus!
