//! The DualShock 4 mode: the controller's state passed on to a virtual DualShock 4.

use crate::aim_report::{describes, is_full_report, is_simple_report, AimState};
use crate::device;
use crate::flags::{set_flag, with_flag};
use crate::rumble::RumbleLed;
use vstd::prelude::*;

verus! {

/// One input report of the virtual DualShock 4.
#[derive(Debug, Clone, Copy, PartialEq, Eq, Structural)]
pub struct Ds4Frame {
    pub thumb_lx: u8,
    pub thumb_ly: u8,
    pub thumb_rx: u8,
    pub thumb_ry: u8,
    pub trigger_l: u8,
    pub trigger_r: u8,
    /// The direction of the D-pad in the low four bits, and a bit for each button.
    pub buttons: u16,
    /// A bit each for the PS button and the touchpad's click.
    pub special: u8,
    pub gyro_x: i16,
    pub gyro_y: i16,
    pub gyro_z: i16,
    pub accel_x: i16,
    pub accel_y: i16,
    pub accel_z: i16,
    pub timestamp: u16,
}

pub const SQUARE: u16 = 0x0010;

pub const CROSS: u16 = 0x0020;

pub const CIRCLE: u16 = 0x0040;

pub const TRIANGLE: u16 = 0x0080;

pub const SHOULDER_LEFT: u16 = 0x0100;

pub const SHOULDER_RIGHT: u16 = 0x0200;

pub const TRIGGER_LEFT: u16 = 0x0400;

pub const TRIGGER_RIGHT: u16 = 0x0800;

pub const SHARE: u16 = 0x1000;

pub const OPTIONS: u16 = 0x2000;

pub const THUMB_LEFT: u16 = 0x4000;

pub const THUMB_RIGHT: u16 = 0x8000;

/// The PS button, among the special buttons.
pub const PS: u16 = 1;

/// The touchpad's click, among the special buttons.
pub const TOUCHPAD: u16 = 2;

/// The D-pad's direction when it is not pressed.
pub const DPAD_NEUTRAL: u16 = 8;

/// What a timestamp grows by from one report to the next.
pub const TIMESTAMP_STEP: u16 = 188;

/// The D-pad's direction; anything out of range is neutral.
pub open spec fn dpad_direction(dpad: u8) -> u16 {
    if dpad < 8 {
        dpad as u16
    } else {
        DPAD_NEUTRAL
    }
}

/// The word of the D-pad and the buttons.
pub open spec fn button_word(s: AimState) -> u16 {
    let w = dpad_direction(s.dpad);
    let w = with_flag(w, s.square, SQUARE);
    let w = with_flag(w, s.cross, CROSS);
    let w = with_flag(w, s.circle, CIRCLE);
    let w = with_flag(w, s.triangle, TRIANGLE);
    let w = with_flag(w, s.l1, SHOULDER_LEFT);
    let w = with_flag(w, s.r1, SHOULDER_RIGHT);
    let w = with_flag(w, s.l2_click, TRIGGER_LEFT);
    let w = with_flag(w, s.r2_click, TRIGGER_RIGHT);
    let w = with_flag(w, s.share, SHARE);
    let w = with_flag(w, s.options, OPTIONS);
    let w = with_flag(w, s.l3, THUMB_LEFT);
    with_flag(w, s.r3, THUMB_RIGHT)
}

/// The PS button and the touchpad's click.
pub open spec fn special_word(s: AimState) -> u16 {
    with_flag(with_flag(0, s.ps_guide, PS), s.pad_button, TOUCHPAD)
}

/// The report of a state, with its timestamp.
pub open spec fn frame_of(s: AimState, timestamp: u16) -> Ds4Frame {
    Ds4Frame {
        thumb_lx: s.lstick_x,
        thumb_ly: s.lstick_y,
        thumb_rx: s.rstick_x,
        thumb_ry: s.rstick_y,
        trigger_l: s.l2_analog,
        trigger_r: s.r2_analog,
        buttons: button_word(s),
        special: special_word(s) as u8,
        gyro_x: s.gyro_yaw,
        gyro_y: s.gyro_pitch,
        gyro_z: s.gyro_roll,
        accel_x: s.accel_x,
        accel_y: s.accel_y,
        accel_z: s.accel_z,
        timestamp,
    }
}

/// The D-pad's direction; anything out of range is neutral.
fn direction_of(dpad: u8) -> (r: u16)
    ensures
        r == dpad_direction(dpad),
{
    if dpad < 8 {
        dpad as u16
    } else {
        DPAD_NEUTRAL
    }
}

/// The word of the D-pad and the buttons.
fn buttons_of(s: &AimState) -> (word: u16)
    ensures
        word == button_word(*s),
{
    let w: u16 = direction_of(s.dpad);
    let w: u16 = set_flag(w, s.square, SQUARE);
    let w: u16 = set_flag(w, s.cross, CROSS);
    let w: u16 = set_flag(w, s.circle, CIRCLE);
    let w: u16 = set_flag(w, s.triangle, TRIANGLE);
    let w: u16 = set_flag(w, s.l1, SHOULDER_LEFT);
    let w: u16 = set_flag(w, s.r1, SHOULDER_RIGHT);
    let w: u16 = set_flag(w, s.l2_click, TRIGGER_LEFT);
    let w: u16 = set_flag(w, s.r2_click, TRIGGER_RIGHT);
    let w: u16 = set_flag(w, s.share, SHARE);
    let w: u16 = set_flag(w, s.options, OPTIONS);
    let w: u16 = set_flag(w, s.l3, THUMB_LEFT);
    set_flag(w, s.r3, THUMB_RIGHT)
}

/// The report of a state, with its timestamp.
pub fn frame(s: &AimState, timestamp: u16) -> (f: Ds4Frame)
    ensures
        f == frame_of(*s, timestamp),
{
    Ds4Frame {
        thumb_lx: s.lstick_x,
        thumb_ly: s.lstick_y,
        thumb_rx: s.rstick_x,
        thumb_ry: s.rstick_y,
        trigger_l: s.l2_analog,
        trigger_r: s.r2_analog,
        buttons: buttons_of(s),
        special: set_flag(set_flag(0, s.ps_guide, PS), s.pad_button, TOUCHPAD) as u8,
        gyro_x: s.gyro_yaw,
        gyro_y: s.gyro_pitch,
        gyro_z: s.gyro_roll,
        accel_x: s.accel_x,
        accel_y: s.accel_y,
        accel_z: s.accel_z,
        timestamp,
    }
}

/// Flags that are set one after another can be read one by one.
proof fn lemma_flags(
    low: u16,
    square: bool,
    cross: bool,
    circle: bool,
    triangle: bool,
    l1: bool,
    r1: bool,
    l2_click: bool,
    r2_click: bool,
    share: bool,
    options: bool,
    l3: bool,
    r3: bool,
)
    by (bit_vector)
    requires
        low < 16,
    ensures
        ({
            let w = low;
            let w = with_flag(w, square, SQUARE);
            let w = with_flag(w, cross, CROSS);
            let w = with_flag(w, circle, CIRCLE);
            let w = with_flag(w, triangle, TRIANGLE);
            let w = with_flag(w, l1, SHOULDER_LEFT);
            let w = with_flag(w, r1, SHOULDER_RIGHT);
            let w = with_flag(w, l2_click, TRIGGER_LEFT);
            let w = with_flag(w, r2_click, TRIGGER_RIGHT);
            let w = with_flag(w, share, SHARE);
            let w = with_flag(w, options, OPTIONS);
            let w = with_flag(w, l3, THUMB_LEFT);
            let w = with_flag(w, r3, THUMB_RIGHT);
            &&& w & 0xF == low
            &&& (w & SQUARE != 0 <==> square)
            &&& (w & CROSS != 0 <==> cross)
            &&& (w & CIRCLE != 0 <==> circle)
            &&& (w & TRIANGLE != 0 <==> triangle)
            &&& (w & SHOULDER_LEFT != 0 <==> l1)
            &&& (w & SHOULDER_RIGHT != 0 <==> r1)
            &&& (w & TRIGGER_LEFT != 0 <==> l2_click)
            &&& (w & TRIGGER_RIGHT != 0 <==> r2_click)
            &&& (w & SHARE != 0 <==> share)
            &&& (w & OPTIONS != 0 <==> options)
            &&& (w & THUMB_LEFT != 0 <==> l3)
            &&& (w & THUMB_RIGHT != 0 <==> r3)
        }),
{
}

/// The special flags can be read one by one.
proof fn lemma_special_flags(ps: bool, pad: bool)
    by (bit_vector)
    ensures
        ({
            let w = with_flag(with_flag(0, ps, PS), pad, TOUCHPAD);
            &&& (w & PS != 0 <==> ps)
            &&& (w & TOUCHPAD != 0 <==> pad)
            &&& w < 4
        }),
{
}

/// The word says what is pressed: its low four bits are the D-pad's direction, and each
/// other bit is set exactly while its button is pressed.
#[verifier::spinoff_prover]
#[verifier::rlimit(40)]
pub proof fn button_word_is_readable(s: AimState)
    ensures
        button_word(s) & 0xF == dpad_direction(s.dpad),
        button_word(s) & SQUARE != 0 <==> s.square,
        button_word(s) & CROSS != 0 <==> s.cross,
        button_word(s) & CIRCLE != 0 <==> s.circle,
        button_word(s) & TRIANGLE != 0 <==> s.triangle,
        button_word(s) & SHOULDER_LEFT != 0 <==> s.l1,
        button_word(s) & SHOULDER_RIGHT != 0 <==> s.r1,
        button_word(s) & TRIGGER_LEFT != 0 <==> s.l2_click,
        button_word(s) & TRIGGER_RIGHT != 0 <==> s.r2_click,
        button_word(s) & SHARE != 0 <==> s.share,
        button_word(s) & OPTIONS != 0 <==> s.options,
        button_word(s) & THUMB_LEFT != 0 <==> s.l3,
        button_word(s) & THUMB_RIGHT != 0 <==> s.r3,
{
    assert(dpad_direction(s.dpad) < 16);
    lemma_flags(
        dpad_direction(s.dpad),
        s.square,
        s.cross,
        s.circle,
        s.triangle,
        s.l1,
        s.r1,
        s.l2_click,
        s.r2_click,
        s.share,
        s.options,
        s.l3,
        s.r3,
    );
}

/// The word of the special buttons says what is pressed, and has no other bits.
pub proof fn special_word_is_readable(s: AimState)
    ensures
        special_word(s) & PS != 0 <==> s.ps_guide,
        special_word(s) & TOUCHPAD != 0 <==> s.pad_button,
        special_word(s) < 4,
{
    lemma_special_flags(s.ps_guide, s.pad_button);
}

/// A session of the mode.
#[derive(Debug, Clone, Copy, PartialEq, Eq, Structural)]
pub struct Ds4Session {
    /// The timestamp of the next report.
    pub timestamp: u16,
    /// The last state that was read.
    pub last_state: Option<AimState>,
}

impl Ds4Session {
    pub fn new() -> (s: Ds4Session)
        ensures
            s == (Ds4Session { timestamp: 0, last_state: None }),
    {
        Ds4Session { timestamp: 0, last_state: None }
    }

    /// The session is `after` once a report has been taken into account, and `is_bt` is what
    /// is said of it.
    pub open spec fn takes(
        self,
        report: Seq<u8>,
        is_bt: Option<bool>,
        after: Ds4Session,
    ) -> bool {
        &&& is_bt is Some <==> is_full_report(report) || is_simple_report(report)
        &&& is_bt matches Some(bt) ==> bt == device::came_over_bluetooth(report)
        &&& is_bt is Some ==> (after.last_state matches Some(s) && describes(report, s))
        &&& is_bt is None ==> after.last_state == self.last_state
        &&& after.timestamp == self.timestamp
    }

    /// The report to pass on now.
    pub open spec fn passed_on(self) -> Option<Ds4Frame> {
        match self.last_state {
            Some(s) => Some(frame_of(s, self.timestamp)),
            None => None,
        }
    }

    /// The session after a report has been passed on.
    pub open spec fn after_frame(self) -> Ds4Session {
        match self.last_state {
            Some(s) => Ds4Session {
                timestamp: ((self.timestamp + TIMESTAMP_STEP) % 0x10000) as u16,
                ..self
            },
            None => self,
        }
    }

    /// Takes a report into account. Returns whether it came over Bluetooth, and `None`
    /// for a report that says nothing.
    pub fn on_report(&mut self, report: &[u8]) -> (is_bt: Option<bool>)
        ensures
            old(self).takes(report@, is_bt, *final(self)),
    {
        match AimState::parse(report) {
            Some(state) => {
                self.last_state = Some(state);
                Some(device::is_bluetooth(report))
            },
            None => None,
        }
    }

    /// The report to pass on now: that of the last state, again and again while nothing
    /// new comes, so that the virtual controller does not look stale. `None` before the
    /// first state.
    pub fn next_frame(&mut self) -> (f: Option<Ds4Frame>)
        ensures
            f == old(self).passed_on(),
            *final(self) == old(self).after_frame(),
    {
        match self.last_state {
            Some(s) => {
                let f = frame(&s, self.timestamp);
                self.timestamp = self.timestamp.wrapping_add(TIMESTAMP_STEP);
                Some(f)
            },
            None => None,
        }
    }
}

/// The timestamp of the report that follows `n` reports.
pub open spec fn timestamp_after(start: u16, n: nat) -> u16
    decreases n,
{
    if n == 0 {
        start
    } else {
        ((timestamp_after(start, (n - 1) as nat) + TIMESTAMP_STEP) % 0x10000) as u16
    }
}

/// Timestamps run at a constant rate, wrapping around.
pub proof fn timestamps_run_evenly(start: u16, n: nat)
    ensures
        timestamp_after(start, n) == (start + n * TIMESTAMP_STEP) % 0x10000,
    decreases n,
{
    if n > 0 {
        timestamps_run_evenly(start, (n - 1) as nat);
        let before = start + (n - 1) * TIMESTAMP_STEP;
        assert(start + n * TIMESTAMP_STEP == before + TIMESTAMP_STEP) by (nonlinear_arith)
            requires
                before == start + (n - 1) * TIMESTAMP_STEP,
        ;
        assert((before % 0x10000 + TIMESTAMP_STEP) % 0x10000 == (before + TIMESTAMP_STEP) % 0x10000);
    }
}

/// What a game does to the motors and the light of the virtual controller.
#[derive(Debug, Clone, Copy, PartialEq, Eq, Structural)]
pub enum RelayEvent {
    /// The game asks for this.
    Notification {
        small_motor: u8,
        large_motor: u8,
        red: u8,
        green: u8,
        blue: u8,
    },
    /// Nothing was asked for a while.
    Timeout,
    /// Nothing will be asked any more.
    Closed,
}

/// Milliseconds without a notification after which the last one is sent again.
pub const RELAY_TIMEOUT_MS: u64 = 500;

/// Passes on to the controller what games ask of the virtual one.
#[derive(Debug, Clone, Copy, PartialEq, Eq, Structural)]
pub struct RumbleRelay {
    pub last: RumbleLed,
}

impl RumbleRelay {
    pub fn new() -> (r: RumbleRelay)
        ensures
            r.last == (RumbleLed { motor_weak: 0, motor_strong: 0, red: 0, green: 0, blue: 0 }),
    {
        RumbleRelay { last: RumbleLed { motor_weak: 0, motor_strong: 0, red: 0, green: 0, blue: 0 }
        }
    }

    /// What is to be sent to the controller after an event.
    pub open spec fn relayed(self, event: RelayEvent) -> Option<RumbleLed> {
        match event {
            RelayEvent::Notification { small_motor, large_motor, red, green, blue } => Some(
                RumbleLed {
                    motor_weak: small_motor,
                    motor_strong: large_motor,
                    red,
                    green,
                    blue,
                },
            ),
            RelayEvent::Timeout => Some(self.last),
            RelayEvent::Closed => None,
        }
    }

    /// The relay after an event.
    pub open spec fn after(self, event: RelayEvent) -> RumbleRelay {
        match self.relayed(event) {
            Some(rl) => RumbleRelay { last: rl },
            None => self,
        }
    }

    /// What is to be sent to the controller after an event: what the game asked for, and
    /// while it asks for nothing the last of it again, since the firmware falls back to an
    /// indicator of its own. `None` when the relay is over.
    pub fn step(&mut self, event: RelayEvent) -> (rl: Option<RumbleLed>)
        ensures
            rl == old(self).relayed(event),
            *final(self) == old(self).after(event),
    {
        match event {
            RelayEvent::Notification { small_motor, large_motor, red, green, blue } => {
                self.last = RumbleLed {
                    motor_weak: small_motor,
                    motor_strong: large_motor,
                    red,
                    green,
                    blue,
                };
                Some(self.last)
            },
            RelayEvent::Timeout => Some(self.last),
            RelayEvent::Closed => None,
        }
    }
}

/// The D-pad is passed on: the low four bits of the word in a frame are its direction, for
/// every direction from 0 to 7, and 8, which is neutral, for anything else.
pub proof fn dpad_is_passed_on(s: AimState, timestamp: u16)
    ensures
        s.dpad < 8 ==> frame_of(s, timestamp).buttons % 16 == s.dpad,
        s.dpad >= 8 ==> frame_of(s, timestamp).buttons % 16 == 8,
{
    button_word_is_readable(s);
    let w = button_word(s);
    assert(w & 0xF == w % 16) by (bit_vector);
}

/// The buttons are passed on: each bit of the words in a frame, by its place in reports of a
/// DualShock 4, is set exactly while its button is pressed.
#[verifier::spinoff_prover]
#[verifier::rlimit(40)]
pub proof fn buttons_are_passed_on(s: AimState, timestamp: u16)
    ensures
        ({
            let f = frame_of(s, timestamp);
            &&& f.buttons & 0x0010 != 0 <==> s.square
            &&& f.buttons & 0x0020 != 0 <==> s.cross
            &&& f.buttons & 0x0040 != 0 <==> s.circle
            &&& f.buttons & 0x0080 != 0 <==> s.triangle
            &&& f.buttons & 0x0100 != 0 <==> s.l1
            &&& f.buttons & 0x0200 != 0 <==> s.r1
            &&& f.buttons & 0x0400 != 0 <==> s.l2_click
            &&& f.buttons & 0x0800 != 0 <==> s.r2_click
            &&& f.buttons & 0x1000 != 0 <==> s.share
            &&& f.buttons & 0x2000 != 0 <==> s.options
            &&& f.buttons & 0x4000 != 0 <==> s.l3
            &&& f.buttons & 0x8000 != 0 <==> s.r3
            &&& f.special == (if s.ps_guide {
                1int
            } else {
                0
            }) + (if s.pad_button {
                2int
            } else {
                0
            })
        }),
{
    button_word_is_readable(s);
    let ps = s.ps_guide;
    let pad = s.pad_button;
    lemma_special_sum(ps, pad);
}

/// The special flags add up.
proof fn lemma_special_sum(ps: bool, pad: bool)
    by (bit_vector)
    ensures
        with_flag(with_flag(0, ps, PS), pad, TOUCHPAD) == (if ps {
            1u16
        } else {
            0u16
        }) + (if pad {
            2u16
        } else {
            0u16
        }),
{
}

/// Sticks, triggers and motion are passed on unchanged: from a frame they can be read back,
/// yaw, pitch and roll from the first, second and third axis of the gyro, and whatever is
/// pressed does not change them. States whose frames agree in them agree in them.
pub proof fn analog_values_are_passed_on(a: AimState, b: AimState, t: u16, u: u16)
    ensures
        ({
            let f = frame_of(a, t);
            let g = frame_of(b, u);
            &&& (f.thumb_lx, f.thumb_ly) == (a.lstick_x, a.lstick_y)
            &&& (f.thumb_rx, f.thumb_ry) == (a.rstick_x, a.rstick_y)
            &&& (f.trigger_l, f.trigger_r) == (a.l2_analog, a.r2_analog)
            &&& (f.gyro_x, f.gyro_y, f.gyro_z) == (a.gyro_yaw, a.gyro_pitch, a.gyro_roll)
            &&& (f.accel_x, f.accel_y, f.accel_z) == (a.accel_x, a.accel_y, a.accel_z)
            &&& f.timestamp == t
            &&& (f.thumb_lx, f.thumb_ly, f.thumb_rx, f.thumb_ry) == (
                g.thumb_lx,
                g.thumb_ly,
                g.thumb_rx,
                g.thumb_ry,
            ) ==> (a.lstick_x, a.lstick_y, a.rstick_x, a.rstick_y) == (
                b.lstick_x,
                b.lstick_y,
                b.rstick_x,
                b.rstick_y,
            )
        }),
{
}

/// The last state is passed on again and again: while no report comes, the next frame is the
/// one before it but for the timestamp, which is 188 later, wrapping around. Before the first
/// state there is none.
pub proof fn last_state_is_repeated(l: Ds4Session)
    ensures
        l.passed_on() is Some <==> l.last_state is Some,
        l.after_frame().last_state == l.last_state,
        l.passed_on() matches Some(f) ==> {
            &&& f.timestamp == l.timestamp
            &&& l.after_frame().passed_on() == Some(
                Ds4Frame { timestamp: ((f.timestamp + 188) % 65536) as u16, ..f },
            )
        },
        l.passed_on() is None ==> l.after_frame().passed_on() is None,
{
}

/// What a report says is passed on with the next frame: its sticks, triggers and the
/// direction of its D-pad, from the bytes that hold them over either transport. A report
/// that cannot be read changes nothing, and reports do not move the timestamp.
pub proof fn reports_are_passed_on(
    l: Ds4Session,
    report: Seq<u8>,
    is_bt: Option<bool>,
    after: Ds4Session,
)
    requires
        l.takes(report, is_bt, after),
    ensures
        is_bt is Some <==> report.len() >= 10 && report[0] == 1 || report.len() >= 78 && report[0]
            == 17,
        is_bt is None ==> after == l,
        is_bt matches Some(bt) ==> (bt <==> report.len() < 24 || report[0] == 17),
        is_bt is Some ==> (after.passed_on() matches Some(f) && {
            let at = if report[0] == 17 {
                3int
            } else {
                1int
            };
            &&& f.thumb_lx == report[at]
            &&& f.thumb_ly == report[at + 1]
            &&& f.thumb_rx == report[at + 2]
            &&& f.thumb_ry == report[at + 3]
            &&& f.buttons % 16 == if report[at + 4] % 16 < 8 {
                report[at + 4] % 16
            } else {
                8
            }
            &&& f.trigger_l == report[at + 7]
            &&& f.trigger_r == report[at + 8]
            &&& f.timestamp == l.timestamp
        }),
{
    if let Some(s) = after.last_state {
        dpad_is_passed_on(s, after.timestamp);
    }
}

/// What a game asks for is passed on and kept: the small motor is the weak one, the large
/// motor the strong one, the colours are themselves, and while nothing more is asked for the
/// same is sent again, however often, until the end.
pub proof fn what_is_asked_for_is_kept_up(
    r: RumbleRelay,
    small_motor: u8,
    large_motor: u8,
    red: u8,
    green: u8,
    blue: u8,
)
    ensures
        ({
            let asked = RelayEvent::Notification { small_motor, large_motor, red, green, blue };
            let after = r.after(asked);
            &&& r.relayed(asked) matches Some(rl) && {
                &&& rl.motor_weak == small_motor
                &&& rl.motor_strong == large_motor
                &&& (rl.red, rl.green, rl.blue) == (red, green, blue)
            }
            &&& after.relayed(RelayEvent::Timeout) == r.relayed(asked)
            &&& after.after(RelayEvent::Timeout) == after
        }),
        r.relayed(RelayEvent::Closed) is None,
        r.after(RelayEvent::Closed) == r,
        r.after(RelayEvent::Timeout) == r,
{
}

} // verus!
