//! The lightgun gamepad mode: a virtual Xbox 360 pad whose right stick is the aim.
//!
//! The aim comes from the camera while it sees the sphere, else from the gyro. Both are
//! computed by the caller; this module decides which of them moves, and what the pad
//! reports.

use crate::aim_report::AimState;
use crate::calibration::{
    CalibStep, Calibration, RightStick, SampleOutcome, SampleStep, StickAction, PULL_THRESHOLD,
};
use crate::flags::{set_flag, with_flag};
use vstd::prelude::*;

verus! {

/// One input report of the virtual Xbox 360 pad.
#[derive(Debug, Clone, Copy, PartialEq, Eq, Structural)]
pub struct X360Frame {
    pub buttons: u16,
    pub left_trigger: u8,
    pub right_trigger: u8,
    pub thumb_lx: i16,
    pub thumb_ly: i16,
    pub thumb_rx: i16,
    pub thumb_ry: i16,
}

pub const DPAD_UP: u16 = 0x0001;

pub const DPAD_DOWN: u16 = 0x0002;

pub const DPAD_LEFT: u16 = 0x0004;

pub const DPAD_RIGHT: u16 = 0x0008;

pub const START: u16 = 0x0010;

pub const BACK: u16 = 0x0020;

pub const LEFT_THUMB: u16 = 0x0040;

pub const RIGHT_THUMB: u16 = 0x0080;

pub const LEFT_SHOULDER: u16 = 0x0100;

pub const RIGHT_SHOULDER: u16 = 0x0200;

pub const GUIDE: u16 = 0x0400;

pub const A: u16 = 0x1000;

pub const B: u16 = 0x2000;

pub const X: u16 = 0x4000;

pub const Y: u16 = 0x8000;

/// `v` within the range of a stick's axis.
pub open spec fn clamped(v: int) -> int {
    if v < i16::MIN {
        i16::MIN as int
    } else if v > i16::MAX {
        i16::MAX as int
    } else {
        v
    }
}

/// `v` within the range of a stick's axis.
fn clamp(v: i32) -> (r: i16)
    ensures
        r == clamped(v as int),
{
    if v < -32768 {
        -32768
    } else if v > 32767 {
        32767
    } else {
        v as i16
    }
}

/// A horizontal stick position, on the axis of the virtual pad: left is negative.
pub fn stick_u8_to_i16_x(raw: u8) -> (r: i16)
    ensures
        r == clamped((raw - 128) * 256),
{
    clamp((raw as i32 - 128) * 256)
}

/// A vertical stick position, on the axis of the virtual pad: up is positive there, while
/// the controller counts downwards.
pub fn stick_u8_to_i16_y(raw: u8) -> (r: i16)
    ensures
        r == clamped((128 - raw) * 256),
{
    clamp((128 - raw as i32) * 256)
}

/// Sticks keep their sense: the middle stays in the middle, the ends reach the ends, a
/// stick further right is reported further right, and one further up further up.
pub proof fn sticks_keep_their_sense(a: u8, b: u8)
    requires
        a < b,
    ensures
        clamped((a - 128) * 256) < clamped((b - 128) * 256),
        clamped((128 - a) * 256) > clamped((128 - b) * 256),
        clamped((0 - 128) * 256) == i16::MIN,
        clamped((128 - 0) * 256) == i16::MAX,
        clamped((128 - 128) * 256) == 0,
{
}

/// The word of the buttons. The click of L2 is reported as that of the right stick, whose
/// own click is not reported, since it means something else here.
pub open spec fn button_word(s: AimState) -> u16 {
    let w = with_flag(0, s.cross, A);
    let w = with_flag(w, s.circle, B);
    let w = with_flag(w, s.square, X);
    let w = with_flag(w, s.triangle, Y);
    let w = with_flag(w, s.l1, LEFT_SHOULDER);
    let w = with_flag(w, s.r1, RIGHT_SHOULDER);
    let w = with_flag(w, s.share, BACK);
    let w = with_flag(w, s.options, START);
    let w = with_flag(w, s.ps_guide, GUIDE);
    let w = with_flag(w, s.l3, LEFT_THUMB);
    let w = with_flag(w, s.l2_click, RIGHT_THUMB);
    let w = with_flag(w, points_up(s.dpad), DPAD_UP);
    let w = with_flag(w, points_down(s.dpad), DPAD_DOWN);
    let w = with_flag(w, points_left(s.dpad), DPAD_LEFT);
    with_flag(w, points_right(s.dpad), DPAD_RIGHT)
}

/// The D-pad's directions run clockwise from 0, which is up; diagonals count as both of
/// their neighbours.
pub open spec fn points_up(dpad: u8) -> bool {
    dpad == 7 || dpad == 0 || dpad == 1
}

pub open spec fn points_right(dpad: u8) -> bool {
    1 <= dpad <= 3
}

pub open spec fn points_down(dpad: u8) -> bool {
    3 <= dpad <= 5
}

pub open spec fn points_left(dpad: u8) -> bool {
    5 <= dpad <= 7
}

/// The word of the buttons.
fn buttons_of(s: &AimState) -> (word: u16)
    ensures
        word == button_word(*s),
{
    let w: u16 = set_flag(0, s.cross, A);
    let w: u16 = set_flag(w, s.circle, B);
    let w: u16 = set_flag(w, s.square, X);
    let w: u16 = set_flag(w, s.triangle, Y);
    let w: u16 = set_flag(w, s.l1, LEFT_SHOULDER);
    let w: u16 = set_flag(w, s.r1, RIGHT_SHOULDER);
    let w: u16 = set_flag(w, s.share, BACK);
    let w: u16 = set_flag(w, s.options, START);
    let w: u16 = set_flag(w, s.ps_guide, GUIDE);
    let w: u16 = set_flag(w, s.l3, LEFT_THUMB);
    let w: u16 = set_flag(w, s.l2_click, RIGHT_THUMB);
    let w: u16 = set_flag(w, s.dpad == 7 || s.dpad == 0 || s.dpad == 1, DPAD_UP);
    let w: u16 = set_flag(w, 3 <= s.dpad && s.dpad <= 5, DPAD_DOWN);
    let w: u16 = set_flag(w, 5 <= s.dpad && s.dpad <= 7, DPAD_LEFT);
    set_flag(w, 1 <= s.dpad && s.dpad <= 3, DPAD_RIGHT)
}

/// Flags that are set one after another can be read one by one.
proof fn lemma_flags(
    cross: bool,
    circle: bool,
    square: bool,
    triangle: bool,
    l1: bool,
    r1: bool,
    share: bool,
    options: bool,
    guide: bool,
    l3: bool,
    l2: bool,
    up: bool,
    down: bool,
    left: bool,
    right: bool,
)
    by (bit_vector)
    ensures
        ({
            let w = with_flag(0, cross, A);
            let w = with_flag(w, circle, B);
            let w = with_flag(w, square, X);
            let w = with_flag(w, triangle, Y);
            let w = with_flag(w, l1, LEFT_SHOULDER);
            let w = with_flag(w, r1, RIGHT_SHOULDER);
            let w = with_flag(w, share, BACK);
            let w = with_flag(w, options, START);
            let w = with_flag(w, guide, GUIDE);
            let w = with_flag(w, l3, LEFT_THUMB);
            let w = with_flag(w, l2, RIGHT_THUMB);
            let w = with_flag(w, up, DPAD_UP);
            let w = with_flag(w, down, DPAD_DOWN);
            let w = with_flag(w, left, DPAD_LEFT);
            let w = with_flag(w, right, DPAD_RIGHT);
            &&& (w & A != 0 <==> cross)
            &&& (w & B != 0 <==> circle)
            &&& (w & X != 0 <==> square)
            &&& (w & Y != 0 <==> triangle)
            &&& (w & LEFT_SHOULDER != 0 <==> l1)
            &&& (w & RIGHT_SHOULDER != 0 <==> r1)
            &&& (w & BACK != 0 <==> share)
            &&& (w & START != 0 <==> options)
            &&& (w & GUIDE != 0 <==> guide)
            &&& (w & LEFT_THUMB != 0 <==> l3)
            &&& (w & RIGHT_THUMB != 0 <==> l2)
            &&& (w & DPAD_UP != 0 <==> up)
            &&& (w & DPAD_DOWN != 0 <==> down)
            &&& (w & DPAD_LEFT != 0 <==> left)
            &&& (w & DPAD_RIGHT != 0 <==> right)
        }),
{
}

/// The one bit that belongs to no button is never set.
proof fn lemma_unused_flag(
    cross: bool,
    circle: bool,
    square: bool,
    triangle: bool,
    l1: bool,
    r1: bool,
    share: bool,
    options: bool,
    guide: bool,
    l3: bool,
    l2: bool,
    up: bool,
    down: bool,
    left: bool,
    right: bool,
)
    by (bit_vector)
    ensures
        ({
            let w = with_flag(0, cross, A);
            let w = with_flag(w, circle, B);
            let w = with_flag(w, square, X);
            let w = with_flag(w, triangle, Y);
            let w = with_flag(w, l1, LEFT_SHOULDER);
            let w = with_flag(w, r1, RIGHT_SHOULDER);
            let w = with_flag(w, share, BACK);
            let w = with_flag(w, options, START);
            let w = with_flag(w, guide, GUIDE);
            let w = with_flag(w, l3, LEFT_THUMB);
            let w = with_flag(w, l2, RIGHT_THUMB);
            let w = with_flag(w, up, DPAD_UP);
            let w = with_flag(w, down, DPAD_DOWN);
            let w = with_flag(w, left, DPAD_LEFT);
            let w = with_flag(w, right, DPAD_RIGHT);
            w & 0x0800 == 0
        }),
{
}

/// The word says what is pressed: each bit is set exactly while its button is pressed, or
/// the D-pad points its way.
#[verifier::spinoff_prover]
#[verifier::rlimit(40)]
pub proof fn button_word_is_readable(s: AimState)
    ensures
        button_word(s) & A != 0 <==> s.cross,
        button_word(s) & B != 0 <==> s.circle,
        button_word(s) & X != 0 <==> s.square,
        button_word(s) & Y != 0 <==> s.triangle,
        button_word(s) & LEFT_SHOULDER != 0 <==> s.l1,
        button_word(s) & RIGHT_SHOULDER != 0 <==> s.r1,
        button_word(s) & BACK != 0 <==> s.share,
        button_word(s) & START != 0 <==> s.options,
        button_word(s) & GUIDE != 0 <==> s.ps_guide,
        button_word(s) & LEFT_THUMB != 0 <==> s.l3,
        button_word(s) & RIGHT_THUMB != 0 <==> s.l2_click,
        button_word(s) & DPAD_UP != 0 <==> points_up(s.dpad),
        button_word(s) & DPAD_DOWN != 0 <==> points_down(s.dpad),
        button_word(s) & DPAD_LEFT != 0 <==> points_left(s.dpad),
        button_word(s) & DPAD_RIGHT != 0 <==> points_right(s.dpad),
{
    lemma_flags(
        s.cross,
        s.circle,
        s.square,
        s.triangle,
        s.l1,
        s.r1,
        s.share,
        s.options,
        s.ps_guide,
        s.l3,
        s.l2_click,
        points_up(s.dpad),
        points_down(s.dpad),
        points_left(s.dpad),
        points_right(s.dpad),
    );
}

/// The report of a state with the aim at `right`; a report of nothing at all while `blank`.
pub open spec fn frame_of(s: AimState, right: (i16, i16), blank: bool) -> X360Frame {
    if blank {
        X360Frame {
            buttons: 0,
            left_trigger: 0,
            right_trigger: 0,
            thumb_lx: 0,
            thumb_ly: 0,
            thumb_rx: 0,
            thumb_ry: 0,
        }
    } else {
        X360Frame {
            buttons: button_word(s),
            left_trigger: 0,
            right_trigger: s.r2_analog,
            thumb_lx: clamped((s.lstick_x - 128) * 256) as i16,
            thumb_ly: clamped((128 - s.lstick_y) * 256) as i16,
            thumb_rx: right.0,
            thumb_ry: right.1,
        }
    }
}

/// The right stick's click is not passed on, and the pull of L2 does not count: states
/// that differ in these alone give the same report. Nor does the pad's own right stick,
/// whose place the aim takes.
pub proof fn right_stick_is_not_forwarded(s: AimState, t: AimState, right: (i16, i16), blank: bool)
    requires
        t == (AimState {
            r3: t.r3,
            l2_analog: t.l2_analog,
            rstick_x: t.rstick_x,
            rstick_y: t.rstick_y,
            ..s
        }),
    ensures
        frame_of(s, right, blank) == frame_of(t, right, blank),
        frame_of(s, right, blank).left_trigger == 0,
{
}

/// Where the aim comes from in a frame.
#[derive(Debug, Clone, Copy, PartialEq, Eq, Structural)]
pub enum AimSource {
    /// From nowhere: the stick stands still while the camera is being calibrated.
    Neutral,
    Camera,
    Gyro,
}

/// Gyro readings up to which an axis counts as still.
pub const STILLNESS_THRESHOLD: i16 = 30;

/// An axis is still.
pub open spec fn is_still(reading: i16) -> bool {
    -STILLNESS_THRESHOLD <= reading <= STILLNESS_THRESHOLD
}

/// The controller is held still: pitch and yaw both are.
pub open spec fn holds_still(s: AimState) -> bool {
    is_still(s.gyro_pitch) && is_still(s.gyro_yaw)
}

/// Whether the controller is held still, so that the gyro's readings are its bias. Pitch and
/// yaw must both be still.
pub fn held_still(s: &AimState) -> (r: bool)
    ensures
        r == holds_still(*s),
{
    -STILLNESS_THRESHOLD <= s.gyro_pitch && s.gyro_pitch <= STILLNESS_THRESHOLD
        && -STILLNESS_THRESHOLD <= s.gyro_yaw && s.gyro_yaw <= STILLNESS_THRESHOLD
}

/// What the beginning of a frame leads to.
#[derive(Debug, Clone, Copy, PartialEq, Eq, Structural)]
pub struct LightgunBegin {
    /// The aim goes back to the middle.
    pub reset_aim: bool,
    /// Calibrating has started.
    pub entered: bool,
}

/// A session of the mode, for a caller to whom `P` is an averaged camera reading.
#[derive(Debug, Clone, Copy, PartialEq, Eq)]
pub struct LightgunSession<P> {
    /// There is a camera tracker.
    pub camera: bool,
    pub last_ps_guide: bool,
    pub stick: RightStick,
    pub calib: Calibration<P>,
}

impl<P: Copy> LightgunSession<P> {
    pub open spec fn wf(self) -> bool {
        self.calib.wf()
    }

    pub fn new(camera: bool) -> (l: LightgunSession<P>)
        ensures
            l.wf(),
            l.camera == camera,
            !l.last_ps_guide,
            l.stick == (RightStick { last: false, held_since: None }),
            l.calib == (Calibration::<P> {
                step: CalibStep::Idle,
                top_left: None,
                top_right: None,
                bottom_left: None,
                bottom_right: None,
                last_trigger: false,
                sample_since: None,
                sample_count: 0,
                suppress_trigger: false,
            }),
    {
        LightgunSession {
            camera,
            last_ps_guide: false,
            stick: RightStick::new(),
            calib: Calibration::new(),
        }
    }

    /// What the right stick's click means in a frame.
    pub open spec fn stick_action(self, s: AimState, now: u64) -> StickAction {
        self.stick.action(s.r3, self.camera && self.calib.step == CalibStep::Idle, now)
    }

    /// What the beginning of a frame leads to.
    pub open spec fn begun(self, s: AimState, now: u64) -> LightgunBegin {
        LightgunBegin {
            reset_aim: (s.ps_guide && !self.last_ps_guide) || self.stick_action(s, now)
                == StickAction::Tap,
            entered: self.stick_action(s, now) == StickAction::EnterCalibration,
        }
    }

    /// The session after the beginning of a frame.
    pub open spec fn after_begin(self, s: AimState, now: u64) -> LightgunSession<P> {
        LightgunSession {
            last_ps_guide: s.ps_guide,
            stick: self.stick.after(
                s.r3,
                self.camera && self.calib.step == CalibStep::Idle,
                now,
            ),
            calib: if self.begun(s, now).entered {
                Calibration { step: CalibStep::WaitingTopLeft, ..self.calib }
            } else {
                self.calib
            },
            ..self
        }
    }

    /// Begins a frame. The aim goes back to the middle when the PS button is pressed or the
    /// right stick tapped; holding the right stick starts calibrating.
    pub fn begin(&mut self, s: &AimState, now: u64) -> (r: LightgunBegin)
        ensures
            old(self).wf() ==> final(self).wf(),
            r == old(self).begun(*s, now),
            *final(self) == old(self).after_begin(*s, now),
    {
        let guide = s.ps_guide && !self.last_ps_guide;
        self.last_ps_guide = s.ps_guide;
        let can_calibrate = self.camera && self.calib.idle();
        let action = self.stick.step(s.r3, can_calibrate, now);
        let entered = action == StickAction::EnterCalibration;
        if entered {
            self.calib.enter();
        }
        LightgunBegin { reset_aim: guide || action == StickAction::Tap, entered }
    }

    /// What is to be done with a frame's camera reading.
    pub open spec fn sample_step(self, s: AimState, visible: bool) -> SampleStep {
        self.calib.release_step(self.camera, s.r2_analog > PULL_THRESHOLD, visible)
    }

    /// The session after a frame's camera reading.
    pub open spec fn after_sample(self, s: AimState, visible: bool) -> LightgunSession<P> {
        LightgunSession {
            calib: self.calib.after_release_step(
                self.camera,
                s.r2_analog > PULL_THRESHOLD,
                visible,
            ),
            ..self
        }
    }

    /// The session after the part of a frame that calibrates.
    pub open spec fn after_sampling(self, s: AimState) -> LightgunSession<P> {
        LightgunSession {
            calib: self.calib.after_frame(s.r2_analog > PULL_THRESHOLD, s.r2_click),
            ..self
        }
    }

    /// What is to be done with a frame's camera reading; `visible` says that there is one.
    /// The trigger's pull confirms a point, and its release captures it.
    pub fn sample(&mut self, s: &AimState, visible: bool) -> (r: SampleStep)
        requires
            old(self).calib.counts_on(old(self).camera, s.r2_analog > PULL_THRESHOLD, visible) ==> old(
                self,
            ).calib.sample_count < u32::MAX,
        ensures
            old(self).wf() ==> final(self).wf(),
            r == old(self).sample_step(*s, visible),
            *final(self) == old(self).after_sample(*s, visible),
            r.outcome == SampleOutcome::Capture ==> final(self).calib.step != CalibStep::Idle,
    {
        self.calib.sample_until_release(self.camera, s.r2_analog > PULL_THRESHOLD, visible)
    }

    /// Ends the part of a frame that calibrates.
    pub fn end_sampling(&mut self, s: &AimState)
        ensures
            old(self).wf() ==> final(self).wf(),
            *final(self) == old(self).after_sampling(*s),
    {
        self.calib.end_frame(s.r2_analog > PULL_THRESHOLD, s.r2_click);
    }

    /// Whether the gyro moves the aim in a frame: input is not paused, the camera does not
    /// see the sphere, and it is not being calibrated.
    pub open spec fn gyro_aims(self, input_disabled: bool, visible: bool) -> bool {
        !input_disabled && !(self.camera && visible) && self.calib.step == CalibStep::Idle
    }

    /// Where the aim comes from in a frame.
    pub open spec fn aim_source(self, visible: bool) -> AimSource {
        if self.calib.step != CalibStep::Idle {
            AimSource::Neutral
        } else if self.camera && visible {
            AimSource::Camera
        } else {
            AimSource::Gyro
        }
    }

    /// What a frame reports with the aim at `right`.
    pub open spec fn reported(
        self,
        s: AimState,
        input_disabled: bool,
        right: (i16, i16),
    ) -> X360Frame {
        frame_of(s, right, input_disabled || self.calib.step != CalibStep::Idle)
    }

    /// Whether the gyro moves the aim in a frame.
    pub fn gyro_moves(&self, input_disabled: bool, visible: bool) -> (r: bool)
        ensures
            r == self.gyro_aims(input_disabled, visible),
    {
        !input_disabled && !(self.camera && visible) && self.calib.idle()
    }

    /// Where the aim comes from in a frame.
    pub fn source(&self, visible: bool) -> (r: AimSource)
        ensures
            r == self.aim_source(visible),
    {
        if !self.calib.idle() {
            AimSource::Neutral
        } else if self.camera && visible {
            AimSource::Camera
        } else {
            AimSource::Gyro
        }
    }

    /// The report of a frame with the aim at `right`: nothing at all while input is paused or
    /// the camera is being calibrated.
    pub fn report(&self, s: &AimState, input_disabled: bool, right: (i16, i16)) -> (f: X360Frame)
        ensures
            f == self.reported(*s, input_disabled, right),
    {
        if input_disabled || !self.calib.idle() {
            X360Frame {
                buttons: 0,
                left_trigger: 0,
                right_trigger: 0,
                thumb_lx: 0,
                thumb_ly: 0,
                thumb_rx: 0,
                thumb_ry: 0,
            }
        } else {
            X360Frame {
                buttons: buttons_of(s),
                left_trigger: 0,
                right_trigger: s.r2_analog,
                thumb_lx: stick_u8_to_i16_x(s.lstick_x),
                thumb_ly: stick_u8_to_i16_y(s.lstick_y),
                thumb_rx: right.0,
                thumb_ry: right.1,
            }
        }
    }
}

/// The left stick is passed on in its sense: in a report that is not blank, the further right
/// it is, the greater `thumb_lx`, and the further up, the greater `thumb_ly`; both are zero
/// in the middle, reach the ends of the axis where it goes furthest, and depend on their own
/// axis alone, whatever else is pressed and wherever the aim is.
pub proof fn left_stick_keeps_its_sense(
    a: AimState,
    b: AimState,
    right_a: (i16, i16),
    right_b: (i16, i16),
)
    ensures
        ({
            let f = frame_of(a, right_a, false);
            let g = frame_of(b, right_b, false);
            &&& a.lstick_x < b.lstick_x <==> f.thumb_lx < g.thumb_lx
            &&& a.lstick_y < b.lstick_y <==> f.thumb_ly > g.thumb_ly
            &&& a.lstick_x == 128 <==> f.thumb_lx == 0
            &&& a.lstick_y == 128 <==> f.thumb_ly == 0
            &&& a.lstick_x == 0 <==> f.thumb_lx == -32768
            &&& a.lstick_y == 0 <==> f.thumb_ly == 32767
            &&& b.lstick_x == a.lstick_x + 1 ==> g.thumb_lx == f.thumb_lx + 256
            &&& b.lstick_y == a.lstick_y + 1 && a.lstick_y > 0 ==> g.thumb_ly == f.thumb_ly - 256
        }),
{
}

/// The right stick is the aim, and the right trigger is the gun's trigger: a report that is
/// not blank holds them as they are given, for any state. The left trigger stays released. A
/// blank report holds nothing.
pub proof fn aim_and_trigger_are_passed_on(s: AimState, right: (i16, i16))
    ensures
        frame_of(s, right, false).thumb_rx == right.0,
        frame_of(s, right, false).thumb_ry == right.1,
        frame_of(s, right, false).right_trigger == s.r2_analog,
        frame_of(s, right, false).left_trigger == 0,
        ({
            let f = frame_of(s, right, true);
            &&& f.buttons == 0 && f.left_trigger == 0 && f.right_trigger == 0
            &&& f.thumb_lx == 0 && f.thumb_ly == 0 && f.thumb_rx == 0 && f.thumb_ry == 0
        }),
{
}

/// The buttons are passed on: in a report that is not blank each bit of the word, by its place
/// in reports of an Xbox 360 pad, is set exactly while its button is pressed. Cross, Circle,
/// Square and Triangle are A, B, X and Y; the click of L2 is that of the right stick; and the
/// D-pad's directions run clockwise from 0, which is up, with diagonals between them.
#[verifier::spinoff_prover]
#[verifier::rlimit(40)]
pub proof fn buttons_are_passed_on(s: AimState, right: (i16, i16))
    ensures
        ({
            let w = frame_of(s, right, false).buttons;
            &&& w & 0x1000 != 0 <==> s.cross
            &&& w & 0x2000 != 0 <==> s.circle
            &&& w & 0x4000 != 0 <==> s.square
            &&& w & 0x8000 != 0 <==> s.triangle
            &&& w & 0x0100 != 0 <==> s.l1
            &&& w & 0x0200 != 0 <==> s.r1
            &&& w & 0x0020 != 0 <==> s.share
            &&& w & 0x0010 != 0 <==> s.options
            &&& w & 0x0400 != 0 <==> s.ps_guide
            &&& w & 0x0040 != 0 <==> s.l3
            &&& w & 0x0080 != 0 <==> s.l2_click
            &&& w & 0x0001 != 0 <==> (s.dpad == 7 || s.dpad == 0 || s.dpad == 1)
            &&& w & 0x0008 != 0 <==> (s.dpad == 1 || s.dpad == 2 || s.dpad == 3)
            &&& w & 0x0002 != 0 <==> (s.dpad == 3 || s.dpad == 4 || s.dpad == 5)
            &&& w & 0x0004 != 0 <==> (s.dpad == 5 || s.dpad == 6 || s.dpad == 7)
            &&& w & 0x0800 == 0
        }),
{
    button_word_is_readable(s);
    lemma_unused_flag(
        s.cross,
        s.circle,
        s.square,
        s.triangle,
        s.l1,
        s.r1,
        s.share,
        s.options,
        s.ps_guide,
        s.l3,
        s.l2_click,
        points_up(s.dpad),
        points_down(s.dpad),
        points_left(s.dpad),
        points_right(s.dpad),
    );
}

/// The axis counts as still within 30 units of rest, on either side.
pub proof fn stillness_is_symmetric(a: i16, b: i16)
    ensures
        is_still(a) <==> a < 31 && a > -31,
        a == -b ==> is_still(a) == is_still(b),
        0 <= a <= b && is_still(b) ==> is_still(a),
{
}

/// The aim goes back to the middle with the first frame of a press of the PS button and with a
/// tap of the right stick, and with nothing else; a PS button that stays pressed does it once.
pub proof fn aim_is_reset_once<P: Copy>(
    l: LightgunSession<P>,
    s: AimState,
    t: AimState,
    now: u64,
    later: u64,
)
    ensures
        s.ps_guide && !l.last_ps_guide ==> l.begun(s, now).reset_aim,
        s.ps_guide && t.ps_guide && t.r3 ==> !l.after_begin(s, now).begun(t, later).reset_aim,
        !s.ps_guide && t.ps_guide ==> l.after_begin(s, now).begun(t, later).reset_aim,
        !s.ps_guide && s.r3 ==> !l.begun(s, now).reset_aim,
        !s.ps_guide && !s.r3 && !l.stick.last ==> !l.begun(s, now).reset_aim,
        s.r3 && !l.stick.last && !t.r3 && now <= later < now + 800_000_000 ==> l.after_begin(
            s,
            now,
        ).begun(t, later).reset_aim,
{
}

/// Calibrating starts with a hold of the right stick of 800 ms, if there is a camera and no
/// calibration under way, and then waits for the top left corner; otherwise the beginning of
/// a frame leaves the calibration as it is. Such a hold is used up: letting it go does not
/// send the aim back to the middle.
pub proof fn hold_starts_calibrating<P: Copy>(
    l: LightgunSession<P>,
    s: AimState,
    t: AimState,
    now: u64,
    later: u64,
)
    ensures
        l.begun(s, now).entered ==> l.camera && l.calib.step == CalibStep::Idle && s.r3,
        l.begun(s, now).entered <==> l.after_begin(s, now).calib != l.calib,
        l.begun(s, now).entered ==> l.after_begin(s, now).calib.step == CalibStep::WaitingTopLeft,
        !l.stick.last && s.r3 && t.r3 && l.camera && l.calib.step == CalibStep::Idle ==> (
        l.after_begin(s, now).begun(t, later).entered <==> later >= now + 800_000_000),
        l.after_begin(s, now).camera == l.camera,
        l.begun(s, now).entered ==> l.after_begin(s, now).stick.action(t.r3, true, later)
            == StickAction::Nothing,
        l.begun(s, now).entered && !t.ps_guide ==> !l.after_begin(s, now).begun(t, later).reset_aim,
{
}

/// The analog trigger confirms a point: pulled beyond 60, and only then, a frame adds its
/// reading, if there is one, while a calibration with a camera is under way; and the frame in
/// which it is no longer is the one that captures.
pub proof fn analog_trigger_confirms<P: Copy>(l: LightgunSession<P>, s: AimState, visible: bool)
    requires
        l.calib.step != CalibStep::Idle,
        l.camera,
    ensures
        l.sample_step(s, visible).add <==> s.r2_analog > 60 && visible,
        l.sample_step(s, visible).clear <==> s.r2_analog > 60 && !l.calib.last_trigger,
        l.sample_step(s, visible).outcome != SampleOutcome::Pending <==> s.r2_analog <= 60
            && l.calib.last_trigger,
        l.after_sampling(s).calib.last_trigger <==> s.r2_analog > 60,
        s.r2_click ==> l.after_sampling(s).calib.suppress_trigger == l.calib.suppress_trigger,
        !s.r2_click ==> !l.after_sampling(s).calib.suppress_trigger,
        l.after_sampling(s).calib.step == l.calib.step,
        l.after_sample(s, visible).calib.step == l.calib.step,
        s.r2_analog <= 60 ==> l.after_sample(s, visible) == l,
{
}

/// The camera comes first: while it sees the sphere the aim is its own and the gyro rests,
/// while it does not the aim is the gyro's, and while it is being calibrated the stick stands
/// still. The gyro moves an aim that it alone drives, unless input is paused.
pub proof fn camera_comes_first<P: Copy>(l: LightgunSession<P>, visible: bool)
    ensures
        l.calib.step != CalibStep::Idle ==> l.aim_source(visible) == AimSource::Neutral,
        l.calib.step == CalibStep::Idle && l.camera && visible ==> l.aim_source(visible)
            == AimSource::Camera,
        !l.camera || !visible ==> l.aim_source(visible) != AimSource::Camera,
        l.gyro_aims(false, visible) <==> l.aim_source(visible) == AimSource::Gyro,
        !l.gyro_aims(true, visible),
{
}

/// Nothing is reported while input is paused or the camera is being calibrated: the report is
/// then the same whatever the state and the aim, with every field zero. At any other time the
/// aim and the trigger can be read from it.
pub proof fn reports_are_blank_while_paused<P: Copy>(
    l: LightgunSession<P>,
    s: AimState,
    t: AimState,
    paused: bool,
    right: (i16, i16),
)
    ensures
        paused || l.calib.step != CalibStep::Idle ==> {
            let f = l.reported(s, paused, right);
            &&& f == l.reported(t, paused, (0, 0))
            &&& f.buttons == 0 && f.right_trigger == 0 && f.left_trigger == 0
            &&& f.thumb_lx == 0 && f.thumb_ly == 0 && f.thumb_rx == 0 && f.thumb_ry == 0
        },
        !paused && l.calib.step == CalibStep::Idle ==> {
            let f = l.reported(s, paused, right);
            &&& (f.thumb_rx, f.thumb_ry) == right
            &&& f.right_trigger == s.r2_analog
            &&& f == frame_of(s, right, false)
        },
{
}

/// The controller counts as held still exactly while neither its pitch nor its yaw reads more
/// than 30 either way; how it rolls does not matter.
pub proof fn stillness_is_of_pitch_and_yaw(s: AimState, roll: i16)
    ensures
        holds_still(s) <==> -30 <= s.gyro_pitch <= 30 && -30 <= s.gyro_yaw <= 30,
        holds_still(AimState { gyro_roll: roll, ..s }) == holds_still(s),
        holds_still(AimState { gyro_pitch: s.gyro_yaw, gyro_yaw: s.gyro_pitch, ..s })
            == holds_still(s),
{
}

} // verus!
