//! The mouse and keyboard mode: the gyro or the camera moves the cursor, the triggers are
//! mouse buttons, and everything else is keys.
//!
//! Without a camera the gyro sends relative moves. With one, a cursor position is kept and
//! sent by a thread of its own; the camera sets it, and the gyro moves it while the camera
//! does not see the sphere. Both are computed by the caller.

use crate::aim_report::AimState;
use crate::calibration::{
    CalibStep, Calibration, RightStick, SampleOutcome, SampleStep, StickAction,
};
use crate::clock;
use crate::gun::GunAction;
use crate::held_keys::{
    applied, changes, controls_are_passed_on, events_lead_to_the_new_state, release_order,
    releasing_lets_everything_go, update_order, HeldState, InputEvent, Target,
};
use vstd::prelude::*;

verus! {

/// How many moves a recentring is made of.
pub const BURST_STEPS: i32 = 40;

/// Milliseconds between two moves of a recentring.
pub const BURST_PAUSE_MS: u64 = 4;

/// Milliseconds for which the gyro's bias adapts fast after it was asked to.
pub const FAST_RECALIBRATE_MS: u64 = 600;

/// Gyro readings below which an axis counts as still.
pub const STILLNESS_THRESHOLD: i16 = 30;

/// A relative move moves at all.
pub open spec fn is_move(dx: i32, dy: i32) -> bool {
    dx != 0 || dy != 0
}

/// Whether a relative move moves at all; one that does not is not sent.
pub fn moves(dx: i32, dy: i32) -> (r: bool)
    ensures
        r == is_move(dx, dy),
{
    dx != 0 || dy != 0
}

/// The quotient, rounded towards zero.
pub open spec fn quotient(a: int, b: int) -> int {
    if a >= 0 {
        a / b
    } else {
        -((-a) / b)
    }
}

/// Step `i` of a recentring along one axis that moved by `total`: equal shares of the way
/// back, and in the last step all that is left.
pub open spec fn burst_step(total: int, i: int) -> int {
    if i < BURST_STEPS - 1 {
        quotient(-total, BURST_STEPS as int)
    } else {
        -total - (BURST_STEPS - 1) * quotient(-total, BURST_STEPS as int)
    }
}

/// The share of one step of the way back.
fn share(total: i32) -> (r: i32)
    requires
        total != i32::MIN,
    ensures
        r == quotient(-total, BURST_STEPS as int),
        -53687091 <= r <= 53687091,
{
    if total <= 0 {
        (-total) / BURST_STEPS
    } else {
        -(total / BURST_STEPS)
    }
}

/// These are the moves of a recentring after moves of `total_dx` and `total_dy` together.
pub open spec fn is_recentring(steps: Seq<(i32, i32)>, total_dx: i32, total_dy: i32) -> bool {
    if total_dx == 0 && total_dy == 0 {
        steps.len() == 0
    } else {
        &&& steps.len() == BURST_STEPS
        &&& forall|i: int|
            0 <= i < BURST_STEPS ==> (#[trigger] steps[i]).0 == burst_step(total_dx as int, i)
                && steps[i].1 == burst_step(total_dy as int, i)
    }
}

/// The relative moves that undo moves of `total_dx` and `total_dy` together: a game that
/// reads relative moves has no position that could be set. Several small moves, since a
/// large one may be clamped or dropped.
pub fn recenter_via_relative_burst(total_dx: i32, total_dy: i32) -> (steps: Vec<(i32, i32)>)
    requires
        total_dx != i32::MIN,
        total_dy != i32::MIN,
    ensures
        is_recentring(steps@, total_dx, total_dy),
{
    let mut steps: Vec<(i32, i32)> = Vec::new();
    if total_dx == 0 && total_dy == 0 {
        return steps;
    }
    let step_dx: i32 = share(total_dx);
    let step_dy: i32 = share(total_dy);
    for i in 0..BURST_STEPS - 1
        invariant
            steps@.len() == i,
            forall|j: int| 0 <= j < i ==> #[trigger] steps@[j] == (step_dx, step_dy),
    {
        steps.push((step_dx, step_dy));
    }
    let last_dx: i64 = -(total_dx as i64) - (BURST_STEPS as i64 - 1) * step_dx as i64;
    let last_dy: i64 = -(total_dy as i64) - (BURST_STEPS as i64 - 1) * step_dy as i64;
    steps.push((last_dx as i32, last_dy as i32));
    steps
}

/// The sum of a recentring's first steps along one axis.
pub open spec fn burst_sum(total: int, n: nat) -> int
    decreases n,
{
    if n == 0 {
        0
    } else {
        burst_sum(total, (n - 1) as nat) + burst_step(total, n - 1)
    }
}

proof fn lemma_burst_sum(total: int, n: nat)
    requires
        n < BURST_STEPS,
    ensures
        burst_sum(total, n) == n * quotient(-total, BURST_STEPS as int),
    decreases n,
{
    if n > 0 {
        lemma_burst_sum(total, (n - 1) as nat);
        let q = quotient(-total, BURST_STEPS as int);
        assert((n - 1) * q + q == n * q) by (nonlinear_arith);
    } else {
        assert(0 * quotient(-total, BURST_STEPS as int) == 0);
    }
}

/// A recentring undoes the moves: its steps add up to the way back, whatever the way was.
pub proof fn recentring_undoes_the_moves(total: int)
    ensures
        total + burst_sum(total, BURST_STEPS as nat) == 0,
{
    lemma_burst_sum(total, (BURST_STEPS - 1) as nat);
}

/// A recentring takes small steps: none is longer than a share of the way, and the rest of
/// the division by the number of steps.
pub proof fn recentring_takes_small_steps(total: int, i: int)
    requires
        0 <= i < BURST_STEPS,
    ensures
        total >= 0 ==> -(total / BURST_STEPS as int + BURST_STEPS - 1) <= burst_step(total, i) <= 0,
        total <= 0 ==> 0 <= burst_step(total, i) <= (-total) / BURST_STEPS as int + BURST_STEPS - 1,
{
}

/// The gyro's bias adapts to a reading of an axis: the axis is still, or the bias adapts fast.
pub open spec fn adapts(reading: i16, fast: bool) -> bool {
    -STILLNESS_THRESHOLD < reading < STILLNESS_THRESHOLD || fast
}

/// Whether the gyro's bias adapts to a reading of an axis.
pub fn bias_adapts(reading: i16, fast: bool) -> (r: bool)
    ensures
        r == adapts(reading, fast),
{
    (-STILLNESS_THRESHOLD < reading && reading < STILLNESS_THRESHOLD) || fast
}

/// What becomes of the gyro's move in a frame.
#[derive(Debug, Clone, Copy, PartialEq, Eq, Structural)]
pub enum GyroUse {
    /// It is sent as a relative move.
    Relative,
    /// It moves the cursor position that is kept.
    Kept,
    /// It is dropped.
    Dropped,
}

/// What the beginning of a frame leads to.
#[derive(Debug, Clone, Copy, PartialEq, Eq)]
pub struct RawBegin {
    /// What was left of a pixel is forgotten.
    pub reset_remainder: bool,
    /// Calibrating has started.
    pub entered: bool,
    /// The gyro recalibrates, and these moves are to be undone.
    pub recenter: Option<(i32, i32)>,
}

/// A session of the mode, for a caller to whom `P` is an averaged camera reading.
#[derive(Debug, Clone, Copy, PartialEq, Eq)]
pub struct RawSession<P> {
    /// There is a camera tracker.
    pub camera: bool,
    pub last_ps_guide: bool,
    pub stick: RightStick,
    pub calib: Calibration<P>,
    pub held: HeldState,
    /// Until when the gyro's bias adapts fast.
    pub fast_until: Option<u128>,
    /// The relative moves sent since the last recentring, added up.
    pub moved_x: i32,
    pub moved_y: i32,
}

impl<P: Copy> RawSession<P> {
    pub open spec fn wf(self) -> bool {
        self.calib.wf()
    }

    pub fn new(camera: bool) -> (l: RawSession<P>)
        ensures
            l.wf(),
            l.camera == camera,
            !l.last_ps_guide,
            l.stick == (RightStick { last: false, held_since: None }),
            l.calib == (Calibration::<P> {
                step: CalibStep::Idle,
                top_left: None,
                top_right: None,
                bottom_left: None,
                bottom_right: None,
                last_trigger: false,
                sample_since: None,
                sample_count: 0,
                suppress_trigger: false,
            }),
            l.held == HeldState::nothing(),
            l.fast_until is None,
            l.moved_x == 0,
            l.moved_y == 0,
    {
        RawSession {
            camera,
            last_ps_guide: false,
            stick: RightStick::new(),
            calib: Calibration::new(),
            held: HeldState::new(),
            fast_until: None,
            moved_x: 0,
            moved_y: 0,
        }
    }

    /// What the right stick's click means in a frame.
    pub open spec fn stick_action(self, s: AimState, now: u64) -> StickAction {
        self.stick.action(s.r3, self.camera && self.calib.step == CalibStep::Idle, now)
    }

    /// Whether a frame recalibrates the gyro: the right stick was tapped, and not in the
    /// middle of calibrating the camera.
    pub open spec fn recalibrates(self, s: AimState, now: u64) -> bool {
        self.stick_action(s, now) == StickAction::Tap && self.calib.step == CalibStep::Idle
    }

    /// What the beginning of a frame leads to.
    pub open spec fn begun(self, s: AimState, now: u64) -> RawBegin {
        RawBegin {
            reset_remainder: s.ps_guide && !self.last_ps_guide,
            entered: self.stick_action(s, now) == StickAction::EnterCalibration,
            recenter: if self.recalibrates(s, now) {
                Some((self.moved_x, self.moved_y))
            } else {
                None
            },
        }
    }

    /// The session after the beginning of a frame.
    pub open spec fn after_begin(self, s: AimState, now: u64) -> RawSession<P> {
        let recalibrates = self.recalibrates(s, now);
        RawSession {
            last_ps_guide: s.ps_guide,
            stick: self.stick.after(
                s.r3,
                self.camera && self.calib.step == CalibStep::Idle,
                now,
            ),
            calib: if self.begun(s, now).entered {
                Calibration { step: CalibStep::WaitingTopLeft, ..self.calib }
            } else {
                self.calib
            },
            fast_until: if recalibrates {
                Some(clock::later(now, FAST_RECALIBRATE_MS) as u128)
            } else {
                self.fast_until
            },
            moved_x: if recalibrates {
                0
            } else {
                self.moved_x
            },
            moved_y: if recalibrates {
                0
            } else {
                self.moved_y
            },
            ..self
        }
    }

    /// Begins a frame.
    pub fn begin(&mut self, s: &AimState, now: u64) -> (r: RawBegin)
        ensures
            old(self).wf() ==> final(self).wf(),
            r == old(self).begun(*s, now),
            *final(self) == old(self).after_begin(*s, now),
    {
        let reset_remainder = s.ps_guide && !self.last_ps_guide;
        self.last_ps_guide = s.ps_guide;
        let can_calibrate = self.camera && self.calib.idle();
        let action = self.stick.step(s.r3, can_calibrate, now);
        let entered = action == StickAction::EnterCalibration;
        if entered {
            self.calib.enter();
        }
        let mut recenter: Option<(i32, i32)> = None;
        if action == StickAction::Tap && self.calib.idle() {
            self.fast_until = Some(clock::deadline(now, FAST_RECALIBRATE_MS));
            recenter = Some((self.moved_x, self.moved_y));
            self.moved_x = 0;
            self.moved_y = 0;
        }
        RawBegin { reset_remainder, entered, recenter }
    }

    /// What is to be done with a frame's camera reading.
    pub open spec fn sample_step(self, s: AimState, visible: bool, now: u64) -> SampleStep {
        self.calib.timed_step(self.camera, s.r2_click, visible, now)
    }

    /// The session after a frame's camera reading.
    pub open spec fn after_sample(self, s: AimState, visible: bool, now: u64) -> RawSession<P> {
        RawSession {
            calib: self.calib.after_timed_step(self.camera, s.r2_click, visible, now),
            ..self
        }
    }

    /// The session after the part of a frame that calibrates.
    pub open spec fn after_sampling(self, s: AimState) -> RawSession<P> {
        RawSession { calib: self.calib.after_frame(s.r2_click, s.r2_click), ..self }
    }

    /// What is to be done with a frame's camera reading; `visible` says that there is one.
    /// Readings are averaged for a while from the moment the trigger is pulled.
    pub fn sample(&mut self, s: &AimState, visible: bool, now: u64) -> (r: SampleStep)
        requires
            old(self).calib.counts_on(old(self).camera, s.r2_click, visible) ==> old(
                self,
            ).calib.sample_count < u32::MAX,
        ensures
            old(self).wf() ==> final(self).wf(),
            r == old(self).sample_step(*s, visible, now),
            *final(self) == old(self).after_sample(*s, visible, now),
            r.outcome == SampleOutcome::Capture ==> final(self).calib.step != CalibStep::Idle,
    {
        self.calib.sample_for_a_while(self.camera, s.r2_click, visible, now)
    }

    /// Ends the part of a frame that calibrates.
    pub fn end_sampling(&mut self, s: &AimState)
        ensures
            old(self).wf() ==> final(self).wf(),
            *final(self) == old(self).after_sampling(*s),
    {
        self.calib.end_frame(s.r2_click, s.r2_click);
    }

    /// Whether the gyro's bias adapts fast in a frame.
    pub open spec fn adapts_fast(self, now: u64) -> bool {
        self.fast_until matches Some(t) && now < t
    }

    /// The session after that has been asked.
    pub open spec fn after_fast(self, now: u64) -> RawSession<P> {
        if self.adapts_fast(now) {
            self
        } else {
            RawSession { fast_until: None, ..self }
        }
    }

    /// Whether the gyro's bias adapts fast in a frame.
    pub fn fast(&mut self, now: u64) -> (r: bool)
        ensures
            r == old(self).adapts_fast(now),
            *final(self) == old(self).after_fast(now),
    {
        match self.fast_until {
            Some(t) => if (now as u128) < t {
                true
            } else {
                self.fast_until = None;
                false
            },
            None => false,
        }
    }

    /// What becomes of the gyro's move in a frame: with a camera, it counts only while the
    /// camera does not see the sphere and is not being calibrated.
    pub open spec fn use_of_gyro(self, visible: bool) -> GyroUse {
        if !self.camera {
            GyroUse::Relative
        } else if !visible && self.calib.step == CalibStep::Idle {
            GyroUse::Kept
        } else {
            GyroUse::Dropped
        }
    }

    /// What becomes of the gyro's move in a frame.
    pub fn gyro_use(&self, visible: bool) -> (r: GyroUse)
        ensures
            r == self.use_of_gyro(visible),
    {
        if !self.camera {
            GyroUse::Relative
        } else if !visible && self.calib.idle() {
            GyroUse::Kept
        } else {
            GyroUse::Dropped
        }
    }

    /// What becomes of the gyro's move in a frame, unless input is paused.
    pub open spec fn gyro_used(self, input_disabled: bool, visible: bool) -> Option<GyroUse> {
        if input_disabled {
            None
        } else {
            Some(self.use_of_gyro(visible))
        }
    }

    /// What becomes of the gyro's move in a frame, unless input is paused: then the gyro does
    /// not move at all.
    pub fn gyro_step(&self, input_disabled: bool, visible: bool) -> (r: Option<GyroUse>)
        ensures
            r == self.gyro_used(input_disabled, visible),
    {
        if input_disabled {
            None
        } else {
            Some(self.gyro_use(visible))
        }
    }

    /// The session after a relative move has been sent.
    pub open spec fn after_move(self, dx: i32, dy: i32) -> RawSession<P> {
        RawSession {
            moved_x: (self.moved_x + dx) as i32,
            moved_y: (self.moved_y + dy) as i32,
            ..self
        }
    }

    /// Notes that a relative move has been sent.
    pub fn note_move(&mut self, dx: i32, dy: i32)
        requires
            i32::MIN <= old(self).moved_x + dx <= i32::MAX,
            i32::MIN <= old(self).moved_y + dy <= i32::MAX,
        ensures
            *final(self) == old(self).after_move(dx, dy),
    {
        self.moved_x = self.moved_x + dx;
        self.moved_y = self.moved_y + dy;
    }

    /// What is held after a frame.
    pub open spec fn held_after(self, s: AimState, input_disabled: bool) -> HeldState {
        if input_disabled {
            HeldState::nothing()
        } else {
            HeldState::wanted(s, self.calib.is_armed(false))
        }
    }

    /// The events of a frame's keys and mouse buttons.
    pub open spec fn frame_events(self, s: AimState, input_disabled: bool) -> Seq<InputEvent> {
        changes(
            if input_disabled {
                release_order()
            } else {
                update_order()
            },
            self.held,
            self.held_after(s, input_disabled),
        )
    }

    /// The events of a frame's keys and mouse buttons. Paused input holds nothing.
    pub fn press(&mut self, s: &AimState, input_disabled: bool) -> (events: Vec<InputEvent>)
        ensures
            events@ == old(self).frame_events(*s, input_disabled),
            *final(self) == (RawSession::<P> {
                held: old(self).held_after(*s, input_disabled),
                ..*old(self)
            }),
    {
        if input_disabled {
            self.held.release_all()
        } else {
            let armed = self.calib.armed(false);
            self.held.update(s, armed)
        }
    }

    /// The session once everything is let go.
    pub open spec fn released(self) -> RawSession<P> {
        RawSession { held: HeldState::nothing(), ..self }
    }

    /// The events by which everything is let go.
    pub open spec fn release_events(self) -> Seq<InputEvent> {
        changes(release_order(), self.held, HeldState::nothing())
    }

    /// The session after what the gun has just done.
    pub open spec fn after_gun(self, action: GunAction) -> RawSession<P> {
        if action is Paused {
            self.released()
        } else {
            self
        }
    }

    /// The events that go with what the gun has just done.
    pub open spec fn gun_events(self, action: GunAction) -> Seq<InputEvent> {
        if action is Paused {
            self.release_events()
        } else {
            Seq::empty()
        }
    }

    /// The events that go with what the gun has just done: when input is paused, everything is
    /// let go.
    pub fn follow_gun(&mut self, action: GunAction) -> (events: Vec<InputEvent>)
        ensures
            *final(self) == old(self).after_gun(action),
            events@ == old(self).gun_events(action),
    {
        match action {
            GunAction::Paused(_) => self.held.release_all(),
            _ => Vec::new(),
        }
    }

    /// Lets everything go, and returns the events to send.
    pub fn release(&mut self) -> (events: Vec<InputEvent>)
        ensures
            *final(self) == old(self).released(),
            events@ == old(self).release_events(),
    {
        self.held.release_all()
    }
}

/// The right stick does not disturb a calibration that is under way: clicking it neither
/// recalibrates the gyro nor recentres, nor does it start calibrating again.
pub proof fn calibration_is_undisturbed<P: Copy>(l: RawSession<P>, s: AimState, now: u64)
    requires
        l.calib.step != CalibStep::Idle,
    ensures
        !l.recalibrates(s, now),
        l.stick_action(s, now) != StickAction::EnterCalibration,
{
}

/// How far the cursor may be from where it was put before someone else has moved it, in
/// pixels.
pub const REAL_MOUSE_TOLERANCE_PX: i64 = 4;

/// Milliseconds for which a real mouse that was moved keeps the cursor.
pub const REAL_MOUSE_GRACE_MS: u64 = 1500;

/// Who moves the cursor now.
#[derive(Debug, Clone, Copy, PartialEq, Eq)]
pub enum CursorTurn {
    /// A real mouse. Where the cursor is, as far as that is known, is taken over.
    RealMouse(Option<(i32, i32)>),
    /// This mode.
    Ours,
}

/// Keeps the cursor where the camera points, but gives way to a real mouse.
#[derive(Debug, Clone, Copy, PartialEq, Eq)]
pub struct CursorKeeper {
    /// Where the cursor was put.
    pub last_sent: Option<(i32, i32)>,
    /// Until when a real mouse keeps the cursor.
    pub real_mouse_until: Option<u128>,
}

/// The two positions are further apart than rounding explains.
pub open spec fn apart(a: (i32, i32), b: (i32, i32)) -> bool {
    ||| a.0 - b.0 > REAL_MOUSE_TOLERANCE_PX
    ||| b.0 - a.0 > REAL_MOUSE_TOLERANCE_PX
    ||| a.1 - b.1 > REAL_MOUSE_TOLERANCE_PX
    ||| b.1 - a.1 > REAL_MOUSE_TOLERANCE_PX
}

/// Whether two positions are further apart than rounding explains.
fn far(a: (i32, i32), b: (i32, i32)) -> (r: bool)
    ensures
        r == apart(a, b),
{
    let dx: i64 = a.0 as i64 - b.0 as i64;
    let dy: i64 = a.1 as i64 - b.1 as i64;
    dx > REAL_MOUSE_TOLERANCE_PX || -dx > REAL_MOUSE_TOLERANCE_PX || dy > REAL_MOUSE_TOLERANCE_PX
        || -dy > REAL_MOUSE_TOLERANCE_PX
}

impl CursorKeeper {
    pub fn new() -> (k: CursorKeeper)
        ensures
            k.last_sent is None,
            k.real_mouse_until is None,
    {
        CursorKeeper { last_sent: None, real_mouse_until: None }
    }

    /// A real mouse has moved the cursor, which is at `cursor` now.
    pub open spec fn disturbed(self, cursor: Option<(i32, i32)>) -> bool {
        match (cursor, self.last_sent) {
            (Some(c), Some(s)) => apart(c, s),
            _ => false,
        }
    }

    /// Until when a real mouse keeps the cursor, as a tick finds it.
    pub open spec fn until(
        self,
        cursor: Option<(i32, i32)>,
        gyro_moved: bool,
        now: u64,
    ) -> Option<u128> {
        if gyro_moved {
            None
        } else if self.disturbed(cursor) {
            Some(clock::later(now, REAL_MOUSE_GRACE_MS) as u128)
        } else {
            self.real_mouse_until
        }
    }

    pub open spec fn turn(
        self,
        cursor: Option<(i32, i32)>,
        gyro_moved: bool,
        now: u64,
    ) -> CursorTurn {
        if self.until(cursor, gyro_moved, now) matches Some(t) && now < t {
            CursorTurn::RealMouse(cursor)
        } else {
            CursorTurn::Ours
        }
    }

    pub open spec fn after(
        self,
        cursor: Option<(i32, i32)>,
        gyro_moved: bool,
        now: u64,
    ) -> CursorKeeper {
        CursorKeeper {
            last_sent: match (self.turn(cursor, gyro_moved, now), cursor) {
                (CursorTurn::RealMouse(_), Some(c)) => Some(c),
                _ => self.last_sent,
            },
            real_mouse_until: self.until(cursor, gyro_moved, now),
        }
    }

    /// One tick: `cursor` is where the cursor is, if that is known, and `gyro_moved` says that
    /// the gyro has moved since the last tick, which takes the cursor back at once.
    pub fn tick(&mut self, cursor: Option<(i32, i32)>, gyro_moved: bool, now: u64) -> (turn:
        CursorTurn)
        ensures
            turn == old(self).turn(cursor, gyro_moved, now),
            *final(self) == old(self).after(cursor, gyro_moved, now),
    {
        let active = match (cursor, self.last_sent) {
            (Some(c), Some(s)) => far(c, s),
            _ => false,
        };
        if active {
            self.real_mouse_until = Some(clock::deadline(now, REAL_MOUSE_GRACE_MS));
        }
        if gyro_moved {
            self.real_mouse_until = None;
        }
        let deferring = match self.real_mouse_until {
            Some(t) => (now as u128) < t,
            None => false,
        };
        if deferring {
            if cursor.is_some() {
                self.last_sent = cursor;
            }
            CursorTurn::RealMouse(cursor)
        } else {
            CursorTurn::Ours
        }
    }

    /// The keeper after the cursor was put somewhere and is at `at`.
    pub open spec fn after_sent(self, known: bool, at: (i32, i32)) -> CursorKeeper {
        CursorKeeper {
            last_sent: if known {
                Some(at)
            } else {
                None
            },
            ..self
        }
    }

    /// Notes that the cursor was put somewhere and is at `at` now. `known` says that its
    /// position was known before.
    pub fn sent(&mut self, known: bool, at: (i32, i32))
        ensures
            *final(self) == old(self).after_sent(known, at),
    {
        self.last_sent = if known {
            Some(at)
        } else {
            None
        };
    }

    /// The keeper after ticks without gyro moves, each with the cursor's position and its
    /// time, in which a real mouse has its turn.
    pub open spec fn ticks(self, ts: Seq<(Option<(i32, i32)>, u64)>) -> CursorKeeper
        decreases ts.len(),
    {
        if ts.len() == 0 {
            self
        } else {
            self.ticks(ts.drop_last()).after(ts.last().0, false, ts.last().1)
        }
    }
}

proof fn lemma_grace(k: CursorKeeper, start: u64, ts: Seq<(Option<(i32, i32)>, u64)>)
    requires
        k.real_mouse_until matches Some(t) && t >= clock::later(start, REAL_MOUSE_GRACE_MS),
        forall|i: int| 0 <= i < ts.len() ==> start <= (#[trigger] ts[i]).1,
    ensures
        k.ticks(ts).real_mouse_until matches Some(t) && t >= clock::later(
            start,
            REAL_MOUSE_GRACE_MS,
        ),
    decreases ts.len(),
{
    if ts.len() > 0 {
        let fewer = ts.drop_last();
        assert forall|i: int| 0 <= i < fewer.len() implies start <= (#[trigger] fewer[i]).1 by {
            assert(ts[i].1 >= start);
        }
        lemma_grace(k, start, fewer);
        assert(ts[ts.len() - 1].1 >= start);
    }
}

/// A real mouse keeps the cursor: from the moment `start` at which it is seen to have moved
/// it, every tick within the grace period leaves the cursor to it, unless the gyro moves;
/// and when the gyro moves, the tick takes the cursor back at once.
pub proof fn real_mouse_keeps_the_cursor(
    k: CursorKeeper,
    cursor: Option<(i32, i32)>,
    start: u64,
    ts: Seq<(Option<(i32, i32)>, u64)>,
    here: Option<(i32, i32)>,
    now: u64,
)
    requires
        k.disturbed(cursor),
        forall|i: int| 0 <= i < ts.len() ==> start <= (#[trigger] ts[i]).1,
        start <= now < clock::later(start, REAL_MOUSE_GRACE_MS),
    ensures
        k.turn(cursor, false, start) == CursorTurn::RealMouse(cursor),
        k.after(cursor, false, start).ticks(ts).turn(here, false, now) == CursorTurn::RealMouse(
            here,
        ),
        k.after(cursor, false, start).ticks(ts).turn(here, true, now) == CursorTurn::Ours,
{
    lemma_grace(k.after(cursor, false, start), start, ts);
}

/// A mouse that rests gives the cursor back: a tick that finds it where the last one left it
/// does not prolong the grace period.
pub proof fn resting_mouse_gives_way(
    k: CursorKeeper,
    at: (i32, i32),
    before: u64,
    now: u64,
)
    requires
        k.turn(Some(at), false, before) == CursorTurn::RealMouse(Some(at)),
    ensures
        !k.after(Some(at), false, before).disturbed(Some(at)),
        k.after(Some(at), false, before).until(Some(at), false, now) == k.until(
            Some(at),
            false,
            before,
        ),
{
}

/// What a frame sends is what is held: whoever receives its events sees nothing held while
/// input is paused, and otherwise the left mouse button exactly while R2 is clicked, no
/// calibration is under way and the pull that ended one has been let go, the right one exactly
/// while L2 is clicked, and Space exactly while Cross is pressed.
pub proof fn frames_are_passed_on<P: Copy>(l: RawSession<P>, s: AimState, paused: bool)
    ensures
        ({
            let seen = applied(l.held.held(), l.frame_events(s, paused));
            &&& paused ==> seen == Set::<Target>::empty()
            &&& !paused ==> {
                &&& seen.contains(Target::LeftButton) <==> s.r2_click && l.calib.step
                    == CalibStep::Idle && !l.calib.suppress_trigger
                &&& seen.contains(Target::RightButton) <==> s.l2_click
                &&& seen.contains(Target::Key(0x20)) <==> s.cross
            }
            &&& seen == l.held_after(s, paused).held()
        }),
{
    if paused {
        releasing_lets_everything_go(l.held);
        events_lead_to_the_new_state(l.held, HeldState::nothing());
    } else {
        controls_are_passed_on(l.held, s, l.calib.is_armed(false));
        events_lead_to_the_new_state(l.held, HeldState::wanted(s, l.calib.is_armed(false)));
    }
}

/// A tap of the right stick recalibrates the gyro and recentres: the moves that are to be undone
/// are all those noted since the last time, they start from nothing again, and for 600 ms from
/// then on the bias adapts fast.
pub proof fn tap_recalibrates<P: Copy>(
    l: RawSession<P>,
    s: AimState,
    t: AimState,
    now: u64,
    released: u64,
    at: u64,
)
    requires
        l.calib.step == CalibStep::Idle,
        !l.stick.last,
        s.r3,
        !t.r3,
        now <= released < now + 800_000_000,
    ensures
        ({
            let held = l.after_begin(s, now);
            let end = held.after_begin(t, released);
            &&& l.begun(s, now).recenter is None
            &&& held.begun(t, released).recenter == Some((l.moved_x, l.moved_y))
            &&& end.moved_x == 0 && end.moved_y == 0
            &&& end.adapts_fast(at) <==> at < released + 600_000_000
            &&& end.begun(t, at).recenter is None
            &&& end.calib == l.calib && end.held == l.held
        }),
{
}

/// Calibrating starts with a hold of the right stick of 800 ms, if there is a camera and no
/// calibration under way, and then waits for the top left corner; that hold recentres
/// nothing, and is used up. What is left of a pixel is forgotten once for each press of the PS button.
pub proof fn hold_starts_calibrating<P: Copy>(
    l: RawSession<P>,
    s: AimState,
    t: AimState,
    now: u64,
    later: u64,
)
    ensures
        l.begun(s, now).entered ==> l.camera && l.calib.step == CalibStep::Idle && s.r3,
        l.begun(s, now).entered <==> l.after_begin(s, now).calib != l.calib,
        l.begun(s, now).entered ==> l.after_begin(s, now).calib.step == CalibStep::WaitingTopLeft,
        l.begun(s, now).entered && !t.r3 ==> l.after_begin(s, now).begun(t, later).recenter is None,
        l.begun(s, now).entered ==> l.after_begin(s, now).stick.action(t.r3, true, later)
            == StickAction::Nothing,
        !l.stick.last && s.r3 && t.r3 && l.camera && l.calib.step == CalibStep::Idle ==> (
        l.after_begin(s, now).begun(t, later).entered <==> later >= now + 800_000_000),
        s.ps_guide && !l.last_ps_guide ==> l.begun(s, now).reset_remainder,
        !s.ps_guide ==> !l.begun(s, now).reset_remainder,
        l.after_begin(s, now).begun(t, later).reset_remainder <==> t.ps_guide && !s.ps_guide,
{
}

/// The trigger's click confirms a point: while a calibration with a camera is under way, a
/// frame with it, and only such a frame, adds its reading, if there is one.
pub proof fn click_confirms<P: Copy>(l: RawSession<P>, s: AimState, visible: bool, now: u64)
    requires
        l.calib.step != CalibStep::Idle,
        l.camera,
    ensures
        l.sample_step(s, visible, now).add <==> s.r2_click && visible,
        l.sample_step(s, visible, now).clear <==> s.r2_click && !l.calib.last_trigger,
        !s.r2_click ==> l.sample_step(s, visible, now).outcome == SampleOutcome::Pending
            && l.after_sample(s, visible, now) == l,
        l.after_sampling(s).calib.last_trigger == s.r2_click,
        l.after_sampling(s).calib.suppress_trigger == (l.calib.suppress_trigger && s.r2_click),
        l.after_sampling(s).calib.step == l.calib.step,
        l.after_sample(s, visible, now).calib.step == l.calib.step,
{
}

/// The camera comes first: the gyro moves the mouse itself only where there is none, and with
/// one it moves the kept position exactly while the sphere is not seen and no calibration is
/// under way.
pub proof fn camera_comes_first<P: Copy>(l: RawSession<P>, visible: bool)
    ensures
        l.use_of_gyro(visible) == GyroUse::Relative <==> !l.camera,
        l.use_of_gyro(visible) == GyroUse::Kept <==> l.camera && !visible && l.calib.step
            == CalibStep::Idle,
{
}

/// Positions count as apart when they differ by more than 4 pixels on either axis, whichever
/// comes first and wherever on the screen they are.
pub proof fn apart_means_more_than_four_pixels(a: (i32, i32), b: (i32, i32))
    ensures
        !apart(a, b) <==> -4 <= a.0 - b.0 <= 4 && -4 <= a.1 - b.1 <= 4,
        apart(a, b) == apart(b, a),
        !apart(a, a),
{
}

/// The cursor comes back: a tick that finds it undisturbed 1500 ms or more after a real mouse
/// was last seen to move it takes it, and one that leaves it to the mouse remembers where it
/// is, if that is known. Where nothing was put yet, or the position is not known, nothing
/// counts as disturbed.
pub proof fn cursor_comes_back(
    k: CursorKeeper,
    cursor: Option<(i32, i32)>,
    here: Option<(i32, i32)>,
    start: u64,
    now: u64,
)
    ensures
        k.disturbed(cursor) && !k.after(cursor, false, start).disturbed(here) ==> (k.after(
            cursor,
            false,
            start,
        ).turn(here, false, now) == CursorTurn::Ours <==> now >= start + 1_500_000_000),
        k.disturbed(cursor) ==> k.after(cursor, false, start).last_sent == cursor,
        k.turn(cursor, false, now) == CursorTurn::Ours || cursor is None ==> k.after(
            cursor,
            false,
            now,
        ).last_sent == k.last_sent,
        k.turn(cursor, false, now) != CursorTurn::Ours ==> k.turn(cursor, false, now)
            == CursorTurn::RealMouse(cursor) && (cursor is Some ==> k.after(
            cursor,
            false,
            now,
        ).last_sent == cursor),
        !k.disturbed(cursor) && k.real_mouse_until is None ==> k.turn(cursor, false, now)
            == CursorTurn::Ours,
        k.last_sent is None || cursor is None ==> !k.disturbed(cursor),
        k.turn(cursor, true, now) == CursorTurn::Ours,
        k.after(cursor, true, now).real_mouse_until is None,
{
}

/// The sum of moves along the horizontal axis.
pub open spec fn sum_x(steps: Seq<(i32, i32)>) -> int
    decreases steps.len(),
{
    if steps.len() == 0 {
        0
    } else {
        sum_x(steps.drop_last()) + steps.last().0
    }
}

/// The sum of moves along the vertical axis.
pub open spec fn sum_y(steps: Seq<(i32, i32)>) -> int
    decreases steps.len(),
{
    if steps.len() == 0 {
        0
    } else {
        sum_y(steps.drop_last()) + steps.last().1
    }
}

proof fn lemma_sums(steps: Seq<(i32, i32)>, dx: i32, dy: i32, n: nat)
    requires
        is_recentring(steps, dx, dy),
        n <= steps.len(),
    ensures
        sum_x(steps.take(n as int)) == burst_sum(dx as int, n),
        sum_y(steps.take(n as int)) == burst_sum(dy as int, n),
    decreases n,
{
    if n > 0 {
        lemma_sums(steps, dx, dy, (n - 1) as nat);
        assert(steps.take(n as int).drop_last() =~= steps.take(n - 1));
        assert(steps.take(n as int).last() == steps[n - 1]);
    }
}

/// A recentring leads back along both axes: its moves add up to the opposite of the moves that
/// it undoes, in 40 steps, or in none where there is nothing to undo. All steps but the last
/// are equal shares, none of which is longer than a fortieth of the way.
pub proof fn recentring_leads_back(steps: Seq<(i32, i32)>, dx: i32, dy: i32)
    requires
        is_recentring(steps, dx, dy),
    ensures
        sum_x(steps) == -dx,
        sum_y(steps) == -dy,
        steps.len() == if dx == 0 && dy == 0 {
            0nat
        } else {
            40
        },
        forall|i: int, j: int|
            0 <= i < steps.len() - 1 && 0 <= j < steps.len() - 1 ==> #[trigger] steps[i]
                == #[trigger] steps[j],
        steps.len() > 0 ==> {
            &&& dx >= 0 ==> -dx <= 40 * steps[0].0 <= 0
            &&& dx <= 0 ==> 0 <= 40 * steps[0].0 <= -dx
            &&& dy >= 0 ==> -dy <= 40 * steps[0].1 <= 0
            &&& dy <= 0 ==> 0 <= 40 * steps[0].1 <= -dy
        },
{
    if dx != 0 || dy != 0 {
        lemma_sums(steps, dx, dy, 40);
        assert(steps.take(40) =~= steps);
        recentring_undoes_the_moves(dx as int);
        recentring_undoes_the_moves(dy as int);
    }
}

/// What moves is sent: only a move of nothing along both axes is not.
pub proof fn every_move_is_sent(dx: i32, dy: i32)
    ensures
        !is_move(dx, dy) <==> dx == 0 && dy == 0,
        is_move(dx, dy) == is_move(dy, dx),
{
}

/// A bias that adapts fast adapts to every reading, and one that does not adapts exactly to
/// those below 30 either way.
pub proof fn small_readings_are_bias(reading: i16)
    ensures
        adapts(reading, true),
        adapts(reading, false) <==> -30 < reading < 30,
{
}

/// Asking whether the bias adapts fast changes no later answer.
pub proof fn asking_changes_nothing<P: Copy>(l: RawSession<P>, now: u64, at: u64)
    requires
        now <= at,
    ensures
        l.after_fast(now).adapts_fast(at) == l.adapts_fast(at),
        l.adapts_fast(at) ==> l.adapts_fast(now),
        l.after_fast(now).held == l.held && l.after_fast(now).calib == l.calib,
{
}

/// Moves add up until they are undone: what a tap undoes after two more moves is all of what
/// it would have undone before them, and these two, each along its axis.
pub proof fn moves_add_up<P: Copy>(
    l: RawSession<P>,
    a: (i32, i32),
    b: (i32, i32),
    s: AimState,
    now: u64,
)
    requires
        i32::MIN <= l.moved_x + a.0 <= i32::MAX,
        i32::MIN <= l.moved_y + a.1 <= i32::MAX,
        i32::MIN <= l.moved_x + a.0 + b.0 <= i32::MAX,
        i32::MIN <= l.moved_y + a.1 + b.1 <= i32::MAX,
    ensures
        ({
            let end = l.after_move(a.0, a.1).after_move(b.0, b.1);
            &&& end.begun(s, now).recenter is Some <==> l.begun(s, now).recenter is Some
            &&& end.begun(s, now).recenter matches Some((x, y)) ==> {
                &&& x == l.moved_x + a.0 + b.0
                &&& y == l.moved_y + a.1 + b.1
            }
            &&& end.held == l.held && end.calib == l.calib
        }),
{
}

/// The gyro rests while input is paused, and only then.
pub proof fn paused_gyro_rests<P: Copy>(l: RawSession<P>, paused: bool, visible: bool)
    ensures
        l.gyro_used(paused, visible) is None <==> paused,
        l.gyro_used(paused, visible) == Some(GyroUse::Relative) <==> !paused && !l.camera,
        l.gyro_used(paused, visible) == Some(GyroUse::Kept) <==> !paused && l.camera && !visible
            && l.calib.step == CalibStep::Idle,
{
}

/// When the gun pauses input, everything is let go: whoever receives the events sees nothing
/// held, and nothing is held. Whatever else the gun does sends nothing and leaves all as it
/// is. Letting go for its own sake does the same as pausing.
pub proof fn pausing_lets_everything_go<P: Copy>(l: RawSession<P>, action: GunAction)
    ensures
        ({
            let seen = applied(l.held.held(), l.gun_events(action));
            &&& action is Paused ==> seen == Set::<Target>::empty() && l.after_gun(action)
                == l.released()
            &&& !(action is Paused) ==> l.gun_events(action).len() == 0 && l.after_gun(action) == l
            &&& seen == l.after_gun(action).held.held()
            &&& l.after_gun(action).calib == l.calib
            &&& applied(l.held.held(), l.release_events()) == Set::<Target>::empty()
            &&& l.released().held.held() == Set::<Target>::empty()
        }),
{
    releasing_lets_everything_go(l.held);
    assert(HeldState::nothing().held() =~= Set::<Target>::empty());
}

/// A cursor that stays where it was put is not taken for a moved mouse, and one that is found
/// more than 4 pixels away is; where its position was not known, nothing is.
pub proof fn own_moves_are_not_taken_for_a_mouse(
    k: CursorKeeper,
    at: (i32, i32),
    found: (i32, i32),
)
    ensures
        !k.after_sent(true, at).disturbed(Some(at)),
        k.after_sent(true, at).disturbed(Some(found)) <==> !(-4 <= at.0 - found.0 <= 4 && -4 <= at.1
            - found.1 <= 4),
        !k.after_sent(false, at).disturbed(Some(found)),
        k.after_sent(true, at).real_mouse_until == k.real_mouse_until,
{
}

} // verus!
