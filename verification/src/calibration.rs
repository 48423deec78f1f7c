//! Calibrating the camera: the player points at the four corners of the screen and at its
//! centre in turn, and confirms each with the trigger.
//!
//! Holding the right stick starts the sequence; a tap of it means something else. Camera
//! readings are averaged over a pull of the trigger. How readings are added up and what
//! the corners make of the mapping is left to the caller, for whom `P` is an averaged
//! reading; this module decides when a reading counts, which point it belongs to, and what
//! the trigger means meanwhile.

use crate::clock;
use vstd::prelude::*;

verus! {

/// Milliseconds for which the right stick is held to start calibrating.
pub const ENTER_HOLD_MS: u64 = 800;

/// Milliseconds over which readings are averaged in the mouse and keyboard mode.
pub const SAMPLE_MS: u64 = 200;

/// Pull of the analog trigger above which it counts as pulled in the gamepad mode.
pub const PULL_THRESHOLD: u8 = 60;

/// The point that the player is to confirm next.
#[derive(Debug, Clone, Copy, PartialEq, Eq, Structural)]
pub enum CalibStep {
    /// None: no calibration is under way.
    Idle,
    WaitingTopLeft,
    WaitingTopRight,
    WaitingBottomLeft,
    WaitingBottomRight,
    WaitingCenter,
}

impl CalibStep {
    pub open spec fn code(self) -> int {
        match self {
            CalibStep::Idle => 0,
            CalibStep::WaitingTopLeft => 1,
            CalibStep::WaitingTopRight => 2,
            CalibStep::WaitingBottomLeft => 3,
            CalibStep::WaitingBottomRight => 4,
            CalibStep::WaitingCenter => 5,
        }
    }

    /// The step's number, by which threads tell each other.
    pub fn to_code(self) -> (code: i32)
        ensures
            code == self.code(),
    {
        match self {
            CalibStep::Idle => 0,
            CalibStep::WaitingTopLeft => 1,
            CalibStep::WaitingTopRight => 2,
            CalibStep::WaitingBottomLeft => 3,
            CalibStep::WaitingBottomRight => 4,
            CalibStep::WaitingCenter => 5,
        }
    }

    /// Whether a step's number means that calibration is under way.
    pub fn code_is_calibrating(code: i32) -> (r: bool)
        ensures
            r <==> exists|step: CalibStep| step != CalibStep::Idle && #[trigger] step.code() == code,
    {
        proof {
            assert(CalibStep::WaitingTopLeft.code() == 1);
            assert(CalibStep::WaitingTopRight.code() == 2);
            assert(CalibStep::WaitingBottomLeft.code() == 3);
            assert(CalibStep::WaitingBottomRight.code() == 4);
            assert(CalibStep::WaitingCenter.code() == 5);
        }
        1 <= code && code <= 5
    }

    /// Where the cursor stands still while the step waits, in the coordinates of absolute
    /// mouse moves, which run from 0 to 65535 over the screen.
    pub open spec fn anchor_point(self) -> Option<(i32, i32)> {
        match self {
            CalibStep::Idle => None,
            CalibStep::WaitingTopLeft => Some((0, 0)),
            CalibStep::WaitingTopRight => Some((65535, 0)),
            CalibStep::WaitingBottomLeft => Some((0, 65535)),
            CalibStep::WaitingBottomRight => Some((65535, 65535)),
            CalibStep::WaitingCenter => Some((32768, 32768)),
        }
    }

    /// Where the cursor stands still while the step waits.
    pub fn anchor(self) -> (r: Option<(i32, i32)>)
        ensures
            r == self.anchor_point(),
    {
        match self {
            CalibStep::Idle => None,
            CalibStep::WaitingTopLeft => Some((0, 0)),
            CalibStep::WaitingTopRight => Some((65535, 0)),
            CalibStep::WaitingBottomLeft => Some((0, 65535)),
            CalibStep::WaitingBottomRight => Some((65535, 65535)),
            CalibStep::WaitingCenter => Some((32768, 32768)),
        }
    }
}

/// What the right stick has just meant.
#[derive(Debug, Clone, Copy, PartialEq, Eq, Structural)]
pub enum StickAction {
    Nothing,
    /// Start calibrating.
    EnterCalibration,
    /// A short click.
    Tap,
}

/// The click of the right stick.
#[derive(Debug, Clone, Copy, PartialEq, Eq, Structural)]
pub struct RightStick {
    /// Whether it was clicked in the last frame.
    pub last: bool,
    /// Since when the present click has been held, while it can still mean something.
    pub held_since: Option<u64>,
}

impl RightStick {
    pub fn new() -> (s: RightStick)
        ensures
            s == (RightStick { last: false, held_since: None }),
    {
        RightStick { last: false, held_since: None }
    }

    /// Since when the click has been held, in a frame in which it is.
    pub open spec fn since(self, now: u64) -> Option<u64> {
        if self.last {
            self.held_since
        } else {
            Some(now)
        }
    }

    /// What a frame means in which the stick is clicked, or not; `can_calibrate` says that
    /// there is a camera and that no calibration is under way.
    pub open spec fn action(self, pressed: bool, can_calibrate: bool, now: u64) -> StickAction {
        if pressed {
            if can_calibrate && (self.since(now) matches Some(since) && clock::between(since, now)
                >= ENTER_HOLD_MS * clock::NANOS_PER_MS) {
                StickAction::EnterCalibration
            } else {
                StickAction::Nothing
            }
        } else if self.last && self.held_since is Some {
            StickAction::Tap
        } else {
            StickAction::Nothing
        }
    }

    pub open spec fn after(self, pressed: bool, can_calibrate: bool, now: u64) -> RightStick {
        RightStick {
            last: pressed,
            held_since: if pressed {
                if self.action(pressed, can_calibrate, now) == StickAction::EnterCalibration {
                    None
                } else {
                    self.since(now)
                }
            } else if self.last {
                None
            } else {
                self.held_since
            },
        }
    }

    /// Takes a frame into account.
    pub fn step(&mut self, pressed: bool, can_calibrate: bool, now: u64) -> (action: StickAction)
        ensures
            action == old(self).action(pressed, can_calibrate, now),
            *final(self) == old(self).after(pressed, can_calibrate, now),
    {
        let mut action = StickAction::Nothing;
        if pressed && !self.last {
            self.held_since = Some(now);
        }
        if pressed {
            if let Some(since) = self.held_since {
                if can_calibrate && clock::elapsed(since, now) >= ENTER_HOLD_MS
                    * clock::NANOS_PER_MS {
                    self.held_since = None;
                    action = StickAction::EnterCalibration;
                }
            }
        }
        if !pressed && self.last {
            if self.held_since.is_some() {
                action = StickAction::Tap;
            }
            self.held_since = None;
        }
        self.last = pressed;
        action
    }

    /// The stick after frames in which it is held, each with whether calibrating was
    /// possible and its time.
    pub open spec fn held(self, frames: Seq<(bool, u64)>) -> RightStick
        decreases frames.len(),
    {
        if frames.len() == 0 {
            self
        } else {
            self.held(frames.drop_last()).after(true, frames.last().0, frames.last().1)
        }
    }
}

proof fn lemma_consumed(s: RightStick, frames: Seq<(bool, u64)>, i: int, k: int)
    requires
        0 <= i < k <= frames.len(),
        s.held(frames.take(i)).action(true, frames[i].0, frames[i].1)
            == StickAction::EnterCalibration,
    ensures
        s.held(frames.take(k)) == (RightStick { last: true, held_since: None }),
    decreases k,
{
    assert(frames.take(k).drop_last() =~= frames.take(k - 1));
    assert(frames.take(k).last() == frames[k - 1]);
    if k - 1 > i {
        lemma_consumed(s, frames, i, k - 1);
    }
}

/// A hold that starts calibrating is used up: no later frame of it starts it again, and
/// letting go is no tap.
pub proof fn entering_uses_the_hold_up(
    s: RightStick,
    frames: Seq<(bool, u64)>,
    i: int,
    can_calibrate: bool,
    released: u64,
)
    requires
        0 <= i < frames.len(),
        s.held(frames.take(i)).action(true, frames[i].0, frames[i].1)
            == StickAction::EnterCalibration,
    ensures
        forall|k: int|
            i < k < frames.len() ==> s.held(#[trigger] frames.take(k)).action(
                true,
                frames[k].0,
                frames[k].1,
            ) == StickAction::Nothing,
        s.held(frames).action(false, can_calibrate, released) == StickAction::Nothing,
{
    assert forall|k: int| i < k < frames.len() implies s.held(#[trigger] frames.take(k)).action(
        true,
        frames[k].0,
        frames[k].1,
    ) == StickAction::Nothing by {
        lemma_consumed(s, frames, i, k);
    }
    lemma_consumed(s, frames, i, frames.len() as int);
    assert(frames.take(frames.len() as int) =~= frames);
}

/// What a frame's reading leads to.
#[derive(Debug, Clone, Copy, PartialEq, Eq, Structural)]
pub enum SampleOutcome {
    /// Nothing yet.
    Pending,
    /// The pull is over, and the sphere was never seen.
    NotVisible,
    /// The pull is over: the average of the readings is to be captured.
    Capture,
}

/// What is to be done with a frame's reading.
#[derive(Debug, Clone, Copy, PartialEq, Eq, Structural)]
pub struct SampleStep {
    /// Forget the readings so far.
    pub clear: bool,
    /// Add the frame's reading.
    pub add: bool,
    pub outcome: SampleOutcome,
}

/// What a capture has completed.
#[derive(Debug, Clone, Copy, PartialEq, Eq)]
pub enum Captured<P> {
    /// Nothing yet: more corners are to come.
    Corner,
    /// The last corner: top left, top right, bottom left and bottom right are known.
    Corners(P, P, P, P),
    /// The centre, and with it the calibration.
    Center,
}

/// A calibration, under way or not.
#[derive(Debug, Clone, Copy, PartialEq, Eq)]
pub struct Calibration<P> {
    pub step: CalibStep,
    pub top_left: Option<P>,
    pub top_right: Option<P>,
    pub bottom_left: Option<P>,
    pub bottom_right: Option<P>,
    /// Whether the trigger was pulled in the last frame.
    pub last_trigger: bool,
    /// Since when readings have been averaged.
    pub sample_since: Option<u64>,
    /// How many readings have been added up.
    pub sample_count: u32,
    /// The trigger means no shot until it has been let go: the pull that confirmed the
    /// last point is still held.
    pub suppress_trigger: bool,
}

impl<P: Copy> Calibration<P> {
    /// Exactly the points before the present one have been captured.
    pub open spec fn wf(self) -> bool {
        let n = self.step.code();
        &&& self.top_left is Some <==> n > 1
        &&& self.top_right is Some <==> n > 2
        &&& self.bottom_left is Some <==> n > 3
        &&& self.bottom_right is Some <==> n > 4
    }

    /// No calibration under way.
    pub fn new() -> (c: Calibration<P>)
        ensures
            c.wf(),
            c == (Calibration::<P> {
                step: CalibStep::Idle,
                top_left: None,
                top_right: None,
                bottom_left: None,
                bottom_right: None,
                last_trigger: false,
                sample_since: None,
                sample_count: 0,
                suppress_trigger: false,
            }),
    {
        Calibration {
            step: CalibStep::Idle,
            top_left: None,
            top_right: None,
            bottom_left: None,
            bottom_right: None,
            last_trigger: false,
            sample_since: None,
            sample_count: 0,
            suppress_trigger: false,
        }
    }

    /// Starts calibrating.
    pub fn enter(&mut self)
        ensures
            old(self).wf() && old(self).step == CalibStep::Idle ==> final(self).wf(),
            *final(self) == (Calibration::<P> { step: CalibStep::WaitingTopLeft, ..*old(self) }),
    {
        self.step = CalibStep::WaitingTopLeft;
    }

    /// Whether no calibration is under way.
    pub fn idle(&self) -> (r: bool)
        ensures
            r == (self.step == CalibStep::Idle),
    {
        self.step == CalibStep::Idle
    }

    /// How many readings there are after a frame with the trigger pulled.
    pub open spec fn count_after(self, visible: bool) -> int {
        let before = if self.last_trigger {
            self.sample_count as int
        } else {
            0
        };
        if visible {
            before + 1
        } else {
            before
        }
    }

    /// A frame adds a reading to those of a pull that has begun before.
    pub open spec fn counts_on(self, camera: bool, pulled: bool, visible: bool) -> bool {
        self.step != CalibStep::Idle && camera && pulled && visible && self.last_trigger
    }

    /// A frame's reading in the gamepad mode: readings are averaged for as long as the
    /// trigger is pulled, and captured when it is let go. `camera` says that there is a
    /// tracker, `visible` that it sees the sphere.
    pub open spec fn release_step(self, camera: bool, pulled: bool, visible: bool) -> SampleStep {
        if self.step == CalibStep::Idle || !camera {
            SampleStep { clear: false, add: false, outcome: SampleOutcome::Pending }
        } else if pulled {
            SampleStep {
                clear: !self.last_trigger,
                add: visible,
                outcome: SampleOutcome::Pending,
            }
        } else {
            SampleStep {
                clear: false,
                add: false,
                outcome: if !self.last_trigger {
                    SampleOutcome::Pending
                } else if self.sample_count == 0 {
                    SampleOutcome::NotVisible
                } else {
                    SampleOutcome::Capture
                },
            }
        }
    }

    pub open spec fn after_release_step(
        self,
        camera: bool,
        pulled: bool,
        visible: bool,
    ) -> Calibration<P> {
        if self.step != CalibStep::Idle && camera && pulled {
            Calibration { sample_count: self.count_after(visible) as u32, ..self }
        } else {
            self
        }
    }

    /// Takes a frame's reading into account, in the gamepad mode.
    pub fn sample_until_release(&mut self, camera: bool, pulled: bool, visible: bool) -> (r:
        SampleStep)
        requires
            old(self).counts_on(camera, pulled, visible) ==> old(self).sample_count < u32::MAX,
        ensures
            r == old(self).release_step(camera, pulled, visible),
            *final(self) == old(self).after_release_step(camera, pulled, visible),
    {
        let mut r = SampleStep { clear: false, add: false, outcome: SampleOutcome::Pending };
        if self.step == CalibStep::Idle || !camera {
            return r;
        }
        if pulled {
            if !self.last_trigger {
                self.sample_count = 0;
                r.clear = true;
            }
            if visible {
                self.sample_count = self.sample_count + 1;
                r.add = true;
            }
        } else if self.last_trigger {
            r.outcome = if self.sample_count == 0 {
                SampleOutcome::NotVisible
            } else {
                SampleOutcome::Capture
            };
        }
        r
    }

    /// Since when readings have been averaged, in a frame with the trigger pulled.
    pub open spec fn since(self, now: u64) -> Option<u64> {
        if self.last_trigger {
            self.sample_since
        } else {
            Some(now)
        }
    }

    /// Whether readings have been averaged for long enough.
    pub open spec fn sampled(self, now: u64) -> bool {
        self.since(now) matches Some(since) && clock::between(since, now) >= SAMPLE_MS
            * clock::NANOS_PER_MS
    }

    /// A frame's reading in the mouse and keyboard mode: readings are averaged for a while
    /// from the moment the trigger is pulled, and captured once that has passed.
    pub open spec fn timed_step(
        self,
        camera: bool,
        pulled: bool,
        visible: bool,
        now: u64,
    ) -> SampleStep {
        if self.step == CalibStep::Idle || !camera || !pulled {
            SampleStep { clear: false, add: false, outcome: SampleOutcome::Pending }
        } else {
            SampleStep {
                clear: !self.last_trigger,
                add: visible,
                outcome: if !self.sampled(now) {
                    SampleOutcome::Pending
                } else if self.count_after(visible) == 0 {
                    SampleOutcome::NotVisible
                } else {
                    SampleOutcome::Capture
                },
            }
        }
    }

    pub open spec fn after_timed_step(
        self,
        camera: bool,
        pulled: bool,
        visible: bool,
        now: u64,
    ) -> Calibration<P> {
        if self.step == CalibStep::Idle || !camera || !pulled {
            self
        } else {
            Calibration {
                sample_count: self.count_after(visible) as u32,
                sample_since: if self.sampled(now) {
                    None
                } else {
                    self.since(now)
                },
                ..self
            }
        }
    }

    /// Takes a frame's reading into account, in the mouse and keyboard mode.
    pub fn sample_for_a_while(&mut self, camera: bool, pulled: bool, visible: bool, now: u64) -> (r:
        SampleStep)
        requires
            old(self).counts_on(camera, pulled, visible) ==> old(self).sample_count < u32::MAX,
        ensures
            r == old(self).timed_step(camera, pulled, visible, now),
            *final(self) == old(self).after_timed_step(camera, pulled, visible, now),
    {
        let mut r = SampleStep { clear: false, add: false, outcome: SampleOutcome::Pending };
        if self.step == CalibStep::Idle || !camera || !pulled {
            return r;
        }
        if !self.last_trigger {
            self.sample_since = Some(now);
            self.sample_count = 0;
            r.clear = true;
        }
        if visible {
            self.sample_count = self.sample_count + 1;
            r.add = true;
        }
        let ready = match self.sample_since {
            Some(since) => clock::elapsed(since, now) >= SAMPLE_MS * clock::NANOS_PER_MS,
            None => false,
        };
        if ready {
            self.sample_since = None;
            r.outcome = if self.sample_count == 0 {
                SampleOutcome::NotVisible
            } else {
                SampleOutcome::Capture
            };
        }
        r
    }

    /// The calibration after the reading `p` has been captured for the present point.
    pub open spec fn after_capture(self, p: P) -> Calibration<P> {
        match self.step {
            CalibStep::Idle => self,
            CalibStep::WaitingTopLeft => Calibration {
                step: CalibStep::WaitingTopRight,
                top_left: Some(p),
                ..self
            },
            CalibStep::WaitingTopRight => Calibration {
                step: CalibStep::WaitingBottomLeft,
                top_right: Some(p),
                ..self
            },
            CalibStep::WaitingBottomLeft => Calibration {
                step: CalibStep::WaitingBottomRight,
                bottom_left: Some(p),
                ..self
            },
            CalibStep::WaitingBottomRight => Calibration {
                step: CalibStep::WaitingCenter,
                bottom_right: Some(p),
                ..self
            },
            CalibStep::WaitingCenter => Calibration {
                step: CalibStep::Idle,
                top_left: None,
                top_right: None,
                bottom_left: None,
                bottom_right: None,
                suppress_trigger: true,
                ..self
            },
        }
    }

    /// What capturing the reading `p` for the present point completes.
    pub open spec fn captured(self, p: P) -> Captured<P> {
        match self.step {
            CalibStep::WaitingBottomRight => match (
                self.top_left,
                self.top_right,
                self.bottom_left,
            ) {
                (Some(tl), Some(tr), Some(bl)) => Captured::Corners(tl, tr, bl, p),
                _ => Captured::Corner,
            },
            CalibStep::WaitingCenter => Captured::Center,
            _ => Captured::Corner,
        }
    }

    /// Captures an averaged reading for the present point, and goes on to the next. Without a
    /// calibration under way there is no such point, and nothing changes.
    pub fn capture(&mut self, p: P) -> (r: Captured<P>)
        ensures
            old(self).wf() ==> final(self).wf(),
            r == old(self).captured(p),
            *final(self) == old(self).after_capture(p),
    {
        match self.step {
            CalibStep::Idle => Captured::Corner,
            CalibStep::WaitingTopLeft => {
                self.top_left = Some(p);
                self.step = CalibStep::WaitingTopRight;
                Captured::Corner
            },
            CalibStep::WaitingTopRight => {
                self.top_right = Some(p);
                self.step = CalibStep::WaitingBottomLeft;
                Captured::Corner
            },
            CalibStep::WaitingBottomLeft => {
                self.bottom_left = Some(p);
                self.step = CalibStep::WaitingBottomRight;
                Captured::Corner
            },
            CalibStep::WaitingBottomRight => {
                self.bottom_right = Some(p);
                self.step = CalibStep::WaitingCenter;
                match (self.top_left, self.top_right, self.bottom_left) {
                    (Some(tl), Some(tr), Some(bl)) => Captured::Corners(tl, tr, bl, p),
                    _ => Captured::Corner,
                }
            },
            CalibStep::WaitingCenter => {
                self.step = CalibStep::Idle;
                self.top_left = None;
                self.top_right = None;
                self.bottom_left = None;
                self.bottom_right = None;
                self.suppress_trigger = true;
                Captured::Center
            },
        }
    }

    pub open spec fn after_frame(self, pulled: bool, click: bool) -> Calibration<P> {
        Calibration {
            last_trigger: pulled,
            suppress_trigger: self.suppress_trigger && click,
            ..self
        }
    }

    /// Ends a frame: `pulled` is whether the trigger counts as pulled for calibrating,
    /// `click` whether it is at its detent.
    pub fn end_frame(&mut self, pulled: bool, click: bool)
        ensures
            *final(self) == old(self).after_frame(pulled, click),
    {
        self.last_trigger = pulled;
        if self.suppress_trigger && !click {
            self.suppress_trigger = false;
        }
    }

    /// Whether the trigger means a shot.
    pub open spec fn is_armed(self, input_disabled: bool) -> bool {
        !input_disabled && self.step == CalibStep::Idle && !self.suppress_trigger
    }

    /// Whether the trigger means a shot: input is not paused, no calibration is under way,
    /// and the pull that ended one has been let go.
    pub fn armed(&self, input_disabled: bool) -> (r: bool)
        ensures
            r == self.is_armed(input_disabled),
    {
        !input_disabled && self.step == CalibStep::Idle && !self.suppress_trigger
    }
}

/// A calibration from its start to its end: the readings captured in turn are those of the
/// four corners, reported together with the fourth, and of the centre, with which the
/// calibration ends and is ready to be started again.
pub proof fn calibration_takes_five_captures<P: Copy>(
    c: Calibration<P>,
    tl: P,
    tr: P,
    bl: P,
    br: P,
    center: P,
)
    requires
        c.wf(),
        c.step == CalibStep::WaitingTopLeft,
    ensures
        c.captured(tl) == Captured::<P>::Corner,
        c.after_capture(tl).captured(tr) == Captured::<P>::Corner,
        c.after_capture(tl).after_capture(tr).captured(bl) == Captured::<P>::Corner,
        c.after_capture(tl).after_capture(tr).after_capture(bl).captured(br) == Captured::Corners(
            tl,
            tr,
            bl,
            br,
        ),
        c.after_capture(tl).after_capture(tr).after_capture(bl).after_capture(br).captured(center)
            == Captured::<P>::Center,
        c.after_capture(tl).after_capture(tr).after_capture(bl).after_capture(br).after_capture(
            center,
        ) == (Calibration::<P> { step: CalibStep::Idle, suppress_trigger: true, ..c }),
{
}

/// The calibration after frames, each with whether the trigger was pulled and clicked, in
/// which nothing is captured.
pub open spec fn after_frames<P: Copy>(
    c: Calibration<P>,
    frames: Seq<(bool, bool)>,
) -> Calibration<P>
    decreases frames.len(),
{
    if frames.len() == 0 {
        c
    } else {
        after_frames(c, frames.drop_last()).after_frame(frames.last().0, frames.last().1)
    }
}

/// The pull that confirms the last point is no shot: as long as the trigger stays clicked
/// after it, the trigger means none; and in the first frame in which it is let go, it
/// means shots again.
pub proof fn confirming_pull_is_no_shot<P: Copy>(
    c: Calibration<P>,
    center: P,
    frames: Seq<(bool, bool)>,
    pulled: bool,
)
    requires
        c.step == CalibStep::WaitingCenter,
        forall|i: int| 0 <= i < frames.len() ==> (#[trigger] frames[i]).1,
    ensures
        !after_frames(c.after_capture(center), frames).is_armed(false),
        after_frames(c.after_capture(center), frames).after_frame(pulled, false).is_armed(false),
    decreases frames.len(),
{
    if frames.len() > 0 {
        let fewer = frames.drop_last();
        assert forall|i: int| 0 <= i < fewer.len() implies (#[trigger] fewer[i]).1 by {
            assert(frames[i].1);
        }
        confirming_pull_is_no_shot(c, center, fewer, pulled);
        assert(frames[frames.len() - 1].1);
    }
}

/// How many of the frames saw the sphere.
pub open spec fn sightings(visible: Seq<bool>) -> int
    decreases visible.len(),
{
    if visible.len() == 0 {
        0
    } else {
        sightings(visible.drop_last()) + if visible.last() {
            1int
        } else {
            0
        }
    }
}

/// The calibration after frames of a pull in the gamepad mode, each with whether the sphere
/// was seen and whether the trigger was clicked.
pub open spec fn pulled<P: Copy>(c: Calibration<P>, frames: Seq<(bool, bool)>) -> Calibration<P>
    decreases frames.len(),
{
    if frames.len() == 0 {
        c
    } else {
        let last = frames.last();
        pulled(c, frames.drop_last()).after_release_step(true, true, last.0).after_frame(
            true,
            last.1,
        )
    }
}

proof fn lemma_pulled<P: Copy>(c: Calibration<P>, frames: Seq<(bool, bool)>)
    requires
        c.step != CalibStep::Idle,
        !c.last_trigger,
        0 < frames.len() < u32::MAX,
    ensures
        pulled(c, frames).step == c.step,
        pulled(c, frames).last_trigger,
        pulled(c, frames).sample_count == sightings(
            frames.map_values(|f: (bool, bool)| f.0),
        ) <= frames.len(),
    decreases frames.len(),
{
    let visible = frames.map_values(|f: (bool, bool)| f.0);
    let fewer = frames.drop_last();
    assert(visible.drop_last() =~= fewer.map_values(|f: (bool, bool)| f.0));
    if fewer.len() > 0 {
        lemma_pulled(c, fewer);
    } else {
        assert(pulled(c, fewer) == c);
        assert(sightings(visible.drop_last()) == 0);
    }
}

proof fn lemma_sightings(visible: Seq<bool>)
    ensures
        sightings(visible) >= 0,
        sightings(visible) > 0 <==> exists|i: int| 0 <= i < visible.len() && #[trigger] visible[i],
    decreases visible.len(),
{
    if visible.len() > 0 {
        let fewer = visible.drop_last();
        lemma_sightings(fewer);
        if exists|i: int| 0 <= i < fewer.len() && #[trigger] fewer[i] {
            let i = choose|i: int| 0 <= i < fewer.len() && #[trigger] fewer[i];
            assert(visible[i]);
        }
        if visible.last() {
            assert(visible[visible.len() - 1]);
        }
        if exists|i: int| 0 <= i < visible.len() && #[trigger] visible[i] {
            let i = choose|i: int| 0 <= i < visible.len() && #[trigger] visible[i];
            assert(i < fewer.len() ==> fewer[i]);
        }
    }
}

/// In the gamepad mode a pull of any length is captured when the trigger is let go, if the
/// sphere was seen in any frame of it; and it is not, if the sphere never was.
pub proof fn pull_that_sees_the_sphere_is_captured<P: Copy>(
    c: Calibration<P>,
    frames: Seq<(bool, bool)>,
    visible: bool,
)
    requires
        c.step != CalibStep::Idle,
        !c.last_trigger,
        0 < frames.len() < u32::MAX,
    ensures
        pulled(c, frames).release_step(true, false, visible).outcome == if exists|i: int|
            0 <= i < frames.len() && (#[trigger] frames[i]).0 {
            SampleOutcome::Capture
        } else {
            SampleOutcome::NotVisible
        },
{
    let seen = frames.map_values(|f: (bool, bool)| f.0);
    lemma_pulled(c, frames);
    lemma_sightings(seen);
    if exists|i: int| 0 <= i < frames.len() && (#[trigger] frames[i]).0 {
        let i = choose|i: int| 0 <= i < frames.len() && (#[trigger] frames[i]).0;
        assert(seen[i]);
    }
    if exists|i: int| 0 <= i < seen.len() && #[trigger] seen[i] {
        let i = choose|i: int| 0 <= i < seen.len() && #[trigger] seen[i];
        assert(frames[i].0);
    }
}

/// The calibration after frames in which the trigger stays pulled in the mouse and keyboard
/// mode, each with whether the sphere was seen and its time, and in which nothing is
/// captured.
pub open spec fn stays_pulled<P: Copy>(
    c: Calibration<P>,
    frames: Seq<(bool, u64)>,
) -> Calibration<P>
    decreases frames.len(),
{
    if frames.len() == 0 {
        c
    } else {
        let last = frames.last();
        stays_pulled(c, frames.drop_last()).after_timed_step(
            true,
            true,
            last.0,
            last.1,
        ).after_frame(true, true)
    }
}

/// In the mouse and keyboard mode a pull is good for one capture: in whatever frames follow
/// the one in which its time is up, nothing is captured until the trigger has been let go.
pub proof fn one_capture_per_pull<P: Copy>(
    c: Calibration<P>,
    p: P,
    visible: bool,
    now: u64,
    frames: Seq<(bool, u64)>,
    again: bool,
    later: u64,
)
    requires
        c.timed_step(true, true, visible, now).outcome == SampleOutcome::Capture,
    ensures
        stays_pulled(
            c.after_timed_step(true, true, visible, now).after_capture(p).after_frame(true, true),
            frames,
        ).timed_step(true, true, again, later).outcome == SampleOutcome::Pending,
{
    let start = c.after_timed_step(true, true, visible, now).after_capture(p).after_frame(
        true,
        true,
    );
    lemma_stays_used_up(start, frames);
}

proof fn lemma_stays_used_up<P: Copy>(c: Calibration<P>, frames: Seq<(bool, u64)>)
    requires
        c.last_trigger,
        c.sample_since is None,
    ensures
        stays_pulled(c, frames).last_trigger,
        stays_pulled(c, frames).sample_since is None,
    decreases frames.len(),
{
    if frames.len() > 0 {
        lemma_stays_used_up(c, frames.drop_last());
    }
}

/// The readings of the frames that saw the sphere, in order.
pub open spec fn seen_readings(frames: Seq<(bool, int)>) -> Seq<int>
    decreases frames.len(),
{
    if frames.len() == 0 {
        Seq::empty()
    } else if frames.last().0 {
        seen_readings(frames.drop_last()).push(frames.last().1)
    } else {
        seen_readings(frames.drop_last())
    }
}

/// What a caller that does as a step says keeps: everything is forgotten where the step says
/// so, and then the frame's reading is added where it says so.
pub open spec fn kept_after(kept: Seq<int>, step: SampleStep, reading: int) -> Seq<int> {
    let before = if step.clear {
        Seq::empty()
    } else {
        kept
    };
    if step.add {
        before.push(reading)
    } else {
        before
    }
}

/// The calibration, and the readings that the caller keeps, after frames of a pull in the
/// gamepad mode, each with whether the sphere was seen, the reading, and whether the trigger
/// was clicked.
pub open spec fn pulled_keeping<P: Copy>(
    c: Calibration<P>,
    kept: Seq<int>,
    frames: Seq<(bool, int)>,
    clicks: Seq<bool>,
) -> (Calibration<P>, Seq<int>)
    decreases frames.len(),
{
    if frames.len() == 0 {
        (c, kept)
    } else {
        let (before, had) = pulled_keeping(c, kept, frames.drop_last(), clicks);
        let f = frames.last();
        (
            before.after_release_step(true, true, f.0).after_frame(true, clicks[frames.len() - 1]),
            kept_after(had, before.release_step(true, true, f.0), f.1),
        )
    }
}

/// In the gamepad mode the captured point is the mean of all readings of the pull: after any
/// frames of a pull, whatever was kept before it, the caller keeps the reading of each frame
/// that saw the sphere, once and in order, and no other, and the count is how many these are.
pub proof fn every_reading_of_a_pull_counts<P: Copy>(
    c: Calibration<P>,
    kept: Seq<int>,
    frames: Seq<(bool, int)>,
    clicks: Seq<bool>,
)
    requires
        c.step != CalibStep::Idle,
        !c.last_trigger,
        0 < frames.len() < u32::MAX,
        clicks.len() == frames.len(),
    ensures
        ({
            let (end, keeps) = pulled_keeping(c, kept, frames, clicks);
            &&& keeps == seen_readings(frames)
            &&& end.sample_count == keeps.len() <= frames.len()
            &&& end.last_trigger
            &&& end.step == c.step
        }),
    decreases frames.len(),
{
    let fewer = frames.drop_last();
    if fewer.len() > 0 {
        lemma_clicks_prefix(c, kept, fewer, clicks, clicks.drop_last());
        every_reading_of_a_pull_counts(c, kept, fewer, clicks.drop_last());
    } else {
        assert(pulled_keeping(c, kept, fewer, clicks) == (c, kept));
        assert(seen_readings(fewer) == Seq::<int>::empty());
    }
}

proof fn lemma_clicks_prefix<P: Copy>(
    c: Calibration<P>,
    kept: Seq<int>,
    frames: Seq<(bool, int)>,
    a: Seq<bool>,
    b: Seq<bool>,
)
    requires
        a.len() >= frames.len(),
        b.len() >= frames.len(),
        forall|i: int| 0 <= i < frames.len() ==> a[i] == b[i],
    ensures
        pulled_keeping(c, kept, frames, a) == pulled_keeping(c, kept, frames, b),
    decreases frames.len(),
{
    if frames.len() > 0 {
        lemma_clicks_prefix(c, kept, frames.drop_last(), a, b);
    }
}

/// The calibration, and the readings that the caller keeps, after frames of a pull in the
/// mouse and keyboard mode, each with whether the sphere was seen and the reading, and in
/// which nothing is captured.
pub open spec fn timed_keeping<P: Copy>(
    c: Calibration<P>,
    kept: Seq<int>,
    frames: Seq<(bool, int)>,
    times: Seq<u64>,
) -> (Calibration<P>, Seq<int>)
    decreases frames.len(),
{
    if frames.len() == 0 {
        (c, kept)
    } else {
        let (before, had) = timed_keeping(c, kept, frames.drop_last(), times);
        let f = frames.last();
        let now = times[frames.len() - 1];
        (
            before.after_timed_step(true, true, f.0, now).after_frame(true, true),
            kept_after(had, before.timed_step(true, true, f.0, now), f.1),
        )
    }
}

/// The same in the mouse and keyboard mode, and its timing: as long as the frames of a pull
/// come within 200 ms of the first, nothing is captured; the first frame after that time
/// captures, if the sphere was seen in it or any frame of the pull before it, and says that
/// the sphere was not visible otherwise.
pub proof fn every_reading_of_a_timed_pull_counts<P: Copy>(
    c: Calibration<P>,
    kept: Seq<int>,
    frames: Seq<(bool, int)>,
    times: Seq<u64>,
)
    requires
        c.step != CalibStep::Idle,
        !c.last_trigger,
        0 < frames.len() < u32::MAX,
        times.len() >= frames.len(),
        forall|i: int| 0 <= i < frames.len() ==> #[trigger] times[i] < times[0] + 200_000_000,
    ensures
        ({
            let (end, keeps) = timed_keeping(c, kept, frames, times);
            &&& keeps == seen_readings(frames)
            &&& end.sample_count == keeps.len() <= frames.len()
            &&& end.last_trigger
            &&& end.step == c.step
            &&& end.sample_since == Some(times[0])
            &&& forall|visible: bool, now: u64|
                (#[trigger] end.timed_step(true, true, visible, now)).outcome == if now < times[0]
                    + 200_000_000 {
                    SampleOutcome::Pending
                } else if visible || keeps.len() > 0 {
                    SampleOutcome::Capture
                } else {
                    SampleOutcome::NotVisible
                }
        }),
    decreases frames.len(),
{
    let fewer = frames.drop_last();
    if fewer.len() > 0 {
        every_reading_of_a_timed_pull_counts(c, kept, fewer, times);
        assert(times[frames.len() - 1] < times[0] + 200_000_000);
    } else {
        assert(timed_keeping(c, kept, fewer, times) == (c, kept));
        assert(seen_readings(fewer) == Seq::<int>::empty());
    }
}

/// The first frame of a pull never captures in the mouse and keyboard mode, and without a
/// pull, a tracker or a calibration nothing is sampled in either.
pub proof fn sampling_needs_a_pull<P: Copy>(
    c: Calibration<P>,
    camera: bool,
    pulled: bool,
    visible: bool,
    now: u64,
)
    ensures
        !c.last_trigger ==> c.timed_step(camera, pulled, visible, now).outcome
            == SampleOutcome::Pending,
        !c.last_trigger ==> c.release_step(camera, pulled, visible).outcome
            == SampleOutcome::Pending,
        !camera || !pulled || c.step == CalibStep::Idle ==> {
            &&& !c.timed_step(camera, pulled, visible, now).add
            &&& !c.release_step(camera, pulled, visible).add
            &&& !c.timed_step(camera, pulled, visible, now).clear
            &&& !c.release_step(camera, pulled, visible).clear
            &&& c.after_timed_step(camera, pulled, visible, now) == c
            &&& c.after_release_step(camera, pulled, visible) == c
            &&& c.timed_step(camera, pulled, visible, now).outcome == SampleOutcome::Pending
        },
        !camera || c.step == CalibStep::Idle ==> c.release_step(camera, pulled, visible).outcome
            == SampleOutcome::Pending,
{
}

/// A click of the right stick, held in frames at the given times from its first frame on,
/// means one thing: while it can calibrate it starts calibrating in the first frame 800 ms
/// or more after the first, and until then nothing; let go before that, it is a tap.
pub proof fn hold_enters_or_taps(s: RightStick, times: Seq<u64>, now: u64, can_calibrate: bool)
    requires
        !s.last,
        times.len() > 0,
        forall|i: int| 0 <= i < times.len() ==> #[trigger] times[i] < times[0] + 800_000_000,
    ensures
        ({
            let held = s.held(times.map_values(|t: u64| (true, t)));
            &&& held.last
            &&& held.action(false, can_calibrate, now) == StickAction::Tap
            &&& held.action(true, true, now) == if now >= times[0] + 800_000_000 {
                StickAction::EnterCalibration
            } else {
                StickAction::Nothing
            }
            &&& held.action(true, false, now) == StickAction::Nothing
        }),
{
    lemma_held_since(s, times);
}

proof fn lemma_held_since(s: RightStick, times: Seq<u64>)
    requires
        !s.last,
        times.len() > 0,
        forall|i: int| 0 <= i < times.len() ==> #[trigger] times[i] < times[0] + 800_000_000,
    ensures
        s.held(times.map_values(|t: u64| (true, t))) == (RightStick {
            last: true,
            held_since: Some(times[0]),
        }),
    decreases times.len(),
{
    let frames = times.map_values(|t: u64| (true, t));
    let fewer = times.drop_last();
    assert(frames.drop_last() =~= fewer.map_values(|t: u64| (true, t)));
    assert(frames.last() == (true, times.last()));
    assert(times[times.len() - 1] < times[0] + 800_000_000);
    if fewer.len() > 0 {
        assert forall|i: int| 0 <= i < fewer.len() implies #[trigger] fewer[i] < fewer[0]
            + 800_000_000 by {
            assert(times[i] < times[0] + 800_000_000);
        }
        lemma_held_since(s, fewer);
    } else {
        assert(s.held(frames.drop_last()) == s);
    }
}

/// A stick that stays released does nothing, and a click that cannot calibrate is a tap
/// however long it is held.
pub proof fn released_stick_does_nothing(s: RightStick, can_calibrate: bool, now: u64, later: u64)
    ensures
        !s.last ==> s.action(false, can_calibrate, now) == StickAction::Nothing,
        !s.last ==> s.after(true, false, now).action(false, can_calibrate, later)
            == StickAction::Tap,
        s.last && s.held_since is Some ==> s.after(true, false, now).held_since == s.held_since,
        !s.after(false, can_calibrate, now).last,
{
}

/// The trigger means a shot exactly while input is not paused, no calibration is under way
/// and no confirming pull is still held; a capture of a corner leaves it meaning none.
pub proof fn shots_need_an_idle_calibration<P: Copy>(c: Calibration<P>, paused: bool, p: P)
    ensures
        c.is_armed(paused) ==> !paused && c.step == CalibStep::Idle,
        !paused && c.step == CalibStep::Idle ==> c.is_armed(paused) != c.suppress_trigger,
        c.step != CalibStep::Idle ==> !c.after_capture(p).is_armed(paused),
        c.after_frame(paused, true).suppress_trigger == c.suppress_trigger,
        !c.after_frame(paused, false).suppress_trigger,
{
}

/// The cursor waits where the player is to point: at the end of the screen's axis on which
/// the corner lies, right or left and bottom or top, in the middle of both for the centre,
/// and nowhere without a calibration.
pub proof fn cursor_waits_at_the_point(step: CalibStep)
    ensures
        step.anchor_point() is None <==> step == CalibStep::Idle,
        step.anchor_point() matches Some((x, y)) ==> {
            &&& x == 0 <==> step == CalibStep::WaitingTopLeft || step
                == CalibStep::WaitingBottomLeft
            &&& x == 65535 <==> step == CalibStep::WaitingTopRight || step
                == CalibStep::WaitingBottomRight
            &&& y == 0 <==> step == CalibStep::WaitingTopLeft || step == CalibStep::WaitingTopRight
            &&& y == 65535 <==> step == CalibStep::WaitingBottomLeft || step
                == CalibStep::WaitingBottomRight
            &&& step == CalibStep::WaitingCenter <==> x == y && 2 * x == 65536
        },
{
}

/// Steps are numbered in the order in which they come: no calibration has the number 0, the
/// one that starts waits for number 1, each capture goes on to the next number, and that of
/// the centre, number 5, back to 0. No two steps share a number.
pub proof fn steps_are_numbered_in_order<P: Copy>(c: Calibration<P>, p: P, other: CalibStep)
    ensures
        0 <= c.step.code() <= 5,
        c.step.code() == 0 <==> c.step == CalibStep::Idle,
        CalibStep::WaitingTopLeft.code() == 1,
        c.step != CalibStep::Idle ==> c.after_capture(p).step.code() == (c.step.code() + 1) % 6,
        c.step == CalibStep::Idle ==> c.after_capture(p) == c,
        c.step.code() == other.code() ==> c.step == other,
{
}

} // verus!
