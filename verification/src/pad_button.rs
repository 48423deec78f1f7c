//! The pad button: a tap cycles the recoil mode, a long hold pauses all input, and while
//! input is paused a press resumes it.

use crate::clock;
use crate::recoil::RecoilMode;
use vstd::prelude::*;

verus! {

/// Milliseconds after which a hold pauses input.
pub const PAUSE_HOLD_MS: u64 = 5000;

/// Milliseconds within which a second tap does not count.
pub const TAP_GAP_MS: u64 = 350;

/// The pad button and what it governs.
#[derive(Debug, Clone, Copy, PartialEq, Eq, Structural)]
pub struct PadButton {
    /// Since when the button has been held.
    pub since: Option<u64>,
    /// Whether the present hold has had its effect.
    pub actioned: bool,
    /// When the mode was last changed.
    pub last_mode_switch: Option<u64>,
    /// Whether input is paused.
    pub input_disabled: bool,
    pub mode: RecoilMode,
}

/// What the button has just done.
#[derive(Debug, Clone, Copy, PartialEq, Eq, Structural)]
pub enum PadAction {
    Nothing,
    Paused,
    Resumed,
    /// The recoil mode has changed to this one, which is to be remembered and shown.
    Cycled(RecoilMode),
}

impl PadButton {
    /// A button that has not been touched.
    pub fn new(mode: RecoilMode) -> (b: PadButton)
        ensures
            b == (PadButton {
                since: None,
                actioned: false,
                last_mode_switch: None,
                input_disabled: false,
                mode,
            }),
    {
        PadButton { since: None, actioned: false, last_mode_switch: None, input_disabled: false, mode
        }
    }

    /// Letting the button go at `now` is a tap: the hold was short and had no effect yet,
    /// input is not paused, and the mode was not changed a moment ago.
    pub open spec fn is_tap(self, now: u64) -> bool {
        &&& self.since matches Some(since) && clock::between(since, now) < PAUSE_HOLD_MS
            * clock::NANOS_PER_MS
        &&& !self.actioned
        &&& !self.input_disabled
        &&& self.last_mode_switch matches Some(t) ==> clock::between(t, now) > TAP_GAP_MS
            * clock::NANOS_PER_MS
    }

    /// What a frame does in which the button is held, or not, at `now`.
    pub open spec fn action(self, pressed: bool, now: u64) -> PadAction {
        if pressed {
            if self.input_disabled {
                if self.since is None {
                    PadAction::Resumed
                } else {
                    PadAction::Nothing
                }
            } else if self.since matches Some(since) && clock::between(since, now) > PAUSE_HOLD_MS
                * clock::NANOS_PER_MS && !self.actioned {
                PadAction::Paused
            } else {
                PadAction::Nothing
            }
        } else if self.is_tap(now) {
            PadAction::Cycled(self.mode.next_mode())
        } else {
            PadAction::Nothing
        }
    }

    /// The button after such a frame.
    pub open spec fn after(self, pressed: bool, now: u64) -> PadButton {
        let action = self.action(pressed, now);
        PadButton {
            since: if !pressed {
                None
            } else if self.since is None {
                Some(now)
            } else {
                self.since
            },
            actioned: pressed && (action == PadAction::Resumed || action == PadAction::Paused || (
            self.since is Some && self.actioned)),
            last_mode_switch: if action is Cycled {
                Some(now)
            } else {
                self.last_mode_switch
            },
            input_disabled: if action == PadAction::Paused {
                true
            } else if action == PadAction::Resumed {
                false
            } else {
                self.input_disabled
            },
            mode: if action is Cycled {
                self.mode.next_mode()
            } else {
                self.mode
            },
        }
    }

    /// Takes a frame into account.
    pub fn step(&mut self, pressed: bool, now: u64) -> (action: PadAction)
        ensures
            action == old(self).action(pressed, now),
            *final(self) == old(self).after(pressed, now),
    {
        if pressed {
            let fresh = self.since.is_none();
            if fresh {
                self.since = Some(now);
                self.actioned = false;
            }
            if self.input_disabled {
                if fresh {
                    self.input_disabled = false;
                    self.actioned = true;
                    return PadAction::Resumed;
                }
                return PadAction::Nothing;
            }
            let held_long = match self.since {
                Some(since) => clock::elapsed(since, now) > PAUSE_HOLD_MS * clock::NANOS_PER_MS,
                None => false,
            };
            if held_long && !self.actioned {
                self.actioned = true;
                self.input_disabled = true;
                return PadAction::Paused;
            }
            return PadAction::Nothing;
        }
        let mut action = PadAction::Nothing;
        if let Some(since) = self.since {
            let settled = match self.last_mode_switch {
                Some(t) => clock::elapsed(t, now) > TAP_GAP_MS * clock::NANOS_PER_MS,
                None => true,
            };
            if !self.actioned && clock::elapsed(since, now) < PAUSE_HOLD_MS * clock::NANOS_PER_MS
                && !self.input_disabled && settled {
                self.last_mode_switch = Some(now);
                self.mode = self.mode.next();
                action = PadAction::Cycled(self.mode);
            }
        }
        self.since = None;
        self.actioned = false;
        action
    }

    /// The button after frames in which it is held, at the given times.
    pub open spec fn held(self, times: Seq<u64>) -> PadButton
        decreases times.len(),
    {
        if times.len() == 0 {
            self
        } else {
            self.held(times.drop_last()).after(true, times.last())
        }
    }
}

/// What frame `k` of a hold does; after the last one, what letting go at `released` does.
pub open spec fn hold_action(b: PadButton, times: Seq<u64>, released: u64, k: int) -> PadAction {
    if k < times.len() {
        b.held(times.take(k)).action(true, times[k])
    } else {
        b.held(times).action(false, released)
    }
}

proof fn lemma_held_stays_actioned(b: PadButton, times: Seq<u64>, i: int, k: int)
    requires
        0 <= i < k <= times.len(),
        i == 0 ==> b.since is None,
        b.held(times.take(i)).action(true, times[i]) != PadAction::Nothing,
    ensures
        b.held(times.take(k)).actioned,
        b.held(times.take(k)).since is Some,
    decreases k,
{
    assert(times.take(k).drop_last() =~= times.take(k - 1));
    assert(times.take(k).last() == times[k - 1]);
    if k - 1 > i {
        lemma_held_stays_actioned(b, times, i, k - 1);
    }
}

/// A hold has one effect at most: of the frames of a hold and the frame in which it ends,
/// one at most does anything. So a hold that pauses or resumes input does not also change
/// the recoil mode.
pub proof fn one_effect_per_hold(b: PadButton, times: Seq<u64>, released: u64, i: int, k: int)
    requires
        b.since is None,
        0 <= i < k <= times.len(),
        hold_action(b, times, released, i) != PadAction::Nothing,
    ensures
        hold_action(b, times, released, k) == PadAction::Nothing,
{
    lemma_held_stays_actioned(b, times, i, k);
    assert(times.take(times.len() as int) =~= times);
}

/// Paused input is resumed by the next press at once, however short, and by nothing else.
pub proof fn only_a_press_resumes(b: PadButton, pressed: bool, now: u64)
    requires
        b.input_disabled,
    ensures
        b.action(pressed, now) == PadAction::Resumed <==> pressed && b.since is None,
        b.action(pressed, now) != PadAction::Resumed ==> b.after(pressed, now).input_disabled,
        b.after(pressed, now).mode == b.mode,
{
}

/// A tap that changes the mode and two more taps, each settled, lead back to the mode.
pub proof fn three_taps_restore_the_mode(a: PadButton, b: PadButton, c: PadButton, now: Seq<u64>)
    requires
        now.len() == 3,
        a.action(false, now[0]) is Cycled,
        b.mode == a.after(false, now[0]).mode,
        b.action(false, now[1]) is Cycled,
        c.mode == b.after(false, now[1]).mode,
        c.action(false, now[2]) is Cycled,
    ensures
        c.after(false, now[2]).mode == a.mode,
{
}

/// A frame of a hold comes more than the pausing time after its first frame.
pub open spec fn held_long(times: Seq<u64>, k: int) -> bool {
    clock::between(times[0], times[k]) > PAUSE_HOLD_MS * clock::NANOS_PER_MS
}

proof fn lemma_hold(b: PadButton, times: Seq<u64>)
    requires
        b.since is None,
        !b.input_disabled,
        times.len() > 0,
    ensures
        b.held(times).since == Some(times[0]),
        b.held(times).actioned == b.held(times).input_disabled,
        b.held(times).input_disabled <==> exists|k: int|
            0 <= k < times.len() && #[trigger] held_long(times, k),
        b.held(times).mode == b.mode,
        b.held(times).last_mode_switch == b.last_mode_switch,
    decreases times.len(),
{
    let fewer = times.drop_last();
    let n = times.len() - 1;
    if n > 0 {
        lemma_hold(b, fewer);
        assert(fewer[0] == times[0]);
        assert forall|k: int| 0 <= k < n implies #[trigger] held_long(fewer, k) == held_long(
            times,
            k,
        ) by {
            assert(fewer[k] == times[k]);
        }
        if exists|k: int| 0 <= k < fewer.len() && #[trigger] held_long(fewer, k) {
            let k = choose|k: int| 0 <= k < fewer.len() && #[trigger] held_long(fewer, k);
            assert(held_long(times, k));
        }
        if exists|k: int| 0 <= k < times.len() && #[trigger] held_long(times, k) {
            let k = choose|k: int| 0 <= k < times.len() && #[trigger] held_long(times, k);
            assert(k < n ==> held_long(fewer, k));
        }
        assert(held_long(times, n) == (clock::between(times[0], times.last()) > PAUSE_HOLD_MS
            * clock::NANOS_PER_MS));
    } else {
        assert(b.held(fewer) == b);
        assert(!held_long(times, 0));
    }
}

/// A long hold pauses input: once a frame of it comes more than the pausing time after its
/// first, input is paused, and it stays so however long the hold goes on.
pub proof fn long_hold_pauses(b: PadButton, times: Seq<u64>, k: int)
    requires
        b.since is None,
        !b.input_disabled,
        0 <= k < times.len(),
        held_long(times, k),
    ensures
        b.held(times).input_disabled,
        b.held(times).mode == b.mode,
{
    lemma_hold(b, times);
}

/// A short hold cycles the mode: where no frame of it comes after the pausing time, letting
/// go within that time goes on to the next mode, unless the mode was changed a moment ago;
/// and input is not paused.
pub proof fn short_hold_cycles_the_mode(b: PadButton, times: Seq<u64>, released: u64)
    requires
        b.since is None,
        !b.input_disabled,
        times.len() > 0,
        forall|k: int| 0 <= k < times.len() ==> !#[trigger] held_long(times, k),
        clock::between(times[0], released) < PAUSE_HOLD_MS * clock::NANOS_PER_MS,
        b.last_mode_switch matches Some(t) ==> clock::between(t, released) > TAP_GAP_MS
            * clock::NANOS_PER_MS,
    ensures
        b.held(times).action(false, released) == PadAction::Cycled(b.mode.next_mode()),
        !b.held(times).after(false, released).input_disabled,
{
    lemma_hold(b, times);
}

/// A hold has no effect when it is let go, if it was neither short nor long, if the mode was
/// changed within the last 350 ms, or if it has paused input.
pub proof fn other_holds_do_nothing(b: PadButton, times: Seq<u64>, released: u64)
    requires
        b.since is None,
        !b.input_disabled,
        times.len() > 0,
        released >= times[0] + 5_000_000_000 || (b.last_mode_switch matches Some(t) && released <= t
            + 350_000_000) || exists|k: int|
            0 <= k < times.len() && #[trigger] times[k] > times[0] + 5_000_000_000,
    ensures
        b.held(times).action(false, released) == PadAction::Nothing,
        b.held(times).after(false, released).mode == b.mode,
{
    lemma_hold(b, times);
    if exists|k: int| 0 <= k < times.len() && #[trigger] times[k] > times[0] + 5_000_000_000 {
        let k = choose|k: int| 0 <= k < times.len() && #[trigger] times[k] > times[0]
            + 5_000_000_000;
        assert(held_long(times, k));
    }
}

/// A hold counts as long after five seconds, and a released button waits for a new press.
pub proof fn long_means_five_seconds(b: PadButton, times: Seq<u64>, k: int, now: u64)
    requires
        0 <= k < times.len(),
    ensures
        held_long(times, k) <==> times[k] > times[0] + 5_000_000_000,
        b.after(false, now).since is None,
        !b.after(false, now).actioned,
        b.since is None ==> b.after(true, now).since == Some(now),
        b.since is None ==> b.action(false, now) == PadAction::Nothing,
{
}

/// What the button does shows in what it governs: input is paused or resumed, or the mode goes
/// one further in the cycle, exactly when the button says so.
pub proof fn actions_show(b: PadButton, pressed: bool, now: u64)
    ensures
        ({
            let action = b.action(pressed, now);
            let after = b.after(pressed, now);
            &&& action == PadAction::Paused <==> !b.input_disabled && after.input_disabled
            &&& action == PadAction::Resumed <==> b.input_disabled && !after.input_disabled
            &&& action is Cycled <==> after.mode != b.mode
            &&& action matches PadAction::Cycled(mode) ==> mode == after.mode && mode
                == b.mode.next_mode() && after.last_mode_switch == Some(now)
            &&& !(action is Cycled) ==> after.last_mode_switch == b.last_mode_switch
        }),
{
}

} // verus!
