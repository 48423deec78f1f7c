//! The keys and mouse buttons that the mouse and keyboard mode holds down.
//!
//! The left stick is W, A, S and D; Cross is Space, Circle the left Control key, Square R,
//! Triangle E, L1 the left Shift key, R1 Q, Share Backspace, Options Enter, the PS button
//! Escape, and the D-pad the arrow keys. R2 and L2 are the left and the right mouse button.

use crate::aim_report::AimState;
use vstd::prelude::*;

verus! {

pub const VK_W: u16 = 0x57;

pub const VK_A: u16 = 0x41;

pub const VK_S: u16 = 0x53;

pub const VK_D: u16 = 0x44;

pub const VK_SPACE: u16 = 0x20;

pub const VK_LCONTROL: u16 = 0xA2;

pub const VK_R: u16 = 0x52;

pub const VK_E: u16 = 0x45;

pub const VK_LSHIFT: u16 = 0xA0;

pub const VK_Q: u16 = 0x51;

pub const VK_BACK: u16 = 0x08;

pub const VK_ESCAPE: u16 = 0x1B;

pub const VK_RETURN: u16 = 0x0D;

pub const VK_LEFT: u16 = 0x25;

pub const VK_UP: u16 = 0x26;

pub const VK_RIGHT: u16 = 0x27;

pub const VK_DOWN: u16 = 0x28;

/// How far the left stick is pushed before it counts.
pub const STICK_THRESHOLD: i32 = 40;

/// A key, by its virtual key code, or a mouse button.
#[derive(Debug, Clone, Copy, PartialEq, Eq, Structural)]
pub enum Target {
    Key(u16),
    LeftButton,
    RightButton,
}

/// A key or mouse button going down or up.
#[derive(Debug, Clone, Copy, PartialEq, Eq, Structural)]
pub struct InputEvent {
    pub target: Target,
    pub down: bool,
}

/// What is held down.
#[derive(Debug, Clone, Copy, PartialEq, Eq, Structural)]
pub struct HeldState {
    /// The left stick, up.
    pub w: bool,
    /// The left stick, left.
    pub a: bool,
    /// The left stick, down.
    pub s: bool,
    /// The left stick, right.
    pub d: bool,
    /// Cross.
    pub space: bool,
    /// Circle.
    pub lctrl: bool,
    /// Square.
    pub r: bool,
    /// Triangle.
    pub e: bool,
    /// L1.
    pub lshift: bool,
    /// R1.
    pub q: bool,
    /// Share, which is the Backspace key.
    pub escape: bool,
    /// Options.
    pub enter: bool,
    /// The PS button, which is the Escape key.
    pub ps_esc: bool,
    pub left: bool,
    pub up: bool,
    pub right: bool,
    pub down: bool,
    pub lmb: bool,
    pub rmb: bool,
}

/// The event, if any, by which a target that `was` held comes to be held `now`.
pub open spec fn transition(target: Target, now: bool, was: bool) -> Seq<InputEvent> {
    if now != was {
        seq![InputEvent { target, down: now }]
    } else {
        Seq::empty()
    }
}

/// Adds a key's event, only where its state has changed.
pub fn update_key(events: &mut Vec<InputEvent>, vk: u16, now_held: bool, was_held: &mut bool)
    ensures
        final(events)@ == old(events)@ + transition(Target::Key(vk), now_held, *old(was_held)),
        *final(was_held) == now_held,
{
    if now_held != *was_held {
        events.push(InputEvent { target: Target::Key(vk), down: now_held });
        *was_held = now_held;
    }
    assert(events@ =~= old(events)@ + transition(Target::Key(vk), now_held, *old(was_held)));
}

/// The mouse button.
pub open spec fn button(left: bool) -> Target {
    if left {
        Target::LeftButton
    } else {
        Target::RightButton
    }
}

/// Adds a mouse button's event, only where its state has changed.
pub fn update_mouse_button(
    events: &mut Vec<InputEvent>,
    left: bool,
    now_held: bool,
    was_held: &mut bool,
)
    ensures
        final(events)@ == old(events)@ + transition(button(left), now_held, *old(was_held)),
        *final(was_held) == now_held,
{
    if now_held != *was_held {
        let target = if left {
            Target::LeftButton
        } else {
            Target::RightButton
        };
        events.push(InputEvent { target, down: now_held });
        *was_held = now_held;
    }
    assert(events@ =~= old(events)@ + transition(button(left), now_held, *old(was_held)));
}

/// The order in which a frame's events are sent.
pub open spec fn update_order() -> Seq<Target> {
    seq![
        Target::Key(VK_W),
        Target::Key(VK_S),
        Target::Key(VK_A),
        Target::Key(VK_D),
        Target::Key(VK_SPACE),
        Target::Key(VK_LCONTROL),
        Target::Key(VK_R),
        Target::Key(VK_E),
        Target::Key(VK_LSHIFT),
        Target::Key(VK_Q),
        Target::Key(VK_BACK),
        Target::Key(VK_RETURN),
        Target::Key(VK_ESCAPE),
        Target::Key(VK_UP),
        Target::Key(VK_DOWN),
        Target::Key(VK_LEFT),
        Target::Key(VK_RIGHT),
        Target::LeftButton,
        Target::RightButton,
    ]
}

/// The order in which everything is let go.
pub open spec fn release_order() -> Seq<Target> {
    seq![
        Target::Key(VK_W),
        Target::Key(VK_A),
        Target::Key(VK_S),
        Target::Key(VK_D),
        Target::Key(VK_SPACE),
        Target::Key(VK_LCONTROL),
        Target::Key(VK_R),
        Target::Key(VK_E),
        Target::Key(VK_LSHIFT),
        Target::Key(VK_Q),
        Target::Key(VK_BACK),
        Target::Key(VK_RETURN),
        Target::Key(VK_ESCAPE),
        Target::Key(VK_LEFT),
        Target::Key(VK_UP),
        Target::Key(VK_RIGHT),
        Target::Key(VK_DOWN),
        Target::LeftButton,
        Target::RightButton,
    ]
}

/// The events that lead from `before` to `after`, in the order of the targets.
pub open spec fn changes(order: Seq<Target>, before: HeldState, after: HeldState) -> Seq<InputEvent>
    decreases order.len(),
{
    if order.len() == 0 {
        Seq::empty()
    } else {
        changes(order.drop_last(), before, after) + transition(
            order.last(),
            after.holds(order.last()),
            before.holds(order.last()),
        )
    }
}

proof fn lemma_one_more_change(order: Seq<Target>, k: int, before: HeldState, after: HeldState)
    requires
        0 <= k < order.len(),
    ensures
        changes(order.take(k + 1), before, after) == changes(order.take(k), before, after)
            + transition(order[k], after.holds(order[k]), before.holds(order[k])),
{
    assert(order.take(k + 1).drop_last() =~= order.take(k));
}

impl HeldState {
    /// Whether a target is held.
    pub open spec fn holds(self, target: Target) -> bool {
        match target {
            Target::Key(vk) => {
                ||| (vk == VK_W && self.w)
                ||| (vk == VK_A && self.a)
                ||| (vk == VK_S && self.s)
                ||| (vk == VK_D && self.d)
                ||| (vk == VK_SPACE && self.space)
                ||| (vk == VK_LCONTROL && self.lctrl)
                ||| (vk == VK_R && self.r)
                ||| (vk == VK_E && self.e)
                ||| (vk == VK_LSHIFT && self.lshift)
                ||| (vk == VK_Q && self.q)
                ||| (vk == VK_BACK && self.escape)
                ||| (vk == VK_RETURN && self.enter)
                ||| (vk == VK_ESCAPE && self.ps_esc)
                ||| (vk == VK_LEFT && self.left)
                ||| (vk == VK_UP && self.up)
                ||| (vk == VK_RIGHT && self.right)
                ||| (vk == VK_DOWN && self.down)
            },
            Target::LeftButton => self.lmb,
            Target::RightButton => self.rmb,
        }
    }

    /// What is held.
    pub open spec fn held(self) -> Set<Target> {
        Set::new(|t: Target| self.holds(t))
    }

    /// Nothing is held.
    pub open spec fn nothing() -> HeldState {
        HeldState {
            w: false,
            a: false,
            s: false,
            d: false,
            space: false,
            lctrl: false,
            r: false,
            e: false,
            lshift: false,
            q: false,
            escape: false,
            enter: false,
            ps_esc: false,
            left: false,
            up: false,
            right: false,
            down: false,
            lmb: false,
            rmb: false,
        }
    }

    /// What a state of the controller holds; `armed` says that the trigger means a shot.
    pub open spec fn wanted(s: AimState, armed: bool) -> HeldState {
        HeldState {
            w: s.lstick_y - 128 < -STICK_THRESHOLD,
            a: s.lstick_x - 128 < -STICK_THRESHOLD,
            s: s.lstick_y - 128 > STICK_THRESHOLD,
            d: s.lstick_x - 128 > STICK_THRESHOLD,
            space: s.cross,
            lctrl: s.circle,
            r: s.square,
            e: s.triangle,
            lshift: s.l1,
            q: s.r1,
            escape: s.share,
            enter: s.options,
            ps_esc: s.ps_guide,
            left: s.dpad == 6,
            up: s.dpad == 0,
            right: s.dpad == 2,
            down: s.dpad == 4,
            lmb: s.r2_click && armed,
            rmb: s.l2_click,
        }
    }

    pub fn new() -> (h: HeldState)
        ensures
            h == HeldState::nothing(),
    {
        HeldState {
            w: false,
            a: false,
            s: false,
            d: false,
            space: false,
            lctrl: false,
            r: false,
            e: false,
            lshift: false,
            q: false,
            escape: false,
            enter: false,
            ps_esc: false,
            left: false,
            up: false,
            right: false,
            down: false,
            lmb: false,
            rmb: false,
        }
    }

    /// Whether a target is held.
    pub fn get(&self, target: Target) -> (r: bool)
        ensures
            r == self.holds(target),
    {
        match target {
            Target::Key(vk) => {
                (vk == VK_W && self.w)
                || (vk == VK_A && self.a)
                || (vk == VK_S && self.s)
                || (vk == VK_D && self.d)
                || (vk == VK_SPACE && self.space)
                || (vk == VK_LCONTROL && self.lctrl)
                || (vk == VK_R && self.r)
                || (vk == VK_E && self.e)
                || (vk == VK_LSHIFT && self.lshift)
                || (vk == VK_Q && self.q)
                || (vk == VK_BACK && self.escape)
                || (vk == VK_RETURN && self.enter)
                || (vk == VK_ESCAPE && self.ps_esc)
                || (vk == VK_LEFT && self.left)
                || (vk == VK_UP && self.up)
                || (vk == VK_RIGHT && self.right)
                || (vk == VK_DOWN && self.down)
            },
            Target::LeftButton => self.lmb,
            Target::RightButton => self.rmb,
        }
    }

    /// The events that lead from here to `after`, in the order of the targets.
    fn changes_to(&self, after: &HeldState, order: &[Target]) -> (events: Vec<InputEvent>)
        ensures
            events@ == changes(order@, *self, *after),
    {
        let mut events: Vec<InputEvent> = Vec::new();
        assert(events@ =~= changes(order@.take(0), *self, *after));
        for i in 0..order.len()
            invariant
                events@ == changes(order@.take(i as int), *self, *after),
        {
            let now = after.get(order[i]);
            let mut was = self.get(order[i]);
            match order[i] {
                Target::Key(vk) => update_key(&mut events, vk, now, &mut was),
                Target::LeftButton => update_mouse_button(&mut events, true, now, &mut was),
                Target::RightButton => update_mouse_button(&mut events, false, now, &mut was),
            }
            proof {
                lemma_one_more_change(order@, i as int, *self, *after);
            }
        }
        assert(order@.take(order.len() as int) =~= order@);
        events
    }

    /// Holds what a state of the controller holds, and returns the events to send.
    pub fn update(&mut self, s: &AimState, armed: bool) -> (events: Vec<InputEvent>)
        ensures
            *final(self) == HeldState::wanted(*s, armed),
            events@ == changes(update_order(), *old(self), *final(self)),
    {
        let lx: i32 = s.lstick_x as i32 - 128;
        let ly: i32 = s.lstick_y as i32 - 128;
        let after = HeldState {
            w: ly < -STICK_THRESHOLD,
            a: lx < -STICK_THRESHOLD,
            s: ly > STICK_THRESHOLD,
            d: lx > STICK_THRESHOLD,
            space: s.cross,
            lctrl: s.circle,
            r: s.square,
            e: s.triangle,
            lshift: s.l1,
            q: s.r1,
            escape: s.share,
            enter: s.options,
            ps_esc: s.ps_guide,
            left: s.dpad == 6,
            up: s.dpad == 0,
            right: s.dpad == 2,
            down: s.dpad == 4,
            lmb: s.r2_click && armed,
            rmb: s.l2_click,
        };
        let order = [
            Target::Key(VK_W),
            Target::Key(VK_S),
            Target::Key(VK_A),
            Target::Key(VK_D),
            Target::Key(VK_SPACE),
            Target::Key(VK_LCONTROL),
            Target::Key(VK_R),
            Target::Key(VK_E),
            Target::Key(VK_LSHIFT),
            Target::Key(VK_Q),
            Target::Key(VK_BACK),
            Target::Key(VK_RETURN),
            Target::Key(VK_ESCAPE),
            Target::Key(VK_UP),
            Target::Key(VK_DOWN),
            Target::Key(VK_LEFT),
            Target::Key(VK_RIGHT),
            Target::LeftButton,
            Target::RightButton,
        ];
        assert(order@ =~= update_order());
        let events = self.changes_to(&after, order.as_slice());
        *self = after;
        events
    }

    /// Lets everything go, and returns the events to send.
    pub fn release_all(&mut self) -> (events: Vec<InputEvent>)
        ensures
            *final(self) == HeldState::nothing(),
            events@ == changes(release_order(), *old(self), *final(self)),
    {
        let after = HeldState::new();
        let order = [
            Target::Key(VK_W),
            Target::Key(VK_A),
            Target::Key(VK_S),
            Target::Key(VK_D),
            Target::Key(VK_SPACE),
            Target::Key(VK_LCONTROL),
            Target::Key(VK_R),
            Target::Key(VK_E),
            Target::Key(VK_LSHIFT),
            Target::Key(VK_Q),
            Target::Key(VK_BACK),
            Target::Key(VK_RETURN),
            Target::Key(VK_ESCAPE),
            Target::Key(VK_LEFT),
            Target::Key(VK_UP),
            Target::Key(VK_RIGHT),
            Target::Key(VK_DOWN),
            Target::LeftButton,
            Target::RightButton,
        ];
        assert(order@ =~= release_order());
        let events = self.changes_to(&after, order.as_slice());
        *self = after;
        events
    }
}

/// What is held after events, as whoever receives them sees it.
pub open spec fn applied(held: Set<Target>, events: Seq<InputEvent>) -> Set<Target>
    decreases events.len(),
{
    if events.len() == 0 {
        held
    } else {
        let before = applied(held, events.drop_last());
        if events.last().down {
            before.insert(events.last().target)
        } else {
            before.remove(events.last().target)
        }
    }
}

proof fn lemma_applied_one_more(held: Set<Target>, events: Seq<InputEvent>, e: InputEvent)
    ensures
        applied(held, events + seq![e]) == if e.down {
            applied(held, events).insert(e.target)
        } else {
            applied(held, events).remove(e.target)
        },
{
    assert((events + seq![e]).drop_last() =~= events);
}

proof fn lemma_changes_apply(order: Seq<Target>, before: HeldState, after: HeldState, t: Target)
    ensures
        applied(before.held(), changes(order, before, after)).contains(t) == if order.contains(t) {
            after.holds(t)
        } else {
            before.holds(t)
        },
    decreases order.len(),
{
    if order.len() > 0 {
        let fewer = order.drop_last();
        let last = order.last();
        lemma_changes_apply(fewer, before, after, t);
        if after.holds(last) != before.holds(last) {
            lemma_applied_one_more(
                before.held(),
                changes(fewer, before, after),
                InputEvent { target: last, down: after.holds(last) },
            );
        } else {
            assert(changes(order, before, after) =~= changes(fewer, before, after));
        }
        assert(order[order.len() - 1] == last);
        if fewer.contains(t) {
            let i = choose|i: int| 0 <= i < fewer.len() && fewer[i] == t;
            assert(order[i] == t);
        } else if order.contains(t) {
            let i = choose|i: int| 0 <= i < order.len() && order[i] == t;
            assert(i < fewer.len() ==> fewer[i] == t);
        }
    }
}

/// Every target that can be held has its place in both orders.
proof fn lemma_orders_cover(h: HeldState, t: Target)
    requires
        h.holds(t),
    ensures
        update_order().contains(t),
        release_order().contains(t),
{
    let u = update_order();
    let r = release_order();
    match t {
        Target::LeftButton => {
            assert(u[17] == t && r[17] == t);
        },
        Target::RightButton => {
            assert(u[18] == t && r[18] == t);
        },
        Target::Key(vk) => {
            if vk == VK_W {
                assert(u[0] == t && r[0] == t);
            } else if vk == VK_S {
                assert(u[1] == t && r[2] == t);
            } else if vk == VK_A {
                assert(u[2] == t && r[1] == t);
            } else if vk == VK_D {
                assert(u[3] == t && r[3] == t);
            } else if vk == VK_SPACE {
                assert(u[4] == t && r[4] == t);
            } else if vk == VK_LCONTROL {
                assert(u[5] == t && r[5] == t);
            } else if vk == VK_R {
                assert(u[6] == t && r[6] == t);
            } else if vk == VK_E {
                assert(u[7] == t && r[7] == t);
            } else if vk == VK_LSHIFT {
                assert(u[8] == t && r[8] == t);
            } else if vk == VK_Q {
                assert(u[9] == t && r[9] == t);
            } else if vk == VK_BACK {
                assert(u[10] == t && r[10] == t);
            } else if vk == VK_RETURN {
                assert(u[11] == t && r[11] == t);
            } else if vk == VK_ESCAPE {
                assert(u[12] == t && r[12] == t);
            } else if vk == VK_UP {
                assert(u[13] == t && r[14] == t);
            } else if vk == VK_DOWN {
                assert(u[14] == t && r[16] == t);
            } else if vk == VK_LEFT {
                assert(u[15] == t && r[13] == t);
            } else if vk == VK_RIGHT {
                assert(u[16] == t && r[15] == t);
            }
        },
    }
}

/// The events of a frame, or of letting everything go, do what they are for: whoever
/// receives them and saw what was held before sees what is held after.
pub proof fn events_lead_to_the_new_state(before: HeldState, after: HeldState)
    ensures
        applied(before.held(), changes(update_order(), before, after)) == after.held(),
        applied(before.held(), changes(release_order(), before, after)) == after.held(),
{
    assert forall|t: Target|
        applied(before.held(), changes(update_order(), before, after)).contains(t)
            == after.holds(t) && applied(
            before.held(),
            changes(release_order(), before, after),
        ).contains(t) == after.holds(t) by {
        lemma_changes_apply(update_order(), before, after, t);
        lemma_changes_apply(release_order(), before, after, t);
        if before.holds(t) {
            lemma_orders_cover(before, t);
        }
        if after.holds(t) {
            lemma_orders_cover(after, t);
        }
    }
    assert(applied(before.held(), changes(update_order(), before, after)) =~= after.held());
    assert(applied(before.held(), changes(release_order(), before, after)) =~= after.held());
}

/// An event is sent only for a change: its target was not yet as the event leaves it. So a
/// held key is not sent again and again.
pub proof fn events_are_changes(
    order: Seq<Target>,
    before: HeldState,
    after: HeldState,
    i: int,
)
    requires
        0 <= i < changes(order, before, after).len(),
    ensures
        before.holds(changes(order, before, after)[i].target) != changes(
            order,
            before,
            after,
        )[i].down,
        after.holds(changes(order, before, after)[i].target) == changes(
            order,
            before,
            after,
        )[i].down,
    decreases order.len(),
{
    let fewer = order.drop_last();
    if i < changes(fewer, before, after).len() {
        events_are_changes(fewer, before, after, i);
    }
}

/// Letting everything go leaves nothing held, and presses nothing on the way.
pub proof fn releasing_lets_everything_go(before: HeldState)
    ensures
        applied(before.held(), changes(release_order(), before, HeldState::nothing())) == Set::<
            Target,
        >::empty(),
        forall|i: int|
            0 <= i < changes(release_order(), before, HeldState::nothing()).len() ==> !(
            #[trigger] changes(release_order(), before, HeldState::nothing())[i]).down,
{
    let after = HeldState::nothing();
    events_lead_to_the_new_state(before, after);
    assert(after.held() =~= Set::<Target>::empty());
    assert forall|i: int| 0 <= i < changes(release_order(), before, after).len() implies !(
    #[trigger] changes(release_order(), before, after)[i]).down by {
        events_are_changes(release_order(), before, after, i);
    }
}

/// The controller is passed on: whoever saw what was held before a frame and receives its
/// events sees the left mouse button held exactly while R2 is clicked and means a shot, the
/// right one exactly while L2 is clicked, and each key, by its code, exactly while its
/// control is pressed: W, S, A and D while the left stick is pushed that way by more than
/// 40 of 128, Space for Cross, the left Control key for Circle, R for Square, E for Triangle, the
/// left Shift key for L1, Q for R1, Backspace for Share, Enter for Options, Escape for the PS
/// button, and the arrow keys for the D-pad. No other key is held.
pub proof fn controls_are_passed_on(before: HeldState, s: AimState, armed: bool)
    ensures
        ({
            let seen = applied(
                before.held(),
                changes(update_order(), before, HeldState::wanted(s, armed)),
            );
            &&& seen.contains(Target::LeftButton) <==> s.r2_click && armed
            &&& seen.contains(Target::RightButton) <==> s.l2_click
            &&& seen.contains(Target::Key(0x57)) <==> s.lstick_y < 88
            &&& seen.contains(Target::Key(0x53)) <==> s.lstick_y > 168
            &&& seen.contains(Target::Key(0x41)) <==> s.lstick_x < 88
            &&& seen.contains(Target::Key(0x44)) <==> s.lstick_x > 168
            &&& seen.contains(Target::Key(0x20)) <==> s.cross
            &&& seen.contains(Target::Key(0xa2)) <==> s.circle
            &&& seen.contains(Target::Key(0x52)) <==> s.square
            &&& seen.contains(Target::Key(0x45)) <==> s.triangle
            &&& seen.contains(Target::Key(0xa0)) <==> s.l1
            &&& seen.contains(Target::Key(0x51)) <==> s.r1
            &&& seen.contains(Target::Key(0x08)) <==> s.share
            &&& seen.contains(Target::Key(0x0d)) <==> s.options
            &&& seen.contains(Target::Key(0x1b)) <==> s.ps_guide
            &&& seen.contains(Target::Key(0x26)) <==> s.dpad == 0
            &&& seen.contains(Target::Key(0x28)) <==> s.dpad == 4
            &&& seen.contains(Target::Key(0x25)) <==> s.dpad == 6
            &&& seen.contains(Target::Key(0x27)) <==> s.dpad == 2
            &&& forall|vk: u16| #[trigger]
                seen.contains(Target::Key(vk)) ==> vk == 0x57 || vk == 0x53 || vk == 0x41 || vk
                    == 0x44 || vk == 0x20 || vk == 0xA2 || vk == 0x52 || vk == 0x45 || vk == 0xA0
                    || vk == 0x51 || vk == 0x08 || vk == 0x0D || vk == 0x1B || vk == 0x26 || vk
                    == 0x28 || vk == 0x25 || vk == 0x27
        }),
{
    let after = HeldState::wanted(s, armed);
    events_lead_to_the_new_state(before, after);
    assert(forall|t: Target| #[trigger] after.held().contains(t) <==> after.holds(t));
}

/// Directions exclude each other: of W and S, of A and D, and of the arrow keys no two are
/// held at once.
pub proof fn directions_exclude_each_other(s: AimState, armed: bool)
    ensures
        ({
            let h = HeldState::wanted(s, armed).held();
            &&& !(h.contains(Target::Key(0x57)) && h.contains(Target::Key(0x53)))
            &&& !(h.contains(Target::Key(0x41)) && h.contains(Target::Key(0x44)))
            &&& !(h.contains(Target::Key(0x26)) && h.contains(Target::Key(0x28)))
            &&& !(h.contains(Target::Key(0x25)) && h.contains(Target::Key(0x27)))
        }),
{
    let w = HeldState::wanted(s, armed);
    assert(forall|t: Target| #[trigger] w.held().contains(t) <==> w.holds(t));
}

/// No target has two events in a frame or in letting everything go, nor in any order that
/// names each target once.
pub proof fn one_event_per_target(
    order: Seq<Target>,
    before: HeldState,
    after: HeldState,
    i: int,
    j: int,
)
    requires
        order.no_duplicates(),
        0 <= i < j < changes(order, before, after).len(),
    ensures
        changes(order, before, after)[i].target != changes(order, before, after)[j].target,
    decreases order.len(),
{
    let fewer = order.drop_last();
    let earlier = changes(fewer, before, after);
    if j < earlier.len() {
        assert(fewer.no_duplicates());
        one_event_per_target(fewer, before, after, i, j);
    } else {
        lemma_changes_targets(fewer, before, after, i);
        let at = choose|at: int| 0 <= at < fewer.len() && fewer[at] == earlier[i].target;
        assert(order[at] == earlier[i].target);
        assert(changes(order, before, after)[j].target == order.last());
    }
}

proof fn lemma_changes_targets(order: Seq<Target>, before: HeldState, after: HeldState, i: int)
    requires
        0 <= i < changes(order, before, after).len(),
    ensures
        order.contains(changes(order, before, after)[i].target),
    decreases order.len(),
{
    let fewer = order.drop_last();
    if i < changes(fewer, before, after).len() {
        lemma_changes_targets(fewer, before, after, i);
        let t = changes(fewer, before, after)[i].target;
        let at = choose|at: int| 0 <= at < fewer.len() && fewer[at] == t;
        assert(order[at] == t);
    } else {
        assert(order[order.len() - 1] == order.last());
    }
}

/// Both orders name each target once.
pub proof fn orders_name_each_target_once()
    ensures
        update_order().no_duplicates(),
        release_order().no_duplicates(),
        update_order().to_set() == release_order().to_set(),
{
    assert forall|t: Target| update_order().contains(t) == release_order().contains(t) by {
        lemma_named(t);
    }
    assert(update_order().to_set() =~= release_order().to_set());
}

proof fn lemma_named(t: Target)
    ensures
        update_order().contains(t) == release_order().contains(t),
{
    let all = HeldState {
        w: true,
        a: true,
        s: true,
        d: true,
        space: true,
        lctrl: true,
        r: true,
        e: true,
        lshift: true,
        q: true,
        escape: true,
        enter: true,
        ps_esc: true,
        left: true,
        up: true,
        right: true,
        down: true,
        lmb: true,
        rmb: true,
    };
    if all.holds(t) {
        lemma_orders_cover(all, t);
    }
}

} // verus!
