//! The camera tracker's position broadcast.
//!
//! The tracker sends a line of text for every frame of the camera: whether the sphere was
//! found, and where in the frame. A line that is malformed is skipped. Coordinates are
//! kept in tenths of a camera pixel.

use crate::text;
use vstd::prelude::*;

verus! {

/// The latest position of the sphere.
#[derive(Debug, Clone, Copy, PartialEq, Eq, Structural)]
pub struct PsEyePosition {
    pub found: bool,
    pub x_fixed: i32,
    pub y_fixed: i32,
}

/// What happens on the connection to the tracker.
#[derive(Debug, Clone, Copy, PartialEq, Eq, Structural)]
pub enum TrackerEvent {
    /// The connection is up.
    Connected,
    /// The tracker cannot be reached.
    Unreachable,
    /// A well-formed line: whether the sphere was found, and where.
    Position(bool, i32, i32),
    /// A malformed line.
    Malformed,
    /// The connection is closed or broken.
    Disconnected,
}

/// What is to be done after an event.
#[derive(Debug, Clone, Copy, PartialEq, Eq, Structural)]
pub enum TrackerAction {
    /// Read the next line.
    ReadLine,
    /// Wait for so many milliseconds and try to connect again.
    Reconnect(u64),
}

/// Milliseconds between two attempts to connect.
pub const RETRY_MS: u64 = 1000;

/// What is to be done after an event.
pub open spec fn next_action(event: TrackerEvent) -> TrackerAction {
    match event {
        TrackerEvent::Unreachable | TrackerEvent::Disconnected => TrackerAction::Reconnect(
            RETRY_MS,
        ),
        _ => TrackerAction::ReadLine,
    }
}

/// What a line of the tracker says: whether the sphere was found, and the texts of the two
/// coordinates, which are decimal fractions. Anything after a third comma is ignored.
pub open spec fn line_content(line: Seq<char>) -> Option<(bool, Seq<char>, Seq<char>)> {
    let parts = text::pieces(text::trimmed(line), ',');
    if parts.len() >= 3 && text::is_decimal(parts[1]) && text::is_decimal(parts[2]) {
        match text::signed_value(parts[0]) {
            Some(found) => Some((found != 0, parts[1], parts[2])),
            None => None,
        }
    } else {
        None
    }
}

/// Reads a line of the tracker, such as `1,182.3,70.1`. `None` for anything malformed.
pub fn parse_line(line: &str) -> (r: Option<(bool, String, String)>)
    ensures
        r is Some <==> line_content(line@) is Some,
        r matches Some((found, x, y)) ==> line_content(line@) == Some((found, x@, y@)),
{
    let chars = text::chars_of(line);
    let parts = text::split(text::trim(chars.as_slice()), ',');
    let ghost all = text::pieces(text::trimmed(line@), ',');
    if parts.len() < 3 {
        return None;
    }
    assert(parts@[0]@ == all[0] && parts@[1]@ == all[1] && parts@[2]@ == all[2]);
    if !text::decimal(parts[1].as_slice()) || !text::decimal(parts[2].as_slice()) {
        return None;
    }
    match text::parse_signed(parts[0].as_slice()) {
        Some(found) => Some(
            (
                found != 0,
                text::string_of(parts[1].as_slice()),
                text::string_of(parts[2].as_slice()),
            ),
        ),
        None => None,
    }
}

impl PsEyePosition {
    /// No position yet.
    pub fn new() -> (p: PsEyePosition)
        ensures
            p == (PsEyePosition { found: false, x_fixed: 0, y_fixed: 0 }),
    {
        PsEyePosition { found: false, x_fixed: 0, y_fixed: 0 }
    }

    /// Where the sphere is, in tenths of a pixel; `None` while it is not seen.
    pub open spec fn seen_at(self) -> Option<(i32, i32)> {
        if self.found {
            Some((self.x_fixed, self.y_fixed))
        } else {
            None
        }
    }

    /// Where the sphere is, in tenths of a pixel; `None` while it is not seen.
    pub fn get(&self) -> (r: Option<(i32, i32)>)
        ensures
            r == self.seen_at(),
    {
        if self.found {
            Some((self.x_fixed, self.y_fixed))
        } else {
            None
        }
    }

    /// The position after an event: a well-formed line replaces it, the end of a
    /// connection makes the sphere unseen, and nothing else touches it.
    pub open spec fn after(self, event: TrackerEvent) -> PsEyePosition {
        match event {
            TrackerEvent::Position(found, x, y) => PsEyePosition { found, x_fixed: x, y_fixed: y },
            TrackerEvent::Disconnected => PsEyePosition { found: false, ..self },
            _ => self,
        }
    }

    /// Takes an event into account, and says what is to be done next.
    pub fn step(&mut self, event: TrackerEvent) -> (action: TrackerAction)
        ensures
            *final(self) == old(self).after(event),
            action == next_action(event),
    {
        match event {
            TrackerEvent::Connected => TrackerAction::ReadLine,
            TrackerEvent::Unreachable => TrackerAction::Reconnect(RETRY_MS),
            TrackerEvent::Position(found, x, y) => {
                self.found = found;
                self.x_fixed = x;
                self.y_fixed = y;
                TrackerAction::ReadLine
            },
            TrackerEvent::Malformed => TrackerAction::ReadLine,
            TrackerEvent::Disconnected => {
                self.found = false;
                TrackerAction::Reconnect(RETRY_MS)
            },
        }
    }
}

/// The position after events.
pub open spec fn position_after(start: PsEyePosition, events: Seq<TrackerEvent>) -> PsEyePosition
    decreases events.len(),
{
    if events.len() == 0 {
        start
    } else {
        position_after(start, events.drop_last()).after(events.last())
    }
}

/// A malformed line changes nothing: leaving it out of what happened leaves the position
/// the same.
pub proof fn malformed_lines_are_skipped(
    start: PsEyePosition,
    before: Seq<TrackerEvent>,
    after: Seq<TrackerEvent>,
)
    ensures
        position_after(start, before.push(TrackerEvent::Malformed) + after) == position_after(
            start,
            before + after,
        ),
    decreases after.len(),
{
    let with = before.push(TrackerEvent::Malformed) + after;
    let without = before + after;
    if after.len() == 0 {
        assert(with.drop_last() =~= before);
        assert(without =~= before);
    } else {
        assert(with.drop_last() =~= before.push(TrackerEvent::Malformed) + after.drop_last());
        assert(without.drop_last() =~= before + after.drop_last());
        malformed_lines_are_skipped(start, before, after.drop_last());
    }
}

/// Without a connection there is no position: after the connection has ended, and until a
/// line has come over a new one, the sphere is unseen.
pub proof fn no_position_without_a_connection(
    start: PsEyePosition,
    before: Seq<TrackerEvent>,
    since: Seq<TrackerEvent>,
)
    requires
        forall|i: int| 0 <= i < since.len() ==> !(#[trigger] since[i] is Position),
    ensures
        !position_after(start, before.push(TrackerEvent::Disconnected) + since).found,
    decreases since.len(),
{
    let all = before.push(TrackerEvent::Disconnected) + since;
    if since.len() == 0 {
        assert(all.drop_last() =~= before);
    } else {
        let fewer = since.drop_last();
        assert forall|i: int| 0 <= i < fewer.len() implies !(#[trigger] fewer[i] is Position) by {
            assert(!(since[i] is Position));
        }
        assert(!(since[since.len() - 1] is Position));
        assert(all.drop_last() =~= before.push(TrackerEvent::Disconnected) + fewer);
        no_position_without_a_connection(start, before, fewer);
    }
}

/// The position is that of the last well-formed line of the connection: whatever happened
/// before it, and as long as the connection lasts and no other such line comes.
pub proof fn last_line_is_the_position(
    start: PsEyePosition,
    before: Seq<TrackerEvent>,
    found: bool,
    x: i32,
    y: i32,
    since: Seq<TrackerEvent>,
)
    requires
        forall|i: int|
            0 <= i < since.len() ==> !(#[trigger] since[i] is Position) && !(since[i]
                is Disconnected),
    ensures
        position_after(start, before.push(TrackerEvent::Position(found, x, y)) + since) == (
        PsEyePosition { found, x_fixed: x, y_fixed: y }),
    decreases since.len(),
{
    let all = before.push(TrackerEvent::Position(found, x, y)) + since;
    if since.len() == 0 {
        assert(all.drop_last() =~= before);
    } else {
        let fewer = since.drop_last();
        assert forall|i: int| 0 <= i < fewer.len() implies !(#[trigger] fewer[i] is Position) && !(
        fewer[i] is Disconnected) by {
            assert(!(since[i] is Position));
        }
        assert(!(since[since.len() - 1] is Position));
        assert(all.drop_last() =~= before.push(TrackerEvent::Position(found, x, y)) + fewer);
        last_line_is_the_position(start, before, found, x, y, fewer);
    }
}

/// What the tracker tells is what is seen: a line that says where the sphere is, is given back
/// with its coordinates in their order, and after one that says it was not found, or after the
/// end of the connection, there is no position. Before the first line there is none either.
pub proof fn told_position_is_seen(p: PsEyePosition, x: i32, y: i32)
    ensures
        p.after(TrackerEvent::Position(true, x, y)).seen_at() == Some((x, y)),
        p.after(TrackerEvent::Position(false, x, y)).seen_at() is None,
        p.after(TrackerEvent::Disconnected).seen_at() is None,
        p.after(TrackerEvent::Connected).seen_at() == p.seen_at(),
        p.after(TrackerEvent::Unreachable).seen_at() == p.seen_at(),
        p.after(TrackerEvent::Malformed).seen_at() == p.seen_at(),
{
}

/// Lines are read while there is a connection, and a second passes before each attempt at
/// another.
pub proof fn lost_connection_is_tried_again(event: TrackerEvent)
    ensures
        next_action(event) == TrackerAction::Reconnect(1000) <==> event is Disconnected || event
            is Unreachable,
        next_action(event) == TrackerAction::ReadLine <==> event is Connected || event is Position
            || event is Malformed,
{
}

/// A line is a whole number, a comma, a decimal fraction, a comma and another one, with white
/// space around the whole and more behind a third comma allowed: the sphere was found unless
/// the number is zero, the first fraction is the horizontal coordinate and the second the
/// vertical one.
pub proof fn lines_are_read(
    blank: Seq<char>,
    n: Seq<char>,
    x: Seq<char>,
    y: Seq<char>,
    more: Seq<char>,
)
    requires
        text::all_white(blank),
        text::signed_value(n) is Some,
        text::is_decimal(x),
        text::is_decimal(y),
        more.len() == 0 || more[0] == ',' && !text::is_white(more.last()),
    ensures
        line_content(blank + (n.push(',') + x.push(',') + y + more) + blank) == Some(
            (text::signed_value(n) != Some(0int), x, y),
        ),
{
    let s = n.push(',') + x.push(',') + y + more;
    text::only_digits_are_numbers(n, 0);
    lemma_no_comma(x);
    lemma_no_comma(y);
    text::lemma_decimal_has_no_white(y);
    assert forall|i: int| 0 <= i < n.len() implies #[trigger] n[i] != ',' by {
        assert(text::is_digit(n[i]) || n[i] == '+' || n[i] == '-');
    }
    assert(s[0] == n[0]);
    assert(text::is_digit(n[0]) || n[0] == '+' || n[0] == '-');
    if more.len() == 0 {
        assert(s.last() == y.last());
        assert(!text::is_white(y[y.len() - 1]));
    } else {
        assert(s.last() == more.last());
    }
    text::white_space_is_cut_off(blank, s, blank);
    let none = Seq::<char>::empty();
    let one = seq![none];
    assert(text::pieces(none, ',') =~= one);
    text::lemma_pieces_line(none, n, ',');
    let a = none + n.push(',');
    assert(text::pieces(a, ',') =~= seq![n, none]);
    text::lemma_pieces_line(a, x, ',');
    let b = a + x.push(',');
    assert(text::pieces(b, ',') =~= seq![n, x, none]);
    text::lemma_pieces_extend(b, y, ',');
    let c = b + y;
    assert(none + y =~= y);
    assert(text::pieces(c, ',') =~= seq![n, x, y]);
    lemma_first_pieces_stay(c, more, ',');
    assert(c + more =~= s);
}

proof fn lemma_no_comma(s: Seq<char>)
    requires
        text::is_decimal(s),
    ensures
        s.len() > 0,
        forall|i: int| 0 <= i < s.len() ==> #[trigger] s[i] != ',',
{
    text::lemma_decimal_has_no_comma(s);
    text::lemma_decimal_has_no_white(s);
}

/// Pieces that another follows stay what they are, and with a separator next so does the last.
proof fn lemma_first_pieces_stay(s: Seq<char>, more: Seq<char>, sep: char)
    requires
        more.len() == 0 || more[0] == sep,
    ensures
        text::pieces(s + more, sep).len() >= text::pieces(s, sep).len(),
        more.len() > 0 ==> text::pieces(s + more, sep).len() > text::pieces(s, sep).len(),
        forall|k: int|
            0 <= k < text::pieces(s, sep).len() ==> #[trigger] text::pieces(s + more, sep)[k]
                == text::pieces(s, sep)[k],
    decreases more.len(),
{
    if more.len() == 0 {
        assert(s + more =~= s);
    } else {
        let fewer = more.drop_last();
        assert((s + more).drop_last() =~= s + fewer);
        assert((s + more).last() == more.last());
        lemma_first_pieces_stay(s, fewer, sep);
        if fewer.len() == 0 {
            assert(more.last() == sep);
        }
    }
}

} // verus!
