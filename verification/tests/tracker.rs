//! The camera tracker's lines.

use ps_aim_windows::pseye_client::{parse_line, PsEyePosition, TrackerAction, TrackerEvent};

fn fractions(line: &str) -> Option<(bool, f32, f32)> {
    parse_line(line).map(|(found, x, y)| {
        (found, x.parse::<f32>().unwrap(), y.parse::<f32>().unwrap())
    })
}

#[test]
fn parses_valid_line() {
    assert_eq!(fractions("1,182.3,70.1"), Some((true, 182.3, 70.1)));
    assert_eq!(fractions("0,0.0,0.0\n"), Some((false, 0.0, 0.0)));
}

#[test]
fn rejects_malformed_line() {
    assert_eq!(fractions(""), None);
    assert_eq!(fractions("garbage"), None);
    assert_eq!(fractions("1,182.3"), None);
}

#[test]
fn lines_are_read_as_leniently_as_their_parts() {
    assert_eq!(fractions("  -3,1e1,-.5,more\r\n"), Some((true, 10.0, -0.5)));
    assert_eq!(fractions("1, 2,3"), None);
    assert_eq!(fractions("1.0,2,3"), None);
    assert_eq!(fractions("2147483648,2,3"), None);
    assert_eq!(fractions("+0,2,3"), Some((false, 2.0, 3.0)));
}

#[test]
fn position_follows_the_tracker() {
    let mut p = PsEyePosition::new();
    assert_eq!(p.get(), None);
    assert_eq!(p.step(TrackerEvent::Unreachable), TrackerAction::Reconnect(1000));
    assert_eq!(p.step(TrackerEvent::Connected), TrackerAction::ReadLine);
    assert_eq!(p.step(TrackerEvent::Position(true, 1823, 701)), TrackerAction::ReadLine);
    assert_eq!(p.get(), Some((1823, 701)));
    assert_eq!(p.step(TrackerEvent::Malformed), TrackerAction::ReadLine);
    assert_eq!(p.get(), Some((1823, 701)));
    assert_eq!(p.step(TrackerEvent::Position(false, 5, 6)), TrackerAction::ReadLine);
    assert_eq!(p.get(), None);
    p.step(TrackerEvent::Position(true, 7, 8));
    assert_eq!(p.step(TrackerEvent::Disconnected), TrackerAction::Reconnect(1000));
    assert_eq!(p.get(), None);
}
