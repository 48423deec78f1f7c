//! The command line, and the end of a session.

use ps_aim_windows::launch::{disconnect_message, select, should_reconnect, Launch, Mode};

fn asked(args: &[&str]) -> Launch {
    let args: Vec<String> = args.iter().map(|a| a.to_string()).collect();
    select(&args)
}

#[test]
fn flags_choose_the_mode() {
    assert_eq!(asked(&["exe"]), Launch::Run { mode: Mode::Ds4, pseye: false });
    assert_eq!(asked(&["exe", "--lightgun"]), Launch::Run { mode: Mode::Lightgun, pseye: false });
    assert_eq!(
        asked(&["exe", "--pseye", "--lightgun-raw"]),
        Launch::Run { mode: Mode::LightgunRaw, pseye: true }
    );
    assert_eq!(
        asked(&["exe", "--lightgun", "--lightgun-raw"]),
        Launch::Run { mode: Mode::LightgunRaw, pseye: false }
    );
    assert_eq!(asked(&["exe", "--lightgun-"]), Launch::Run { mode: Mode::Ds4, pseye: false });
    assert_eq!(asked(&[]), Launch::Run { mode: Mode::Ds4, pseye: false });
}

#[test]
fn hiding_comes_before_any_mode() {
    assert_eq!(asked(&["exe", "--wipe-hidhide", "--setup-hidhide"]), Launch::SetupHidHide);
    assert_eq!(asked(&["exe", "--lightgun", "--wipe-hidhide"]), Launch::WipeHidHide);
}

#[test]
fn arguments_may_come_in_any_order() {
    assert_eq!(asked(&["--pseye", "--lightgun"]), asked(&["--lightgun", "--pseye", "--pseye"]));
}

#[test]
fn lost_controllers_are_waited_for() {
    assert!(should_reconnect("device disconnected: gone"));
    assert!(should_reconnect("HID error"));
    assert!(should_reconnect("cannot open it"));
    assert!(should_reconnect("hidapi"));
    assert!(should_reconnect("spread"));
    assert!(!should_reconnect("ViGEmBus not found"));
    assert!(!should_reconnect("Disconnected"));
    assert!(!should_reconnect(""));
}

#[test]
fn message_of_a_disconnect_leads_to_a_reconnect() {
    assert_eq!(disconnect_message("gone"), "device disconnected: gone");
    assert!(should_reconnect(&disconnect_message("")));
}
