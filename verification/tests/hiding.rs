//! Hiding the controller from other programs.

use ps_aim_windows::hidhide::{
    check_cli_exists, cli_reply, find_device_instance_paths, is_controller, HidHideError, Progress,
    Purpose, Script,
};

const LISTING: &str = r#"[
  { "friendlyName": "Aim", "devices": [
      { "deviceInstancePath": "USB\\VID_054C&PID_0BB2\\1" },
      { "deviceInstancePath": "USB\\VID_054C&PID_09CC\\2" },
      { "present": true },
      { "deviceInstancePath": 7 } ] },
  { "devices": "none" },
  7,
  { "devices": [
      { "deviceInstancePath": "HID\\{0000}_VID&0002054c_PID&0bb2\\3" } ] }
]"#;

const PATHS: [&str; 2] = [r"USB\VID_054C&PID_0BB2\1", r"HID\{0000}_VID&0002054c_PID&0bb2\3"];

fn run(purpose: Purpose, listing: &str) -> (Vec<Vec<String>>, Option<HidHideError>) {
    let mut script = Script::new(purpose);
    let mut ran = Vec::new();
    loop {
        let exe = if script.names_program() { "me.exe" } else { "" };
        let Some(command) = script.next_command(exe) else {
            return (ran, None);
        };
        ran.push(command.clone());
        let reply = if command[0] == "--dev-gaming" { listing } else { "" };
        match script.completed(Ok(reply.to_string())) {
            Ok(_) => {}
            Err(e) => return (ran, Some(e)),
        }
    }
}

#[test]
fn controllers_are_found_whatever_the_case() {
    assert_eq!(find_device_instance_paths(LISTING).unwrap(), PATHS.to_vec());
    assert!(is_controller(r"USB\VID_054C&PID_0BB2\X"));
    assert!(is_controller("0bb2 054c"));
    assert!(!is_controller(r"USB\VID_054C"));
    assert!(!is_controller(""));
}

#[test]
fn listings_of_other_shapes_hold_no_controller() {
    assert_eq!(find_device_instance_paths("{}").unwrap(), Vec::<String>::new());
    assert_eq!(find_device_instance_paths("[]").unwrap(), Vec::<String>::new());
    assert_eq!(find_device_instance_paths("null").unwrap(), Vec::<String>::new());
}

#[test]
fn listing_that_is_no_document_is_an_error() {
    assert!(matches!(find_device_instance_paths("["), Err(HidHideError::BadListing(_))));
    assert!(matches!(find_device_instance_paths(""), Err(HidHideError::BadListing(_))));
}

#[test]
fn setup_runs_its_commands_in_order() {
    let (ran, error) = run(Purpose::Setup, LISTING);
    assert!(error.is_none());
    assert_eq!(
        ran,
        vec![
            vec!["--app-reg", "me.exe"],
            vec!["--dev-gaming"],
            vec!["--dev-hide", PATHS[0]],
            vec!["--dev-hide", PATHS[1]],
            vec!["--cloak-on"],
        ]
    );
}

#[test]
fn wipe_runs_the_inverse_commands() {
    let (ran, error) = run(Purpose::Wipe, LISTING);
    assert!(error.is_none());
    assert_eq!(
        ran,
        vec![
            vec!["--cloak-off"],
            vec!["--dev-gaming"],
            vec!["--dev-unhide", PATHS[0]],
            vec!["--dev-unhide", PATHS[1]],
            vec!["--app-unreg", "me.exe"],
        ]
    );
}

#[test]
fn setup_needs_a_controller_and_wipe_does_not() {
    let (ran, error) = run(Purpose::Setup, "[]");
    assert!(matches!(error, Some(HidHideError::NoController)));
    assert_eq!(ran.len(), 2);
    let (ran, error) = run(Purpose::Wipe, "[]");
    assert!(error.is_none());
    assert_eq!(ran.len(), 3);
}

#[test]
fn failed_command_ends_the_run() {
    let mut script = Script::new(Purpose::Setup);
    let failed = cli_reply(vec!["--app-reg".to_string()], false, String::new(), String::new());
    assert!(matches!(script.completed(failed), Err(HidHideError::CliFailed { .. })));
}

#[test]
fn unregistering_may_fail() {
    let mut script = Script::new(Purpose::Wipe);
    script.completed(Ok(String::new())).unwrap();
    script.completed(Ok("[]".to_string())).unwrap();
    assert_eq!(script.next_command("me.exe").unwrap(), vec!["--app-unreg", "me.exe"]);
    let not_started = HidHideError::CliNotStarted { cause: "gone".to_string() };
    let progress = script.completed(Err(not_started)).unwrap();
    assert!(matches!(progress, Progress::Warning(HidHideError::CliNotStarted { .. })));
    assert!(script.next_command("me.exe").is_none());
}

#[test]
fn tool_that_does_not_start_ends_the_run_before() {
    for purpose in [Purpose::Setup, Purpose::Wipe] {
        let mut script = Script::new(purpose);
        let not_started = HidHideError::CliNotStarted { cause: "gone".to_string() };
        match script.completed(Err(not_started)) {
            Err(HidHideError::CliNotStarted { cause }) => assert_eq!(cause, "gone"),
            _ => panic!("the run goes on"),
        }
    }
}

#[test]
fn program_is_named_where_it_is_registered() {
    let mut setup = Script::new(Purpose::Setup);
    assert!(setup.names_program());
    setup.completed(Ok(String::new())).unwrap();
    assert!(!setup.names_program());
    assert_eq!(setup.next_command("a"), setup.next_command("b"));
    let mut wipe = Script::new(Purpose::Wipe);
    assert!(!wipe.names_program());
    wipe.completed(Ok(String::new())).unwrap();
    wipe.completed(Ok("[]".to_string())).unwrap();
    assert!(wipe.names_program());
    wipe.completed(Ok(String::new())).unwrap();
    assert!(!wipe.names_program());
}

#[test]
fn replies_that_speak_of_error_codes_are_failures() {
    let args = || vec!["--x".to_string()];
    let ok = cli_reply(args(), true, "done".to_string(), "noise".to_string());
    assert_eq!(ok.unwrap(), "done");
    let e = cli_reply(args(), true, "Error code: 5".to_string(), String::new()).unwrap_err();
    match e {
        HidHideError::CliFailed { args, stdout, stderr } => {
            assert_eq!(args, vec!["--x"]);
            assert_eq!(stdout, "Error code: 5");
            assert_eq!(stderr, "");
        }
        _ => panic!("another error"),
    }
    assert!(cli_reply(args(), true, String::new(), "an Error code".to_string()).is_err());
    assert!(cli_reply(args(), true, "error code".to_string(), String::new()).is_ok());
    assert!(cli_reply(args(), false, String::new(), String::new()).is_err());
}

#[test]
fn tool_must_be_installed() {
    assert!(check_cli_exists(true).is_ok());
    assert!(matches!(check_cli_exists(false), Err(HidHideError::CliMissing)));
}
