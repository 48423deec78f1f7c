//! The controller's input and output reports.

use ps_aim_windows::aim_report::AimState;
use ps_aim_windows::crc32::{sony_crc32, update};
use ps_aim_windows::device::{is_bluetooth, wake_requests, ReadErrors, ReadFailure};
use ps_aim_windows::rumble::{boost_motor, send, OutputStep, RumbleLed};

fn usb_report() -> Vec<u8> {
    let mut r = vec![0u8; 64];
    r[0] = 0x01;
    r[1] = 10;
    r[2] = 20;
    r[3] = 30;
    r[4] = 40;
    r[5] = 0x20 | 0x02; // Cross, D-pad right
    r[6] = 0x08 | 0x40; // R2, L3
    r[7] = 0x02 | 0xFC; // pad button, counter
    r[8] = 50;
    r[9] = 60;
    r[12] = 0x34;
    r[13] = 0x12;
    r[14] = 0xFF;
    r[15] = 0xFF;
    r[16] = 0x00;
    r[17] = 0x80;
    r[18] = 1;
    r[20] = 2;
    r[22] = 3;
    r
}

#[test]
fn usb_report_is_read() {
    let s = AimState::parse(&usb_report()).unwrap();
    assert_eq!((s.lstick_x, s.lstick_y, s.rstick_x, s.rstick_y), (10, 20, 30, 40));
    assert_eq!(s.dpad, 2);
    assert!(s.cross && !s.square && !s.circle && !s.triangle);
    assert!(s.r2_click && s.l3 && !s.l2_click && !s.r3);
    assert!(s.pad_button && !s.ps_guide);
    assert_eq!((s.l2_analog, s.r2_analog), (50, 60));
    assert_eq!((s.gyro_yaw, s.gyro_pitch, s.gyro_roll), (0x1234, -1, i16::MIN));
    assert_eq!((s.accel_x, s.accel_y, s.accel_z), (1, 2, 3));
    assert!(s.has_motion);
}

#[test]
fn simple_report_has_no_motion() {
    let r = usb_report();
    let s = AimState::parse(&r[..10]).unwrap();
    assert!(!s.has_motion);
    assert_eq!((s.gyro_yaw, s.gyro_pitch, s.gyro_roll), (0, 0, 0));
    assert_eq!(s.r2_analog, 60);
    let s = AimState::parse(&r[..23]).unwrap();
    assert!(!s.has_motion);
    let s = AimState::parse(&r[..24]).unwrap();
    assert!(s.has_motion);
}

#[test]
fn full_report_has_the_controls_two_bytes_later() {
    let usb = usb_report();
    let mut bt = vec![0u8; 78];
    bt[0] = 0x11;
    bt[3..12].copy_from_slice(&usb[1..10]);
    bt[28..40].copy_from_slice(&usb[12..24]);
    assert_eq!(AimState::parse(&bt), AimState::parse(&usb));
}

#[test]
fn other_reports_say_nothing() {
    assert_eq!(AimState::parse(&[]), None);
    assert_eq!(AimState::parse(&usb_report()[..9]), None);
    let mut bt = vec![0u8; 77];
    bt[0] = 0x11;
    assert_eq!(AimState::parse(&bt), None);
    bt[0] = 0x02;
    assert_eq!(AimState::parse(&bt), None);
}

#[test]
fn counter_bits_are_ignored() {
    let mut r = usb_report();
    let a = AimState::parse(&r);
    r[7] = 0x02;
    r[10] = 0xAB;
    r[11] = 0xCD;
    r[40] = 0xEF;
    assert_eq!(AimState::parse(&r), a);
    assert_eq!(AimState::parse(&r[..24]), a);
}

#[test]
fn checksum_of_a_known_text() {
    // The usual check value of the CRC-32 that Ethernet uses.
    assert_eq!(sony_crc32(b'1', b"23456789"), 0xCBF4_3926);
    assert_eq!(sony_crc32(0, &[]), 0xD202_EF8D);
}

#[test]
fn checksum_notices_changes() {
    let a = sony_crc32(0xA2, &[1, 2, 3]);
    assert_ne!(a, sony_crc32(0xA2, &[1, 2, 4]));
    assert_ne!(a, sony_crc32(0xA1, &[1, 2, 3]));
}

fn table(index: u8) -> u32 {
    let mut crc = 0;
    update(&mut crc, index);
    crc
}

#[test]
fn checksum_steps_can_be_read_from_a_table() {
    assert_eq!((table(0), table(1), table(0x80)), (0, 0x7707_3096, 0xEDB8_8320));
    for start in [0, 1, 0xFFFF_FFFF, 0x1234_5678u32] {
        for byte in 0..=255u8 {
            let mut crc = start;
            update(&mut crc, byte);
            assert_eq!(crc, (start >> 8) ^ table(((start ^ byte as u32) & 0xFF) as u8));
        }
    }
}

#[test]
fn usb_output_report() {
    let rl = RumbleLed { motor_weak: 100, motor_strong: 1, red: 7, green: 8, blue: 9 };
    let mut expected = [0u8; 32];
    expected[0] = 0x05;
    expected[1] = 0x07;
    expected[4] = 180;
    expected[5] = 90;
    expected[6] = 7;
    expected[7] = 8;
    expected[8] = 9;
    assert_eq!(rl.to_report(), expected);
}

#[test]
fn bluetooth_output_report_is_sealed() {
    let rl = RumbleLed { motor_weak: 0, motor_strong: 255, red: 1, green: 2, blue: 3 };
    let r = rl.to_bt_report();
    assert_eq!((r[0], r[1], r[2], r[3]), (0x11, 0xC0, 0, 0x03));
    assert_eq!(&r[6..11], &[0, 255, 1, 2, 3]);
    assert!(r[11..74].iter().all(|b| *b == 0));
    let crc = u32::from_le_bytes([r[74], r[75], r[76], r[77]]);
    assert_eq!(crc, sony_crc32(0xA2, &r[..74]));
    let mut damaged = r;
    damaged[8] ^= 0x10;
    assert_ne!(crc, sony_crc32(0xA2, &damaged[..74]));
}

#[test]
fn motors_are_boosted_as_the_formula_says() {
    for v in 0..=255u8 {
        let expected = if v == 0 {
            0
        } else {
            (v as f32 * 1.8).round().clamp(90.0, 255.0) as u8
        };
        let rl = RumbleLed { motor_weak: v, motor_strong: 0, red: 0, green: 0, blue: 0 };
        assert_eq!(boost_motor(v), expected);
        assert_eq!(rl.to_report()[4], expected);
        assert_eq!(rl.to_bt_report()[6], expected);
    }
}

#[test]
fn stronger_motors_stay_stronger() {
    let mut last = 0;
    for v in 0..=255u8 {
        let rl = RumbleLed { motor_weak: 0, motor_strong: v, red: 0, green: 0, blue: 0 };
        assert!(rl.to_report()[5] >= last);
        last = rl.to_report()[5];
    }
}

#[test]
fn usb_reports_are_written_twice() {
    let rl = RumbleLed { motor_weak: 1, motor_strong: 2, red: 3, green: 4, blue: 5 };
    let usb = rl.to_report().to_vec();
    assert_eq!(
        send(false, &rl),
        vec![OutputStep::Write(usb.clone()), OutputStep::Pause(15), OutputStep::Write(usb)]
    );
    assert_eq!(send(true, &rl), vec![OutputStep::Write(rl.to_bt_report().to_vec())]);
}

#[test]
fn wake_requests_name_their_reports() {
    let requests = wake_requests();
    let shapes: Vec<(u8, usize)> = requests.iter().map(|r| (r[0], r.len())).collect();
    assert_eq!(shapes, vec![(0x02, 37), (0xA3, 49), (0x12, 16)]);
    assert!(requests.iter().all(|r| r[1..].iter().all(|b| *b == 0)));
}

#[test]
fn transport_shows_in_the_report() {
    assert!(!is_bluetooth(&usb_report()));
    assert!(is_bluetooth(&usb_report()[..10]));
    let mut bt = vec![0u8; 78];
    bt[0] = 0x11;
    assert!(is_bluetooth(&bt));
}

#[test]
fn ten_failed_reads_in_a_row_mean_a_disconnect() {
    let mut errors = ReadErrors::new();
    assert_eq!(errors.failed(), ReadFailure::ReportAndRetry);
    for _ in 0..8 {
        assert_eq!(errors.failed(), ReadFailure::Retry);
    }
    let mut recovered = errors;
    assert_eq!(errors.failed(), ReadFailure::Disconnected);
    recovered.succeeded();
    assert_eq!(recovered.failed(), ReadFailure::ReportAndRetry);
}

#[test]
fn layouts_do_not_depend_on_the_number() {
    let mut usb = usb_report();
    let state = AimState::parse(&usb);
    usb[0] = 0x77;
    assert_eq!(AimState::parse(&usb), None);
    assert_eq!(AimState::parse_simple(&usb), state);
    let mut bt = vec![0xFFu8; 80];
    bt[3..12].copy_from_slice(&usb[1..10]);
    bt[28..40].copy_from_slice(&usb[12..24]);
    assert_eq!(AimState::parse_bt_full(&bt), state);
}

#[test]
fn success_ends_the_row_of_failures() {
    let mut errors = ReadErrors::new();
    for round in 0..3 {
        for i in 0..9 {
            assert_ne!(errors.failed(), ReadFailure::Disconnected, "{round} {i}");
        }
        errors.succeeded();
    }
}
