//! The controller's input reports.
//!
//! Three shapes of report arrive:
//!   - USB: report 0x01, 64 bytes, with motion data from byte 10 on.
//!   - Bluetooth "simple": report 0x01, 10 bytes, no motion data at all.
//!   - Bluetooth "full": report 0x11, 78 bytes, streamed once the controller has been
//!     woken up. The controls stand two bytes later than over USB, and the motion data
//!     that is reliable is the second of two samples, whose sensors start at byte 28.

use vstd::prelude::*;

verus! {

/// What one input report says of the controller.
#[derive(Debug, Clone, Copy, Default, PartialEq, Eq, Structural)]
pub struct AimState {
    /// Sticks, 0 to 255, centre about 128.
    pub lstick_x: u8,
    pub lstick_y: u8,
    pub rstick_x: u8,
    pub rstick_y: u8,
    /// D-pad direction, clockwise from up at 0; 8 is neutral.
    pub dpad: u8,
    pub square: bool,
    pub cross: bool,
    pub circle: bool,
    pub triangle: bool,
    pub l1: bool,
    pub r1: bool,
    /// The digital click, apart from the analog pull.
    pub l2_click: bool,
    /// The digital click at the trigger's detent.
    pub r2_click: bool,
    pub share: bool,
    pub options: bool,
    pub l3: bool,
    pub r3: bool,
    pub ps_guide: bool,
    pub pad_button: bool,
    /// Analog triggers, 0 to 255; R2 is the gun's trigger.
    pub l2_analog: u8,
    pub r2_analog: u8,
    /// Gyroscope, in the firmware's units; zero where the report carries no motion.
    pub gyro_yaw: i16,
    pub gyro_pitch: i16,
    pub gyro_roll: i16,
    /// Accelerometer, in the firmware's units; zero where the report carries no motion.
    pub accel_x: i16,
    pub accel_y: i16,
    pub accel_z: i16,
    /// Whether the report carried motion data.
    pub has_motion: bool,
}

/// Report number of the USB and the Bluetooth "simple" report.
pub const SIMPLE_REPORT_ID: u8 = 0x01;

/// Report number of the Bluetooth "full" report.
pub const FULL_REPORT_ID: u8 = 0x11;

/// Whether the bit of weight `weight` (a power of two) is set in `byte`.
pub open spec fn bit(byte: u8, weight: int) -> bool {
    (byte as int / weight) % 2 == 1
}

/// The signed 16-bit number whose low byte is `lo` and whose high byte is `hi`.
pub open spec fn signed16(lo: u8, hi: u8) -> int {
    let unsigned = lo as int + 256 * (hi as int);
    if unsigned < 0x8000 {
        unsigned
    } else {
        unsigned - 0x10000
    }
}

/// The little-endian signed 16-bit number at offset `at` of a report.
pub open spec fn signed16_at(report: Seq<u8>, at: int) -> int {
    signed16(report[at], report[at + 1])
}

/// The controls of `s` (sticks, buttons, triggers) are those in the nine bytes of
/// `report` from `base` on.
pub open spec fn controls_at(s: AimState, report: Seq<u8>, base: int) -> bool {
    let b0 = report[base + 4];
    let b1 = report[base + 5];
    let b2 = report[base + 6];
    &&& s.lstick_x == report[base]
    &&& s.lstick_y == report[base + 1]
    &&& s.rstick_x == report[base + 2]
    &&& s.rstick_y == report[base + 3]
    &&& s.dpad == b0 % 16
    &&& s.square == bit(b0, 16)
    &&& s.cross == bit(b0, 32)
    &&& s.circle == bit(b0, 64)
    &&& s.triangle == bit(b0, 128)
    &&& s.l1 == bit(b1, 1)
    &&& s.r1 == bit(b1, 2)
    &&& s.l2_click == bit(b1, 4)
    &&& s.r2_click == bit(b1, 8)
    &&& s.share == bit(b1, 16)
    &&& s.options == bit(b1, 32)
    &&& s.l3 == bit(b1, 64)
    &&& s.r3 == bit(b1, 128)
    &&& s.ps_guide == bit(b2, 1)
    &&& s.pad_button == bit(b2, 2)
    &&& s.l2_analog == report[base + 7]
    &&& s.r2_analog == report[base + 8]
}

/// The motion data of `s` is that in the twelve bytes of `report` from `base` on.
pub open spec fn motion_at(s: AimState, report: Seq<u8>, base: int) -> bool {
    &&& s.gyro_yaw == signed16_at(report, base)
    &&& s.gyro_pitch == signed16_at(report, base + 2)
    &&& s.gyro_roll == signed16_at(report, base + 4)
    &&& s.accel_x == signed16_at(report, base + 6)
    &&& s.accel_y == signed16_at(report, base + 8)
    &&& s.accel_z == signed16_at(report, base + 10)
    &&& s.has_motion
}

/// `s` carries no motion data: its motion fields are zero.
pub open spec fn motionless(s: AimState) -> bool {
    &&& s.gyro_yaw == 0
    &&& s.gyro_pitch == 0
    &&& s.gyro_roll == 0
    &&& s.accel_x == 0
    &&& s.accel_y == 0
    &&& s.accel_z == 0
    &&& !s.has_motion
}

/// `report` is a Bluetooth "full" report.
pub open spec fn is_full_report(report: Seq<u8>) -> bool {
    report.len() >= 78 && report[0] == FULL_REPORT_ID
}

/// `report` is a USB or a Bluetooth "simple" report.
pub open spec fn is_simple_report(report: Seq<u8>) -> bool {
    report.len() >= 10 && report[0] == SIMPLE_REPORT_ID
}

/// `s` is what `report` says when it is read as a USB or a Bluetooth "simple" report.
pub open spec fn simple_describes(report: Seq<u8>, s: AimState) -> bool {
    &&& controls_at(s, report, 1)
    &&& if report.len() >= 24 {
        motion_at(s, report, 12)
    } else {
        motionless(s)
    }
}

/// `s` is what `report` says when it is read as a Bluetooth "full" report.
pub open spec fn full_describes(report: Seq<u8>, s: AimState) -> bool {
    controls_at(s, report, 3) && motion_at(s, report, 28)
}

/// `s` is what `report` says of the controller.
pub open spec fn describes(report: Seq<u8>, s: AimState) -> bool {
    if is_full_report(report) {
        full_describes(report, s)
    } else {
        is_simple_report(report) && simple_describes(report, s)
    }
}

/// The bits of a byte, as masks pick them out.
proof fn lemma_bits(b: u8)
    ensures
        (b & 0x01 != 0) == bit(b, 1),
        (b & 0x02 != 0) == bit(b, 2),
        (b & 0x04 != 0) == bit(b, 4),
        (b & 0x08 != 0) == bit(b, 8),
        (b & 0x10 != 0) == bit(b, 16),
        (b & 0x20 != 0) == bit(b, 32),
        (b & 0x40 != 0) == bit(b, 64),
        (b & 0x80 != 0) == bit(b, 128),
        (b & 0x0F) == b % 16,
        ((b & 0x03) & 0x01) == b & 0x01,
        ((b & 0x03) & 0x02) == b & 0x02,
{
    assert((b & 0x01 != 0) == ((b / 1) % 2 == 1) && (b & 0x02 != 0) == ((b / 2) % 2 == 1) && (b
        & 0x04 != 0) == ((b / 4) % 2 == 1) && (b & 0x08 != 0) == ((b / 8) % 2 == 1) && (b & 0x10
        != 0) == ((b / 16) % 2 == 1) && (b & 0x20 != 0) == ((b / 32) % 2 == 1) && (b & 0x40 != 0)
        == ((b / 64) % 2 == 1) && (b & 0x80 != 0) == ((b / 128) % 2 == 1) && (b & 0x0F) == b % 16
        && ((b & 0x03) & 0x01) == b & 0x01 && ((b & 0x03) & 0x02) == b & 0x02) by (bit_vector);
}

/// The little-endian signed 16-bit number at offset `at`.
fn le16(report: &[u8], at: usize) -> (v: i16)
    requires
        at + 1 < report@.len(),
    ensures
        v == signed16_at(report@, at as int),
{
    let lo: u8 = report[at];
    let hi: u8 = report[at + 1];
    let word: u16 = (lo as u16) | ((hi as u16) << 8u16);
    assert(((lo as u16) | ((hi as u16) << 8u16)) == (lo as u16) + 256 * (hi as u16)) by (bit_vector);
    if word < 0x8000 {
        word as i16
    } else {
        (word as i32 - 0x10000) as i16
    }
}

impl AimState {
    /// Reads a raw input report, its number included.
    ///
    /// `None` where the report is too short to hold the controls, or has a number that
    /// is not known.
    pub fn parse(report: &[u8]) -> (state: Option<AimState>)
        ensures
            state is Some <==> is_full_report(report@) || is_simple_report(report@),
            state matches Some(s) ==> describes(report@, s),
    {
        if report.len() >= 78 && report[0] == FULL_REPORT_ID {
            return Self::parse_bt_full(report);
        }
        if report.len() >= 10 && report[0] == SIMPLE_REPORT_ID {
            return Self::parse_simple(report);
        }
        None
    }

    /// Reads a USB or a Bluetooth "simple" report, whatever its number.
    pub fn parse_simple(report: &[u8]) -> (state: Option<AimState>)
        requires
            report@.len() >= 10,
        ensures
            state matches Some(s) && simple_describes(report@, s),
    {
        let b0: u8 = report[5];
        let b1: u8 = report[6];
        // Only the low two bits are buttons; the rest count reports or are padding.
        let b2: u8 = report[7] & 0x03;
        proof {
            lemma_bits(b0);
            lemma_bits(b1);
            lemma_bits(report@[7]);
        }
        let has_motion = report.len() >= 24;
        let (gyro_yaw, gyro_pitch, gyro_roll, accel_x, accel_y, accel_z) = if has_motion {
            // A timestamp stands at 10 and 11, the sensors after it.
            (
                le16(report, 12),
                le16(report, 14),
                le16(report, 16),
                le16(report, 18),
                le16(report, 20),
                le16(report, 22),
            )
        } else {
            (0, 0, 0, 0, 0, 0)
        };
        Some(
            AimState {
                lstick_x: report[1],
                lstick_y: report[2],
                rstick_x: report[3],
                rstick_y: report[4],
                dpad: b0 & 0x0F,
                square: b0 & 0x10 != 0,
                cross: b0 & 0x20 != 0,
                circle: b0 & 0x40 != 0,
                triangle: b0 & 0x80 != 0,
                l1: b1 & 0x01 != 0,
                r1: b1 & 0x02 != 0,
                l2_click: b1 & 0x04 != 0,
                r2_click: b1 & 0x08 != 0,
                share: b1 & 0x10 != 0,
                options: b1 & 0x20 != 0,
                l3: b1 & 0x40 != 0,
                r3: b1 & 0x80 != 0,
                ps_guide: b2 & 0x01 != 0,
                pad_button: b2 & 0x02 != 0,
                l2_analog: report[8],
                r2_analog: report[9],
                gyro_yaw,
                gyro_pitch,
                gyro_roll,
                accel_x,
                accel_y,
                accel_z,
                has_motion,
            },
        )
    }

    /// Reads a Bluetooth "full" report, whatever its number.
    pub fn parse_bt_full(report: &[u8]) -> (state: Option<AimState>)
        requires
            report@.len() >= 78,
        ensures
            state matches Some(s) && full_describes(report@, s),
    {
        let b0: u8 = report[7];
        let b1: u8 = report[8];
        let b2: u8 = report[9] & 0x03;
        proof {
            lemma_bits(b0);
            lemma_bits(b1);
            lemma_bits(report@[9]);
        }
        Some(
            AimState {
                lstick_x: report[3],
                lstick_y: report[4],
                rstick_x: report[5],
                rstick_y: report[6],
                dpad: b0 & 0x0F,
                square: b0 & 0x10 != 0,
                cross: b0 & 0x20 != 0,
                circle: b0 & 0x40 != 0,
                triangle: b0 & 0x80 != 0,
                l1: b1 & 0x01 != 0,
                r1: b1 & 0x02 != 0,
                l2_click: b1 & 0x04 != 0,
                r2_click: b1 & 0x08 != 0,
                share: b1 & 0x10 != 0,
                options: b1 & 0x20 != 0,
                l3: b1 & 0x40 != 0,
                r3: b1 & 0x80 != 0,
                ps_guide: b2 & 0x01 != 0,
                pad_button: b2 & 0x02 != 0,
                l2_analog: report[10],
                r2_analog: report[11],
                gyro_yaw: le16(report, 28),
                gyro_pitch: le16(report, 30),
                gyro_roll: le16(report, 32),
                accel_x: le16(report, 34),
                accel_y: le16(report, 36),
                accel_z: le16(report, 38),
                has_motion: true,
            },
        )
    }
}

proof fn lemma_same_controls(report: Seq<u8>, base: int, a: AimState, b: AimState)
    requires
        controls_at(a, report, base),
        controls_at(b, report, base),
    ensures
        a.lstick_x == b.lstick_x,
        a.lstick_y == b.lstick_y,
        a.rstick_x == b.rstick_x,
        a.rstick_y == b.rstick_y,
        a.dpad == b.dpad,
        a.square == b.square,
        a.cross == b.cross,
        a.circle == b.circle,
        a.triangle == b.triangle,
        a.l1 == b.l1,
        a.r1 == b.r1,
        a.l2_click == b.l2_click,
        a.r2_click == b.r2_click,
        a.share == b.share,
        a.options == b.options,
        a.l3 == b.l3,
        a.r3 == b.r3,
        a.ps_guide == b.ps_guide,
        a.pad_button == b.pad_button,
        a.l2_analog == b.l2_analog,
        a.r2_analog == b.r2_analog,
{
}

proof fn lemma_same_motion(report: Seq<u8>, base: int, a: AimState, b: AimState)
    requires
        motion_at(a, report, base),
        motion_at(b, report, base),
    ensures
        a.gyro_yaw == b.gyro_yaw,
        a.gyro_pitch == b.gyro_pitch,
        a.gyro_roll == b.gyro_roll,
        a.accel_x == b.accel_x,
        a.accel_y == b.accel_y,
        a.accel_z == b.accel_z,
        a.has_motion == b.has_motion,
{
}

proof fn lemma_simple_is_unique(report: Seq<u8>, a: AimState, b: AimState)
    requires
        simple_describes(report, a),
        simple_describes(report, b),
    ensures
        a == b,
{
    lemma_same_controls(report, 1, a, b);
    if report.len() >= 24 {
        lemma_same_motion(report, 12, a, b);
    }
}

proof fn lemma_full_is_unique(report: Seq<u8>, a: AimState, b: AimState)
    requires
        full_describes(report, a),
        full_describes(report, b),
    ensures
        a == b,
{
    lemma_same_controls(report, 3, a, b);
    lemma_same_motion(report, 28, a, b);
}

/// A report describes one state only.
pub proof fn description_is_unique(report: Seq<u8>, a: AimState, b: AimState)
    requires
        describes(report, a),
        describes(report, b),
    ensures
        a == b,
{
    if is_full_report(report) {
        lemma_full_is_unique(report, a, b);
    } else {
        lemma_simple_is_unique(report, a, b);
    }
}

/// A Bluetooth "full" report and a USB report hold the same things in the same order: where
/// the nine bytes of the controls, two places apart, are the same, so are the controls; and
/// where the twelve bytes of the sensors are too, the two describe the same state.
pub proof fn transports_share_the_layout(usb: Seq<u8>, full: Seq<u8>, a: AimState, b: AimState)
    requires
        is_simple_report(usb),
        is_full_report(full),
        forall|i: int| 1 <= i < 10 ==> usb[i] == full[i + 2],
        describes(usb, a),
        describes(full, b),
    ensures
        forall|s: AimState| controls_at(s, usb, 1) <==> controls_at(s, full, 3),
        controls_at(a, full, 3),
        controls_at(b, usb, 1),
        usb.len() >= 24 && (forall|i: int| 12 <= i < 24 ==> usb[i] == full[i + 16]) ==> a == b,
{
    assert(usb[1] == full[3] && usb[2] == full[4] && usb[3] == full[5] && usb[4] == full[6]
        && usb[5] == full[7] && usb[6] == full[8] && usb[7] == full[9] && usb[8] == full[10]
        && usb[9] == full[11]);
    if usb.len() >= 24 && (forall|i: int| 12 <= i < 24 ==> usb[i] == full[i + 16]) {
        assert(usb[12] == full[28] && usb[13] == full[29] && usb[14] == full[30] && usb[15]
            == full[31] && usb[16] == full[32] && usb[17] == full[33] && usb[18] == full[34]
            && usb[19] == full[35] && usb[20] == full[36] && usb[21] == full[37] && usb[22]
            == full[38] && usb[23] == full[39]);
        assert(motion_at(a, full, 28));
        lemma_full_is_unique(full, a, b);
    }
}

/// Two reports, read as "simple" ones, hold the same controls and the same motion data, if
/// any.
pub open spec fn same_content(a: Seq<u8>, b: Seq<u8>) -> bool {
    &&& forall|i: int| 1 <= i < 10 && i != 7 ==> a[i] == b[i]
    &&& a[7] % 4 == b[7] % 4
    &&& a.len() >= 24 <==> b.len() >= 24
    &&& a.len() >= 24 ==> forall|i: int| 12 <= i < 24 ==> a[i] == b[i]
}

proof fn lemma_same_low_bits(b: u8, c: u8)
    requires
        b % 4 == c % 4,
    ensures
        bit(b, 1) == bit(c, 1),
        bit(b, 2) == bit(c, 2),
{
    assert(b % 4 == c % 4 ==> (b / 1) % 2 == (c / 1) % 2 && (b / 2) % 2 == (c / 2) % 2)
        by (bit_vector);
}

/// What a report describes, read as a USB or a Bluetooth "simple" one, depends on its
/// controls, on whether it is long enough for motion data, and on that data alone. The bits
/// above the two lowest of the third button byte count reports, the two bytes ahead of the
/// sensors hold a timestamp, and neither these nor the number of the report nor anything
/// after the sensors changes the state.
pub proof fn counters_are_ignored(report: Seq<u8>, later: Seq<u8>, a: AimState, b: AimState)
    requires
        report.len() >= 10,
        later.len() >= 10,
        same_content(report, later),
        simple_describes(report, a),
        simple_describes(later, b),
    ensures
        a == b,
{
    lemma_same_low_bits(report[7], later[7]);
    assert(report[1] == later[1] && report[2] == later[2] && report[3] == later[3] && report[4]
        == later[4] && report[5] == later[5] && report[6] == later[6] && report[8] == later[8]
        && report[9] == later[9]);
    assert(controls_at(a, later, 1));
    if report.len() >= 24 {
        assert forall|i: int| 12 <= i < 24 implies report[i] == later[i] by {}
        assert(motion_at(a, later, 12));
    }
    lemma_simple_is_unique(later, a, b);
}

/// What a report describes, read as a Bluetooth "full" one, depends on the nine bytes of its
/// controls, but for the counter among them, and on the second of its two motion samples
/// alone. Its number and heading, the first sample, the timestamps and anything after the
/// second sample do not change the state.
pub proof fn second_sample_counts(report: Seq<u8>, later: Seq<u8>, a: AimState, b: AimState)
    requires
        report.len() >= 78,
        later.len() >= 78,
        forall|i: int| 3 <= i < 12 && i != 9 ==> report[i] == later[i],
        report[9] % 4 == later[9] % 4,
        forall|i: int| 28 <= i < 40 ==> report[i] == later[i],
        full_describes(report, a),
        full_describes(later, b),
    ensures
        a == b,
{
    lemma_same_low_bits(report[9], later[9]);
    assert(report[3] == later[3] && report[4] == later[4] && report[5] == later[5] && report[6]
        == later[6] && report[7] == later[7] && report[8] == later[8] && report[10] == later[10]
        && report[11] == later[11]);
    assert(controls_at(a, later, 3));
    assert forall|i: int| 28 <= i < 40 implies report[i] == later[i] by {}
    assert(motion_at(a, later, 28));
    lemma_full_is_unique(later, a, b);
}

/// Motion data is there exactly in a "full" report and in a USB report long enough to
/// hold it; a Bluetooth "simple" report, of 10 bytes, never has any.
pub proof fn motion_needs_a_long_report(report: Seq<u8>, s: AimState)
    requires
        describes(report, s),
    ensures
        s.has_motion <==> report.len() >= 24,
        report.len() < 24 ==> motionless(s),
{
}

/// The weight of a button, where it is pressed.
pub open spec fn pressed(button: bool, weight: int) -> int {
    if button {
        weight
    } else {
        0
    }
}

/// The 16-bit word of a signed number.
pub open spec fn word(v: i16) -> int {
    if v < 0 {
        v + 65536
    } else {
        v as int
    }
}

/// The bytes of a report can be told from the state that it describes: the sticks, the
/// direction and the buttons by their weights, the triggers, and, where there is motion data,
/// the words of the sensors, yaw, pitch and roll before the three axes of the accelerometer.
pub proof fn report_can_be_told_from_the_state(report: Seq<u8>, s: AimState)
    requires
        describes(report, s),
    ensures
        ({
            let full = report.len() >= 78 && report[0] == 17;
            let at = if full {
                3int
            } else {
                1int
            };
            &&& full || report[0] == 1
            &&& report[at] == s.lstick_x
            &&& report[at + 1] == s.lstick_y
            &&& report[at + 2] == s.rstick_x
            &&& report[at + 3] == s.rstick_y
            &&& report[at + 4] == s.dpad + pressed(s.square, 16) + pressed(s.cross, 32) + pressed(
                s.circle,
                64,
            ) + pressed(s.triangle, 128)
            &&& s.dpad < 16
            &&& report[at + 5] == pressed(s.l1, 1) + pressed(s.r1, 2) + pressed(s.l2_click, 4)
                + pressed(s.r2_click, 8) + pressed(s.share, 16) + pressed(s.options, 32) + pressed(
                s.l3,
                64,
            ) + pressed(s.r3, 128)
            &&& report[at + 6] as int % 4 == pressed(s.ps_guide, 1) + pressed(s.pad_button, 2)
            &&& report[at + 7] == s.l2_analog
            &&& report[at + 8] == s.r2_analog
        }),
        s.has_motion ==> {
            let full = report.len() >= 78 && report[0] == 17;
            let at = if full {
                28int
            } else {
                12int
            };
            &&& report[at] + 256 * report[at + 1] == word(s.gyro_yaw)
            &&& report[at + 2] + 256 * report[at + 3] == word(s.gyro_pitch)
            &&& report[at + 4] + 256 * report[at + 5] == word(s.gyro_roll)
            &&& report[at + 6] + 256 * report[at + 7] == word(s.accel_x)
            &&& report[at + 8] + 256 * report[at + 9] == word(s.accel_y)
            &&& report[at + 10] + 256 * report[at + 11] == word(s.accel_z)
        },
{
    let at = if is_full_report(report) {
        3int
    } else {
        1int
    };
    lemma_byte_is_its_bits(report[at + 4]);
    lemma_byte_is_its_bits(report[at + 5]);
    lemma_byte_is_its_bits(report[at + 6]);
}

proof fn lemma_byte_is_its_bits(b: u8)
    ensures
        b == b % 16 + pressed(bit(b, 16), 16) + pressed(bit(b, 32), 32) + pressed(bit(b, 64), 64)
            + pressed(bit(b, 128), 128),
        b as int % 4 == pressed(bit(b, 1), 1) + pressed(bit(b, 2), 2),
        b as int % 16 == pressed(bit(b, 1), 1) + pressed(bit(b, 2), 2) + pressed(bit(b, 4), 4)
            + pressed(bit(b, 8), 8),
{
    assert(b == b % 16 + 16 * ((b / 16) % 2) + 32 * ((b / 32) % 2) + 64 * ((b / 64) % 2) + 128 * ((b
        / 128) % 2) && b % 4 == (b / 1) % 2 + 2 * ((b / 2) % 2) && b % 16 == (b / 1) % 2 + 2 * ((b
        / 2) % 2) + 4 * ((b / 4) % 2) + 8 * ((b / 8) % 2)) by (bit_vector);
}

/// A report can be read if it is numbered 1 and holds the controls, or numbered 17 and is
/// whole, and no other can. More bytes behind one that can be read take nothing away, and
/// where there was motion data they change nothing.
pub proof fn more_bytes_do_no_harm(report: Seq<u8>, more: Seq<u8>, s: AimState)
    requires
        describes(report, s),
    ensures
        report.len() >= 10,
        report[0] == 17 ==> report.len() >= 78,
        is_full_report(report + more) || is_simple_report(report + more),
        s.has_motion ==> describes(report + more, s),
        report.len() + more.len() < 24 ==> describes(report + more, s),
{
    let longer = report + more;
    if is_full_report(report) {
        assert(controls_at(s, longer, 3));
        assert(motion_at(s, longer, 28));
    } else {
        assert(longer[0] == report[0]);
        assert(controls_at(s, longer, 1));
        if report.len() >= 24 {
            assert(motion_at(s, longer, 12));
        }
    }
}

/// No report that can be read is left out: one of ten bytes or more that is numbered 1 can be
/// read, and so can one of 78 or more that is numbered 17.
pub proof fn readable_reports(report: Seq<u8>)
    ensures
        is_full_report(report) || is_simple_report(report) <==> report.len() >= 10 && report[0] == 1
            || report.len() >= 78 && report[0] == 17,
{
}

} // verus!
