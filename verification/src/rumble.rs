//! The controller's output reports: rumble motors and light.

use crate::crc32;
use vstd::prelude::*;
use vstd::slice::slice_subrange;

verus! {

/// What the motors and the light are to do.
#[derive(Debug, Clone, Copy, PartialEq, Eq, Structural)]
pub struct RumbleLed {
    pub motor_weak: u8,
    pub motor_strong: u8,
    pub red: u8,
    pub green: u8,
    pub blue: u8,
}

/// One step of delivering an output report.
#[derive(Debug, Clone, PartialEq, Eq)]
pub enum OutputStep {
    /// Write these bytes to the controller.
    Write(Vec<u8>),
    /// Wait this many milliseconds.
    Pause(u64),
}

/// Milliseconds between the two writes that the firmware needs over USB.
pub const COMMIT_PAUSE_MS: u64 = 15;

/// Seed of the checksum of Bluetooth output reports.
pub const OUTPUT_SEED: u8 = 0xA2;

/// The strength that a motor is driven with when `v` is asked for: 1.8 times `v`, to the
/// nearest whole number, but at least 90, below which the motor does not turn, and at
/// most 255. Zero stays zero.
pub open spec fn boosted(v: u8) -> int {
    if v == 0 {
        0
    } else {
        let nearest = (18 * v + 5) / 10;
        if nearest < 90 {
            90
        } else if nearest > 255 {
            255
        } else {
            nearest
        }
    }
}

/// The USB output report.
pub open spec fn usb_report(rl: RumbleLed) -> Seq<u8> {
    Seq::new(
        32,
        |i: int|
            if i == 0 {
                0x05u8
            } else if i == 1 {
                0x07u8
            } else if i == 4 {
                boosted(rl.motor_weak) as u8
            } else if i == 5 {
                boosted(rl.motor_strong) as u8
            } else if i == 6 {
                rl.red
            } else if i == 7 {
                rl.green
            } else if i == 8 {
                rl.blue
            } else {
                0u8
            },
    )
}

/// The Bluetooth output report up to its checksum.
pub open spec fn bt_body(rl: RumbleLed) -> Seq<u8> {
    Seq::new(
        74,
        |i: int|
            if i == 0 {
                0x11u8
            } else if i == 1 {
                0xC0u8
            } else if i == 3 {
                0x03u8
            } else if i == 6 {
                boosted(rl.motor_weak) as u8
            } else if i == 7 {
                boosted(rl.motor_strong) as u8
            } else if i == 8 {
                rl.red
            } else if i == 9 {
                rl.green
            } else if i == 10 {
                rl.blue
            } else {
                0u8
            },
    )
}

/// The four bytes of `v`, the least significant first.
pub open spec fn le_bytes(v: u32) -> Seq<u8> {
    seq![
        (v % 0x100) as u8,
        (v / 0x100 % 0x100) as u8,
        (v / 0x1_0000 % 0x100) as u8,
        (v / 0x100_0000) as u8,
    ]
}

/// The Bluetooth output report: the body, and the body's checksum.
pub open spec fn bt_report(rl: RumbleLed) -> Seq<u8> {
    bt_body(rl) + le_bytes(crc32::checksum(OUTPUT_SEED, bt_body(rl)))
}

/// The step writes these bytes.
pub open spec fn writes(step: OutputStep, bytes: Seq<u8>) -> bool {
    step matches OutputStep::Write(v) && v@ == bytes
}

/// The strength that a motor is driven with when `v` is asked for.
pub fn boost_motor(v: u8) -> (strength: u8)
    ensures
        strength == boosted(v),
{
    if v == 0 {
        return 0;
    }
    let nearest: u16 = (18 * (v as u16) + 5) / 10;
    if nearest < 90 {
        90
    } else if nearest > 255 {
        255
    } else {
        nearest as u8
    }
}

impl RumbleLed {
    /// The USB output report.
    pub fn to_report(&self) -> (buf: [u8; 32])
        ensures
            buf@ == usb_report(*self),
    {
        let mut buf = [0u8;32];
        buf[0] = 0x05;
        buf[1] = 0x07;
        buf[4] = boost_motor(self.motor_weak);
        buf[5] = boost_motor(self.motor_strong);
        buf[6] = self.red;
        buf[7] = self.green;
        buf[8] = self.blue;
        assert(buf@ =~= usb_report(*self));
        buf
    }

    /// The Bluetooth output report, closed by its checksum: without it the firmware
    /// silently ignores the report.
    pub fn to_bt_report(&self) -> (buf: [u8; 78])
        ensures
            buf@ == bt_report(*self),
    {
        let mut buf = [0u8;78];
        buf[0] = 0x11;
        // The report carries a checksum.
        buf[1] = 0xC0;
        // Motors and light are both meant.
        buf[3] = 0x03;
        buf[6] = boost_motor(self.motor_weak);
        buf[7] = boost_motor(self.motor_strong);
        buf[8] = self.red;
        buf[9] = self.green;
        buf[10] = self.blue;
        let body = slice_subrange(buf.as_slice(), 0, 74);
        assert(body@ =~= bt_body(*self));
        let crc: u32 = crc32::sony_crc32(OUTPUT_SEED, body);
        buf[74] = (crc % 0x100) as u8;
        buf[75] = (crc / 0x100 % 0x100) as u8;
        buf[76] = (crc / 0x1_0000 % 0x100) as u8;
        buf[77] = (crc / 0x100_0000) as u8;
        assert(buf@ =~= bt_report(*self));
        buf
    }
}

/// The bytes of a slice, as a vector.
fn to_vec(bytes: &[u8]) -> (v: Vec<u8>)
    ensures
        v@ == bytes@,
{
    let mut v: Vec<u8> = Vec::new();
    let n: usize = bytes.len();
    for i in 0..n
        invariant
            n == bytes@.len(),
            v@ == bytes@.take(i as int),
    {
        v.push(bytes[i]);
        assert(v@ =~= bytes@.take(i + 1));
    }
    assert(bytes@.take(n as int) =~= bytes@);
    v
}

/// The steps deliver `rl` over the present transport.
pub open spec fn delivers(steps: Seq<OutputStep>, is_bt: bool, rl: RumbleLed) -> bool {
    if is_bt {
        &&& steps.len() == 1
        &&& writes(steps[0], bt_report(rl))
    } else {
        &&& steps.len() == 3
        &&& writes(steps[0], usb_report(rl))
        &&& steps[1] == OutputStep::Pause(COMMIT_PAUSE_MS)
        &&& writes(steps[2], usb_report(rl))
    }
}

/// How `rl` is delivered over the present transport: one write over Bluetooth, and over
/// USB the same report twice, since the firmware takes a report over only with the next.
pub fn send(is_bt: bool, rl: &RumbleLed) -> (steps: Vec<OutputStep>)
    ensures
        delivers(steps@, is_bt, *rl),
{
    let mut steps: Vec<OutputStep> = Vec::new();
    if is_bt {
        let buf = rl.to_bt_report();
        steps.push(OutputStep::Write(to_vec(buf.as_slice())));
    } else {
        let buf = rl.to_report();
        steps.push(OutputStep::Write(to_vec(buf.as_slice())));
        steps.push(OutputStep::Pause(COMMIT_PAUSE_MS));
        steps.push(OutputStep::Write(to_vec(buf.as_slice())));
    }
    steps
}

/// The four checksum bytes give the checksum back.
pub proof fn checksum_is_readable(v: u32)
    ensures
        le_bytes(v).len() == 4,
        le_bytes(v)[0] + 0x100 * le_bytes(v)[1] + 0x1_0000 * le_bytes(v)[2] + 0x100_0000
            * le_bytes(v)[3] == v,
{
}

/// A Bluetooth report ends in the checksum of everything before it.
pub proof fn bt_report_is_sealed(rl: RumbleLed)
    ensures
        bt_report(rl).len() == 78,
        bt_report(rl).skip(74) == le_bytes(
            crc32::checksum(OUTPUT_SEED, bt_report(rl).take(74)),
        ),
{
    assert(bt_report(rl).take(74) =~= bt_body(rl));
    assert(bt_report(rl).skip(74) =~= le_bytes(crc32::checksum(OUTPUT_SEED, bt_body(rl))));
}

/// A Bluetooth report that is damaged in one byte of its body no longer ends in the
/// checksum of everything before it.
pub proof fn damaged_bt_report_is_not_sealed(rl: RumbleLed, received: Seq<u8>, at: int)
    requires
        received.len() == 78,
        0 <= at < 74,
        received[at] != bt_report(rl)[at],
        forall|i: int| 0 <= i < 78 && i != at ==> received[i] == bt_report(rl)[i],
    ensures
        received.skip(74) != le_bytes(crc32::checksum(OUTPUT_SEED, received.take(74))),
{
    let sent = bt_report(rl);
    bt_report_is_sealed(rl);
    crc32::byte_change_is_detected(OUTPUT_SEED, sent.take(74), received.take(74), at);
    assert(received.skip(74) =~= sent.skip(74));
    checksum_is_readable(crc32::checksum(OUTPUT_SEED, sent.take(74)));
    checksum_is_readable(crc32::checksum(OUTPUT_SEED, received.take(74)));
}

/// A motor that is asked to stop stops, one that is asked to run turns, and asking for
/// more never gives less.
pub proof fn boost_is_monotone(v: u8, w: u8)
    requires
        v <= w,
    ensures
        boosted(v) <= boosted(w),
        boosted(v) == 0 <==> v == 0,
        v != 0 ==> 90 <= boosted(v) <= 255,
        v != 0 ==> boosted(v) >= v,
{
}

/// Over Bluetooth everything is delivered by one write. Over USB the same bytes are written
/// twice, with a pause of 15 ms between and nothing after the second.
pub proof fn usb_reports_are_repeated(steps: Seq<OutputStep>, rl: RumbleLed)
    ensures
        delivers(steps, true, rl) ==> steps.len() == 1 && (steps[0] matches OutputStep::Write(v)
            && v@.len() == 78),
        delivers(steps, false, rl) ==> steps.len() == 3 && steps[1] == OutputStep::Pause(15) && (
        steps[0] matches OutputStep::Write(v) && v@.len() == 32 && (
        steps[2] matches OutputStep::Write(w) && v@ == w@)),
        delivers(steps, true, rl) ==> !delivers(steps, false, rl),
{
    bt_report_is_sealed(rl);
}

/// What is asked for can be told from either report: the light's colour as it is, red before
/// green before blue, and the motors as they are driven, the weak one before the strong one.
/// The five stand together, two places later over Bluetooth. But for the two or three bytes
/// that say what the report is, everything else ahead of the checksum is zero.
pub proof fn reports_hold_what_is_asked_for(rl: RumbleLed)
    ensures
        usb_report(rl).len() == 32,
        usb_report(rl)[0] == 5 && usb_report(rl)[1] == 7,
        usb_report(rl).subrange(4, 9) == seq![
            boosted(rl.motor_weak) as u8,
            boosted(rl.motor_strong) as u8,
            rl.red,
            rl.green,
            rl.blue,
        ],
        bt_report(rl).subrange(6, 11) == usb_report(rl).subrange(4, 9),
        bt_report(rl)[0] == 17 && bt_report(rl)[1] == 192 && bt_report(rl)[3] == 3,
        forall|i: int|
            2 <= i < 32 && !(4 <= i < 9) ==> #[trigger] usb_report(rl)[i] == 0,
        forall|i: int|
            2 <= i < 74 && i != 3 && !(6 <= i < 11) ==> #[trigger] bt_report(rl)[i] == 0,
{
    assert(usb_report(rl).subrange(4, 9) =~= seq![
        boosted(rl.motor_weak) as u8,
        boosted(rl.motor_strong) as u8,
        rl.red,
        rl.green,
        rl.blue,
    ]);
    assert(bt_report(rl).subrange(6, 11) =~= usb_report(rl).subrange(4, 9));
}

/// Between the weakest and the strongest drive a motor is driven with 1.8 times what is asked
/// for, to the nearest whole number; below 50 with 90 and above 141 with 255.
pub proof fn boost_is_nearly_double(v: u8)
    ensures
        50 <= v <= 141 ==> -5 < 10 * boosted(v) - 18 * v < 5,
        0 < v < 50 ==> boosted(v) == 90,
        v > 141 ==> boosted(v) == 255,
{
}

} // verus!
