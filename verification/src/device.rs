//! The controller as a device on the USB or the Bluetooth bus.

use crate::aim_report::{describes, AimState};
use vstd::prelude::*;

verus! {

/// The controller's vendor number.
pub const REAL_VID: u16 = 0x054C;

/// The controller's product number.
pub const REAL_PID: u16 = 0x0BB2;

/// Length of the longest input report.
pub const REPORT_LEN: usize = 78;

/// The feature report with this number and length, as it is asked for: its number first,
/// and zeroes after it.
pub open spec fn feature_request(number: u8, len: nat) -> Seq<u8> {
    Seq::new(
        len,
        |i: int|
            if i == 0 {
                number
            } else {
                0u8
            },
    )
}

/// Makes the request for a feature report.
fn request(number: u8, len: usize) -> (buf: Vec<u8>)
    requires
        len > 0,
    ensures
        buf@ == feature_request(number, len as nat),
{
    let mut buf: Vec<u8> = Vec::new();
    buf.push(number);
    for i in 1..len
        invariant
            buf@.len() == i,
            buf@[0] == number,
            forall|j: int| 1 <= j < i ==> buf@[j] == 0,
    {
        buf.push(0);
    }
    assert(buf@ =~= feature_request(number, len as nat));
    buf
}

/// The feature reports whose query makes the controller send "full" reports over
/// Bluetooth. Over USB the query changes nothing.
pub fn wake_requests() -> (requests: Vec<Vec<u8>>)
    ensures
        requests@.len() == 3,
        requests@[0]@ == feature_request(0x02, 37),
        requests@[1]@ == feature_request(0xA3, 49),
        requests@[2]@ == feature_request(0x12, 16),
{
    let mut requests: Vec<Vec<u8>> = Vec::new();
    requests.push(request(0x02, 37));
    requests.push(request(0xA3, 49));
    requests.push(request(0x12, 16));
    requests
}

/// Whether an input report came over Bluetooth: it is a "full" report, or too short to be
/// a USB one.
pub open spec fn came_over_bluetooth(report: Seq<u8>) -> bool {
    report.len() < 24 || report[0] == 0x11
}

/// Whether an input report came over Bluetooth.
pub fn is_bluetooth(report: &[u8]) -> (r: bool)
    ensures
        r == came_over_bluetooth(report@),
{
    report.len() < 24 || report[0] == 0x11
}

/// Failed reads in a row after which the controller counts as disconnected.
pub const DISCONNECT_THRESHOLD: u32 = 10;

/// Counts failed reads.
#[derive(Debug, Clone, Copy, PartialEq, Eq, Structural)]
pub struct ReadErrors {
    pub in_a_row: u32,
}

/// What a failed read means.
#[derive(Debug, Clone, Copy, PartialEq, Eq, Structural)]
pub enum ReadFailure {
    /// The first of a row: it is told, and the read tried again.
    ReportAndRetry,
    /// The read is tried again.
    Retry,
    /// The controller is gone.
    Disconnected,
}

impl ReadErrors {
    pub fn new() -> (e: ReadErrors)
        ensures
            e.in_a_row == 0,
    {
        ReadErrors { in_a_row: 0 }
    }

    /// The count after one more read, which succeeded or failed.
    pub open spec fn after_read(self, success: bool) -> ReadErrors {
        if success {
            ReadErrors { in_a_row: 0 }
        } else {
            ReadErrors { in_a_row: (self.in_a_row + 1) as u32 }
        }
    }

    /// A read that succeeded ends the row.
    pub fn succeeded(&mut self)
        ensures
            *final(self) == old(self).after_read(true),
    {
        self.in_a_row = 0;
    }

    /// What one more failed read means.
    pub open spec fn failure(self) -> ReadFailure {
        if self.in_a_row + 1 >= DISCONNECT_THRESHOLD {
            ReadFailure::Disconnected
        } else if self.in_a_row == 0 {
            ReadFailure::ReportAndRetry
        } else {
            ReadFailure::Retry
        }
    }

    /// A read that failed.
    pub fn failed(&mut self) -> (r: ReadFailure)
        requires
            old(self).in_a_row < u32::MAX,
        ensures
            *final(self) == old(self).after_read(false),
            r == old(self).failure(),
    {
        self.in_a_row = self.in_a_row + 1;
        if self.in_a_row >= DISCONNECT_THRESHOLD {
            ReadFailure::Disconnected
        } else if self.in_a_row == 1 {
            ReadFailure::ReportAndRetry
        } else {
            ReadFailure::Retry
        }
    }

    /// The count after reads, of which each succeeded or failed.
    pub open spec fn after_reads(reads: Seq<bool>) -> ReadErrors
        decreases reads.len(),
    {
        if reads.len() == 0 {
            ReadErrors { in_a_row: 0 }
        } else {
            ReadErrors::after_reads(reads.drop_last()).after_read(reads.last())
        }
    }
}

proof fn lemma_row(reads: Seq<bool>)
    requires
        reads.len() < u32::MAX,
    ensures
        ({
            let n = ReadErrors::after_reads(reads).in_a_row;
            &&& n <= reads.len()
            &&& forall|j: int| reads.len() - n <= j < reads.len() ==> !#[trigger] reads[j]
            &&& n < reads.len() ==> reads[reads.len() - n - 1]
        }),
    decreases reads.len(),
{
    if reads.len() > 0 && !reads.last() {
        let fewer = reads.drop_last();
        lemma_row(fewer);
        let n = ReadErrors::after_reads(fewer).in_a_row;
        assert forall|j: int| reads.len() - (n + 1) <= j < reads.len() implies !#[trigger] reads[j] by {
            if j < fewer.len() {
                assert(!fewer[j]);
            }
        }
        if n < fewer.len() {
            assert(fewer[fewer.len() - n - 1]);
        }
    }
}

/// The controller counts as disconnected exactly with the tenth failed read in a row: a read
/// that fails means so if the nine reads before it failed too, and not otherwise. It is told
/// exactly where the read before it succeeded, or there was none.
pub proof fn tenth_failure_disconnects(reads: Seq<bool>)
    requires
        reads.len() < u32::MAX,
    ensures
        ReadErrors::after_reads(reads).failure() == ReadFailure::Disconnected <==> reads.len() >= 9
            && forall|j: int| reads.len() - 9 <= j < reads.len() ==> !#[trigger] reads[j],
        ReadErrors::after_reads(reads).failure() == ReadFailure::ReportAndRetry <==> reads.len()
            == 0 || reads.last(),
{
    lemma_row(reads);
    let n = ReadErrors::after_reads(reads).in_a_row;
    if n < 9 && reads.len() >= 9 {
        assert(reads[reads.len() - n - 1]);
    }
    if reads.len() > 0 && n > 0 {
        assert(!reads[reads.len() - 1]);
    }
}

/// A report that can be read came over Bluetooth exactly if it has no motion data or is
/// numbered 17, so that a report over USB, which has motion data and is numbered 1, is never
/// taken for one.
pub proof fn usb_reports_have_motion(report: Seq<u8>, s: AimState)
    requires
        describes(report, s),
    ensures
        !came_over_bluetooth(report) <==> s.has_motion && report[0] == 1,
        came_over_bluetooth(report) <==> !s.has_motion || report[0] == 17,
{
}

/// A request has the length that was asked for, names the report first and is zero
/// otherwise.
pub proof fn requests_name_the_report(number: u8, len: nat)
    requires
        len > 0,
    ensures
        feature_request(number, len).len() == len,
        feature_request(number, len) == seq![number] + Seq::new((len - 1) as nat, |i: int| 0u8),
{
    assert(feature_request(number, len) =~= seq![number] + Seq::new((len - 1) as nat, |i: int| 0u8));
}

} // verus!
