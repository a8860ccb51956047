//! How the reports in a cargo are told apart.
//!
//! A cargo on the input channels holds reports back to back. Timestamp reports
//! are not sensor data; they set the reference the reports after them are
//! measured against. The gyro-integrated rotation vector gets a channel to
//! itself and fills the whole payload: no report ID, no timestamp, no status.

#[allow(unused_imports)]
use super::reports;
#[allow(unused_imports)]
use super::reports::{Event, SensorId};
#[allow(unused_imports)]
use super::shtp::Channel;
use vstd::prelude::*;

verus! {

/// Report ID of a timestamp report that moves the reference.
pub const REPORT_TIMESTAMP_REBASE: u8 = 0xFA;

/// Report ID of a timestamp report that sets the reference.
pub const REPORT_BASE_TIMESTAMP: u8 = 0xFB;

/// Length of a timestamp report, report ID included.
pub const TIMESTAMP_LEN: usize = 5;

/// `value` in 32 bits, wrapped around where they do not hold it.
pub open spec fn wrapped(value: int) -> i32 {
    if value > i32::MAX {
        (value - 0x1_0000_0000) as i32
    } else if value < i32::MIN {
        (value + 0x1_0000_0000) as i32
    } else {
        value as i32
    }
}

/// Whether a report that begins with `id` is a timestamp report.
pub open spec fn is_timestamp(id: u8) -> bool {
    id == REPORT_BASE_TIMESTAMP || id == REPORT_TIMESTAMP_REBASE
}

/// The timestamp correction that holds after a timestamp report, if
/// `reference_delta` held before it.
pub open spec fn rebased(report: Seq<u8>, reference_delta: i32) -> i32 {
    let ticks = crate::bytes::i32_le(report, 1);
    if report[0] == REPORT_BASE_TIMESTAMP {
        wrapped(-ticks)
    } else {
        wrapped(reference_delta + ticks)
    }
}

/// The next sensor report in `unread`, what is left behind it, and the
/// timestamp correction that then holds.
///
/// Without a length for a report there is no way to find where the next one
/// starts, so from an unknown report on, or one that is cut off, the rest of
/// the packet has to go.
pub open spec fn next_report(unread: Seq<u8>, reference_delta: i32) -> (
    Option<Event>,
    Seq<u8>,
    i32,
)
    decreases unread.len(),
{
    if unread.len() == 0 {
        (None, Seq::empty(), reference_delta)
    } else if is_timestamp(unread[0]) {
        if unread.len() < TIMESTAMP_LEN {
            (None, Seq::empty(), reference_delta)
        } else {
            next_report(unread.skip(TIMESTAMP_LEN as int), rebased(unread, reference_delta))
        }
    } else {
        match reports::sensor_coded(unread[0]) {
            Some(sensor) if sensor.len() <= unread.len() => (
                Some(reports::decoded(sensor, unread.take(sensor.len()), reference_delta)),
                unread.skip(sensor.len()),
                reference_delta,
            ),
            _ => (None, Seq::empty(), reference_delta),
        }
    }
}

/// The next event in what is `unread` of a cargo that arrived on `channel`,
/// what is left behind it, and the timestamp correction that then holds.
pub open spec fn next_event(channel: u8, unread: Seq<u8>, reference_delta: i32) -> (
    Option<Event>,
    Seq<u8>,
    i32,
) {
    if channel == Channel::InputNormal.number() || channel == Channel::InputWake.number() {
        next_report(unread, reference_delta)
    } else if channel == Channel::InputGyroRv.number() && unread.len()
        >= SensorId::GyroIntegratedRotationVector.len() {
        (Some(reports::decoded_gyro_integrated_rv(unread)), Seq::empty(), reference_delta)
    } else {
        // Advertisements, command responses and the like.
        (None, Seq::empty(), reference_delta)
    }
}

/// Every event in what is `unread` of a cargo that arrived on `channel`, and
/// the timestamp correction that holds at its end.
pub open spec fn events(channel: u8, unread: Seq<u8>, reference_delta: i32) -> (Seq<Event>, i32)
    decreases unread.len(),
{
    let (event, rest, delta) = next_event(channel, unread, reference_delta);
    match event {
        Some(event) if rest.len() < unread.len() => {
            let (later, last) = events(channel, rest, delta);
            (seq![event] + later, last)
        },
        _ => (Seq::empty(), delta),
    }
}

/// Whether `report` is one whole report, of a sensor or of the timebase.
pub open spec fn is_report(report: Seq<u8>) -> bool {
    &&& report.len() > 0
    &&& if is_timestamp(report[0]) {
        report.len() == TIMESTAMP_LEN
    } else {
        &&& reports::sensor_coded(report[0]) is Some
        &&& report.len() == reports::sensor_coded(report[0]).unwrap().len()
    }
}

/// `reports` back to back.
pub open spec fn joined(reports: Seq<Seq<u8>>) -> Seq<u8>
    decreases reports.len(),
{
    if reports.len() == 0 {
        Seq::empty()
    } else {
        reports[0] + joined(reports.drop_first())
    }
}

/// The events that `reports` stand for, taken one by one, and the timestamp
/// correction that holds behind them.
pub open spec fn told(reports: Seq<Seq<u8>>, reference_delta: i32) -> (Seq<Event>, i32)
    decreases reports.len(),
{
    if reports.len() == 0 {
        (Seq::empty(), reference_delta)
    } else {
        let report = reports[0];
        if is_timestamp(report[0]) {
            told(reports.drop_first(), rebased(report, reference_delta))
        } else {
            let sensor = reports::sensor_coded(report[0]).unwrap();
            let (later, last) = told(reports.drop_first(), reference_delta);
            (seq![reports::decoded(sensor, report, reference_delta)] + later, last)
        }
    }
}

/// A walk gets on: an event uses bytes up, and without one nothing is left.
/// What is left are the last of the bytes.
pub proof fn law_walk_gets_on(channel: u8, unread: Seq<u8>, reference_delta: i32)
    ensures
        match next_event(channel, unread, reference_delta) {
            (Some(_), rest, _) => {
                &&& rest.len() < unread.len()
                &&& rest == unread.skip(unread.len() - rest.len())
            },
            (None, rest, _) => rest.len() == 0,
        },
{
    lemma_next_report_reads(unread, reference_delta);
    assert(unread.skip(unread.len() as int) == Seq::<u8>::empty());
}

proof fn lemma_next_report_reads(unread: Seq<u8>, reference_delta: i32)
    ensures
        match next_report(unread, reference_delta) {
            (Some(_), rest, _) => {
                &&& rest.len() < unread.len()
                &&& rest == unread.skip(unread.len() - rest.len())
            },
            (None, rest, _) => rest.len() == 0,
        },
    decreases unread.len(),
{
    if unread.len() >= TIMESTAMP_LEN && is_timestamp(unread[0]) {
        let behind = unread.skip(TIMESTAMP_LEN as int);
        lemma_next_report_reads(behind, rebased(unread, reference_delta));
        let rest = next_report(unread, reference_delta).1;
        if rest.len() < behind.len() {
            assert(behind.skip(behind.len() - rest.len()) == unread.skip(
                unread.len() - rest.len(),
            ));
        }
    }
}

/// However many reports a packet holds, and wherever the timestamp reports
/// stand among them, every sensor report comes out once, in order, placed in
/// time by the timestamp reports before it.
pub proof fn law_reports_come_out_in_order(
    channel: Channel,
    reports: Seq<Seq<u8>>,
    reference_delta: i32,
)
    requires
        channel == Channel::InputNormal || channel == Channel::InputWake,
        forall|at: int| 0 <= at < reports.len() ==> is_report(#[trigger] reports[at]),
    ensures
        events(channel.number(), joined(reports), reference_delta) == told(
            reports,
            reference_delta,
        ),
    decreases reports.len(),
{
    let unread = joined(reports);
    if reports.len() > 0 {
        let report = reports[0];
        let rest = reports.drop_first();
        assert(is_report(report));
        assert(unread.skip(report.len() as int) == joined(rest));
        assert(unread.take(report.len() as int) == report);
        assert forall|at: int| 0 <= at < rest.len() implies is_report(#[trigger] rest[at]) by {
            assert(rest[at] == reports[at + 1]);
        }
        if is_timestamp(report[0]) {
            let delta = rebased(report, reference_delta);
            assert(rebased(unread, reference_delta) == delta);
            law_reports_come_out_in_order(channel, rest, delta);
            assert(next_report(unread, reference_delta) == next_report(joined(rest), delta));
            lemma_next_report_reads(joined(rest), delta);
        } else {
            law_reports_come_out_in_order(channel, rest, reference_delta);
        }
    }
}

} // verus!
