//! What each sensor's task does next, given what just happened.
//!
//! A task keeps its sensor's latest reading where a button press can pick it
//! up, and brings the sensor up again when it has stopped reporting. The tasks
//! perform the actions and say what came of them.

use crate::bno085::Event;
use crate::neo_m9n::Solution;
use crate::sighting::{Latest, Orientation};
#[allow(unused_imports)]
use crate::sighting;
use crate::tf03::Measurement;
use vstd::prelude::*;

verus! {

/// How many positions a second the GPS computes.
pub const GPS_RATE_HZ: u8 = 10;

/// How often the IMU reports its orientation: every 10 ms, i.e. 100 Hz.
pub const IMU_REPORT_INTERVAL_US: u32 = 10_000;

/// A GPS this long without a solution has probably lost power, and with it
/// its configuration, which lives in RAM. The GPS task then configures it
/// again.
pub const GPS_SILENCE_MS: u64 = 3_000;

/// An IMU this long without a report has probably reset, which stops every
/// report. The IMU task then starts it again.
pub const IMU_SILENCE_MS: u64 = 1_000;

/// How long a task waits before it tries again to bring its sensor up.
pub const RETRY_MS: u64 = 1_000;

/// What happened in the GPS task.
#[derive(Clone, Copy, Debug)]
pub enum GpsEvent {
    /// The receiver took its configuration.
    Configured,
    /// The receiver could not be configured.
    ConfigureFailed,
    /// A solution arrived.
    Solution(Solution),
    /// Reading failed, typically with an RX FIFO overflow; the parser
    /// resynchronises on the next frame.
    ReadFailed,
    /// Nothing arrived for [`GPS_SILENCE_MS`].
    Silent,
}

/// What the GPS task does next.
#[derive(Clone, Copy, PartialEq, Eq, Debug)]
pub enum GpsAction {
    /// Configure the receiver.
    Configure,
    /// Wait for [`RETRY_MS`], then configure the receiver.
    Retry,
    /// Wait for a solution, but no longer than [`GPS_SILENCE_MS`].
    Read,
}

/// What the GPS task does after `event`. The configuration lives in the
/// receiver's RAM, so it is written again whenever the receiver goes quiet, in
/// case a power glitch has put it back to its factory NMEA output.
pub open spec fn gps_action(event: GpsEvent) -> GpsAction {
    match event {
        GpsEvent::Configured => GpsAction::Read,
        GpsEvent::ConfigureFailed => GpsAction::Retry,
        GpsEvent::Solution(_) => GpsAction::Read,
        GpsEvent::ReadFailed => GpsAction::Read,
        GpsEvent::Silent => GpsAction::Configure,
    }
}

/// Keeps the latest navigation solution, and says what to do next.
pub fn gps_step(latest: &mut Latest<Solution>, now_us: u64, event: GpsEvent) -> (action: GpsAction)
    ensures
        action == gps_action(event),
        *final(latest) == match event {
            GpsEvent::Solution(solution) => Latest {
                reading: Some((now_us, solution)),
                ..*old(latest)
            },
            _ => *old(latest),
        },
{
    match event {
        GpsEvent::Configured => GpsAction::Read,
        GpsEvent::ConfigureFailed => GpsAction::Retry,
        GpsEvent::Solution(solution) => {
            latest.set(now_us, solution);
            GpsAction::Read
        },
        GpsEvent::ReadFailed => GpsAction::Read,
        GpsEvent::Silent => GpsAction::Configure,
    }
}

/// What happened in the IMU task.
#[derive(Clone, Copy, Debug)]
pub enum ImuEvent {
    /// The hub was reset and its rotation vector started.
    Started,
    /// The hub could not be started.
    StartFailed,
    /// The hub says that it has reports waiting.
    Waiting,
    /// The hub said nothing for [`IMU_SILENCE_MS`].
    Silent,
    /// A report arrived.
    Report(Event),
    /// Nothing is left waiting.
    Drained,
    /// Reading failed. A hub that resets on its own announces it with a packet
    /// too large for the driver, and a failing bus is worth a fresh start too.
    /// Either way the reports have stopped.
    ReadFailed,
}

/// What the IMU task does next.
#[derive(Clone, Copy, PartialEq, Eq, Debug)]
pub enum ImuAction {
    /// Reset the hub and start its rotation vector.
    Start,
    /// Wait for [`RETRY_MS`], then start the hub.
    Retry,
    /// Wait for the hub to have reports waiting, but no longer than
    /// [`IMU_SILENCE_MS`].
    AwaitInterrupt,
    /// Read a report.
    Read,
}

/// What the IMU task does after `event`. The hub pulls INT low when it has
/// reports waiting, and holds it low until everything waiting has been read,
/// so each wake-up drains the hub before going back to waiting.
pub open spec fn imu_action(event: ImuEvent) -> ImuAction {
    match event {
        ImuEvent::Started => ImuAction::AwaitInterrupt,
        ImuEvent::StartFailed => ImuAction::Retry,
        ImuEvent::Waiting => ImuAction::Read,
        ImuEvent::Silent => ImuAction::Start,
        ImuEvent::Report(_) => ImuAction::Read,
        ImuEvent::Drained => ImuAction::AwaitInterrupt,
        ImuEvent::ReadFailed => ImuAction::Start,
    }
}

/// What the IMU task keeps after `event`: the orientation of a rotation
/// vector, and of everything else nothing.
pub open spec fn imu_kept(
    latest: Latest<Orientation>,
    now_us: u64,
    event: ImuEvent,
) -> Latest<Orientation> {
    match event {
        ImuEvent::Report(report) => match sighting::oriented(report) {
            Some(orientation) => Latest { reading: Some((now_us, orientation)), ..latest },
            None => latest,
        },
        _ => latest,
    }
}

/// Keeps the latest orientation, and says what to do next.
pub fn imu_step(latest: &mut Latest<Orientation>, now_us: u64, event: ImuEvent) -> (action:
    ImuAction)
    ensures
        action == imu_action(event),
        *final(latest) == imu_kept(*old(latest), now_us, event),
{
    match event {
        ImuEvent::Started => ImuAction::AwaitInterrupt,
        ImuEvent::StartFailed => ImuAction::Retry,
        ImuEvent::Waiting => ImuAction::Read,
        ImuEvent::Silent => ImuAction::Start,
        ImuEvent::Report(report) => {
            if let Some(orientation) = Orientation::from_event(&report) {
                latest.set(now_us, orientation);
            }
            ImuAction::Read
        },
        ImuEvent::Drained => ImuAction::AwaitInterrupt,
        ImuEvent::ReadFailed => ImuAction::Start,
    }
}

/// What happened in the LiDAR task.
#[derive(Clone, Copy, Debug)]
pub enum LidarEvent {
    /// The TF03 told its firmware version.
    Answered,
    /// The TF03 did not tell its firmware version.
    NoAnswer,
    /// A measurement arrived.
    Measured(Measurement),
    /// Reading failed, typically with an RX FIFO overflow; the driver
    /// resynchronises on the next frame.
    ReadFailed,
}

/// What the LiDAR task does next.
#[derive(Clone, Copy, PartialEq, Eq, Debug)]
pub enum LidarAction {
    /// Wait for [`RETRY_MS`], then ask the TF03 for its firmware version.
    Retry,
    /// Wait for a measurement.
    Read,
}

/// What the LiDAR task does after `event`. Once the TF03 has answered, it is
/// only read.
pub open spec fn lidar_action(event: LidarEvent) -> LidarAction {
    match event {
        LidarEvent::NoAnswer => LidarAction::Retry,
        _ => LidarAction::Read,
    }
}

/// Keeps the latest distance, and says what to do next.
pub fn lidar_step(latest: &mut Latest<Measurement>, now_us: u64, event: LidarEvent) -> (action:
    LidarAction)
    ensures
        action == lidar_action(event),
        *final(latest) == match event {
            LidarEvent::Measured(measurement) => Latest {
                reading: Some((now_us, measurement)),
                ..*old(latest)
            },
            _ => *old(latest),
        },
{
    match event {
        LidarEvent::Answered => LidarAction::Read,
        LidarEvent::NoAnswer => LidarAction::Retry,
        LidarEvent::Measured(measurement) => {
            latest.set(now_us, measurement);
            LidarAction::Read
        },
        LidarEvent::ReadFailed => LidarAction::Read,
    }
}

/// A receiver that went quiet is configured again, and so is one that could not
/// be configured; a solution that arrived is read on from.
pub proof fn law_quiet_receiver_is_configured_again(event: GpsEvent)
    ensures
        gps_action(event) is Configure <==> event is Silent,
        gps_action(event) is Retry <==> event is ConfigureFailed,
{
}

/// A wake-up drains the hub before the task goes back to waiting, and a hub
/// that went quiet or failed is started again.
pub proof fn law_hub_is_drained_before_waiting(event: ImuEvent)
    ensures
        imu_action(event) is AwaitInterrupt <==> event is Started || event is Drained,
        imu_action(event) is Start <==> event is Silent || event is ReadFailed,
        imu_action(event) is Retry <==> event is StartFailed,
{
}

/// Each task reads on after a reading and after a read that failed without
/// taking the sensor with it, and tries again in a while what failed.
pub proof fn law_tasks_keep_reading(gps: GpsEvent, imu: ImuEvent, lidar: LidarEvent)
    ensures
        gps_action(gps) is Read <==> gps is Configured || gps is Solution || gps is ReadFailed,
        imu_action(imu) is Read <==> imu is Waiting || imu is Report,
        lidar_action(lidar) is Retry <==> lidar is NoAnswer,
        lidar_action(lidar) is Read <==> lidar is Answered || lidar is Measured
            || lidar is ReadFailed,
{
}

/// The IMU task keeps the orientation of a rotation vector as it is, with the
/// time at which it came, and after anything else what it had.
pub proof fn law_imu_task_keeps_rotation_vectors(
    latest: Latest<Orientation>,
    now_us: u64,
    event: ImuEvent,
)
    ensures
        ({
            let kept = imu_kept(latest, now_us, event);
            &&& kept.sensor == latest.sensor
            &&& if event is Report && event->Report_0.data is RotationVector {
                &&& kept.reading matches Some((at_us, orientation))
                &&& at_us == now_us
                &&& orientation.calibration == event->Report_0.accuracy
                &&& event->Report_0.data matches crate::bno085::SensorData::RotationVector {
                    quaternion,
                    accuracy_rad,
                }
                &&& orientation.quaternion == quaternion
                &&& orientation.heading_accuracy_rad == accuracy_rad
            } else {
                kept.reading == latest.reading
            }
        }),
{
}

/// The tasks' rates and patience, in the units of their names.
pub proof fn law_tasks_have_these_rates()
    ensures
        GPS_RATE_HZ == 10,
        IMU_REPORT_INTERVAL_US == 10_000,
        GPS_SILENCE_MS == 3_000,
        IMU_SILENCE_MS == 1_000,
        RETRY_MS == 1_000,
{
}

} // verus!
