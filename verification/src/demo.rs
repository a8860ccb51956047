//! What the demo programs do next, one program per sensor, and what they print.

use crate::bno085::Event;
use crate::neo_m9n::Solution;
use crate::sighting::Orientation;
#[allow(unused_imports)]
use crate::sighting;
use crate::tasks::LidarEvent;
#[allow(unused_imports)]
use crate::text;
use crate::text::decimal_text;
use crate::tf03::Measurement;
use vstd::prelude::*;
use vstd::string::StringExecFns;

verus! {

/// What happened in the GPS demo.
#[derive(Clone, Copy, Debug)]
pub enum GpsDemoEvent {
    /// The receiver said what it is.
    Answered,
    /// The receiver did not say what it is.
    NoAnswer,
    /// The receiver took its configuration.
    Configured,
    /// The receiver could not be configured.
    ConfigureFailed,
    /// A solution arrived.
    Solution(Solution),
    /// Reading failed, typically with an RX FIFO overflow; the parser
    /// resynchronises on the next frame.
    ReadFailed,
}

/// What the GPS demo does next.
#[derive(Clone, Copy, PartialEq, Eq, Debug)]
pub enum GpsDemoAction {
    /// Wait before asking the receiver again what it is.
    AskAgain,
    /// Configure the receiver.
    Configure,
    /// Wait before configuring the receiver again.
    ConfigureAgain,
    /// Wait for a solution.
    Read,
    /// Print the position in 1e-7 degrees, then wait for a solution.
    PrintPosition(i32, i32),
    /// Print that there is no fix, then wait for a solution.
    PrintNoFix,
}

/// What the GPS demo does after `event`.
pub open spec fn gps_demo_action(event: GpsDemoEvent) -> GpsDemoAction {
    match event {
        GpsDemoEvent::Answered => GpsDemoAction::Configure,
        GpsDemoEvent::NoAnswer => GpsDemoAction::AskAgain,
        GpsDemoEvent::Configured => GpsDemoAction::Read,
        GpsDemoEvent::ConfigureFailed => GpsDemoAction::ConfigureAgain,
        GpsDemoEvent::Solution(solution) => match crate::neo_m9n::solution::vouched_position(
            solution,
        ) {
            Some((latitude_e7, longitude_e7)) => GpsDemoAction::PrintPosition(
                latitude_e7,
                longitude_e7,
            ),
            None => GpsDemoAction::PrintNoFix,
        },
        GpsDemoEvent::ReadFailed => GpsDemoAction::Read,
    }
}

/// Says what to do next.
pub fn gps_demo_step(event: &GpsDemoEvent) -> (action: GpsDemoAction)
    ensures
        action == gps_demo_action(*event),
{
    match *event {
        GpsDemoEvent::Answered => GpsDemoAction::Configure,
        GpsDemoEvent::NoAnswer => GpsDemoAction::AskAgain,
        GpsDemoEvent::Configured => GpsDemoAction::Read,
        GpsDemoEvent::ConfigureFailed => GpsDemoAction::ConfigureAgain,
        GpsDemoEvent::Solution(solution) => match solution.position() {
            Some((latitude_e7, longitude_e7)) => GpsDemoAction::PrintPosition(
                latitude_e7,
                longitude_e7,
            ),
            None => GpsDemoAction::PrintNoFix,
        },
        GpsDemoEvent::ReadFailed => GpsDemoAction::Read,
    }
}

/// What happened in the IMU demo.
#[derive(Clone, Copy, Debug)]
pub enum ImuDemoEvent {
    /// The hub was reset and identified itself.
    Identified,
    /// The hub could not be brought up.
    InitFailed,
    /// The rotation vector was asked for.
    Reporting,
    /// The rotation vector could not be asked for.
    ReportingFailed,
    /// The hub says that it has reports waiting.
    Waiting,
    /// A report arrived.
    Report(Event),
    /// Nothing is left waiting.
    Drained,
    /// Reading failed.
    ReadFailed,
}

/// What the IMU demo does next.
#[derive(Clone, Copy, PartialEq, Eq, Debug)]
pub enum ImuDemoAction {
    /// Wait before bringing the hub up again.
    InitAgain,
    /// Ask for the rotation vector.
    StartReporting,
    /// Give up.
    Stop,
    /// Wait for the hub to have reports waiting.
    AwaitInterrupt,
    /// Read a report.
    Read,
    /// Print an orientation, then read a report.
    Print(Orientation),
}

/// What the IMU demo does after `event`.
pub open spec fn imu_demo_action(event: ImuDemoEvent) -> ImuDemoAction {
    match event {
        ImuDemoEvent::Identified => ImuDemoAction::StartReporting,
        ImuDemoEvent::InitFailed => ImuDemoAction::InitAgain,
        ImuDemoEvent::Reporting => ImuDemoAction::AwaitInterrupt,
        ImuDemoEvent::ReportingFailed => ImuDemoAction::Stop,
        ImuDemoEvent::Waiting => ImuDemoAction::Read,
        ImuDemoEvent::Report(report) => match sighting::oriented(report) {
            Some(orientation) => ImuDemoAction::Print(orientation),
            None => ImuDemoAction::Read,
        },
        ImuDemoEvent::Drained => ImuDemoAction::AwaitInterrupt,
        ImuDemoEvent::ReadFailed => ImuDemoAction::AwaitInterrupt,
    }
}

/// Says what to do next.
pub fn imu_demo_step(event: &ImuDemoEvent) -> (action: ImuDemoAction)
    ensures
        action == imu_demo_action(*event),
{
    match *event {
        ImuDemoEvent::Identified => ImuDemoAction::StartReporting,
        ImuDemoEvent::InitFailed => ImuDemoAction::InitAgain,
        ImuDemoEvent::Reporting => ImuDemoAction::AwaitInterrupt,
        ImuDemoEvent::ReportingFailed => ImuDemoAction::Stop,
        ImuDemoEvent::Waiting => ImuDemoAction::Read,
        ImuDemoEvent::Report(report) => match Orientation::from_event(&report) {
            Some(orientation) => ImuDemoAction::Print(orientation),
            None => ImuDemoAction::Read,
        },
        // Nothing left waiting; go back to the interrupt pin.
        ImuDemoEvent::Drained => ImuDemoAction::AwaitInterrupt,
        ImuDemoEvent::ReadFailed => ImuDemoAction::AwaitInterrupt,
    }
}

/// Counts the measurements in the LiDAR demo, which prints one in
/// [`PRINT_EVERY`].
#[derive(Clone, Copy, PartialEq, Eq, Debug)]
pub struct Tally {
    /// How many measurements there were, modulo 2^32.
    pub count: u32,
}

/// The TF03 streams 100 measurements a second by default; print one in ten.
pub const PRINT_EVERY: u32 = 10;

impl Tally {
    /// No measurement yet.
    pub fn new() -> (tally: Self)
        ensures
            tally == (Tally { count: 0 }),
    {
        Self { count: 0 }
    }

    /// Counts a measurement, and says whether it is to be printed.
    pub fn due(&mut self) -> (due: bool)
        ensures
            final(self).count == (old(self).count + 1) % 0x1_0000_0000,
            due == (final(self).count % PRINT_EVERY == 0),
    {
        self.count = self.count.wrapping_add(1);
        self.count % PRINT_EVERY == 0
    }
}

/// What the LiDAR demo does next.
#[derive(Clone, Copy, PartialEq, Eq, Debug)]
pub enum LidarDemoAction {
    /// Wait before asking the TF03 again for its firmware version.
    AskAgain,
    /// Wait for a measurement.
    Read,
    /// Print the measurement, then wait for another.
    Print(Measurement),
}

/// What the LiDAR demo does after `event`, which makes `count` measurements.
pub open spec fn lidar_demo_action(count: u32, event: LidarEvent) -> LidarDemoAction {
    match event {
        LidarEvent::NoAnswer => LidarDemoAction::AskAgain,
        LidarEvent::Measured(measurement) if count % PRINT_EVERY == 0 => LidarDemoAction::Print(
            measurement,
        ),
        _ => LidarDemoAction::Read,
    }
}

/// Counts the measurements, and says what to do next.
pub fn lidar_demo_step(tally: &mut Tally, event: &LidarEvent) -> (action: LidarDemoAction)
    ensures
        final(tally).count == if event is Measured {
            (old(tally).count + 1) % 0x1_0000_0000
        } else {
            old(tally).count as int
        },
        action == lidar_demo_action(final(tally).count, *event),
{
    match *event {
        LidarEvent::Answered => LidarDemoAction::Read,
        LidarEvent::NoAnswer => LidarDemoAction::AskAgain,
        LidarEvent::Measured(measurement) => {
            if tally.due() {
                LidarDemoAction::Print(measurement)
            } else {
                LidarDemoAction::Read
            }
        },
        LidarEvent::ReadFailed => LidarDemoAction::Read,
    }
}

/// A measurement in words.
pub open spec fn measurement_words(measurement: Measurement) -> Seq<char> {
    match measurement.distance_cm {
        Some(distance_cm) => "distance "@ + text::decimal(distance_cm as nat) + " cm (strength "@
            + text::decimal(measurement.strength as nat) + ")"@,
        None => "out of range (raw "@ + text::decimal(measurement.raw_distance_cm as nat)
            + " cm, strength "@ + text::decimal(measurement.strength as nat) + ")"@,
    }
}

/// A measurement in words.
pub fn measurement_text(measurement: &Measurement) -> (words: String)
    ensures
        words@ == measurement_words(*measurement),
{
    let strength = decimal_text(measurement.strength as u64);
    match measurement.distance_cm {
        Some(distance_cm) => String::from_str("distance ").concat(
            decimal_text(distance_cm as u64).as_str(),
        ).concat(" cm (strength ").concat(strength.as_str()).concat(")"),
        None => String::from_str("out of range (raw ").concat(
            decimal_text(measurement.raw_distance_cm as u64).as_str(),
        ).concat(" cm, strength ").concat(strength.as_str()).concat(")"),
    }
}

/// A solution without a usable position in words.
pub open spec fn no_fix_words(solution: Solution) -> Seq<char> {
    "no fix ("@ + sighting::fix_name(solution.fix_type) + ", "@ + text::decimal(
        solution.satellites as nat,
    ) + " satellites)"@
}

/// A solution without a usable position in words.
pub fn no_fix_text(solution: &Solution) -> (words: String)
    ensures
        words@ == no_fix_words(*solution),
{
    String::from_str("no fix (").concat(sighting::fix_text(solution.fix_type)).concat(", ").concat(
        decimal_text(solution.satellites as u64).as_str(),
    ).concat(" satellites)")
}

/// The GPS demo prints the position of a solution that has one, as it is, and
/// that there is no fix of one that has none.
pub proof fn law_gps_demo_prints_positions(event: GpsDemoEvent)
    ensures
        ({
            let action = gps_demo_action(event);
            &&& action is Configure <==> event is Answered
            &&& action is AskAgain <==> event is NoAnswer
            &&& action is ConfigureAgain <==> event is ConfigureFailed
            &&& action is Read <==> event is Configured || event is ReadFailed
            &&& event matches GpsDemoEvent::Solution(solution) ==> {
                let usable = (solution.fix_type is Fix2D || solution.fix_type is Fix3D
                    || solution.fix_type is GnssPlusDeadReckoning) && solution.fix_ok
                    && !solution.invalid_position;
                action == if usable {
                    GpsDemoAction::PrintPosition(solution.latitude_e7, solution.longitude_e7)
                } else {
                    GpsDemoAction::PrintNoFix
                }
            }
        }),
{
}

/// The IMU demo prints rotation vectors as they are, goes back to waiting when
/// the hub is drained or a read fails, and stops only when reports cannot be
/// started.
pub proof fn law_imu_demo_prints_orientations(event: ImuDemoEvent)
    ensures
        ({
            let action = imu_demo_action(event);
            &&& action is Stop <==> event is ReportingFailed
            &&& action is InitAgain <==> event is InitFailed
            &&& action is StartReporting <==> event is Identified
            &&& action is AwaitInterrupt <==> event is Reporting || event is Drained
                || event is ReadFailed
            &&& action is Print <==> event is Report && event->Report_0.data is RotationVector
            &&& action matches ImuDemoAction::Print(orientation) ==> {
                &&& event->Report_0.data matches crate::bno085::SensorData::RotationVector {
                    quaternion,
                    accuracy_rad,
                }
                &&& orientation.quaternion == quaternion
                &&& orientation.heading_accuracy_rad == accuracy_rad
                &&& orientation.calibration == event->Report_0.accuracy
            }
        }),
{
}

/// The LiDAR demo prints a measurement as it is when the count is a multiple of
/// ten, and asks again only a TF03 that did not answer.
pub proof fn law_lidar_demo_prints_one_in_ten(count: u32, event: LidarEvent)
    ensures
        ({
            let action = lidar_demo_action(count, event);
            &&& action is AskAgain <==> event is NoAnswer
            &&& action is Print <==> event is Measured && count % 10 == 0
            &&& action matches LidarDemoAction::Print(measurement) ==> event
                == LidarEvent::Measured(measurement)
        }),
{
}

/// What the demos print tells the distance, the strength and the number of
/// satellites in decimal.
pub proof fn law_lines_tell_the_numbers(measurement: Measurement, solution: Solution)
    ensures
        ({
            let strength = text::decimal(measurement.strength as nat);
            let count = text::decimal(solution.satellites as nat);
            &&& text::ascii_worth(strength) == measurement.strength
            &&& text::ascii_worth(count) == solution.satellites
            &&& match measurement.distance_cm {
                Some(distance_cm) => {
                    let distance = text::decimal(distance_cm as nat);
                    &&& text::ascii_worth(distance) == distance_cm
                    &&& measurement_words(measurement) == "distance "@ + distance
                        + " cm (strength "@ + strength + ")"@
                },
                None => {
                    let distance = text::decimal(measurement.raw_distance_cm as nat);
                    &&& text::ascii_worth(distance) == measurement.raw_distance_cm
                    &&& measurement_words(measurement) == "out of range (raw "@ + distance
                        + " cm, strength "@ + strength + ")"@
                },
            }
            &&& no_fix_words(solution) == "no fix ("@ + sighting::fix_name(solution.fix_type)
                + ", "@ + count + " satellites)"@
        }),
{
    text::law_decimal_is_ascii(measurement.strength as nat);
    text::law_decimal_is_ascii(solution.satellites as nat);
    text::law_decimal_is_ascii(measurement.raw_distance_cm as nat);
    if let Some(distance_cm) = measurement.distance_cm {
        text::law_decimal_is_ascii(distance_cm as nat);
    }
}

} // verus!
