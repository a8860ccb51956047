//! What the driver makes of the bytes on the bus, and what it puts there, in
//! the numbers of the SH-2 and SHTP manuals.

#[allow(unused_imports)]
use super::cargo;
#[allow(unused_imports)]
use super::cargo::Reading;
#[allow(unused_imports)]
use super::reports::{
    decoded, decoded_gyro_integrated_rv, sensor_coded, Accuracy, Fixed, Quaternion, RawVec3,
    SensorData, SensorId, Vec3,
};
#[allow(unused_imports)]
use super::shtp;
#[allow(unused_imports)]
use super::shtp::{Channel, Header};
#[allow(unused_imports)]
use super::wait;
#[allow(unused_imports)]
use super::wait::{Step, Waiting};
#[allow(unused_imports)]
use super::walk;
#[allow(unused_imports)]
use super::{
    cargo_end, cargo_read, command_request, event_read, feature_command, feature_flags,
    identified, is_control_report, is_reset_notice, outgoing, outgoing_command, plain_report,
    product_id_awaited, Address, Bno085View, Error, ReportConfig, ResetCause, TareBasis,
};
#[allow(unused_imports)]
use crate::bytes::{i16_le, i32_le, u16_le, u32_le};
use vstd::prelude::*;

verus! {

/// Each sensor has the report ID that SH-2 gives it.
pub proof fn law_report_ids_are_those_of_sh2()
    ensures
        SensorId::Accelerometer.code() == 0x01,
        SensorId::GyroscopeCalibrated.code() == 0x02,
        SensorId::MagneticFieldCalibrated.code() == 0x03,
        SensorId::LinearAcceleration.code() == 0x04,
        SensorId::RotationVector.code() == 0x05,
        SensorId::Gravity.code() == 0x06,
        SensorId::GyroscopeUncalibrated.code() == 0x07,
        SensorId::GameRotationVector.code() == 0x08,
        SensorId::GeomagneticRotationVector.code() == 0x09,
        SensorId::Pressure.code() == 0x0A,
        SensorId::AmbientLight.code() == 0x0B,
        SensorId::Humidity.code() == 0x0C,
        SensorId::Proximity.code() == 0x0D,
        SensorId::Temperature.code() == 0x0E,
        SensorId::MagneticFieldUncalibrated.code() == 0x0F,
        SensorId::TapDetector.code() == 0x10,
        SensorId::StepCounter.code() == 0x11,
        SensorId::SignificantMotion.code() == 0x12,
        SensorId::StabilityClassifier.code() == 0x13,
        SensorId::RawAccelerometer.code() == 0x14,
        SensorId::RawGyroscope.code() == 0x15,
        SensorId::RawMagnetometer.code() == 0x16,
        SensorId::StepDetector.code() == 0x18,
        SensorId::ShakeDetector.code() == 0x19,
        SensorId::FlipDetector.code() == 0x1A,
        SensorId::PickupDetector.code() == 0x1B,
        SensorId::StabilityDetector.code() == 0x1C,
        SensorId::PersonalActivityClassifier.code() == 0x1E,
        SensorId::SleepDetector.code() == 0x1F,
        SensorId::TiltDetector.code() == 0x20,
        SensorId::PocketDetector.code() == 0x21,
        SensorId::CircleDetector.code() == 0x22,
        SensorId::HeartRateMonitor.code() == 0x23,
        SensorId::ArvrStabilizedRotationVector.code() == 0x28,
        SensorId::ArvrStabilizedGameRotationVector.code() == 0x29,
        SensorId::GyroIntegratedRotationVector.code() == 0x2A,
{
}

/// Each report ID of SH-2 is read as its sensor, and no other number is one.
pub proof fn law_numbers_name_the_sensors_of_sh2(id: u8)
    ensures
        sensor_coded(0x01) == Some(SensorId::Accelerometer),
        sensor_coded(0x02) == Some(SensorId::GyroscopeCalibrated),
        sensor_coded(0x03) == Some(SensorId::MagneticFieldCalibrated),
        sensor_coded(0x04) == Some(SensorId::LinearAcceleration),
        sensor_coded(0x05) == Some(SensorId::RotationVector),
        sensor_coded(0x06) == Some(SensorId::Gravity),
        sensor_coded(0x07) == Some(SensorId::GyroscopeUncalibrated),
        sensor_coded(0x08) == Some(SensorId::GameRotationVector),
        sensor_coded(0x09) == Some(SensorId::GeomagneticRotationVector),
        sensor_coded(0x0A) == Some(SensorId::Pressure),
        sensor_coded(0x0B) == Some(SensorId::AmbientLight),
        sensor_coded(0x0C) == Some(SensorId::Humidity),
        sensor_coded(0x0D) == Some(SensorId::Proximity),
        sensor_coded(0x0E) == Some(SensorId::Temperature),
        sensor_coded(0x0F) == Some(SensorId::MagneticFieldUncalibrated),
        sensor_coded(0x10) == Some(SensorId::TapDetector),
        sensor_coded(0x11) == Some(SensorId::StepCounter),
        sensor_coded(0x12) == Some(SensorId::SignificantMotion),
        sensor_coded(0x13) == Some(SensorId::StabilityClassifier),
        sensor_coded(0x14) == Some(SensorId::RawAccelerometer),
        sensor_coded(0x15) == Some(SensorId::RawGyroscope),
        sensor_coded(0x16) == Some(SensorId::RawMagnetometer),
        sensor_coded(0x18) == Some(SensorId::StepDetector),
        sensor_coded(0x19) == Some(SensorId::ShakeDetector),
        sensor_coded(0x1A) == Some(SensorId::FlipDetector),
        sensor_coded(0x1B) == Some(SensorId::PickupDetector),
        sensor_coded(0x1C) == Some(SensorId::StabilityDetector),
        sensor_coded(0x1E) == Some(SensorId::PersonalActivityClassifier),
        sensor_coded(0x1F) == Some(SensorId::SleepDetector),
        sensor_coded(0x20) == Some(SensorId::TiltDetector),
        sensor_coded(0x21) == Some(SensorId::PocketDetector),
        sensor_coded(0x22) == Some(SensorId::CircleDetector),
        sensor_coded(0x23) == Some(SensorId::HeartRateMonitor),
        sensor_coded(0x28) == Some(SensorId::ArvrStabilizedRotationVector),
        sensor_coded(0x29) == Some(SensorId::ArvrStabilizedGameRotationVector),
        sensor_coded(0x2A) == Some(SensorId::GyroIntegratedRotationVector),
        sensor_coded(id) is Some <==> (id == 0x01 || id == 0x02 || id == 0x03 || id == 0x04
            || id == 0x05 || id == 0x06 || id == 0x07 || id == 0x08 || id == 0x09 || id == 0x0A
            || id == 0x0B || id == 0x0C || id == 0x0D || id == 0x0E || id == 0x0F || id == 0x10
            || id == 0x11 || id == 0x12 || id == 0x13 || id == 0x14 || id == 0x15 || id == 0x16
            || id == 0x18 || id == 0x19 || id == 0x1A || id == 0x1B || id == 0x1C || id == 0x1E
            || id == 0x1F || id == 0x20 || id == 0x21 || id == 0x22 || id == 0x23 || id == 0x28
            || id == 0x29 || id == 0x2A),
{
    lemma_is_named(SensorId::Accelerometer);
    lemma_is_named(SensorId::GyroscopeCalibrated);
    lemma_is_named(SensorId::MagneticFieldCalibrated);
    lemma_is_named(SensorId::LinearAcceleration);
    lemma_is_named(SensorId::RotationVector);
    lemma_is_named(SensorId::Gravity);
    lemma_is_named(SensorId::GyroscopeUncalibrated);
    lemma_is_named(SensorId::GameRotationVector);
    lemma_is_named(SensorId::GeomagneticRotationVector);
    lemma_is_named(SensorId::Pressure);
    lemma_is_named(SensorId::AmbientLight);
    lemma_is_named(SensorId::Humidity);
    lemma_is_named(SensorId::Proximity);
    lemma_is_named(SensorId::Temperature);
    lemma_is_named(SensorId::MagneticFieldUncalibrated);
    lemma_is_named(SensorId::TapDetector);
    lemma_is_named(SensorId::StepCounter);
    lemma_is_named(SensorId::SignificantMotion);
    lemma_is_named(SensorId::StabilityClassifier);
    lemma_is_named(SensorId::RawAccelerometer);
    lemma_is_named(SensorId::RawGyroscope);
    lemma_is_named(SensorId::RawMagnetometer);
    lemma_is_named(SensorId::StepDetector);
    lemma_is_named(SensorId::ShakeDetector);
    lemma_is_named(SensorId::FlipDetector);
    lemma_is_named(SensorId::PickupDetector);
    lemma_is_named(SensorId::StabilityDetector);
    lemma_is_named(SensorId::PersonalActivityClassifier);
    lemma_is_named(SensorId::SleepDetector);
    lemma_is_named(SensorId::TiltDetector);
    lemma_is_named(SensorId::PocketDetector);
    lemma_is_named(SensorId::CircleDetector);
    lemma_is_named(SensorId::HeartRateMonitor);
    lemma_is_named(SensorId::ArvrStabilizedRotationVector);
    lemma_is_named(SensorId::ArvrStabilizedGameRotationVector);
    lemma_is_named(SensorId::GyroIntegratedRotationVector);
    law_report_ids_are_those_of_sh2();
}

proof fn lemma_is_named(sensor: SensorId)
    ensures
        sensor_coded(sensor.code()) == Some(sensor),
{
    super::reports::law_report_ids_are_distinct(sensor, sensor);
}

/// Each sensor's input report has the length that SH-2 lays down for it.
pub proof fn law_report_lengths_are_those_of_sh2()
    ensures
        SensorId::Accelerometer.len() == 10,
        SensorId::GyroscopeCalibrated.len() == 10,
        SensorId::MagneticFieldCalibrated.len() == 10,
        SensorId::LinearAcceleration.len() == 10,
        SensorId::Gravity.len() == 10,
        SensorId::RotationVector.len() == 14,
        SensorId::GeomagneticRotationVector.len() == 14,
        SensorId::ArvrStabilizedRotationVector.len() == 14,
        SensorId::GyroIntegratedRotationVector.len() == 14,
        SensorId::GyroscopeUncalibrated.len() == 16,
        SensorId::MagneticFieldUncalibrated.len() == 16,
        SensorId::RawAccelerometer.len() == 16,
        SensorId::RawGyroscope.len() == 16,
        SensorId::RawMagnetometer.len() == 16,
        SensorId::PersonalActivityClassifier.len() == 16,
        SensorId::GameRotationVector.len() == 12,
        SensorId::ArvrStabilizedGameRotationVector.len() == 12,
        SensorId::StepCounter.len() == 12,
        SensorId::Pressure.len() == 8,
        SensorId::AmbientLight.len() == 8,
        SensorId::StepDetector.len() == 8,
        SensorId::PickupDetector.len() == 8,
        SensorId::TapDetector.len() == 5,
        SensorId::Humidity.len() == 6,
        SensorId::Proximity.len() == 6,
        SensorId::Temperature.len() == 6,
        SensorId::SignificantMotion.len() == 6,
        SensorId::StabilityClassifier.len() == 6,
        SensorId::ShakeDetector.len() == 6,
        SensorId::FlipDetector.len() == 6,
        SensorId::StabilityDetector.len() == 6,
        SensorId::SleepDetector.len() == 6,
        SensorId::TiltDetector.len() == 6,
        SensorId::PocketDetector.len() == 6,
        SensorId::CircleDetector.len() == 6,
        SensorId::HeartRateMonitor.len() == 6,
{
}

/// Whether a walk takes `len` bytes for the report that `unread` begins with:
/// an event comes of it exactly if they are there, and then those behind them
/// are left; if they are not, nothing is.
pub open spec fn takes(unread: Seq<u8>, reference_delta: i32, len: int) -> bool {
    let (event, rest, delta) = walk::next_report(unread, reference_delta);
    &&& delta == reference_delta
    &&& if unread.len() >= len {
        event is Some && rest == unread.skip(len)
    } else {
        event is None && rest.len() == 0
    }
}

/// A walk takes as many bytes for a report as SH-2 lays down for the number
/// that the report begins with. A number that SH-2 does not give to a sensor or
/// to the timebase ends the walk.
pub proof fn law_walk_steps_over_reports_of_sh2(unread: Seq<u8>, reference_delta: i32)
    requires
        unread.len() > 0,
    ensures
        ({
            let id = unread[0];
            &&& (id == 0x01 || id == 0x02 || id == 0x03 || id == 0x04
                || id == 0x06) ==> takes(unread, reference_delta, 10)
            &&& (id == 0x05 || id == 0x09 || id == 0x28
                || id == 0x2A) ==> takes(unread, reference_delta, 14)
            &&& (id == 0x07 || id == 0x0F || id == 0x14 || id == 0x15 || id == 0x16
                || id == 0x1E) ==> takes(unread, reference_delta, 16)
            &&& (id == 0x08 || id == 0x29 || id == 0x11) ==> takes(unread, reference_delta, 12)
            &&& (id == 0x0A || id == 0x0B || id == 0x18
                || id == 0x1B) ==> takes(unread, reference_delta, 8)
            &&& (id == 0x10) ==> takes(unread, reference_delta, 5)
            &&& (id == 0x0C || id == 0x0D || id == 0x0E || id == 0x12 || id == 0x13 || id == 0x19
                || id == 0x1A || id == 0x1C || id == 0x1F || id == 0x20 || id == 0x21
                || id == 0x22 || id == 0x23) ==> takes(unread, reference_delta, 6)
            &&& !(id == 0x01 || id == 0x02 || id == 0x03 || id == 0x04 || id == 0x05 || id == 0x06
                || id == 0x07 || id == 0x08 || id == 0x09 || id == 0x0A || id == 0x0B
                || id == 0x0C || id == 0x0D || id == 0x0E || id == 0x0F || id == 0x10
                || id == 0x11 || id == 0x12 || id == 0x13 || id == 0x14 || id == 0x15
                || id == 0x16 || id == 0x18 || id == 0x19 || id == 0x1A || id == 0x1B
                || id == 0x1C || id == 0x1E || id == 0x1F || id == 0x20 || id == 0x21
                || id == 0x22 || id == 0x23 || id == 0x28 || id == 0x29 || id == 0x2A
                || id == 0xFA || id == 0xFB) ==> walk::next_report(
                unread,
                reference_delta,
            ) == (None::<super::Event>, Seq::<u8>::empty(), reference_delta)
        }),
{
    law_numbers_name_the_sensors_of_sh2(unread[0]);
    law_report_lengths_are_those_of_sh2();
}

/// An event says which sensor reported, by the number that its report begins
/// with.
pub proof fn law_event_names_its_sensor(unread: Seq<u8>, reference_delta: i32)
    requires
        unread.len() > 0,
        unread[0] != 0xFA,
        unread[0] != 0xFB,
    ensures
        walk::next_report(unread, reference_delta).0 matches Some(event) ==> event.sensor.code()
            == unread[0],
{
}

/// A timestamp report takes five bytes. One that begins with 0xFB makes the
/// correction the opposite of the ticks in it, one that begins with 0xFA adds
/// them to the correction, both in 32 bits; the walk then goes on behind it.
pub proof fn law_timestamps_move_the_reference(unread: Seq<u8>, reference_delta: i32)
    requires
        unread.len() > 0,
        unread[0] == 0xFB || unread[0] == 0xFA,
    ensures
        unread.len() < 5 ==> walk::next_report(unread, reference_delta) == (
            None::<super::Event>,
            Seq::<u8>::empty(),
            reference_delta,
        ),
        unread.len() >= 5 ==> {
            let ticks = i32_le(unread, 1);
            let moved = walk::rebased(unread, reference_delta);
            &&& walk::next_report(unread, reference_delta) == walk::next_report(
                unread.skip(5),
                moved,
            )
            &&& unread[0] == 0xFB ==> (moved + ticks) % 0x1_0000_0000 == 0
            &&& unread[0] == 0xFA ==> (moved - reference_delta - ticks) % 0x1_0000_0000 == 0
        },
{
}

/// Reports stand in the cargos on channels three and four. One on channel five
/// is a rotation vector as a whole if it has fourteen bytes, and nothing is
/// left of it. On every other channel there is nothing to report.
pub proof fn law_reports_come_on_their_channels(
    channel: u8,
    unread: Seq<u8>,
    reference_delta: i32,
)
    ensures
        channel == 3 || channel == 4 ==> walk::next_event(channel, unread, reference_delta)
            == walk::next_report(unread, reference_delta),
        channel == 5 ==> walk::next_event(channel, unread, reference_delta) == (
            if unread.len() >= 14 {
                Some(decoded_gyro_integrated_rv(unread))
            } else {
                None
            },
            Seq::<u8>::empty(),
            reference_delta,
        ),
        !(3 <= channel <= 5) ==> walk::next_event(channel, unread, reference_delta) == (
            None::<super::Event>,
            Seq::<u8>::empty(),
            reference_delta,
        ),
{
}

/// Every report says its sequence number in byte one, its accuracy in the low
/// two bits of byte two, and its delay in the other six and in byte three, in
/// ticks of 100 µs. The sample was taken that delay and the correction before
/// or after the packet was read.
pub proof fn law_reports_open_alike(sensor: SensorId, report: Seq<u8>, reference_delta: i32)
    requires
        report.len() >= 4,
    ensures
        ({
            let event = decoded(sensor, report, reference_delta);
            let ticks = 64 * (report[2] - report[2] % 4) + report[3];
            &&& event.sensor == sensor
            &&& event.sequence == report[1]
            &&& event.delay_us == 100 * ticks
            &&& event.timestamp_offset_us == 100 * ticks + 100 * reference_delta
            &&& event.accuracy is Unreliable <==> report[2] % 4 == 0
            &&& event.accuracy is Low <==> report[2] % 4 == 1
            &&& event.accuracy is Medium <==> report[2] % 4 == 2
            &&& event.accuracy is High <==> report[2] % 4 == 3
        }),
{
}

/// Whether three numbers with `point` binary places lie in `bytes` from `at`
/// on.
pub open spec fn lies_at(axes: Vec3, bytes: Seq<u8>, at: int, point: int) -> bool {
    &&& axes.x.raw == i16_le(bytes, at) && axes.x.point == point
    &&& axes.y.raw == i16_le(bytes, at + 2) && axes.y.point == point
    &&& axes.z.raw == i16_le(bytes, at + 4) && axes.z.point == point
}

/// Whether a quaternion lies in `bytes` from `at` on, the real part last, each
/// part with fourteen binary places.
pub open spec fn turns_at(turn: Quaternion, bytes: Seq<u8>, at: int) -> bool {
    &&& turn.i.raw == i16_le(bytes, at) && turn.i.point == 14
    &&& turn.j.raw == i16_le(bytes, at + 2) && turn.j.point == 14
    &&& turn.k.raw == i16_le(bytes, at + 4) && turn.k.point == 14
    &&& turn.real.raw == i16_le(bytes, at + 6) && turn.real.point == 14
}

/// Whether an unscaled measurement lies in `bytes` from `at` on, with two bytes
/// between it and its time.
pub open spec fn sampled_at(sample: RawVec3, bytes: Seq<u8>, at: int) -> bool {
    &&& sample.x == i16_le(bytes, at)
    &&& sample.y == i16_le(bytes, at + 2)
    &&& sample.z == i16_le(bytes, at + 4)
    &&& sample.timestamp_us == u32_le(bytes, at + 8)
}

/// Accelerations have eight binary places, angular rates nine and magnetic
/// fields four. They stand from byte four on, and a bias behind them.
pub proof fn law_axes_are_scaled_like_sh2(report: Seq<u8>, reference_delta: i32)
    ensures
        ({
            let data = |sensor: SensorId| decoded(sensor, report, reference_delta).data;
            &&& data(SensorId::Accelerometer) matches SensorData::Accelerometer(axes)
            &&& lies_at(axes, report, 4, 8)
            &&& data(SensorId::LinearAcceleration) matches SensorData::LinearAcceleration(axes)
            &&& lies_at(axes, report, 4, 8)
            &&& data(SensorId::Gravity) matches SensorData::Gravity(axes)
            &&& lies_at(axes, report, 4, 8)
            &&& data(SensorId::GyroscopeCalibrated) matches SensorData::Gyroscope(axes)
            &&& lies_at(axes, report, 4, 9)
            &&& data(SensorId::GyroscopeUncalibrated) matches SensorData::GyroscopeUncalibrated {
                rate,
                bias,
            }
            &&& lies_at(rate, report, 4, 9) && lies_at(bias, report, 10, 9)
            &&& data(SensorId::MagneticFieldCalibrated) matches SensorData::MagneticField(axes)
            &&& lies_at(axes, report, 4, 4)
            &&& data(
                SensorId::MagneticFieldUncalibrated,
            ) matches SensorData::MagneticFieldUncalibrated { field, bias }
            &&& lies_at(field, report, 4, 4) && lies_at(bias, report, 10, 4)
        }),
{
}

/// Orientations stand from byte four on. Those that the magnetometer takes part
/// in have an estimate of the heading's error behind them, with twelve binary
/// places.
pub proof fn law_orientations_are_scaled_like_sh2(report: Seq<u8>, reference_delta: i32)
    ensures
        ({
            let data = |sensor: SensorId| decoded(sensor, report, reference_delta).data;
            let error = Fixed { raw: i16_le(report, 12), point: 12 };
            &&& data(SensorId::RotationVector) matches SensorData::RotationVector {
                quaternion,
                accuracy_rad,
            }
            &&& turns_at(quaternion, report, 4) && accuracy_rad == error
            &&& data(SensorId::GameRotationVector) matches SensorData::GameRotationVector(turn)
            &&& turns_at(turn, report, 4)
            &&& data(
                SensorId::GeomagneticRotationVector,
            ) matches SensorData::GeomagneticRotationVector { quaternion, accuracy_rad }
            &&& turns_at(quaternion, report, 4) && accuracy_rad == error
            &&& data(
                SensorId::ArvrStabilizedRotationVector,
            ) matches SensorData::ArvrStabilizedRotationVector { quaternion, accuracy_rad }
            &&& turns_at(quaternion, report, 4) && accuracy_rad == error
            &&& data(
                SensorId::ArvrStabilizedGameRotationVector,
            ) matches SensorData::ArvrStabilizedGameRotationVector(turn)
            &&& turns_at(turn, report, 4)
        }),
{
}

/// Raw samples, counters, detectors and classifiers stand from byte four on,
/// and a step counter's count behind its latency. The reports of the other
/// sensors are named and not decoded.
pub proof fn law_other_reports_are_laid_out_like_sh2(
    sensor: SensorId,
    report: Seq<u8>,
    reference_delta: i32,
)
    ensures
        ({
            let data = |sensor: SensorId| decoded(sensor, report, reference_delta).data;
            &&& data(SensorId::RawAccelerometer) matches SensorData::RawAccelerometer(sample)
            &&& sampled_at(sample, report, 4)
            &&& data(SensorId::RawGyroscope) matches SensorData::RawGyroscope(sample)
            &&& sampled_at(sample, report, 4)
            &&& data(SensorId::RawMagnetometer) matches SensorData::RawMagnetometer(sample)
            &&& sampled_at(sample, report, 4)
            &&& data(SensorId::StepCounter) matches SensorData::StepCounter { steps, latency_us }
            &&& steps == u32_le(report, 8) && latency_us == u32_le(report, 4)
            &&& data(SensorId::StepDetector) matches SensorData::StepDetector { latency_us }
            &&& latency_us == u32_le(report, 4)
            &&& data(SensorId::TapDetector) matches SensorData::TapDetector { flags }
            &&& flags == report[4]
            &&& data(SensorId::SignificantMotion) matches SensorData::SignificantMotion { motion }
            &&& motion == u16_le(report, 4)
            &&& data(SensorId::ShakeDetector) matches SensorData::ShakeDetector { shake }
            &&& shake == u16_le(report, 4)
            &&& data(SensorId::StabilityClassifier) matches SensorData::StabilityClassifier {
                classification,
            }
            &&& classification == report[4]
            &&& (sensor is Pressure || sensor is AmbientLight || sensor is Humidity
                || sensor is Proximity || sensor is Temperature || sensor is FlipDetector
                || sensor is PickupDetector || sensor is StabilityDetector
                || sensor is PersonalActivityClassifier || sensor is SleepDetector
                || sensor is TiltDetector || sensor is PocketDetector || sensor is CircleDetector
                || sensor is HeartRateMonitor || sensor is GyroIntegratedRotationVector) ==> data(
                sensor,
            ) == SensorData::Undecoded(sensor)
        }),
{
}

/// The gyro-integrated rotation vector is a quaternion and, from byte eight on,
/// an angular velocity with ten binary places. It says nothing else.
pub proof fn law_gyro_rotation_vector_is_laid_out_like_sh2(payload: Seq<u8>)
    ensures
        ({
            let event = decoded_gyro_integrated_rv(payload);
            &&& event.sensor is GyroIntegratedRotationVector
            &&& event.data matches SensorData::GyroIntegratedRotationVector {
                quaternion,
                angular_velocity,
            }
            &&& turns_at(quaternion, payload, 0)
            &&& lies_at(angular_velocity, payload, 8, 10)
            &&& event.sequence == 0
            &&& event.accuracy is Unreliable
            &&& event.delay_us == 0
            &&& event.timestamp_offset_us == 0
        }),
{
}

/// The channels have these numbers.
pub proof fn law_channels_are_those_of_shtp(channel: Channel)
    ensures
        channel.number() == 0 <==> channel is Command,
        channel.number() == 1 <==> channel is Executable,
        channel.number() == 2 <==> channel is Control,
        channel.number() == 3 <==> channel is InputNormal,
        channel.number() == 4 <==> channel is InputWake,
        channel.number() == 5 <==> channel is InputGyroRv,
{
}

/// The hub answers at 0x4A, or at 0x4B with the address pin pulled high, and a
/// tare names the outputs in this order.
pub proof fn law_addresses_and_outputs_have_these_numbers(address: Address, basis: TareBasis)
    ensures
        address.number() == 0x4A <==> address is Default,
        address.number() == 0x4B <==> address is Alternate,
        basis.number() == 0 <==> basis is RotationVector,
        basis.number() == 1 <==> basis is GameRotationVector,
        basis.number() == 2 <==> basis is GeomagneticRotationVector,
        basis.number() == 3 <==> basis is GyroIntegratedRotationVector,
        basis.number() == 4 <==> basis is ArvrStabilizedRotationVector,
        basis.number() == 5 <==> basis is ArvrStabilizedGameRotationVector,
{
}

/// A header says the length of its cargo in fifteen bits, low byte first, and
/// in the sixteenth whether it continues another, then the channel and the
/// sequence number. It is worth nothing if it announces no more than itself or
/// if its first two bytes are those of a bus that is pulled high.
pub proof fn law_header_layout(bytes: Seq<u8>)
    requires
        bytes.len() == 4,
    ensures
        ({
            let len = bytes[0] + 256 * (bytes[1] % 128);
            &&& shtp::parsed(bytes) is None <==> len <= 4 || (bytes[0] == 0xFF && bytes[1] == 0xFF)
            &&& shtp::parsed(bytes) matches Some(header) ==> {
                &&& header.cargo_len == len
                &&& header.continuation <==> bytes[1] >= 128
                &&& header.channel == bytes[2]
                &&& header.sequence == bytes[3]
            }
        }),
{
}

/// An outgoing header says how long the cargo is, itself included, low byte
/// first, then the channel and the sequence number.
pub proof fn law_outgoing_header_layout(payload_len: int, channel: Channel, sequence: u8)
    requires
        0 <= payload_len <= 65_531,
    ensures
        ({
            let bytes = shtp::encoded(payload_len, channel, sequence);
            &&& bytes.len() == 4
            &&& bytes[0] + 256 * bytes[1] == payload_len + 4
            &&& bytes[2] == channel.number()
            &&& bytes[3] == sequence
        }),
{
}

/// A cargo is peeked at with four bytes, and then read in transfers of up to 64
/// bytes, of which every one but the first has four bytes of header to spare.
pub proof fn law_transfers_are_as_long_as_they_may_be(reading: Reading)
    requires
        reading.wf(),
    ensures
        ({
            let len = cargo::transfer_len(reading);
            &&& reading is Head ==> len == 4
            &&& reading matches Reading::Cargo { header, read } ==> {
                let left = header.cargo_len - read + (if read > 0 {
                    4int
                } else {
                    0
                });
                len <= left && len <= 64 && (len == left || len == 64)
            }
        }),
{
}

/// A set feature command is 0xFD, the sensor's number, the flags, the change
/// sensitivity in two bytes, and in four bytes each the interval, the batch
/// interval and the sensor's own word.
pub proof fn law_feature_command_layout(config: ReportConfig)
    ensures
        ({
            let bytes = feature_command(config);
            &&& bytes.len() == 17
            &&& bytes[0] == 0xFD
            &&& bytes[1] == config.sensor.code()
            &&& bytes[2] == (if config.change_sensitivity_relative {
                1int
            } else {
                0
            }) + (if config.change_sensitivity_enabled {
                2int
            } else {
                0
            }) + (if config.wake_enabled {
                4int
            } else {
                0
            }) + (if config.always_on_enabled {
                8int
            } else {
                0
            })
            &&& u16_le(bytes, 3) == config.change_sensitivity
            &&& u32_le(bytes, 5) == config.interval_us
            &&& u32_le(bytes, 9) == config.batch_interval_us
            &&& u32_le(bytes, 13) == config.sensor_specific
        }),
{
    let bytes = feature_command(config);
    assert(bytes.subrange(3, 5) == crate::bytes::u16_bytes(config.change_sensitivity));
    assert(bytes.subrange(5, 9) == crate::bytes::u32_bytes(config.interval_us));
    assert(bytes.subrange(9, 13) == crate::bytes::u32_bytes(config.batch_interval_us));
    assert(bytes.subrange(13, 17) == crate::bytes::u32_bytes(config.sensor_specific));
    lemma_stored_at(bytes, 5, config.interval_us);
    lemma_stored_at(bytes, 9, config.batch_interval_us);
    lemma_stored_at(bytes, 13, config.sensor_specific);
}

/// A number stored inside other bytes is read back there.
proof fn lemma_stored_at(bytes: Seq<u8>, at: int, value: u32)
    requires
        0 <= at,
        at + 4 <= bytes.len(),
        bytes.subrange(at, at + 4) == crate::bytes::u32_bytes(value),
    ensures
        u32_le(bytes, at) == value,
{
    crate::bytes::law_u32_round_trip(value);
    let part = bytes.subrange(at, at + 4);
    assert(part[0] == bytes[at] && part[1] == bytes[at + 1] && part[2] == bytes[at + 2] && part[3]
        == bytes[at + 3]);
}

/// A plain report has an interval and nothing else set.
pub proof fn law_plain_reports_are_plain(sensor: SensorId, interval_us: u32)
    ensures
        ({
            let config = plain_report(sensor, interval_us);
            &&& config.sensor == sensor
            &&& config.interval_us == interval_us
            &&& config.batch_interval_us == 0
            &&& config.change_sensitivity == 0
            &&& config.sensor_specific == 0
            &&& feature_flags(config) == 0
        }),
{
}

/// A command request is 0xF2, its own sequence number, the command and the
/// parameters.
pub proof fn law_command_request_layout(sequence: u8, command: u8, params: Seq<u8>)
    ensures
        ({
            let bytes = command_request(sequence, command, params);
            &&& bytes.len() == params.len() + 3
            &&& bytes[0] == 0xF2
            &&& bytes[1] == sequence
            &&& bytes[2] == command
            &&& bytes.skip(3) == params
        }),
{
    assert(command_request(sequence, command, params).skip(3) == params);
}

/// A product ID answer says the cause of the last reset in byte one, the
/// version in bytes two, three and twelve, the part number from byte four on
/// and the build number from byte eight on.
pub proof fn law_product_id_layout(payload: Seq<u8>)
    requires
        payload.len() >= 16,
    ensures
        ({
            let id = identified(payload);
            &&& id.sw_version_major == payload[2]
            &&& id.sw_version_minor == payload[3]
            &&& id.sw_version_patch == u16_le(payload, 12)
            &&& id.sw_part_number == u32_le(payload, 4)
            &&& id.sw_build_number == u32_le(payload, 8)
            &&& id.reset_cause is NotApplicable <==> payload[1] == 0
            &&& id.reset_cause is PowerOn <==> payload[1] == 1
            &&& id.reset_cause is InternalSystemReset <==> payload[1] == 2
            &&& id.reset_cause is WatchdogTimeout <==> payload[1] == 3
            &&& id.reset_cause is ExternalReset <==> payload[1] == 4
            &&& payload[1] > 4 ==> id.reset_cause == ResetCause::Other(payload[1])
        }),
{
}

/// A hub says that it has rebooted with a one on channel one, and answers on
/// channel two with the report that was asked for.
pub proof fn law_notices_and_answers_are_told_apart(
    header: Header,
    buf: Seq<u8>,
    report_id: u8,
    min_len: usize,
)
    ensures
        is_reset_notice(header, buf) <==> header.channel == 1 && buf[4] == 0x01,
        is_control_report(header, buf, report_id, min_len) <==> {
            &&& header.channel == 2
            &&& header.cargo_len >= 4 + min_len
            &&& buf[4] == report_id
        },
{
}

/// A wait in which nothing is heard lasts for 500 pauses, which make a second.
pub proof fn law_wait_lasts_for_a_second<E>(pauses: nat)
    ensures
        pauses < 500 ==> wait::longer_by(wait::begun::<E>(), pauses).wf(),
        pauses == 500 ==> {
            &&& !wait::longer_by(wait::begun::<E>(), pauses).wf()
            &&& wait::longer_by(wait::begun::<E>(), pauses).waited_ms == 1_000
        },
{
    if pauses <= 500 {
        wait::law_wait_lasts_until_the_timeout::<E>(pauses);
    }
}

/// A packet of exactly one report gives exactly one event, on either channel
/// for reports, and leaves nothing.
pub proof fn law_packet_of_one_report_gives_one_event(
    channel: u8,
    report: Seq<u8>,
    reference_delta: i32,
)
    requires
        channel == 3 || channel == 4,
        report.len() > 0,
        takes(report, reference_delta, report.len() as int),
    ensures
        ({
            let (events, delta) = walk::events(channel, report, reference_delta);
            &&& events.len() == 1
            &&& events[0] == walk::next_report(report, reference_delta).0.unwrap()
            &&& delta == reference_delta
        }),
{
    let empty = Seq::<u8>::empty();
    assert(report.skip(report.len() as int) == empty);
    assert(walk::next_event(channel, empty, reference_delta).0 is None);
    assert(walk::events(channel, empty, reference_delta).0 == Seq::<super::Event>::empty());
}

/// A cargo on its way out is its length, the channel, that channel's next
/// sequence number, and the payload.
pub proof fn law_outgoing_cargo_layout<I2C, D>(
    hub: Bno085View<I2C, D>,
    channel: Channel,
    payload: Seq<u8>,
)
    requires
        payload.len() <= 28,
    ensures
        ({
            let frame = outgoing(hub, channel, payload);
            &&& frame.len() == payload.len() + 4
            &&& frame[0] == frame.len()
            &&& frame[1] == 0
            &&& frame[2] == channel.number()
            &&& frame[3] == hub.sequence[channel.number() as int]
            &&& frame.skip(4) == payload
        }),
{
    assert(outgoing(hub, channel, payload).skip(4) == payload);
}

/// The cargo that starts a sensor's reports goes to channel two and says the
/// sensor's number and, from byte nine on, the interval. All the rest of it is
/// zero.
pub proof fn law_reports_are_enabled_by_number<I2C, D>(
    hub: Bno085View<I2C, D>,
    sensor: SensorId,
    interval_us: u32,
)
    ensures
        ({
            let frame = outgoing(
                hub,
                Channel::Control,
                feature_command(plain_report(sensor, interval_us)),
            );
            &&& frame.len() == 21
            &&& frame[0] == 21 && frame[1] == 0 && frame[2] == 2
            &&& frame[3] == hub.sequence[2]
            &&& frame[4] == 0xFD
            &&& frame[5] == sensor.code()
            &&& frame[6] == 0 && frame[7] == 0 && frame[8] == 0
            &&& u32_le(frame, 9) == interval_us
            &&& u32_le(frame, 13) == 0
            &&& u32_le(frame, 17) == 0
        }),
{
    let config = plain_report(sensor, interval_us);
    let payload = feature_command(config);
    let frame = outgoing(hub, Channel::Control, payload);
    law_feature_command_layout(config);
    law_outgoing_cargo_layout(hub, Channel::Control, payload);
    assert forall|at: int| 0 <= at < 17 implies frame[at + 4] == #[trigger] payload[at] by {
        assert(frame.skip(4)[at] == frame[at + 4]);
    }
    assert(payload[0] == frame[4] && payload[1] == frame[5] && payload[2] == frame[6]);
    assert(payload[3] == frame[7] && payload[4] == frame[8]);
    assert(payload[5] == frame[9] && payload[6] == frame[10] && payload[7] == frame[11]);
    assert(payload[8] == frame[12] && payload[9] == frame[13] && payload[10] == frame[14]);
    assert(payload[11] == frame[15] && payload[12] == frame[16] && payload[13] == frame[17]);
    assert(payload[14] == frame[18] && payload[15] == frame[19] && payload[16] == frame[20]);
    assert(u16_le(payload, 3) == 0);
}

/// A command goes to channel two and says, behind its report ID, how many
/// commands went before it, modulo 256.
pub proof fn law_commands_are_counted_in_their_cargos<I2C, D>(
    hub: Bno085View<I2C, D>,
    command: u8,
    params: Seq<u8>,
)
    requires
        params.len() == 9,
    ensures
        ({
            let frame = outgoing_command(hub, command, params);
            &&& frame.len() == 16
            &&& frame[2] == 2
            &&& frame[3] == hub.sequence[2]
            &&& frame[4] == 0xF2
            &&& frame[5] == hub.command_sequence
            &&& frame[6] == command
            &&& frame.skip(7) == params
        }),
{
    let payload = command_request(hub.command_sequence, command, params);
    let frame = outgoing_command(hub, command, params);
    law_command_request_layout(hub.command_sequence, command, params);
    law_outgoing_cargo_layout(hub, Channel::Control, payload);
    assert(frame.skip(4)[0] == frame[4] && frame.skip(4)[1] == frame[5] && frame.skip(4)[2]
        == frame[6]);
    assert(frame.skip(7) == payload.skip(3));
}

/// A failure of the bus comes out as it is, whatever was being read, and
/// changes nothing but that the next cargo is read from its head.
pub proof fn law_bus_failures_come_out<I2C, D, E>(
    hub: Bno085View<I2C, D>,
    reading: Reading,
    error: E,
)
    ensures
        cargo_read(hub, reading, Err::<Seq<u8>, E>(error)) == (
            hub,
            Reading::Head,
            Some(Err::<Option<Header>, _>(Error::I2c(error))),
        ),
        event_read(hub, reading, Err::<Seq<u8>, E>(error)) == (
            hub,
            Reading::Head,
            Some(Err::<Option<super::Event>, _>(Error::I2c(error))),
        ),
{
}

/// A cargo of up to 256 bytes is kept, and of a longer one only its length is
/// told.
pub proof fn law_cargos_are_kept_up_to_their_limit<E>(header: Header)
    ensures
        header.cargo_len <= 256 ==> cargo_end::<E>(header) == Ok::<_, Error<E>>(Some(header)),
        header.cargo_len > 256 ==> cargo_end::<E>(header) == Err::<Option<Header>, _>(
            Error::<E>::CargoTooLarge(header.cargo_len),
        ),
{
}

/// The identification that a wait for it gives stands in the buffer behind the
/// header, and is one that begins with 0xF8, came on channel two and has
/// sixteen bytes.
pub proof fn law_identification_is_read_off_the_answer<I2C, D, E>(
    hub: Bno085View<I2C, D>,
    waiting: Waiting<E>,
    outcome: Result<Seq<u8>, E>,
)
    requires
        hub.buf.len() == 256,
        outcome matches Ok(bytes) ==> bytes.len() == cargo::transfer_len(waiting.reading),
        waiting.reading.wf(),
    ensures
        ({
            let (after, _, step) = product_id_awaited(hub, waiting, outcome);
            step matches Step::Done(Ok(id)) ==> {
                &&& after.buf[4] == 0xF8
                &&& waiting.reading matches Reading::Cargo { header, .. }
                &&& header.channel == 2
                &&& header.cargo_len >= 20
                &&& id.sw_version_major == after.buf[6]
                &&& id.sw_version_minor == after.buf[7]
                &&& id.sw_part_number == u32_le(after.buf, 8)
                &&& id.sw_build_number == u32_le(after.buf, 12)
                &&& id.sw_version_patch == u16_le(after.buf, 16)
                &&& id.reset_cause is PowerOn <==> after.buf[5] == 1
            }
        }),
{
}

/// A hub takes 100 ms to come up, and is polled every two.
pub proof fn law_hub_is_given_this_time()
    ensures
        super::BOOT_DELAY_MS == 100,
        super::POLL_INTERVAL_MS == 2,
        super::RESPONSE_TIMEOUT_MS == 1_000,
{
}

} // verus!
