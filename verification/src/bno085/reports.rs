//! SH-2 sensor identifiers and input report decoding.
//!
//! The hub reports fixed point values; each field has a documented Q point,
//! so a raw `i16` read as Q14 is worth `raw / 2^14`. The Q points and report
//! lengths here follow the CEVA SH-2 reference driver (`sh2.c`,
//! `sh2_SensorValue.c`).

use crate::bytes::{read_i16, read_u16, read_u32};
use vstd::prelude::*;

verus! {

/// Identifiers for the sensors the hub can be asked to report.
///
/// The number that [`SensorId::to_u8`] gives doubles as the feature report ID
/// used to enable the sensor and as the report ID prefixing its input reports.
#[derive(Clone, Copy, PartialEq, Eq, Debug)]
pub enum SensorId {
    Accelerometer,
    GyroscopeCalibrated,
    MagneticFieldCalibrated,
    LinearAcceleration,
    RotationVector,
    Gravity,
    GyroscopeUncalibrated,
    GameRotationVector,
    GeomagneticRotationVector,
    Pressure,
    AmbientLight,
    Humidity,
    Proximity,
    Temperature,
    MagneticFieldUncalibrated,
    TapDetector,
    StepCounter,
    SignificantMotion,
    StabilityClassifier,
    RawAccelerometer,
    RawGyroscope,
    RawMagnetometer,
    StepDetector,
    ShakeDetector,
    FlipDetector,
    PickupDetector,
    StabilityDetector,
    PersonalActivityClassifier,
    SleepDetector,
    TiltDetector,
    PocketDetector,
    CircleDetector,
    HeartRateMonitor,
    ArvrStabilizedRotationVector,
    ArvrStabilizedGameRotationVector,
    GyroIntegratedRotationVector,
}

impl SensorId {
    /// The report ID.
    pub open spec fn code(self) -> u8 {
        match self {
            SensorId::Accelerometer => 0x01,
            SensorId::GyroscopeCalibrated => 0x02,
            SensorId::MagneticFieldCalibrated => 0x03,
            SensorId::LinearAcceleration => 0x04,
            SensorId::RotationVector => 0x05,
            SensorId::Gravity => 0x06,
            SensorId::GyroscopeUncalibrated => 0x07,
            SensorId::GameRotationVector => 0x08,
            SensorId::GeomagneticRotationVector => 0x09,
            SensorId::Pressure => 0x0A,
            SensorId::AmbientLight => 0x0B,
            SensorId::Humidity => 0x0C,
            SensorId::Proximity => 0x0D,
            SensorId::Temperature => 0x0E,
            SensorId::MagneticFieldUncalibrated => 0x0F,
            SensorId::TapDetector => 0x10,
            SensorId::StepCounter => 0x11,
            SensorId::SignificantMotion => 0x12,
            SensorId::StabilityClassifier => 0x13,
            SensorId::RawAccelerometer => 0x14,
            SensorId::RawGyroscope => 0x15,
            SensorId::RawMagnetometer => 0x16,
            SensorId::StepDetector => 0x18,
            SensorId::ShakeDetector => 0x19,
            SensorId::FlipDetector => 0x1A,
            SensorId::PickupDetector => 0x1B,
            SensorId::StabilityDetector => 0x1C,
            SensorId::PersonalActivityClassifier => 0x1E,
            SensorId::SleepDetector => 0x1F,
            SensorId::TiltDetector => 0x20,
            SensorId::PocketDetector => 0x21,
            SensorId::CircleDetector => 0x22,
            SensorId::HeartRateMonitor => 0x23,
            SensorId::ArvrStabilizedRotationVector => 0x28,
            SensorId::ArvrStabilizedGameRotationVector => 0x29,
            SensorId::GyroIntegratedRotationVector => 0x2A,
        }
    }

    /// The sensor whose report ID is `value`, if the hub has one.
    pub fn from_u8(value: u8) -> (sensor: Option<Self>)
        ensures
            sensor == sensor_coded(value),
            match sensor {
                Some(sensor) => sensor.code() == value,
                None => forall|sensor: SensorId| #[trigger] sensor.code() != value,
            },
    {
        let sensor = match value {
            0x01 => Some(Self::Accelerometer),
            0x02 => Some(Self::GyroscopeCalibrated),
            0x03 => Some(Self::MagneticFieldCalibrated),
            0x04 => Some(Self::LinearAcceleration),
            0x05 => Some(Self::RotationVector),
            0x06 => Some(Self::Gravity),
            0x07 => Some(Self::GyroscopeUncalibrated),
            0x08 => Some(Self::GameRotationVector),
            0x09 => Some(Self::GeomagneticRotationVector),
            0x0A => Some(Self::Pressure),
            0x0B => Some(Self::AmbientLight),
            0x0C => Some(Self::Humidity),
            0x0D => Some(Self::Proximity),
            0x0E => Some(Self::Temperature),
            0x0F => Some(Self::MagneticFieldUncalibrated),
            0x10 => Some(Self::TapDetector),
            0x11 => Some(Self::StepCounter),
            0x12 => Some(Self::SignificantMotion),
            0x13 => Some(Self::StabilityClassifier),
            0x14 => Some(Self::RawAccelerometer),
            0x15 => Some(Self::RawGyroscope),
            0x16 => Some(Self::RawMagnetometer),
            0x18 => Some(Self::StepDetector),
            0x19 => Some(Self::ShakeDetector),
            0x1A => Some(Self::FlipDetector),
            0x1B => Some(Self::PickupDetector),
            0x1C => Some(Self::StabilityDetector),
            0x1E => Some(Self::PersonalActivityClassifier),
            0x1F => Some(Self::SleepDetector),
            0x20 => Some(Self::TiltDetector),
            0x21 => Some(Self::PocketDetector),
            0x22 => Some(Self::CircleDetector),
            0x23 => Some(Self::HeartRateMonitor),
            0x28 => Some(Self::ArvrStabilizedRotationVector),
            0x29 => Some(Self::ArvrStabilizedGameRotationVector),
            0x2A => Some(Self::GyroIntegratedRotationVector),
            _ => None,
        };
        proof {
            if let Some(sensor) = sensor {
                law_report_ids_are_distinct(sensor, sensor);
            }
        }
        sensor
    }

    /// The report ID.
    pub fn to_u8(self) -> (code: u8)
        ensures
            code == self.code(),
    {
        match self {
            Self::Accelerometer => 0x01,
            Self::GyroscopeCalibrated => 0x02,
            Self::MagneticFieldCalibrated => 0x03,
            Self::LinearAcceleration => 0x04,
            Self::RotationVector => 0x05,
            Self::Gravity => 0x06,
            Self::GyroscopeUncalibrated => 0x07,
            Self::GameRotationVector => 0x08,
            Self::GeomagneticRotationVector => 0x09,
            Self::Pressure => 0x0A,
            Self::AmbientLight => 0x0B,
            Self::Humidity => 0x0C,
            Self::Proximity => 0x0D,
            Self::Temperature => 0x0E,
            Self::MagneticFieldUncalibrated => 0x0F,
            Self::TapDetector => 0x10,
            Self::StepCounter => 0x11,
            Self::SignificantMotion => 0x12,
            Self::StabilityClassifier => 0x13,
            Self::RawAccelerometer => 0x14,
            Self::RawGyroscope => 0x15,
            Self::RawMagnetometer => 0x16,
            Self::StepDetector => 0x18,
            Self::ShakeDetector => 0x19,
            Self::FlipDetector => 0x1A,
            Self::PickupDetector => 0x1B,
            Self::StabilityDetector => 0x1C,
            Self::PersonalActivityClassifier => 0x1E,
            Self::SleepDetector => 0x1F,
            Self::TiltDetector => 0x20,
            Self::PocketDetector => 0x21,
            Self::CircleDetector => 0x22,
            Self::HeartRateMonitor => 0x23,
            Self::ArvrStabilizedRotationVector => 0x28,
            Self::ArvrStabilizedGameRotationVector => 0x29,
            Self::GyroIntegratedRotationVector => 0x2A,
        }
    }

    /// Length in bytes of this sensor's input report, report ID included.
    pub open spec fn len(self) -> int {
        match self {
            SensorId::Accelerometer
            | SensorId::GyroscopeCalibrated
            | SensorId::MagneticFieldCalibrated
            | SensorId::LinearAcceleration
            | SensorId::Gravity => 10,
            SensorId::RotationVector
            | SensorId::GeomagneticRotationVector
            | SensorId::ArvrStabilizedRotationVector
            | SensorId::GyroIntegratedRotationVector => 14,
            SensorId::GyroscopeUncalibrated
            | SensorId::MagneticFieldUncalibrated
            | SensorId::RawAccelerometer
            | SensorId::RawGyroscope
            | SensorId::RawMagnetometer
            | SensorId::PersonalActivityClassifier => 16,
            SensorId::GameRotationVector
            | SensorId::ArvrStabilizedGameRotationVector
            | SensorId::StepCounter => 12,
            SensorId::Pressure | SensorId::AmbientLight | SensorId::StepDetector | SensorId::PickupDetector => 8,
            SensorId::TapDetector => 5,
            SensorId::Humidity
            | SensorId::Proximity
            | SensorId::Temperature
            | SensorId::SignificantMotion
            | SensorId::StabilityClassifier
            | SensorId::ShakeDetector
            | SensorId::FlipDetector
            | SensorId::StabilityDetector
            | SensorId::SleepDetector
            | SensorId::TiltDetector
            | SensorId::PocketDetector
            | SensorId::CircleDetector
            | SensorId::HeartRateMonitor => 6,
        }
    }

    /// Length in bytes of this sensor's input report, report ID included.
    ///
    /// A packet can hold several reports back to back, so this is what lets
    /// the reader find where the next one starts.
    pub fn report_len(self) -> (len: usize)
        ensures
            len == self.len(),
            5 <= len <= 16,
    {
        match self {
            Self::Accelerometer
            | Self::GyroscopeCalibrated
            | Self::MagneticFieldCalibrated
            | Self::LinearAcceleration
            | Self::Gravity => 10,
            Self::RotationVector
            | Self::GeomagneticRotationVector
            | Self::ArvrStabilizedRotationVector
            | Self::GyroIntegratedRotationVector => 14,
            Self::GyroscopeUncalibrated
            | Self::MagneticFieldUncalibrated
            | Self::RawAccelerometer
            | Self::RawGyroscope
            | Self::RawMagnetometer
            | Self::PersonalActivityClassifier => 16,
            Self::GameRotationVector
            | Self::ArvrStabilizedGameRotationVector
            | Self::StepCounter => 12,
            Self::Pressure | Self::AmbientLight | Self::StepDetector | Self::PickupDetector => 8,
            Self::TapDetector => 5,
            Self::Humidity
            | Self::Proximity
            | Self::Temperature
            | Self::SignificantMotion
            | Self::StabilityClassifier
            | Self::ShakeDetector
            | Self::FlipDetector
            | Self::StabilityDetector
            | Self::SleepDetector
            | Self::TiltDetector
            | Self::PocketDetector
            | Self::CircleDetector
            | Self::HeartRateMonitor => 6,
        }
    }
}

/// The sensor whose report ID is `value`, if the hub has one.
pub open spec fn sensor_coded(value: u8) -> Option<SensorId> {
    if exists|sensor: SensorId| #[trigger] sensor.code() == value {
        Some(choose|sensor: SensorId| #[trigger] sensor.code() == value)
    } else {
        None
    }
}

/// No two sensors share a report ID.
pub proof fn law_report_ids_are_distinct(a: SensorId, b: SensorId)
    ensures
        a.code() == b.code() ==> a == b,
        sensor_coded(a.code()) == Some(a),
{
    let found = choose|sensor: SensorId| #[trigger] sensor.code() == a.code();
    lemma_code_identifies(found, a);
    lemma_code_identifies(a, b);
}

proof fn lemma_code_identifies(a: SensorId, b: SensorId)
    ensures
        a.code() == b.code() ==> a == b,
{
}

/// How far the hub trusts its own calibration for a report.
#[derive(Clone, Copy, PartialEq, Eq, Debug)]
pub enum Accuracy {
    Unreliable,
    Low,
    Medium,
    High,
}

/// The accuracy in the low two bits of a report's status byte.
pub open spec fn accuracy(status: u8) -> Accuracy {
    let level = status % 4;
    if level == 0 {
        Accuracy::Unreliable
    } else if level == 1 {
        Accuracy::Low
    } else if level == 2 {
        Accuracy::Medium
    } else {
        Accuracy::High
    }
}

impl Accuracy {
    /// The accuracy that a report's status byte gives.
    pub fn from_status(status: u8) -> (level: Self)
        ensures
            level == accuracy(status),
    {
        assert(status & 0x03 == status % 4) by (bit_vector);
        match status & 0x03 {
            0 => Self::Unreliable,
            1 => Self::Low,
            2 => Self::Medium,
            _ => Self::High,
        }
    }
}

/// A fixed point number, worth `raw / 2^point`.
#[derive(Clone, Copy, PartialEq, Eq, Debug)]
pub struct Fixed {
    pub raw: i16,
    pub point: u32,
}

/// A three axis measurement in the sensor's engineering units.
#[derive(Clone, Copy, PartialEq, Eq, Debug)]
pub struct Vec3 {
    pub x: Fixed,
    pub y: Fixed,
    pub z: Fixed,
}

/// A unit quaternion describing orientation.
#[derive(Clone, Copy, PartialEq, Eq, Debug)]
pub struct Quaternion {
    pub i: Fixed,
    pub j: Fixed,
    pub k: Fixed,
    pub real: Fixed,
}

/// An unscaled measurement straight off the ADC, with the hub's own timestamp.
#[derive(Clone, Copy, PartialEq, Eq, Debug)]
pub struct RawVec3 {
    pub x: i16,
    pub y: i16,
    pub z: i16,
    /// Sample time on the hub's microsecond clock.
    pub timestamp_us: u32,
}

/// The decoded payload of a single input report.
#[derive(Clone, Copy, PartialEq, Eq, Debug)]
pub enum SensorData {
    /// Acceleration including gravity, m/s².
    Accelerometer(Vec3),
    /// Acceleration with gravity removed, m/s².
    LinearAcceleration(Vec3),
    /// Gravity alone, m/s².
    Gravity(Vec3),
    /// Calibrated angular rate, rad/s.
    Gyroscope(Vec3),
    /// Angular rate before bias removal, plus the bias the hub would subtract,
    /// both rad/s.
    GyroscopeUncalibrated { rate: Vec3, bias: Vec3 },
    /// Calibrated magnetic field, µT.
    MagneticField(Vec3),
    /// Magnetic field before hard iron correction, plus that correction, µT.
    MagneticFieldUncalibrated { field: Vec3, bias: Vec3 },
    /// Absolute orientation fused from all three sensors.
    RotationVector {
        quaternion: Quaternion,
        /// Estimated heading error, radians.
        accuracy_rad: Fixed,
    },
    /// Orientation without magnetometer, so it drifts in yaw but never jumps.
    GameRotationVector(Quaternion),
    /// Orientation from accelerometer and magnetometer only.
    GeomagneticRotationVector {
        quaternion: Quaternion,
        accuracy_rad: Fixed,
    },
    /// Rotation vector tuned for AR/VR, which favours smoothness over latency.
    ArvrStabilizedRotationVector {
        quaternion: Quaternion,
        accuracy_rad: Fixed,
    },
    /// Game rotation vector tuned for AR/VR.
    ArvrStabilizedGameRotationVector(Quaternion),
    /// High rate orientation with the angular velocity used to integrate it.
    /// Arrives on its own channel and carries no timestamp or accuracy.
    GyroIntegratedRotationVector {
        quaternion: Quaternion,
        /// Angular velocity, rad/s.
        angular_velocity: Vec3,
    },
    RawAccelerometer(RawVec3),
    RawGyroscope(RawVec3),
    RawMagnetometer(RawVec3),
    /// Steps counted since the sensor was enabled, and how stale the count is.
    StepCounter { steps: u32, latency_us: u32 },
    StepDetector { latency_us: u32 },
    /// Tap flags: bit 0-2 are the X, Y and Z axes, bit 3 marks a double tap.
    TapDetector { flags: u8 },
    SignificantMotion { motion: u16 },
    ShakeDetector { shake: u16 },
    /// Motion class: 0 unknown, 1 on table, 2 stationary, 3 stable, 4 motion.
    StabilityClassifier { classification: u8 },
    /// A report this driver recognises but does not decode.
    Undecoded(SensorId),
}

/// One input report, with the metadata the hub attaches to it.
#[derive(Clone, Copy, PartialEq, Eq, Debug)]
pub struct Event {
    pub sensor: SensorId,
    pub data: SensorData,
    /// Per-sensor sequence number; gaps mean reports were dropped.
    pub sequence: u8,
    pub accuracy: Accuracy,
    /// The report's own delay field, microseconds. Useful for ordering
    /// reports that arrived batched in one packet.
    pub delay_us: u32,
    /// Offset from the moment this packet was read to the moment the sample
    /// was taken, microseconds. Normally negative, since the hub delivers a
    /// sample some time after measuring it. The driver has no clock of its
    /// own, so add this to a timestamp taken when the read returned.
    pub timestamp_offset_us: i64,
}

/// The Q-point value stored at `at`.
pub open spec fn fixed(bytes: Seq<u8>, at: int, point: u32) -> Fixed {
    Fixed { raw: crate::bytes::i16_le(bytes, at), point }
}

/// Three consecutive Q-point values starting at `at`.
pub open spec fn vec3(bytes: Seq<u8>, at: int, point: u32) -> Vec3 {
    Vec3 {
        x: fixed(bytes, at, point),
        y: fixed(bytes, at + 2, point),
        z: fixed(bytes, at + 4, point),
    }
}

/// The quaternion stored at `at`, in Q14.
pub open spec fn quaternion(bytes: Seq<u8>, at: int) -> Quaternion {
    Quaternion {
        i: fixed(bytes, at, 14),
        j: fixed(bytes, at + 2, 14),
        k: fixed(bytes, at + 4, 14),
        real: fixed(bytes, at + 6, 14),
    }
}

/// The unscaled measurement stored at `at`. Two reserved bytes sit between
/// the Z axis and the timestamp.
pub open spec fn raw_vec3(bytes: Seq<u8>, at: int) -> RawVec3 {
    RawVec3 {
        x: crate::bytes::i16_le(bytes, at),
        y: crate::bytes::i16_le(bytes, at + 2),
        z: crate::bytes::i16_le(bytes, at + 4),
        timestamp_us: crate::bytes::u32_le(bytes, at + 8),
    }
}

/// What `sensor` measured, according to its input report.
pub open spec fn measured(sensor: SensorId, report: Seq<u8>) -> SensorData {
    match sensor {
        SensorId::Accelerometer => SensorData::Accelerometer(vec3(report, 4, 8)),
        SensorId::LinearAcceleration => SensorData::LinearAcceleration(vec3(report, 4, 8)),
        SensorId::Gravity => SensorData::Gravity(vec3(report, 4, 8)),
        SensorId::GyroscopeCalibrated => SensorData::Gyroscope(vec3(report, 4, 9)),
        SensorId::GyroscopeUncalibrated => SensorData::GyroscopeUncalibrated {
            rate: vec3(report, 4, 9),
            bias: vec3(report, 10, 9),
        },
        SensorId::MagneticFieldCalibrated => SensorData::MagneticField(vec3(report, 4, 4)),
        SensorId::MagneticFieldUncalibrated => SensorData::MagneticFieldUncalibrated {
            field: vec3(report, 4, 4),
            bias: vec3(report, 10, 4),
        },
        SensorId::RotationVector => SensorData::RotationVector {
            quaternion: quaternion(report, 4),
            accuracy_rad: fixed(report, 12, 12),
        },
        SensorId::GameRotationVector => SensorData::GameRotationVector(quaternion(report, 4)),
        SensorId::GeomagneticRotationVector => SensorData::GeomagneticRotationVector {
            quaternion: quaternion(report, 4),
            accuracy_rad: fixed(report, 12, 12),
        },
        SensorId::ArvrStabilizedRotationVector => SensorData::ArvrStabilizedRotationVector {
            quaternion: quaternion(report, 4),
            accuracy_rad: fixed(report, 12, 12),
        },
        SensorId::ArvrStabilizedGameRotationVector => {
            SensorData::ArvrStabilizedGameRotationVector(quaternion(report, 4))
        }
        SensorId::RawAccelerometer => SensorData::RawAccelerometer(raw_vec3(report, 4)),
        SensorId::RawGyroscope => SensorData::RawGyroscope(raw_vec3(report, 4)),
        SensorId::RawMagnetometer => SensorData::RawMagnetometer(raw_vec3(report, 4)),
        SensorId::StepCounter => SensorData::StepCounter {
            latency_us: crate::bytes::u32_le(report, 4),
            steps: crate::bytes::u32_le(report, 8),
        },
        SensorId::StepDetector => SensorData::StepDetector {
            latency_us: crate::bytes::u32_le(report, 4),
        },
        SensorId::TapDetector => SensorData::TapDetector { flags: report[4] },
        SensorId::SignificantMotion => SensorData::SignificantMotion {
            motion: crate::bytes::u16_le(report, 4),
        },
        SensorId::ShakeDetector => SensorData::ShakeDetector {
            shake: crate::bytes::u16_le(report, 4),
        },
        SensorId::StabilityClassifier => SensorData::StabilityClassifier {
            classification: report[4],
        },
        other => SensorData::Undecoded(other),
    }
}

/// A report's own delay, in the hub's 100 µs ticks. The high six bits stand
/// in the status byte, above the accuracy.
pub open spec fn delay_ticks(report: Seq<u8>) -> int {
    (report[2] / 4) * 0x100 + report[3]
}

/// The event that an input report stands for, given the correction that the
/// base timestamp before it established.
///
/// Every report on the input channels opens the same way: report ID, sequence
/// number, a status byte whose low bits are the accuracy and whose high bits
/// are the top of the delay, then the rest of the delay. Both the delay and
/// the timebase count 100 µs ticks.
pub open spec fn decoded(sensor: SensorId, report: Seq<u8>, reference_delta_ticks: i32) -> Event {
    Event {
        sensor,
        data: measured(sensor, report),
        sequence: report[1],
        accuracy: accuracy(report[2]),
        delay_us: (delay_ticks(report) * 100) as u32,
        timestamp_offset_us: ((delay_ticks(report) + reference_delta_ticks) * 100) as i64,
    }
}

/// The event that a payload on the channel of the gyro-integrated rotation
/// vector stands for.
pub open spec fn decoded_gyro_integrated_rv(payload: Seq<u8>) -> Event {
    Event {
        sensor: SensorId::GyroIntegratedRotationVector,
        data: SensorData::GyroIntegratedRotationVector {
            quaternion: quaternion(payload, 0),
            angular_velocity: vec3(payload, 8, 10),
        },
        sequence: 0,
        accuracy: Accuracy::Unreliable,
        delay_us: 0,
        timestamp_offset_us: 0,
    }
}

/// A fixed point value with the given Q point.
fn q(raw: i16, point: u32) -> (value: Fixed)
    ensures
        value == (Fixed { raw, point }),
{
    Fixed { raw, point }
}

/// Reads three consecutive Q-point values starting at `offset`.
fn vec3_at(bytes: &[u8], offset: usize, point: u32) -> (value: Vec3)
    requires
        offset + 6 <= bytes.len(),
    ensures
        value == vec3(bytes@, offset as int, point),
{
    Vec3 {
        x: q(read_i16(bytes, offset), point),
        y: q(read_i16(bytes, offset + 2), point),
        z: q(read_i16(bytes, offset + 4), point),
    }
}

fn quaternion_at(bytes: &[u8], offset: usize) -> (value: Quaternion)
    requires
        offset + 8 <= bytes.len(),
    ensures
        value == quaternion(bytes@, offset as int),
{
    Quaternion {
        i: q(read_i16(bytes, offset), 14),
        j: q(read_i16(bytes, offset + 2), 14),
        k: q(read_i16(bytes, offset + 4), 14),
        real: q(read_i16(bytes, offset + 6), 14),
    }
}

fn raw_vec3_at(bytes: &[u8], offset: usize) -> (value: RawVec3)
    requires
        offset + 12 <= bytes.len(),
    ensures
        value == raw_vec3(bytes@, offset as int),
{
    RawVec3 {
        x: read_i16(bytes, offset),
        y: read_i16(bytes, offset + 2),
        z: read_i16(bytes, offset + 4),
        // Two reserved bytes sit between the Z axis and the timestamp.
        timestamp_us: read_u32(bytes, offset + 8),
    }
}

/// Decodes one input report.
///
/// `report` must be exactly `sensor.report_len()` bytes, starting at the
/// report ID. `reference_delta_ticks` is the correction the preceding base
/// timestamp report established, in the hub's 100 µs ticks; it is added to
/// the report's own delay.
pub fn decode(sensor: SensorId, report: &[u8], reference_delta_ticks: i32) -> (event: Event)
    requires
        report.len() == sensor.len(),
    ensures
        event == decoded(sensor, report@, reference_delta_ticks),
{
    let status: u8 = report[2];
    let low: u8 = report[3];
    assert(((status & 0xFC) as u16) << 6 | low as u16 == (status / 4) as u16 * 0x100 + low as u16)
        by (bit_vector);
    let delay_ticks: u16 = ((status & 0xFC) as u16) << 6 | low as u16;
    let data = match sensor {
        SensorId::Accelerometer => SensorData::Accelerometer(vec3_at(report, 4, 8)),
        SensorId::LinearAcceleration => SensorData::LinearAcceleration(vec3_at(report, 4, 8)),
        SensorId::Gravity => SensorData::Gravity(vec3_at(report, 4, 8)),
        SensorId::GyroscopeCalibrated => SensorData::Gyroscope(vec3_at(report, 4, 9)),
        SensorId::GyroscopeUncalibrated => SensorData::GyroscopeUncalibrated {
            rate: vec3_at(report, 4, 9),
            bias: vec3_at(report, 10, 9),
        },
        SensorId::MagneticFieldCalibrated => SensorData::MagneticField(vec3_at(report, 4, 4)),
        SensorId::MagneticFieldUncalibrated => SensorData::MagneticFieldUncalibrated {
            field: vec3_at(report, 4, 4),
            bias: vec3_at(report, 10, 4),
        },
        SensorId::RotationVector => SensorData::RotationVector {
            quaternion: quaternion_at(report, 4),
            accuracy_rad: q(read_i16(report, 12), 12),
        },
        SensorId::GameRotationVector => SensorData::GameRotationVector(quaternion_at(report, 4)),
        SensorId::GeomagneticRotationVector => SensorData::GeomagneticRotationVector {
            quaternion: quaternion_at(report, 4),
            accuracy_rad: q(read_i16(report, 12), 12),
        },
        SensorId::ArvrStabilizedRotationVector => SensorData::ArvrStabilizedRotationVector {
            quaternion: quaternion_at(report, 4),
            accuracy_rad: q(read_i16(report, 12), 12),
        },
        SensorId::ArvrStabilizedGameRotationVector => {
            SensorData::ArvrStabilizedGameRotationVector(quaternion_at(report, 4))
        }
        SensorId::RawAccelerometer => SensorData::RawAccelerometer(raw_vec3_at(report, 4)),
        SensorId::RawGyroscope => SensorData::RawGyroscope(raw_vec3_at(report, 4)),
        SensorId::RawMagnetometer => SensorData::RawMagnetometer(raw_vec3_at(report, 4)),
        SensorId::StepCounter => SensorData::StepCounter {
            latency_us: read_u32(report, 4),
            steps: read_u32(report, 8),
        },
        SensorId::StepDetector => SensorData::StepDetector {
            latency_us: read_u32(report, 4),
        },
        SensorId::TapDetector => SensorData::TapDetector { flags: report[4] },
        SensorId::SignificantMotion => SensorData::SignificantMotion {
            motion: read_u16(report, 4),
        },
        SensorId::ShakeDetector => SensorData::ShakeDetector {
            shake: read_u16(report, 4),
        },
        SensorId::StabilityClassifier => SensorData::StabilityClassifier {
            classification: report[4],
        },
        other => SensorData::Undecoded(other),
    };
    Event {
        sensor,
        data,
        sequence: report[1],
        accuracy: Accuracy::from_status(status),
        delay_us: delay_ticks as u32 * 100,
        timestamp_offset_us: (delay_ticks as i64 + reference_delta_ticks as i64) * 100,
    }
}

/// Decodes the gyro-integrated rotation vector.
///
/// This one arrives alone on its own channel with no report ID, sequence
/// number or timestamp, so it does not go through [`decode`].
pub fn decode_gyro_integrated_rv(payload: &[u8]) -> (event: Event)
    requires
        payload.len() >= SensorId::GyroIntegratedRotationVector.len(),
    ensures
        event == decoded_gyro_integrated_rv(payload@),
{
    Event {
        sensor: SensorId::GyroIntegratedRotationVector,
        data: SensorData::GyroIntegratedRotationVector {
            quaternion: quaternion_at(payload, 0),
            angular_velocity: vec3_at(payload, 8, 10),
        },
        sequence: 0,
        accuracy: Accuracy::Unreliable,
        delay_us: 0,
        timestamp_offset_us: 0,
    }
}

} // verus!
