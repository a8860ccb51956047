//! The BNO085 driver core against cargos as they stand on the bus.

use ping_capstone::bno085::cargo::{Frame, Progress, Reading, MAX_CARGO};
use ping_capstone::bno085::init::{Init, InitStep};
use ping_capstone::bno085::reports::{decode, decode_gyro_integrated_rv};
use ping_capstone::bno085::shtp::{Channel, Header};
use ping_capstone::bno085::wait::{Step, Waiting};
use ping_capstone::bno085::{
    Accuracy, Address, Bno085, Error, Event, Fixed, ProductId, Quaternion, RawVec3, ReportConfig,
    ResetCause, SensorData, SensorId, TareBasis, Vec3, POLL_INTERVAL_MS, RESPONSE_TIMEOUT_MS,
    TARE_AXIS_ALL, TARE_AXIS_X, TARE_AXIS_Y, TARE_AXIS_Z,
};

type Hub = Bno085<(), ()>;

fn hub() -> Hub {
    Bno085::new((), Address::Default, ())
}

/// A cargo on its way in.
fn cargo(channel: u8, payload: &[u8]) -> Vec<u8> {
    let mut bytes = ((payload.len() + 4) as u16).to_le_bytes().to_vec();
    bytes.extend([channel, 7]);
    bytes.extend(payload);
    bytes
}

/// A hub with cargos to deliver, as the bus sees it.
struct Bus {
    cargos: Vec<Vec<u8>>,
    at: usize,
    transfers: Vec<usize>,
}

impl Bus {
    fn new(cargos: &[Vec<u8>]) -> Self {
        Self { cargos: cargos.to_vec(), at: 0, transfers: Vec::new() }
    }

    /// What a read of `want` bytes brings. A read of a header takes nothing
    /// off the cargo; a longer one does, behind a repeated header.
    fn read(&mut self, want: usize) -> Vec<u8> {
        self.transfers.push(want);
        let Some(cargo) = self.cargos.first().cloned() else {
            return vec![0; want];
        };
        if self.at == 0 {
            if want > 4 {
                self.at = want;
            }
            let bytes = cargo[..want].to_vec();
            self.retire(cargo.len());
            bytes
        } else {
            let mut bytes = vec![cargo[0], cargo[1] | 0x80, cargo[2], cargo[3]];
            bytes.extend(&cargo[self.at..self.at + want - 4]);
            self.at += want - 4;
            self.retire(cargo.len());
            bytes
        }
    }

    fn retire(&mut self, len: usize) {
        if self.at == len {
            self.cargos.remove(0);
            self.at = 0;
        }
    }
}

/// The next event, or what stands in its way.
fn read_event(hub: &mut Hub, bus: &mut Bus) -> Result<Option<Event>, Error<()>> {
    if let Some(event) = hub.next_buffered_event() {
        return Ok(Some(event));
    }
    let mut reading = Reading::Head;
    loop {
        let bytes = bus.read(reading.want());
        if let Some(result) = hub.read_event(&mut reading, Ok(&bytes)) {
            return result;
        }
    }
}

/// Every event until the hub has nothing left to say.
fn drain(hub: &mut Hub, bus: &mut Bus) -> Vec<Event> {
    let mut events = Vec::new();
    while let Some(event) = read_event(hub, bus).expect("read failed") {
        events.push(event);
    }
    events
}

fn fixed(raw: i16, point: u32) -> Fixed {
    Fixed { raw, point }
}

/// An accelerometer report.
fn accelerometer(sequence: u8, status: u8, delay: u8, axes: [i16; 3]) -> Vec<u8> {
    let mut report = vec![0x01, sequence, status, delay];
    for axis in axes {
        report.extend(axis.to_le_bytes());
    }
    report
}

#[test]
fn channels_have_their_numbers() {
    for number in 0..=255u8 {
        match Channel::from_u8(number) {
            Some(channel) => assert_eq!(channel.to_u8(), number),
            None => assert!(number >= 6),
        }
    }
    assert_eq!(Channel::from_u8(2), Some(Channel::Control));
}

#[test]
fn headers_without_a_payload_are_nothing() {
    assert_eq!(Header::parse([0, 0, 0, 0]), None);
    assert_eq!(Header::parse([0xFF, 0xFF, 0xFF, 0xFF]), None);
    assert_eq!(Header::parse([4, 0, 2, 1]), None);
    assert_eq!(Header::parse([0x04, 0x80, 2, 1]), None);
    assert_eq!(Header::parse([0x00, 0x80, 2, 1]), None);
}

#[test]
fn header_is_decoded() {
    let header = Header::parse([0x14, 0x81, 3, 9]).unwrap();
    assert_eq!(
        header,
        Header { cargo_len: 0x114, continuation: true, channel: 3, sequence: 9 }
    );
    assert_eq!(header.payload_len(), 0x110);
    assert!(!Header::parse([0x05, 0x00, 3, 9]).unwrap().continuation);
}

#[test]
fn header_reads_back() {
    for payload_len in [1, 2, 17, 251, 252, 300, 0x7FFB] {
        let header = Header::parse(Header::encode(payload_len, Channel::Control, 200)).unwrap();
        assert_eq!(header.payload_len(), payload_len);
        assert_eq!((header.channel, header.sequence), (2, 200));
        assert!(!header.continuation);
    }
    assert_eq!(Header::encode(17, Channel::Control, 3), [21, 0, 2, 3]);
    assert_eq!(Header::encode(0x1_0000, Channel::Command, 0), [4, 0, 0, 0]);
}

#[test]
fn frame_is_a_header_and_a_payload() {
    let frame = Frame::new(Channel::Executable, 5, &[1]);
    assert_eq!(frame.as_bytes(), [5, 0, 1, 5, 1]);
}

#[test]
fn sensors_have_their_report_ids() {
    let mut known = 0;
    for id in 0..=255u8 {
        if let Some(sensor) = SensorId::from_u8(id) {
            assert_eq!(sensor.to_u8(), id);
            known += 1;
        }
    }
    assert_eq!(known, 36);
    assert_eq!(SensorId::from_u8(0x05), Some(SensorId::RotationVector));
    assert_eq!(SensorId::from_u8(0x17), None);
    assert_eq!(SensorId::from_u8(0x2A), Some(SensorId::GyroIntegratedRotationVector));
}

#[test]
fn reports_have_their_lengths() {
    for (sensor, len) in [
        (SensorId::Accelerometer, 10),
        (SensorId::Gravity, 10),
        (SensorId::RotationVector, 14),
        (SensorId::GyroIntegratedRotationVector, 14),
        (SensorId::RawGyroscope, 16),
        (SensorId::PersonalActivityClassifier, 16),
        (SensorId::StepCounter, 12),
        (SensorId::PickupDetector, 8),
        (SensorId::TapDetector, 5),
        (SensorId::HeartRateMonitor, 6),
    ] {
        assert_eq!(sensor.report_len(), len);
    }
}

#[test]
fn accuracy_is_in_the_low_bits_of_the_status() {
    assert_eq!(Accuracy::from_status(0xFC), Accuracy::Unreliable);
    assert_eq!(Accuracy::from_status(0x01), Accuracy::Low);
    assert_eq!(Accuracy::from_status(0x06), Accuracy::Medium);
    assert_eq!(Accuracy::from_status(0xFF), Accuracy::High);
}

#[test]
fn rotation_vector_is_decoded() {
    let mut report = vec![0x05, 42, 0x0B, 0x10];
    for value in [16384i16, -8192, 1, -1, 4096] {
        report.extend(value.to_le_bytes());
    }
    let event = decode(SensorId::RotationVector, &report, -100);
    assert_eq!(
        event,
        Event {
            sensor: SensorId::RotationVector,
            data: SensorData::RotationVector {
                quaternion: Quaternion {
                    i: fixed(16384, 14),
                    j: fixed(-8192, 14),
                    k: fixed(1, 14),
                    real: fixed(-1, 14),
                },
                accuracy_rad: fixed(4096, 12),
            },
            sequence: 42,
            accuracy: Accuracy::High,
            delay_us: (2 * 256 + 16) * 100,
            timestamp_offset_us: (2 * 256 + 16 - 100) * 100,
        }
    );
}

#[test]
fn each_kind_of_report_is_decoded() {
    let bytes: Vec<u8> = (0..16).map(|at| at * 16 + 1).collect();
    let i16_at = |at: usize| i16::from_le_bytes([bytes[at], bytes[at + 1]]);
    let u32_at = |at: usize| {
        u32::from_le_bytes([bytes[at], bytes[at + 1], bytes[at + 2], bytes[at + 3]])
    };
    let vec3 = |at: usize, point: u32| Vec3 {
        x: fixed(i16_at(at), point),
        y: fixed(i16_at(at + 2), point),
        z: fixed(i16_at(at + 4), point),
    };
    let quaternion = Quaternion {
        i: fixed(i16_at(4), 14),
        j: fixed(i16_at(6), 14),
        k: fixed(i16_at(8), 14),
        real: fixed(i16_at(10), 14),
    };
    let raw = RawVec3 {
        x: i16_at(4),
        y: i16_at(6),
        z: i16_at(8),
        timestamp_us: u32_at(12),
    };
    let accuracy_rad = fixed(i16_at(12), 12);
    let data = |sensor: SensorId| decode(sensor, &bytes[..sensor.report_len()], 0).data;

    assert_eq!(data(SensorId::Accelerometer), SensorData::Accelerometer(vec3(4, 8)));
    assert_eq!(data(SensorId::LinearAcceleration), SensorData::LinearAcceleration(vec3(4, 8)));
    assert_eq!(data(SensorId::Gravity), SensorData::Gravity(vec3(4, 8)));
    assert_eq!(data(SensorId::GyroscopeCalibrated), SensorData::Gyroscope(vec3(4, 9)));
    assert_eq!(
        data(SensorId::GyroscopeUncalibrated),
        SensorData::GyroscopeUncalibrated { rate: vec3(4, 9), bias: vec3(10, 9) }
    );
    assert_eq!(data(SensorId::MagneticFieldCalibrated), SensorData::MagneticField(vec3(4, 4)));
    assert_eq!(
        data(SensorId::MagneticFieldUncalibrated),
        SensorData::MagneticFieldUncalibrated { field: vec3(4, 4), bias: vec3(10, 4) }
    );
    assert_eq!(
        data(SensorId::RotationVector),
        SensorData::RotationVector { quaternion, accuracy_rad }
    );
    assert_eq!(data(SensorId::GameRotationVector), SensorData::GameRotationVector(quaternion));
    assert_eq!(
        data(SensorId::GeomagneticRotationVector),
        SensorData::GeomagneticRotationVector { quaternion, accuracy_rad }
    );
    assert_eq!(
        data(SensorId::ArvrStabilizedRotationVector),
        SensorData::ArvrStabilizedRotationVector { quaternion, accuracy_rad }
    );
    assert_eq!(
        data(SensorId::ArvrStabilizedGameRotationVector),
        SensorData::ArvrStabilizedGameRotationVector(quaternion)
    );
    assert_eq!(data(SensorId::RawAccelerometer), SensorData::RawAccelerometer(raw));
    assert_eq!(data(SensorId::RawGyroscope), SensorData::RawGyroscope(raw));
    assert_eq!(data(SensorId::RawMagnetometer), SensorData::RawMagnetometer(raw));
    assert_eq!(
        data(SensorId::StepCounter),
        SensorData::StepCounter { steps: u32_at(8), latency_us: u32_at(4) }
    );
    assert_eq!(
        data(SensorId::StepDetector),
        SensorData::StepDetector { latency_us: u32_at(4) }
    );
    assert_eq!(data(SensorId::TapDetector), SensorData::TapDetector { flags: bytes[4] });
    let word = u16::from_le_bytes([bytes[4], bytes[5]]);
    assert_eq!(data(SensorId::SignificantMotion), SensorData::SignificantMotion { motion: word });
    assert_eq!(data(SensorId::ShakeDetector), SensorData::ShakeDetector { shake: word });
    assert_eq!(
        data(SensorId::StabilityClassifier),
        SensorData::StabilityClassifier { classification: bytes[4] }
    );
    assert_eq!(data(SensorId::Pressure), SensorData::Undecoded(SensorId::Pressure));
}

#[test]
fn longest_delay_is_fourteen_bits() {
    let event = decode(SensorId::TapDetector, &[0x10, 0, 0xFC, 0xFF, 0], i32::MIN);
    assert_eq!(event.delay_us, 0x3FFF * 100);
    assert_eq!(event.timestamp_offset_us, (0x3FFF + i64::from(i32::MIN)) * 100);
    assert_eq!(event.accuracy, Accuracy::Unreliable);
}

#[test]
fn gyro_integrated_rotation_vector_is_decoded() {
    let mut payload = Vec::new();
    for value in [1i16, 2, 3, 4, -5, -6, -7] {
        payload.extend(value.to_le_bytes());
    }
    let event = decode_gyro_integrated_rv(&payload);
    assert_eq!(event.sensor, SensorId::GyroIntegratedRotationVector);
    assert_eq!(
        event.data,
        SensorData::GyroIntegratedRotationVector {
            quaternion: Quaternion {
                i: fixed(1, 14),
                j: fixed(2, 14),
                k: fixed(3, 14),
                real: fixed(4, 14),
            },
            angular_velocity: Vec3 { x: fixed(-5, 10), y: fixed(-6, 10), z: fixed(-7, 10) },
        }
    );
    assert_eq!((event.sequence, event.delay_us, event.timestamp_offset_us), (0, 0, 0));
    assert_eq!(event.accuracy, Accuracy::Unreliable);

    let mut hub = hub();
    let short = cargo(5, &payload[..13]);
    let events = drain(&mut hub, &mut Bus::new(&[short, cargo(5, &payload)]));
    assert_eq!(events, [event]);
}

#[test]
fn reports_in_one_packet_come_out_in_order() {
    let mut payload = vec![0xFB];
    payload.extend(120i32.to_le_bytes());
    payload.extend(accelerometer(1, 3, 20, [1, 2, 3]));
    payload.extend(accelerometer(2, 3, 30, [4, 5, 6]));
    payload.push(0xFA);
    payload.extend(50i32.to_le_bytes());
    payload.extend(accelerometer(3, 3, 40, [7, 8, 9]));
    let events = drain(&mut hub(), &mut Bus::new(&[cargo(3, &payload)]));
    let told: Vec<_> = events.iter().map(|e| (e.sequence, e.timestamp_offset_us)).collect();
    assert_eq!(told, [(1, (20 - 120) * 100), (2, (30 - 120) * 100), (3, (40 - 70) * 100)]);
}

#[test]
fn reference_lasts_into_the_next_packet() {
    let mut first = vec![0xFB];
    first.extend(5i32.to_le_bytes());
    let second = accelerometer(1, 0, 0, [0, 0, 0]);
    let events = drain(&mut hub(), &mut Bus::new(&[cargo(3, &first), cargo(4, &second)]));
    assert_eq!(events[0].timestamp_offset_us, -500);
}

#[test]
fn smallest_base_timestamp_wraps_around() {
    let mut payload = vec![0xFB];
    payload.extend(i32::MIN.to_le_bytes());
    payload.extend(accelerometer(1, 0, 0, [0, 0, 0]));
    let events = drain(&mut hub(), &mut Bus::new(&[cargo(3, &payload)]));
    assert_eq!(events[0].timestamp_offset_us, i64::from(i32::MIN) * 100);
}

#[test]
fn rest_of_a_packet_goes_with_an_unknown_or_short_report() {
    let good = accelerometer(1, 0, 0, [1, 1, 1]);
    let mut unknown = good.clone();
    unknown.push(0x17);
    unknown.extend(&good);
    let mut cut = good.clone();
    cut.extend(&good[..9]);
    let mut timestamp = good.clone();
    timestamp.extend([0xFB, 1, 2, 3]);
    for payload in [unknown, cut, timestamp] {
        assert_eq!(drain(&mut hub(), &mut Bus::new(&[cargo(3, &payload)])).len(), 1);
    }
}

#[test]
fn packets_without_reports_are_skipped() {
    let good = accelerometer(9, 0, 0, [1, 1, 1]);
    let cargos = [cargo(0, &good), cargo(2, &good), cargo(6, &good), cargo(3, &good)];
    let events = drain(&mut hub(), &mut Bus::new(&cargos));
    assert_eq!(events.len(), 1);
    assert_eq!(events[0].sequence, 9);
}

#[test]
fn long_cargo_is_put_together_again() {
    for reports in [1, 5, 6, 7, 12, 25] {
        let mut payload = Vec::new();
        for sequence in 0..reports {
            payload.extend(accelerometer(sequence, 0, sequence, [i16::from(sequence), -1, 0x1234]));
        }
        let mut bus = Bus::new(&[cargo(3, &payload)]);
        let events = drain(&mut hub(), &mut bus);
        assert_eq!(events.len(), usize::from(reports));
        for (sequence, event) in events.iter().enumerate() {
            assert_eq!(usize::from(event.sequence), sequence);
            assert_eq!(
                event.data,
                SensorData::Accelerometer(Vec3 {
                    x: fixed(sequence as i16, 8),
                    y: fixed(-1, 8),
                    z: fixed(0x1234, 8),
                })
            );
        }
        assert!(bus.transfers.iter().all(|want| (4..=64).contains(want)));
    }
}

#[test]
fn transfers_ask_for_what_is_left() {
    let mut bus = Bus::new(&[cargo(3, &[0; 160])]);
    assert!(read_event(&mut hub(), &mut bus).unwrap().is_none());
    assert_eq!(bus.transfers, [4, 64, 64, 44, 4]);
}

#[test]
fn cargo_that_is_too_large_is_read_and_discarded() {
    let advertisement = cargo(0, &[0x55; 276]);
    let good = cargo(3, &accelerometer(1, 0, 0, [1, 1, 1]));
    let mut bus = Bus::new(&[advertisement, good]);
    let mut hub = hub();
    assert!(matches!(read_event(&mut hub, &mut bus), Err(Error::CargoTooLarge(280))));
    assert_eq!(drain(&mut hub, &mut bus).len(), 1);
    assert_eq!(bus.transfers[..6], [4, 64, 64, 64, 64, 40]);
}

#[test]
fn largest_cargo_that_fits_is_kept() {
    let mut payload = vec![0; MAX_CARGO - 4];
    payload[..10].copy_from_slice(&accelerometer(1, 0, 0, [1, 1, 1]));
    assert_eq!(drain(&mut hub(), &mut Bus::new(&[cargo(3, &payload)])).len(), 1);
    payload.push(0);
    let result = read_event(&mut hub(), &mut Bus::new(&[cargo(3, &payload)]));
    assert!(matches!(result, Err(Error::CargoTooLarge(257))));
}

#[test]
fn bus_error_ends_the_reading() {
    let mut hub = hub();
    let mut reading = Reading::Head;
    let result = hub.read_event::<u8>(&mut reading, Err(3));
    assert!(matches!(result, Some(Err(Error::I2c(3)))));
    assert_eq!(reading, Reading::Head);
}

#[test]
fn reading_follows_the_transfers() {
    assert_eq!(Reading::Head.transferred(&[0, 0, 0, 0]), Progress::Nothing);
    let header = Header { cargo_len: 6, continuation: false, channel: 3, sequence: 0 };
    let reading = Reading::Cargo { header, read: 0 };
    assert_eq!(Reading::Head.transferred(&[6, 0, 3, 0]), Progress::More(reading));
    assert_eq!(reading.want(), 6);
    assert_eq!(reading.transferred(&[6, 0, 3, 0, 1, 2]), Progress::Complete(header));
}

#[test]
fn walk_goes_on_over_a_cargo_read_meanwhile() {
    let mut payload = accelerometer(1, 0, 0, [1, 1, 1]);
    payload.extend(accelerometer(2, 0, 0, [1, 1, 1]));
    let mut hub = hub();
    let mut bus = Bus::new(&[cargo(3, &payload)]);
    assert_eq!(read_event(&mut hub, &mut bus).unwrap().unwrap().sequence, 1);

    // The second report would have stood behind ten bytes of payload.
    let mut answer = vec![0xF8; 10];
    answer.extend([0x10, 77, 0x03, 0x02, 0x0C]);
    answer.extend([0; 5]);
    let mut reading = Reading::Head;
    let mut bus = Bus::new(&[cargo(2, &answer)]);
    loop {
        let bytes = bus.read(reading.want());
        if hub.read_cargo::<()>(&mut reading, Ok(&bytes)).is_some() {
            break;
        }
    }
    let event = hub.next_buffered_event().unwrap();
    assert_eq!(event.data, SensorData::TapDetector { flags: 0x0C });
    assert_eq!((event.sequence, event.delay_us), (77, 200));
    assert!(hub.next_buffered_event().is_none());
    assert!(hub.next_buffered_event().is_none());
}

#[test]
fn taken_reports_leave_nothing_to_walk_over() {
    let mut hub = hub();
    let mut bus = Bus::new(&[cargo(3, &accelerometer(1, 0, 0, [1, 1, 1]))]);
    assert_eq!(drain(&mut hub, &mut bus).len(), 1);
    let mut reading = Reading::Head;
    let mut bus = Bus::new(&[cargo(2, &[0x01; 20])]);
    loop {
        let bytes = bus.read(reading.want());
        if hub.read_cargo::<()>(&mut reading, Ok(&bytes)).is_some() {
            break;
        }
    }
    assert!(hub.next_buffered_event().is_none());
}

#[test]
fn requests_are_framed_and_counted_per_channel() {
    let mut hub = hub();
    assert_eq!(hub.soft_reset().as_bytes(), [5, 0, 1, 0, 1]);
    assert_eq!(hub.product_id().as_bytes(), [6, 0, 2, 0, 0xF9, 0]);
    assert_eq!(
        hub.enable_report(SensorId::RotationVector, 10_000).as_bytes(),
        [21, 0, 2, 1, 0xFD, 0x05, 0, 0, 0, 0x10, 0x27, 0, 0, 0, 0, 0, 0, 0, 0, 0, 0]
    );
    assert_eq!(
        hub.disable_report(SensorId::Gravity).as_bytes(),
        [21, 0, 2, 2, 0xFD, 0x06, 0, 0, 0, 0, 0, 0, 0, 0, 0, 0, 0, 0, 0, 0, 0]
    );
    assert_eq!(hub.soft_reset().as_bytes(), [5, 0, 1, 1, 1]);
    hub.reset_sent();
    assert_eq!(hub.product_id().as_bytes(), [6, 0, 2, 0, 0xF9, 0]);
    assert_eq!(hub.write_cargo(Channel::Command, &[8]).as_bytes(), [5, 0, 0, 0, 8]);
}

#[test]
fn sequence_numbers_wrap_around() {
    let mut hub = hub();
    for _ in 0..255 {
        hub.save_calibration();
    }
    assert_eq!(hub.save_calibration().as_bytes()[..7], [16, 0, 2, 255, 0xF2, 255, 0x06]);
    assert_eq!(hub.save_calibration().as_bytes()[..7], [16, 0, 2, 0, 0xF2, 0, 0x06]);
}

#[test]
fn feature_is_configured_in_full() {
    let mut config = ReportConfig::new(SensorId::StepCounter, 0x0102_0304);
    config.batch_interval_us = 0x1112_1314;
    config.change_sensitivity = 0x2122;
    config.sensor_specific = 0x3132_3334;
    config.change_sensitivity_relative = true;
    config.wake_enabled = true;
    assert_eq!(config.flags(), 0b0101);
    config.change_sensitivity_enabled = true;
    config.always_on_enabled = true;
    assert_eq!(config.flags(), 0b1111);
    assert_eq!(
        hub().set_feature(&config).as_bytes(),
        [
            21, 0, 2, 0, 0xFD, 0x11, 0x0F, 0x22, 0x21, 4, 3, 2, 1, 0x14, 0x13, 0x12, 0x11, 0x34,
            0x33, 0x32, 0x31
        ]
    );
}

#[test]
fn commands_carry_their_parameters() {
    let mut hub = hub();
    assert_eq!(
        hub.tare(TARE_AXIS_ALL, TareBasis::GyroIntegratedRotationVector).as_bytes(),
        [16, 0, 2, 0, 0xF2, 0, 0x03, 0, 7, 3, 0, 0, 0, 0, 0, 0]
    );
    assert_eq!(
        hub.persist_tare().as_bytes(),
        [16, 0, 2, 1, 0xF2, 1, 0x03, 1, 0, 0, 0, 0, 0, 0, 0, 0]
    );
    assert_eq!(
        hub.configure_calibration(true, false, true).as_bytes(),
        [16, 0, 2, 2, 0xF2, 2, 0x07, 1, 0, 1, 0, 0, 0, 0, 0, 0]
    );
    assert_eq!(
        hub.save_calibration().as_bytes(),
        [16, 0, 2, 3, 0xF2, 3, 0x06, 0, 0, 0, 0, 0, 0, 0, 0, 0]
    );
    assert_eq!(
        hub.send_command(9, &[1, 2, 3, 4, 5, 6, 7, 8, 9]).as_bytes(),
        [16, 0, 2, 4, 0xF2, 4, 9, 1, 2, 3, 4, 5, 6, 7, 8, 9]
    );
    assert_eq!(TARE_AXIS_ALL, TARE_AXIS_X | TARE_AXIS_Y | TARE_AXIS_Z);
    assert_eq!(TareBasis::ArvrStabilizedGameRotationVector.to_u8(), 5);
}

#[test]
fn reset_causes_have_their_numbers() {
    assert_eq!(ResetCause::from_u8(0), ResetCause::NotApplicable);
    assert_eq!(ResetCause::from_u8(1), ResetCause::PowerOn);
    assert_eq!(ResetCause::from_u8(2), ResetCause::InternalSystemReset);
    assert_eq!(ResetCause::from_u8(3), ResetCause::WatchdogTimeout);
    assert_eq!(ResetCause::from_u8(4), ResetCause::ExternalReset);
    assert_eq!(ResetCause::from_u8(5), ResetCause::Other(5));
}

#[test]
fn addresses_have_their_numbers() {
    assert_eq!(hub().address(), 0x4A);
    assert_eq!(Bno085::new((), Address::Alternate, ()).address(), 0x4B);
}

/// Drives a wait to its end, and says how often it paused.
fn wait<T>(
    bus: &mut Bus,
    mut on_transfer: impl FnMut(&mut Waiting<u8>, Result<&[u8], u8>) -> Step<T, u8>,
) -> (Result<T, Error<u8>>, u32) {
    let mut waiting = Waiting::new();
    let mut pauses = 0;
    loop {
        let bytes = bus.read(waiting.reading.want());
        let mut step = on_transfer(&mut waiting, Ok(&bytes));
        if let Step::Pause = step {
            pauses += 1;
            step = waiting.paused();
        }
        if let Step::Done(result) = step {
            return (result, pauses);
        }
    }
}

#[test]
fn reset_waits_for_the_notice() {
    let mut hub = hub();
    let cargos =
        [cargo(0, &[0; 280]), cargo(1, &[0x00]), cargo(2, &[0x01]), cargo(1, &[0x01])];
    let (result, pauses) =
        wait(&mut Bus::new(&cargos), |waiting, outcome| hub.await_reset(waiting, outcome));
    assert!(result.is_ok());
    assert_eq!(pauses, 0);
}

#[test]
fn reset_times_out() {
    let mut hub = hub();
    let (result, pauses) =
        wait(&mut Bus::new(&[]), |waiting, outcome| hub.await_reset(waiting, outcome));
    assert!(matches!(result, Err(Error::Timeout)));
    assert_eq!(pauses * POLL_INTERVAL_MS, RESPONSE_TIMEOUT_MS);
}

#[test]
fn reset_outlasts_bus_errors_and_tells_the_last() {
    let mut hub = hub();
    let mut waiting = Waiting::new();
    for error in 1..=2u8 {
        assert!(matches!(hub.await_reset(&mut waiting, Err(error)), Step::Pause));
        assert!(matches!(waiting.paused::<()>(), Step::Read));
    }
    loop {
        assert!(matches!(hub.await_reset(&mut waiting, Ok(&[0; 4])), Step::Pause));
        match waiting.paused::<()>() {
            Step::Read => {}
            Step::Done(Err(Error::I2c(error))) => {
                assert_eq!(error, 2);
                break;
            }
            _ => panic!("the last error is owed"),
        }
    }
}

#[test]
fn product_id_is_read() {
    let mut answer = vec![0xF8, 3, 2, 9];
    answer.extend(0x0102_0304u32.to_le_bytes());
    answer.extend(0x1112_1314u32.to_le_bytes());
    answer.extend(0x2122u16.to_le_bytes());
    answer.extend([0, 0]);
    let expected = ProductId {
        reset_cause: ResetCause::WatchdogTimeout,
        sw_version_major: 2,
        sw_version_minor: 9,
        sw_version_patch: 0x2122,
        sw_part_number: 0x0102_0304,
        sw_build_number: 0x1112_1314,
    };
    assert_eq!(ProductId::decode(&answer), expected);

    let cargos = [
        cargo(3, &answer),
        cargo(2, &answer[..15]),
        cargo(2, &[0xF1; 16]),
        cargo(0, &[0; 300]),
        cargo(2, &answer),
    ];
    let mut hub = hub();
    let (result, _) =
        wait(&mut Bus::new(&cargos), |waiting, outcome| hub.await_product_id(waiting, outcome));
    assert_eq!(result.unwrap(), expected);
}

#[test]
fn product_id_gives_up() {
    let mut hub = hub();
    let (result, _) =
        wait(&mut Bus::new(&[]), |waiting, outcome| hub.await_product_id(waiting, outcome));
    assert!(matches!(result, Err(Error::Timeout)));
    let mut waiting = Waiting::new();
    let step = hub.await_product_id(&mut waiting, Err(8u8));
    assert!(matches!(step, Step::Done(Err(Error::I2c(8)))));
}

#[test]
fn control_report_gives_its_length() {
    let mut hub = hub();
    let cargos = [cargo(2, &[0xF1, 1, 2])];
    let (result, _) = wait(&mut Bus::new(&cargos), |waiting, outcome| {
        hub.await_control_report(waiting, 0xF1, 2, outcome)
    });
    assert_eq!(result.unwrap(), 3);
}

#[test]
fn hub_hands_its_bus_and_delay_out() {
    let mut hub = Bno085::new(vec![1], Address::Default, 5);
    hub.i2c_mut().push(2);
    *hub.delay_mut() += 1;
    assert_eq!(*hub.delay_mut(), 6);
    assert_eq!(hub.release(), [1, 2]);
}

/// Brings a hub up on `bus`; once it is asked what it is, it has `answers`.
fn bring_up(
    hub: &mut Hub,
    bus: &mut Bus,
    answers: &[Vec<u8>],
) -> (Result<ProductId, Error<u8>>, Vec<Vec<u8>>) {
    let mut written = vec![hub.init().as_bytes().to_vec()];
    hub.reset_sent();
    let mut init = Init::new();
    loop {
        let bytes = bus.read(init.want());
        let mut step = hub.await_init(&mut init, Ok(&bytes));
        if let InitStep::Pause = step {
            step = init.paused();
        }
        match step {
            InitStep::Write(frame) => {
                written.push(frame.as_bytes().to_vec());
                bus.cargos.extend(answers.to_vec());
            }
            InitStep::Done(result) => return (result, written),
            InitStep::Read | InitStep::Pause => {}
        }
    }
}

#[test]
fn bring_up_resets_and_identifies() {
    let mut answer = vec![0xF8, 1, 3, 2];
    answer.extend([0; 12]);
    let mut bus = Bus::new(&[cargo(0, &[0; 280]), cargo(1, &[0x01])]);
    let (result, written) = bring_up(&mut hub(), &mut bus, &[cargo(2, &answer)]);
    assert_eq!(result.unwrap().reset_cause, ResetCause::PowerOn);
    assert_eq!(written, [vec![5, 0, 1, 0, 1], vec![6, 0, 2, 0, 0xF9, 0]]);
}

#[test]
fn bring_up_gives_up_on_a_silent_hub() {
    let (result, written) = bring_up(&mut hub(), &mut Bus::new(&[]), &[]);
    assert!(matches!(result, Err(Error::Timeout)));
    assert_eq!(written.len(), 1);
    let mut bus = Bus::new(&[cargo(1, &[0x01])]);
    let (result, written) = bring_up(&mut hub(), &mut bus, &[]);
    assert!(matches!(result, Err(Error::Timeout)));
    assert_eq!(written.len(), 2);
}

#[test]
fn bring_up_fails_on_a_bus_error_once_the_hub_is_asked() {
    let mut hub = hub();
    let mut init = Init::new();
    assert!(matches!(hub.await_init(&mut init, Err(1u8)), InitStep::Pause));
    assert!(matches!(init.paused(), InitStep::Read));
    let mut bus = Bus::new(&[cargo(1, &[0x01])]);
    loop {
        let bytes = bus.read(init.want());
        if let InitStep::Write(_) = hub.await_init(&mut init, Ok(&bytes)) {
            break;
        }
    }
    let step = hub.await_init(&mut init, Err(2));
    assert!(matches!(step, InitStep::Done(Err(Error::I2c(2)))));
}
