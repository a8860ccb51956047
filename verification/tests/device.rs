//! The button, the tasks and what a press comes to.

use ping_capstone::bno085::{Accuracy, Event, Fixed, Quaternion, SensorData, SensorId};
use ping_capstone::button::{Action, Button, Stage};
use ping_capstone::bytes::{
    copy_into, read_i16, read_i32, read_u16, read_u32, same_bytes, write_u16, write_u32,
};
use ping_capstone::demo::{
    gps_demo_step, imu_demo_step, lidar_demo_step, measurement_text, no_fix_text, GpsDemoAction,
    GpsDemoEvent, ImuDemoAction, ImuDemoEvent, LidarDemoAction, Tally,
};
use ping_capstone::neo_m9n::{FixType, Solution};
use ping_capstone::sighting::{
    fix_text, report_line, take_sighting, Latest, Orientation, Problem, Sighting,
};
use ping_capstone::tasks::{
    gps_step, imu_step, lidar_step, GpsAction, GpsEvent, ImuAction, ImuEvent, LidarAction,
    LidarEvent,
};
use ping_capstone::text::decimal_text;
use ping_capstone::tf03::Measurement;

fn solution(fix_type: u8) -> Solution {
    let mut payload = [0u8; 92];
    payload[20] = fix_type;
    payload[21] = 1;
    payload[23] = 9;
    payload[24..28].copy_from_slice(&(-70_000_000i32).to_le_bytes());
    payload[28..32].copy_from_slice(&450_000_000i32.to_le_bytes());
    payload[36..40].copy_from_slice(&12_345i32.to_le_bytes());
    payload[40..44].copy_from_slice(&2_100u32.to_le_bytes());
    Solution::from_nav_pvt(&payload)
}

fn fixed(raw: i16, point: u32) -> Fixed {
    Fixed { raw, point }
}

fn orientation() -> Orientation {
    Orientation {
        quaternion: Quaternion {
            i: fixed(1, 14),
            j: fixed(2, 14),
            k: fixed(3, 14),
            real: fixed(4, 14),
        },
        heading_accuracy_rad: fixed(5, 12),
        calibration: Accuracy::Medium,
    }
}

fn rotation(data: SensorData) -> Event {
    Event {
        sensor: SensorId::RotationVector,
        data,
        sequence: 0,
        accuracy: Accuracy::Medium,
        delay_us: 0,
        timestamp_offset_us: 0,
    }
}

fn rotation_vector() -> Event {
    let Orientation { quaternion, heading_accuracy_rad, .. } = orientation();
    rotation(SensorData::RotationVector { quaternion, accuracy_rad: heading_accuracy_rad })
}

fn measurement(distance_cm: Option<u16>) -> Measurement {
    Measurement { distance_cm, raw_distance_cm: 18_000, strength: 77 }
}

/// The latest readings, all of them from `at_us`.
fn readings(
    at_us: u64,
) -> (Latest<Solution>, Latest<Orientation>, Latest<Measurement>) {
    let mut gps = Latest::new("GPS");
    let mut imu = Latest::new("IMU");
    let mut lidar = Latest::new("LiDAR");
    gps.set(at_us, solution(3));
    imu.set(at_us, orientation());
    lidar.set(at_us, measurement(Some(1234)));
    (gps, imu, lidar)
}

#[test]
fn integers_are_little_endian() {
    let bytes = [0x01, 0x82, 0x03, 0x84];
    assert_eq!(read_u16(&bytes, 0), 0x8201);
    assert_eq!(read_u16(&bytes, 1), 0x0382);
    assert_eq!(read_i16(&bytes, 0), 0x8201u16 as i16);
    assert_eq!(read_u32(&bytes, 0), 0x8403_8201);
    assert_eq!(read_i32(&bytes, 0), 0x8403_8201u32 as i32);
    assert_eq!(write_u16(0x8201), [0x01, 0x82]);
    assert_eq!(write_u32(0x8403_8201), bytes);
    for value in [0, 1, 0xFF, 0x100, 0xFFFF] {
        assert_eq!(read_u16(&write_u16(value), 0), value);
    }
    for value in [0, 0xFF, 0x1_0000, 0xFF00_0000, u32::MAX] {
        assert_eq!(read_u32(&write_u32(value), 0), value);
    }
}

#[test]
fn bytes_are_copied_and_compared() {
    let mut target = [0; 5];
    copy_into(&mut target, 1, &[1, 2, 3]);
    assert_eq!(target, [0, 1, 2, 3, 0]);
    assert!(same_bytes(&target, &[0, 1, 2, 3, 0]));
    assert!(!same_bytes(&target, &[0, 1, 2, 3]));
    assert!(!same_bytes(&target, &[0, 1, 2, 3, 1]));
}

#[test]
fn numbers_are_written_in_decimal() {
    for value in [0, 7, 10, 99, 100, 4096, 1_000_000, u64::MAX] {
        assert_eq!(decimal_text(value), format!("{value}"));
    }
}

#[test]
fn sighting_is_taken_from_fresh_readings() {
    let (gps, imu, lidar) = readings(1_000_000);
    assert_eq!(
        take_sighting(1_250_000, &gps, &imu, &lidar),
        Ok(Sighting {
            latitude_e7: 450_000_000,
            longitude_e7: -70_000_000,
            altitude_mm: 12_345,
            origin_accuracy_mm: 2_100,
            satellites: 9,
            quaternion: orientation().quaternion,
            heading_accuracy_rad: fixed(5, 12),
            compass: Accuracy::Medium,
            distance_cm: 1234,
        })
    );
}

#[test]
fn sighting_names_the_first_thing_that_is_wrong() {
    let none = Latest::new("LiDAR");
    let (mut gps, imu, mut lidar) = readings(1_000_000);

    let late = take_sighting(1_250_001, &gps, &imu, &lidar);
    assert_eq!(late, Err(Problem::Stale { sensor: "IMU", age_us: Some(250_001) }));
    let later = take_sighting(3_000_001, &gps, &imu, &lidar);
    assert_eq!(later, Err(Problem::Stale { sensor: "GPS", age_us: Some(2_000_001) }));
    let missing = take_sighting(1_000_000, &gps, &imu, &none);
    assert_eq!(missing, Err(Problem::Stale { sensor: "LiDAR", age_us: None }));

    lidar.set(1_000_000, measurement(None));
    let lost = take_sighting(1_000_000, &gps, &imu, &lidar);
    assert_eq!(lost, Err(Problem::NoReturn { strength: 77 }));
    gps.set(1_000_000, solution(0));
    let unfixed = take_sighting(1_000_000, &gps, &imu, &lidar);
    assert_eq!(unfixed, Err(Problem::NoFix { fix_type: FixType::NoFix, satellites: 9 }));
}

#[test]
fn reading_is_given_back_while_fresh() {
    let mut latest: Latest<u8> = Latest::new("IMU");
    assert_eq!(latest.get(0, 100), Err(Problem::Stale { sensor: "IMU", age_us: None }));
    latest.set(1_000, 42);
    assert_eq!(latest.get(1_000, 0), Ok(42));
    assert_eq!(latest.get(1_100, 100), Ok(42));
    assert_eq!(latest.get(1_101, 100), Err(Problem::Stale { sensor: "IMU", age_us: Some(101) }));
}

#[test]
fn problems_are_put_in_words() {
    let stale = Problem::Stale { sensor: "GPS", age_us: None };
    assert_eq!(stale.text(), "no GPS reading yet");
    let old = Problem::Stale { sensor: "LiDAR", age_us: Some(251_999) };
    assert_eq!(old.text(), "last LiDAR reading is 251 ms old");
    let unfixed = Problem::NoFix { fix_type: FixType::TimeOnly, satellites: 12 };
    assert_eq!(unfixed.text(), "GPS has no usable fix (TimeOnly, 12 satellites)");
    let lost = Problem::NoReturn { strength: 39 };
    assert_eq!(lost.text(), "LiDAR has no return it trusts (strength 39)");
}

#[test]
fn fix_types_are_named() {
    for fix_type in (0..=5).map(FixType::from_u8) {
        assert_eq!(fix_text(fix_type), format!("{fix_type:?}"));
    }
}

#[test]
fn presses_are_reported_in_a_line() {
    assert_eq!(report_line(3, Ok("45.0, -7.0")), "target #3: 45.0, -7.0");
    let problem = Problem::Stale { sensor: "IMU", age_us: None };
    assert_eq!(report_line(10, Err(problem)), "target #10: none, no IMU reading yet");
}

#[test]
fn held_button_is_reported_once() {
    let mut button = Button::new();
    assert_eq!(button.step(false), Action::TakeSighting);
    assert_eq!(button.step(false), Action::Report(1));
    for _ in 0..5 {
        assert_eq!(button.step(true), Action::Pause);
        assert_eq!(button.step(false), Action::AwaitHigh);
    }
    assert_eq!(button.step(true), Action::Pause);
    assert_eq!(button.step(true), Action::AwaitLow);
    assert_eq!(button.step(false), Action::TakeSighting);
    assert_eq!(button.step(false), Action::Report(2));
}

#[test]
fn bounce_is_not_a_press() {
    let mut button = Button::new();
    for _ in 0..3 {
        assert_eq!(button.step(false), Action::TakeSighting);
        assert_eq!(button.step(true), Action::AwaitLow);
    }
    assert_eq!(button, Button { stage: Stage::Up, presses: 0 });
}

#[test]
fn count_of_presses_wraps_around() {
    let mut button = Button { stage: Stage::GoingDown, presses: u32::MAX };
    assert_eq!(button.step(false), Action::Report(0));
}

#[test]
fn gps_task_configures_a_quiet_receiver_again() {
    let mut latest = Latest::new("GPS");
    assert_eq!(gps_step(&mut latest, 0, GpsEvent::ConfigureFailed), GpsAction::Retry);
    assert_eq!(gps_step(&mut latest, 1, GpsEvent::Configured), GpsAction::Read);
    assert_eq!(gps_step(&mut latest, 2, GpsEvent::ReadFailed), GpsAction::Read);
    assert_eq!(latest.reading, None);
    assert_eq!(gps_step(&mut latest, 3, GpsEvent::Solution(solution(2))), GpsAction::Read);
    assert_eq!(gps_step(&mut latest, 4, GpsEvent::Silent), GpsAction::Configure);
    assert_eq!(latest.reading, Some((3, solution(2))));
}

#[test]
fn imu_task_drains_the_hub_before_it_waits() {
    let mut latest = Latest::new("IMU");
    assert_eq!(imu_step(&mut latest, 0, ImuEvent::StartFailed), ImuAction::Retry);
    assert_eq!(imu_step(&mut latest, 1, ImuEvent::Started), ImuAction::AwaitInterrupt);
    assert_eq!(imu_step(&mut latest, 2, ImuEvent::Waiting), ImuAction::Read);
    let tap = rotation(SensorData::TapDetector { flags: 1 });
    assert_eq!(imu_step(&mut latest, 3, ImuEvent::Report(tap)), ImuAction::Read);
    assert_eq!(latest.reading, None);
    assert_eq!(imu_step(&mut latest, 4, ImuEvent::Report(rotation_vector())), ImuAction::Read);
    assert_eq!(imu_step(&mut latest, 5, ImuEvent::Drained), ImuAction::AwaitInterrupt);
    assert_eq!(imu_step(&mut latest, 6, ImuEvent::Silent), ImuAction::Start);
    assert_eq!(imu_step(&mut latest, 7, ImuEvent::ReadFailed), ImuAction::Start);
    assert_eq!(latest.reading, Some((4, orientation())));
}

#[test]
fn lidar_task_keeps_the_latest_distance() {
    let mut latest = Latest::new("LiDAR");
    assert_eq!(lidar_step(&mut latest, 0, LidarEvent::NoAnswer), LidarAction::Retry);
    assert_eq!(lidar_step(&mut latest, 1, LidarEvent::Answered), LidarAction::Read);
    let seen = measurement(Some(7));
    assert_eq!(lidar_step(&mut latest, 2, LidarEvent::Measured(seen)), LidarAction::Read);
    assert_eq!(lidar_step(&mut latest, 3, LidarEvent::ReadFailed), LidarAction::Read);
    assert_eq!(latest.reading, Some((2, seen)));
}

#[test]
fn gps_demo_asks_configures_and_prints() {
    assert_eq!(gps_demo_step(&GpsDemoEvent::NoAnswer), GpsDemoAction::AskAgain);
    assert_eq!(gps_demo_step(&GpsDemoEvent::Answered), GpsDemoAction::Configure);
    assert_eq!(gps_demo_step(&GpsDemoEvent::ConfigureFailed), GpsDemoAction::ConfigureAgain);
    assert_eq!(gps_demo_step(&GpsDemoEvent::Configured), GpsDemoAction::Read);
    assert_eq!(gps_demo_step(&GpsDemoEvent::ReadFailed), GpsDemoAction::Read);
    assert_eq!(
        gps_demo_step(&GpsDemoEvent::Solution(solution(3))),
        GpsDemoAction::PrintPosition(450_000_000, -70_000_000)
    );
    assert_eq!(
        gps_demo_step(&GpsDemoEvent::Solution(solution(5))),
        GpsDemoAction::PrintNoFix
    );
    assert_eq!(no_fix_text(&solution(5)), "no fix (TimeOnly, 9 satellites)");
}

#[test]
fn imu_demo_starts_and_prints() {
    assert_eq!(imu_demo_step(&ImuDemoEvent::InitFailed), ImuDemoAction::InitAgain);
    assert_eq!(imu_demo_step(&ImuDemoEvent::Identified), ImuDemoAction::StartReporting);
    assert_eq!(imu_demo_step(&ImuDemoEvent::ReportingFailed), ImuDemoAction::Stop);
    assert_eq!(imu_demo_step(&ImuDemoEvent::Reporting), ImuDemoAction::AwaitInterrupt);
    assert_eq!(imu_demo_step(&ImuDemoEvent::Waiting), ImuDemoAction::Read);
    assert_eq!(
        imu_demo_step(&ImuDemoEvent::Report(rotation_vector())),
        ImuDemoAction::Print(orientation())
    );
    let tap = rotation(SensorData::TapDetector { flags: 1 });
    assert_eq!(imu_demo_step(&ImuDemoEvent::Report(tap)), ImuDemoAction::Read);
    assert_eq!(imu_demo_step(&ImuDemoEvent::Drained), ImuDemoAction::AwaitInterrupt);
    assert_eq!(imu_demo_step(&ImuDemoEvent::ReadFailed), ImuDemoAction::AwaitInterrupt);
}

#[test]
fn lidar_demo_prints_one_in_ten() {
    let mut tally = Tally::new();
    let printed: Vec<u32> = (1..=30).filter(|_| tally.due()).collect();
    assert_eq!(printed, [10, 20, 30]);
    let mut tally = Tally { count: u32::MAX };
    assert!(tally.due());
    assert_eq!(tally.count, 0);
    assert_eq!(measurement_text(&measurement(Some(321))), "distance 321 cm (strength 77)");
    assert_eq!(
        measurement_text(&measurement(None)),
        "out of range (raw 18000 cm, strength 77)"
    );
}

#[test]
fn lidar_demo_asks_reads_and_prints() {
    let mut tally = Tally::new();
    let seen = measurement(Some(5));
    assert_eq!(lidar_demo_step(&mut tally, &LidarEvent::NoAnswer), LidarDemoAction::AskAgain);
    assert_eq!(lidar_demo_step(&mut tally, &LidarEvent::Answered), LidarDemoAction::Read);
    assert_eq!(lidar_demo_step(&mut tally, &LidarEvent::ReadFailed), LidarDemoAction::Read);
    for _ in 0..9 {
        let action = lidar_demo_step(&mut tally, &LidarEvent::Measured(seen));
        assert_eq!(action, LidarDemoAction::Read);
    }
    let action = lidar_demo_step(&mut tally, &LidarEvent::Measured(seen));
    assert_eq!(action, LidarDemoAction::Print(seen));
    assert_eq!(tally.count, 10);
}
