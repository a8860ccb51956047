//! What a press of the button has to go on: the latest reading of each
//! sensor, and what is wrong where one cannot be used.
//!
//! Times are in microseconds on one clock that never goes back.

use crate::bno085::{Accuracy, Event, Fixed, Quaternion, SensorData};
use crate::neo_m9n::{FixType, Solution};
#[allow(unused_imports)]
use crate::neo_m9n::solution;
#[allow(unused_imports)]
use crate::text;
use crate::text::decimal_text;
use crate::tf03::Measurement;
use vstd::prelude::*;
use vstd::string::StringExecFns;

verus! {

// Readings older than these when the button is pressed are not used. The GPS
// allowance covers a few missed solutions; the IMU and LiDAR report 100 times
// a second, so a quarter of a second without a report means something is
// wrong.
pub const MAX_GPS_AGE_US: u64 = 2_000_000;

pub const MAX_IMU_AGE_US: u64 = 250_000;

pub const MAX_LIDAR_AGE_US: u64 = 250_000;

/// Why a press produced no coordinate.
#[derive(Clone, Copy, PartialEq, Eq, Debug)]
pub enum Problem {
    /// A sensor has not reported recently, or at all.
    Stale {
        sensor: &'static str,
        /// How old its last reading is, in microseconds.
        age_us: Option<u64>,
    },
    /// The GPS is running but has no position it vouches for: no fix yet, or
    /// one outside its accuracy limits.
    NoFix { fix_type: FixType, satellites: u8 },
    /// The LiDAR saw nothing in range, or nothing it trusts.
    NoReturn { strength: u16 },
}

/// The name of a kind of solution.
pub open spec fn fix_name(fix_type: FixType) -> Seq<char> {
    match fix_type {
        FixType::NoFix => "NoFix"@,
        FixType::DeadReckoningOnly => "DeadReckoningOnly"@,
        FixType::Fix2D => "Fix2D"@,
        FixType::Fix3D => "Fix3D"@,
        FixType::GnssPlusDeadReckoning => "GnssPlusDeadReckoning"@,
        FixType::TimeOnly => "TimeOnly"@,
    }
}

/// The name of a kind of solution.
pub fn fix_text(fix_type: FixType) -> (name: &'static str)
    ensures
        name@ == fix_name(fix_type),
{
    match fix_type {
        FixType::NoFix => "NoFix",
        FixType::DeadReckoningOnly => "DeadReckoningOnly",
        FixType::Fix2D => "Fix2D",
        FixType::Fix3D => "Fix3D",
        FixType::GnssPlusDeadReckoning => "GnssPlusDeadReckoning",
        FixType::TimeOnly => "TimeOnly",
    }
}

impl Problem {
    /// The problem in words.
    pub open spec fn words(self) -> Seq<char> {
        match self {
            Problem::Stale { sensor, age_us: None } => "no "@ + sensor@ + " reading yet"@,
            Problem::Stale { sensor, age_us: Some(age_us) } => "last "@ + sensor@ + " reading is "@
                + text::decimal((age_us / 1000) as nat) + " ms old"@,
            Problem::NoFix { fix_type, satellites } => "GPS has no usable fix ("@ + fix_name(
                fix_type,
            ) + ", "@ + text::decimal(satellites as nat) + " satellites)"@,
            Problem::NoReturn { strength } => "LiDAR has no return it trusts (strength "@
                + text::decimal(strength as nat) + ")"@,
        }
    }

    /// The problem in words.
    pub fn text(&self) -> (words: String)
        ensures
            words@ == self.words(),
    {
        match *self {
            Problem::Stale { sensor, age_us: None } => {
                String::from_str("no ").concat(sensor).concat(" reading yet")
            },
            Problem::Stale { sensor, age_us: Some(age_us) } => {
                String::from_str("last ").concat(sensor).concat(" reading is ").concat(
                    decimal_text(age_us / 1000).as_str(),
                ).concat(" ms old")
            },
            Problem::NoFix { fix_type, satellites } => {
                String::from_str("GPS has no usable fix (").concat(fix_text(fix_type)).concat(
                    ", ",
                ).concat(decimal_text(satellites as u64).as_str()).concat(" satellites)")
            },
            Problem::NoReturn { strength } => {
                String::from_str("LiDAR has no return it trusts (strength ").concat(
                    decimal_text(strength as u64).as_str(),
                ).concat(")")
            },
        }
    }
}

/// The latest reading from one sensor, and when it arrived. The sensor's task
/// overwrites it; a button press copies it out.
#[derive(Debug)]
pub struct Latest<T> {
    pub sensor: &'static str,
    /// When the reading arrived, and the reading.
    pub reading: Option<(u64, T)>,
}

/// What a press at `now_us` gets of `latest`: the reading, as long as it is no
/// older than `max_age_us`.
pub open spec fn fresh<T>(latest: Latest<T>, now_us: u64, max_age_us: u64) -> Result<T, Problem> {
    match latest.reading {
        Some((at_us, value)) if now_us - at_us <= max_age_us => Ok(value),
        Some((at_us, _)) => Err(
            Problem::Stale { sensor: latest.sensor, age_us: Some((now_us - at_us) as u64) },
        ),
        None => Err(Problem::Stale { sensor: latest.sensor, age_us: None }),
    }
}

impl<T: Copy> Latest<T> {
    /// No reading of `sensor` yet.
    pub fn new(sensor: &'static str) -> (latest: Self)
        ensures
            latest == (Latest { sensor, reading: None::<(u64, T)> }),
    {
        Self { sensor, reading: None }
    }

    /// Whether the reading, if there is one, arrived by `now_us`.
    pub open spec fn arrived_by(self, now_us: u64) -> bool {
        self.reading matches Some((at_us, _)) ==> at_us <= now_us
    }

    /// Takes over the reading that arrived at `now_us`.
    pub fn set(&mut self, now_us: u64, value: T)
        ensures
            *final(self) == (Latest { sensor: old(self).sensor, reading: Some((now_us, value)) }),
    {
        self.reading = Some((now_us, value));
    }

    /// The reading, as long as it is no older than `max_age_us`.
    pub fn get(&self, now_us: u64, max_age_us: u64) -> (value: Result<T, Problem>)
        requires
            self.arrived_by(now_us),
        ensures
            value == fresh(*self, now_us, max_age_us),
    {
        match self.reading {
            Some((at_us, value)) => {
                let age_us: u64 = now_us - at_us;
                if age_us <= max_age_us {
                    Ok(value)
                } else {
                    Err(Problem::Stale { sensor: self.sensor, age_us: Some(age_us) })
                }
            },
            None => Err(Problem::Stale { sensor: self.sensor, age_us: None }),
        }
    }
}

/// What the IMU task keeps from each rotation vector report.
#[derive(Clone, Copy, PartialEq, Eq, Debug)]
pub struct Orientation {
    pub quaternion: Quaternion,
    pub heading_accuracy_rad: Fixed,
    pub calibration: Accuracy,
}

/// The orientation that a report gives, if it is a rotation vector.
pub open spec fn oriented(event: Event) -> Option<Orientation> {
    match event.data {
        SensorData::RotationVector { quaternion, accuracy_rad } => Some(
            Orientation {
                quaternion,
                heading_accuracy_rad: accuracy_rad,
                calibration: event.accuracy,
            },
        ),
        _ => None,
    }
}

impl Orientation {
    /// The orientation that a report gives, if it is a rotation vector.
    pub fn from_event(event: &Event) -> (orientation: Option<Self>)
        ensures
            orientation == oriented(*event),
    {
        match event.data {
            SensorData::RotationVector { quaternion, accuracy_rad } => Some(
                Self {
                    quaternion,
                    heading_accuracy_rad: accuracy_rad,
                    calibration: event.accuracy,
                },
            ),
            _ => None,
        }
    }
}

/// Everything a target is located from.
#[derive(Clone, Copy, PartialEq, Eq, Debug)]
pub struct Sighting {
    /// Where the device stands, 1e-7 degrees, positive north.
    pub latitude_e7: i32,
    /// Where the device stands, 1e-7 degrees, positive east.
    pub longitude_e7: i32,
    /// Height of the device above mean sea level, millimetres.
    pub altitude_mm: i32,
    /// The GPS's 1σ estimate of its horizontal error, millimetres.
    pub origin_accuracy_mm: u32,
    pub satellites: u8,
    /// How the device is held.
    pub quaternion: Quaternion,
    /// The IMU's estimate of its heading error, radians.
    pub heading_accuracy_rad: Fixed,
    /// How far the IMU trusts its magnetometer calibration.
    pub compass: Accuracy,
    /// How far away the target is, centimetres.
    pub distance_cm: u16,
}

/// What the readings of the three sensors come to: a sighting where the GPS
/// vouches for a position and the LiDAR for a distance.
pub open spec fn sighted(
    solution: Solution,
    orientation: Orientation,
    measurement: Measurement,
) -> Result<Sighting, Problem> {
    match (solution::vouched_position(solution), measurement.distance_cm) {
        (None, _) => Err(
            Problem::NoFix { fix_type: solution.fix_type, satellites: solution.satellites },
        ),
        (Some(_), None) => Err(Problem::NoReturn { strength: measurement.strength }),
        (Some((latitude_e7, longitude_e7)), Some(distance_cm)) => Ok(
            Sighting {
                latitude_e7,
                longitude_e7,
                altitude_mm: solution.height_msl_mm,
                origin_accuracy_mm: solution.horizontal_accuracy_mm,
                satellites: solution.satellites,
                quaternion: orientation.quaternion,
                heading_accuracy_rad: orientation.heading_accuracy_rad,
                compass: orientation.calibration,
                distance_cm,
            },
        ),
    }
}

/// What a press at `now_us` comes to.
pub open spec fn sighting(
    now_us: u64,
    gps: Latest<Solution>,
    imu: Latest<Orientation>,
    lidar: Latest<Measurement>,
) -> Result<Sighting, Problem> {
    match (
        fresh(gps, now_us, MAX_GPS_AGE_US),
        fresh(imu, now_us, MAX_IMU_AGE_US),
        fresh(lidar, now_us, MAX_LIDAR_AGE_US),
    ) {
        (Err(problem), _, _) => Err(problem),
        (_, Err(problem), _) => Err(problem),
        (_, _, Err(problem)) => Err(problem),
        (Ok(solution), Ok(orientation), Ok(measurement)) => sighted(
            solution,
            orientation,
            measurement,
        ),
    }
}

/// Collects what the target is located from, out of the latest sensor
/// readings. Where several things are wrong, the first of them is given:
/// GPS, IMU and LiDAR that do not report, then a missing fix, then a missing
/// return.
pub fn take_sighting(
    now_us: u64,
    gps: &Latest<Solution>,
    imu: &Latest<Orientation>,
    lidar: &Latest<Measurement>,
) -> (result: Result<Sighting, Problem>)
    requires
        gps.arrived_by(now_us),
        imu.arrived_by(now_us),
        lidar.arrived_by(now_us),
    ensures
        result == sighting(now_us, *gps, *imu, *lidar),
        result matches Ok(taken) ==> {
            &&& gps.reading matches Some((_, solution))
            &&& imu.reading matches Some((_, orientation))
            &&& lidar.reading matches Some((_, measurement))
            &&& taken.latitude_e7 == solution.latitude_e7
            &&& taken.longitude_e7 == solution.longitude_e7
            &&& taken.altitude_mm == solution.height_msl_mm
            &&& taken.origin_accuracy_mm == solution.horizontal_accuracy_mm
            &&& taken.satellites == solution.satellites
            &&& taken.quaternion == orientation.quaternion
            &&& taken.heading_accuracy_rad == orientation.heading_accuracy_rad
            &&& taken.compass == orientation.calibration
            &&& measurement.distance_cm == Some(taken.distance_cm)
        },
{
    let solution = match gps.get(now_us, MAX_GPS_AGE_US) {
        Ok(solution) => solution,
        Err(problem) => {
            return Err(problem);
        },
    };
    let orientation = match imu.get(now_us, MAX_IMU_AGE_US) {
        Ok(orientation) => orientation,
        Err(problem) => {
            return Err(problem);
        },
    };
    let measurement = match lidar.get(now_us, MAX_LIDAR_AGE_US) {
        Ok(measurement) => measurement,
        Err(problem) => {
            return Err(problem);
        },
    };
    let (latitude_e7, longitude_e7) = match solution.position() {
        Some(position) => position,
        None => {
            return Err(
                Problem::NoFix { fix_type: solution.fix_type, satellites: solution.satellites },
            );
        },
    };
    let distance_cm: u16 = match measurement.distance_cm {
        Some(distance_cm) => distance_cm,
        None => {
            return Err(Problem::NoReturn { strength: measurement.strength });
        },
    };
    Ok(
        Sighting {
            latitude_e7,
            longitude_e7,
            altitude_mm: solution.height_msl_mm,
            origin_accuracy_mm: solution.horizontal_accuracy_mm,
            satellites: solution.satellites,
            quaternion: orientation.quaternion,
            heading_accuracy_rad: orientation.heading_accuracy_rad,
            compass: orientation.calibration,
            distance_cm,
        },
    )
}

/// The line that reports a press.
pub open spec fn report(presses: u32, target: Result<Seq<char>, Problem>) -> Seq<char> {
    "target #"@ + text::decimal(presses as nat) + match target {
        Ok(target) => ": "@ + target,
        Err(problem) => ": none, "@ + problem.words(),
    }
}

/// The line that reports a press: where the target is, in words, or why that
/// is not known.
pub fn report_line(presses: u32, target: Result<&str, Problem>) -> (line: String)
    ensures
        line@ == report(
            presses,
            match target {
                Ok(target) => Ok(target@),
                Err(problem) => Err(problem),
            },
        ),
{
    let start = String::from_str("target #").concat(decimal_text(presses as u64).as_str());
    let ghost head = start@;
    match target {
        Ok(target) => {
            let line = start.concat(": ").concat(target);
            assert(line@ == head + (": "@ + target@));
            line
        },
        Err(problem) => {
            let words = problem.text();
            let line = start.concat(": none, ").concat(words.as_str());
            assert(line@ == head + (": none, "@ + words@));
            line
        },
    }
}

/// A reading is given back until it is older than the press allows, and from
/// then on its age is.
pub proof fn law_reading_is_used_while_fresh<T>(
    sensor: &'static str,
    value: T,
    at_us: u64,
    now_us: u64,
    max_age_us: u64,
)
    requires
        at_us <= now_us,
    ensures
        fresh(Latest { sensor, reading: Some((at_us, value)) }, now_us, max_age_us) == if now_us
            - at_us <= max_age_us {
            Ok(value)
        } else {
            Err(Problem::Stale { sensor, age_us: Some((now_us - at_us) as u64) })
        },
{
}

/// A press gives a coordinate only from readings that are all fresh, a
/// position that the GPS vouches for and a distance that the LiDAR trusts.
pub proof fn law_sighting_rests_on_good_readings(
    now_us: u64,
    gps: Latest<Solution>,
    imu: Latest<Orientation>,
    lidar: Latest<Measurement>,
)
    ensures
        sighting(now_us, gps, imu, lidar) is Ok <==> {
            &&& gps.reading is Some
            &&& imu.reading is Some
            &&& lidar.reading is Some
            &&& now_us - gps.reading.unwrap().0 <= MAX_GPS_AGE_US
            &&& now_us - imu.reading.unwrap().0 <= MAX_IMU_AGE_US
            &&& now_us - lidar.reading.unwrap().0 <= MAX_LIDAR_AGE_US
            &&& solution::vouched_position(gps.reading.unwrap().1) is Some
            &&& lidar.reading.unwrap().1.distance_cm is Some
        },
{
}

/// Whenever a press gives a sighting, each part of it is that of the latest
/// readings: the distance that the LiDAR measured, where the GPS says that the
/// device stands, and how the IMU says that it is held.
pub proof fn law_sighting_is_made_of_the_readings(
    now_us: u64,
    gps: Latest<Solution>,
    imu: Latest<Orientation>,
    lidar: Latest<Measurement>,
)
    ensures
        sighting(now_us, gps, imu, lidar) matches Ok(taken) ==> {
            &&& gps.reading matches Some((_, solution))
            &&& imu.reading matches Some((_, orientation))
            &&& lidar.reading matches Some((_, measurement))
            &&& measurement.distance_cm == Some(taken.distance_cm)
            &&& taken.latitude_e7 == solution.latitude_e7
            &&& taken.longitude_e7 == solution.longitude_e7
            &&& taken.altitude_mm == solution.height_msl_mm
            &&& taken.origin_accuracy_mm == solution.horizontal_accuracy_mm
            &&& taken.satellites == solution.satellites
            &&& taken.quaternion == orientation.quaternion
            &&& taken.heading_accuracy_rad == orientation.heading_accuracy_rad
            &&& taken.compass == orientation.calibration
        },
{
}

/// A target that is so much farther off gives a sighting with a distance so
/// much greater, and everything else as it was.
pub proof fn law_distance_of_a_sighting_follows_the_lidar(
    now_us: u64,
    gps: Latest<Solution>,
    imu: Latest<Orientation>,
    near: Latest<Measurement>,
    far: Latest<Measurement>,
)
    requires
        sighting(now_us, gps, imu, near) is Ok,
        sighting(now_us, gps, imu, far) is Ok,
    ensures
        ({
            let a = sighting(now_us, gps, imu, near).unwrap();
            let b = sighting(now_us, gps, imu, far).unwrap();
            &&& b.distance_cm - a.distance_cm == far.reading.unwrap().1.distance_cm.unwrap()
                - near.reading.unwrap().1.distance_cm.unwrap()
            &&& b == Sighting { distance_cm: b.distance_cm, ..a }
        }),
{
}

/// A press gives a sighting exactly when the GPS reported within the last two
/// seconds and the IMU and the LiDAR within the last quarter of one, the GPS
/// has a usable fix of a kind with a position, and the LiDAR a distance.
pub proof fn law_sighting_is_given_in_time(
    now_us: u64,
    gps: Latest<Solution>,
    imu: Latest<Orientation>,
    lidar: Latest<Measurement>,
)
    ensures
        sighting(now_us, gps, imu, lidar) is Ok <==> {
            &&& gps.reading matches Some((gps_us, solution))
            &&& imu.reading matches Some((imu_us, _))
            &&& lidar.reading matches Some((lidar_us, measurement))
            &&& now_us - gps_us <= 2_000_000
            &&& now_us - imu_us <= 250_000
            &&& now_us - lidar_us <= 250_000
            &&& solution.fix_type is Fix2D || solution.fix_type is Fix3D
                || solution.fix_type is GnssPlusDeadReckoning
            &&& solution.fix_ok
            &&& !solution.invalid_position
            &&& measurement.distance_cm is Some
        },
{
}

/// Where a press gives no sighting, it says why: the first of GPS, IMU and
/// LiDAR that has not reported in time, with the age of its reading if it has
/// one; else the missing fix, with what the GPS has; else the missing return,
/// with its strength.
pub proof fn law_problem_is_the_first_there_is(
    now_us: u64,
    gps: Latest<Solution>,
    imu: Latest<Orientation>,
    lidar: Latest<Measurement>,
)
    requires
        gps.reading matches Some((at_us, _)) ==> at_us <= now_us,
        imu.reading matches Some((at_us, _)) ==> at_us <= now_us,
        lidar.reading matches Some((at_us, _)) ==> at_us <= now_us,
    ensures
        ({
            let result = sighting(now_us, gps, imu, lidar);
            let gps_late = gps.reading matches Some((at_us, _)) ==> now_us - at_us > 2_000_000;
            let imu_late = imu.reading matches Some((at_us, _)) ==> now_us - at_us > 250_000;
            let lidar_late = lidar.reading matches Some((at_us, _)) ==> now_us - at_us > 250_000;
            &&& gps_late ==> result == Err::<Sighting, _>(late(gps, now_us))
            &&& !gps_late && imu_late ==> result == Err::<Sighting, _>(late(imu, now_us))
            &&& !gps_late && !imu_late && lidar_late ==> result == Err::<Sighting, _>(
                late(lidar, now_us),
            )
            &&& !gps_late && !imu_late && !lidar_late && result is Err ==> {
                let solution = gps.reading.unwrap().1;
                let measurement = lidar.reading.unwrap().1;
                let usable = (solution.fix_type is Fix2D || solution.fix_type is Fix3D
                    || solution.fix_type is GnssPlusDeadReckoning) && solution.fix_ok
                    && !solution.invalid_position;
                result == Err::<Sighting, _>(
                    if usable {
                        Problem::NoReturn { strength: measurement.strength }
                    } else {
                        Problem::NoFix {
                            fix_type: solution.fix_type,
                            satellites: solution.satellites,
                        }
                    },
                )
            }
        }),
{
}

/// What is wrong with a reading that is late.
pub open spec fn late<T>(latest: Latest<T>, now_us: u64) -> Problem {
    Problem::Stale {
        sensor: latest.sensor,
        age_us: match latest.reading {
            Some((at_us, _)) => Some((now_us - at_us) as u64),
            None => None,
        },
    }
}

/// A rotation vector gives the orientation that it says and the hub's trust in
/// it. No other report gives one.
pub proof fn law_orientation_is_that_of_the_rotation_vector(event: Event)
    ensures
        oriented(event) is Some <==> event.data is RotationVector,
        oriented(event) matches Some(orientation) ==> {
            &&& event.data matches SensorData::RotationVector { quaternion, accuracy_rad }
            &&& orientation.quaternion == quaternion
            &&& orientation.heading_accuracy_rad == accuracy_rad
            &&& orientation.calibration == event.accuracy
        },
{
}

/// The words for a late reading tell its age in whole milliseconds, those for a
/// missing fix the number of satellites, and those for a missing return its
/// strength, all of them in decimal.
pub proof fn law_words_tell_the_numbers(
    sensor: &'static str,
    age_us: u64,
    fix_type: FixType,
    satellites: u8,
    strength: u16,
)
    ensures
        ({
            let ms = text::decimal((age_us / 1000) as nat);
            let count = text::decimal(satellites as nat);
            let level = text::decimal(strength as nat);
            &&& text::ascii_worth(ms) * 1000 <= age_us < (text::ascii_worth(ms) + 1) * 1000
            &&& text::ascii_worth(count) == satellites
            &&& text::ascii_worth(level) == strength
            &&& (Problem::Stale { sensor, age_us: Some(age_us) }).words() == "last "@ + sensor@
                + " reading is "@ + ms + " ms old"@
            &&& (Problem::Stale { sensor, age_us: None }).words() == "no "@ + sensor@
                + " reading yet"@
            &&& (Problem::NoFix { fix_type, satellites }).words() == "GPS has no usable fix ("@
                + fix_name(fix_type) + ", "@ + count + " satellites)"@
            &&& (Problem::NoReturn { strength }).words()
                == "LiDAR has no return it trusts (strength "@ + level + ")"@
        }),
{
    text::law_decimal_is_ascii((age_us / 1000) as nat);
    text::law_decimal_is_ascii(satellites as nat);
    text::law_decimal_is_ascii(strength as nat);
}

/// The line for a press tells the press's number in decimal, and behind it the
/// target or, after `none`, the problem.
pub proof fn law_report_tells_press_and_target(
    press: u32,
    target: Seq<char>,
    problem: Problem,
)
    ensures
        ({
            let number = text::decimal(press as nat);
            &&& text::ascii_worth(number) == press
            &&& report(press, Ok(target)) == "target #"@ + number + (": "@ + target)
            &&& report(press, Err(problem)) == "target #"@ + number + (": none, "@
                + problem.words())
        }),
{
    text::law_decimal_is_ascii(press as nat);
}

/// The names of the fix types are those of the variants.
pub proof fn law_fix_types_are_called_so()
    ensures
        fix_name(FixType::NoFix) == "NoFix"@,
        fix_name(FixType::DeadReckoningOnly) == "DeadReckoningOnly"@,
        fix_name(FixType::Fix2D) == "Fix2D"@,
        fix_name(FixType::Fix3D) == "Fix3D"@,
        fix_name(FixType::GnssPlusDeadReckoning) == "GnssPlusDeadReckoning"@,
        fix_name(FixType::TimeOnly) == "TimeOnly"@,
{
}

} // verus!
