//! Navigation solutions, decoded from `UBX-NAV-PVT`.
//!
//! The receiver sends every quantity as an integer in some decimal fraction of
//! a unit, and that integer is kept as it is: the names of the fields say what
//! one step of it is worth.

use super::ubx::NAV_PVT_LEN;
use crate::bytes::{read_i32, read_u16, read_u32};
use vstd::prelude::*;

verus! {

/// What kind of solution the receiver has.
#[derive(Clone, Copy, PartialEq, Eq, Debug)]
pub enum FixType {
    NoFix,
    /// Position from dead reckoning alone. The NEO-M9N has no sensor fusion,
    /// so this should not appear.
    DeadReckoningOnly,
    Fix2D,
    Fix3D,
    GnssPlusDeadReckoning,
    /// Time is known but position is not trusted, e.g. in a fixed-position
    /// timing mode.
    TimeOnly,
}

impl FixType {
    /// The kind of solution that the receiver reports as `value`.
    pub open spec fn reported(value: u8) -> Self {
        if value == 1 {
            FixType::DeadReckoningOnly
        } else if value == 2 {
            FixType::Fix2D
        } else if value == 3 {
            FixType::Fix3D
        } else if value == 4 {
            FixType::GnssPlusDeadReckoning
        } else if value == 5 {
            FixType::TimeOnly
        } else {
            FixType::NoFix
        }
    }

    /// Whether such a solution has a position.
    pub open spec fn has_position(self) -> bool {
        self is Fix2D || self is Fix3D || self is GnssPlusDeadReckoning
    }

    /// The kind of solution that the receiver reports as `value`.
    pub fn from_u8(value: u8) -> (fix: Self)
        ensures
            fix == Self::reported(value),
    {
        match value {
            0 => Self::NoFix,
            1 => Self::DeadReckoningOnly,
            2 => Self::Fix2D,
            3 => Self::Fix3D,
            4 => Self::GnssPlusDeadReckoning,
            5 => Self::TimeOnly,
            // Values 6-255 are reserved; no solution worth using carries one.
            _ => Self::NoFix,
        }
    }
}

/// UTC date and time of a solution.
#[derive(Clone, Copy, PartialEq, Eq, Debug)]
pub struct UtcTime {
    pub year: u16,
    pub month: u8,
    pub day: u8,
    pub hour: u8,
    pub minute: u8,
    pub second: u8,
    /// Fraction of the second, which can be negative: the receiver rounds
    /// the other fields to the nearest second and puts the remainder here.
    pub nanosecond: i32,
}

/// One navigation solution, decoded from `UBX-NAV-PVT`.
#[derive(Clone, Copy, PartialEq, Eq, Debug)]
pub struct Solution {
    /// GPS time of week of the navigation epoch, milliseconds. Solutions
    /// from the same epoch share it, which makes it the key for matching
    /// this against other u-blox messages.
    pub itow_ms: u32,
    pub fix_type: FixType,
    /// The fix is within the receiver's DOP and accuracy masks. Treat the
    /// position as usable only when this is set; [`Solution::position`] does.
    pub fix_ok: bool,
    /// Differential corrections (e.g. SBAS) were applied.
    pub differential: bool,
    /// Satellites used in the solution.
    pub satellites: u8,
    /// 1e-7 degrees, positive north.
    pub latitude_e7: i32,
    /// 1e-7 degrees, positive east.
    pub longitude_e7: i32,
    /// Height above the WGS-84 ellipsoid, millimetres.
    pub height_ellipsoid_mm: i32,
    /// Height above mean sea level, millimetres.
    pub height_msl_mm: i32,
    /// 1σ horizontal position accuracy estimate, millimetres.
    pub horizontal_accuracy_mm: u32,
    /// 1σ vertical position accuracy estimate, millimetres.
    pub vertical_accuracy_mm: u32,
    /// Velocity north, mm/s.
    pub velocity_north_mmps: i32,
    /// Velocity east, mm/s.
    pub velocity_east_mmps: i32,
    /// Velocity down, mm/s.
    pub velocity_down_mmps: i32,
    /// Horizontal speed, mm/s.
    pub ground_speed_mmps: i32,
    /// 1σ speed accuracy estimate, mm/s.
    pub speed_accuracy_mmps: u32,
    /// Direction of travel, 1e-5 degrees clockwise from north. Meaningless
    /// when standing still.
    pub heading_of_motion_e5: i32,
    /// 1σ heading accuracy estimate, 1e-5 degrees.
    pub heading_accuracy_e5: u32,
    /// Position dilution of precision, hundredths.
    pub pdop_e2: u16,
    /// UTC time of the solution, once the receiver has resolved it fully.
    pub utc: Option<UtcTime>,
    /// The receiver flagged latitude, longitude and heights as invalid
    /// despite a fix.
    pub invalid_position: bool,
}

/// Whether bit `at` of `byte` is set.
pub open spec fn bit(byte: u8, at: nat) -> bool
    decreases at,
{
    if at == 0 {
        byte % 2 == 1
    } else {
        bit(byte / 2, (at - 1) as nat)
    }
}

/// The UTC time in a `UBX-NAV-PVT` payload. The receiver vouches for it once
/// the date and the time of day are valid and fully resolved.
pub open spec fn utc(payload: Seq<u8>) -> Option<UtcTime> {
    if bit(payload[11], 0) && bit(payload[11], 1) && bit(payload[11], 2) {
        Some(
            UtcTime {
                year: crate::bytes::u16_le(payload, 4),
                month: payload[6],
                day: payload[7],
                hour: payload[8],
                minute: payload[9],
                second: payload[10],
                nanosecond: crate::bytes::i32_le(payload, 16),
            },
        )
    } else {
        None
    }
}

/// The solution in a `UBX-NAV-PVT` payload.
pub open spec fn solved(payload: Seq<u8>) -> Solution {
    Solution {
        itow_ms: crate::bytes::u32_le(payload, 0),
        fix_type: FixType::reported(payload[20]),
        fix_ok: bit(payload[21], 0),
        differential: bit(payload[21], 1),
        satellites: payload[23],
        longitude_e7: crate::bytes::i32_le(payload, 24),
        latitude_e7: crate::bytes::i32_le(payload, 28),
        height_ellipsoid_mm: crate::bytes::i32_le(payload, 32),
        height_msl_mm: crate::bytes::i32_le(payload, 36),
        horizontal_accuracy_mm: crate::bytes::u32_le(payload, 40),
        vertical_accuracy_mm: crate::bytes::u32_le(payload, 44),
        velocity_north_mmps: crate::bytes::i32_le(payload, 48),
        velocity_east_mmps: crate::bytes::i32_le(payload, 52),
        velocity_down_mmps: crate::bytes::i32_le(payload, 56),
        ground_speed_mmps: crate::bytes::i32_le(payload, 60),
        heading_of_motion_e5: crate::bytes::i32_le(payload, 64),
        speed_accuracy_mmps: crate::bytes::u32_le(payload, 68),
        heading_accuracy_e5: crate::bytes::u32_le(payload, 72),
        pdop_e2: crate::bytes::u16_le(payload, 76),
        utc: utc(payload),
        invalid_position: bit(payload[78], 0),
    }
}

/// The position of a solution, when the receiver vouches for it.
pub open spec fn vouched_position(solution: Solution) -> Option<(i32, i32)> {
    if solution.fix_type.has_position() && solution.fix_ok && !solution.invalid_position {
        Some((solution.latitude_e7, solution.longitude_e7))
    } else {
        None
    }
}

impl Solution {
    /// Latitude and longitude in 1e-7 degrees, when the receiver vouches for
    /// them.
    pub fn position(&self) -> (position: Option<(i32, i32)>)
        ensures
            position == vouched_position(*self),
            position matches Some((latitude_e7, longitude_e7)) ==> latitude_e7 == self.latitude_e7
                && longitude_e7 == self.longitude_e7,
    {
        let has_position = matches!(
            self.fix_type,
            FixType::Fix2D | FixType::Fix3D | FixType::GnssPlusDeadReckoning
        );
        if has_position && self.fix_ok && !self.invalid_position {
            Some((self.latitude_e7, self.longitude_e7))
        } else {
            None
        }
    }

    /// Decodes the payload of a `UBX-NAV-PVT` message.
    pub fn from_nav_pvt(payload: &[u8]) -> (solution: Self)
        requires
            payload.len() == NAV_PVT_LEN,
        ensures
            solution == solved(payload@),
    {
        let valid: u8 = payload[11];
        let flags: u8 = payload[21];
        let flags3: u8 = payload[78];
        proof {
            reveal_with_fuel(bit, 3);
            assert(valid & 0b111 == 0b111 <==> valid % 2 == 1 && (valid / 2) % 2 == 1 && ((valid / 2)
                / 2) % 2 == 1) by (bit_vector);
            assert(flags & 0b01 != 0 <==> flags % 2 == 1) by (bit_vector);
            assert(flags & 0b10 != 0 <==> (flags / 2) % 2 == 1) by (bit_vector);
            assert(flags3 & 0b01 != 0 <==> flags3 % 2 == 1) by (bit_vector);
        }
        let utc_resolved = valid & 0b111 == 0b111;
        Self {
            itow_ms: read_u32(payload, 0),
            fix_type: FixType::from_u8(payload[20]),
            fix_ok: flags & 0b01 != 0,
            differential: flags & 0b10 != 0,
            satellites: payload[23],
            longitude_e7: read_i32(payload, 24),
            latitude_e7: read_i32(payload, 28),
            height_ellipsoid_mm: read_i32(payload, 32),
            height_msl_mm: read_i32(payload, 36),
            horizontal_accuracy_mm: read_u32(payload, 40),
            vertical_accuracy_mm: read_u32(payload, 44),
            velocity_north_mmps: read_i32(payload, 48),
            velocity_east_mmps: read_i32(payload, 52),
            velocity_down_mmps: read_i32(payload, 56),
            ground_speed_mmps: read_i32(payload, 60),
            heading_of_motion_e5: read_i32(payload, 64),
            speed_accuracy_mmps: read_u32(payload, 68),
            heading_accuracy_e5: read_u32(payload, 72),
            pdop_e2: read_u16(payload, 76),
            utc: if utc_resolved {
                Some(
                    UtcTime {
                        year: read_u16(payload, 4),
                        month: payload[6],
                        day: payload[7],
                        hour: payload[8],
                        minute: payload[9],
                        second: payload[10],
                        nanosecond: read_i32(payload, 16),
                    },
                )
            } else {
                None
            },
            invalid_position: flags3 & 0b01 != 0,
        }
    }
}

/// A position is given only with a fix that the receiver calls usable, and
/// never when it flags the coordinates as invalid.
pub proof fn law_position_needs_a_usable_fix(solution: Solution)
    ensures
        vouched_position(solution) is Some ==> {
            &&& solution.fix_ok
            &&& !solution.invalid_position
            &&& !(solution.fix_type is NoFix)
            &&& !(solution.fix_type is TimeOnly)
            &&& !(solution.fix_type is DeadReckoningOnly)
        },
{
}

} // verus!
