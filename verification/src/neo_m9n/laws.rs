//! What the driver makes of the receiver's messages, and what it asks of it,
//! in the numbers of the u-blox manual.

#[allow(unused_imports)]
use super::fixed_str;
#[allow(unused_imports)]
use super::solution::{solved, vouched_position, FixType, Solution, UtcTime};
#[allow(unused_imports)]
use super::ubx;
#[allow(unused_imports)]
use super::ubx::{Setting, UbxFrameView};
#[allow(unused_imports)]
use super::version;
#[allow(unused_imports)]
use super::{
    is_solution, is_verdict_on, is_version, ruled, settings, understood, Error, MessageView,
    LAYER_RAM,
};
#[allow(unused_imports)]
use crate::bytes::{i32_le, u16_bytes, u16_le, u32_le};
use vstd::prelude::*;

verus! {

/// A solution has a position exactly when it is a two or three dimensional fix
/// or one that dead reckoning took part in, the receiver calls it usable, and
/// does not flag the coordinates as invalid. The position is then the
/// solution's latitude and longitude as they are, whatever their signs.
pub proof fn law_position_is_that_of_the_solution(solution: Solution)
    ensures
        vouched_position(solution) is Some <==> {
            &&& solution.fix_type is Fix2D || solution.fix_type is Fix3D
                || solution.fix_type is GnssPlusDeadReckoning
            &&& solution.fix_ok
            &&& !solution.invalid_position
        },
        vouched_position(solution) matches Some((latitude_e7, longitude_e7)) ==> latitude_e7
            == solution.latitude_e7 && longitude_e7 == solution.longitude_e7,
{
}

/// Where a solution moves, its position moves along, in the same direction.
pub proof fn law_position_moves_with_the_solution(solution: Solution, moved: Solution)
    requires
        vouched_position(solution) is Some,
        vouched_position(moved) is Some,
    ensures
        ({
            let (latitude, longitude) = vouched_position(solution).unwrap();
            let (later_latitude, later_longitude) = vouched_position(moved).unwrap();
            &&& later_latitude - latitude == moved.latitude_e7 - solution.latitude_e7
            &&& later_longitude - longitude == moved.longitude_e7 - solution.longitude_e7
        }),
{
}

/// The position in a NAV-PVT payload is the latitude from byte 28 on and the
/// longitude from byte 24 on, both signed. It is given exactly for fix types
/// two to four, with the low bit of byte 21 set and that of byte 78 clear.
pub proof fn law_position_is_read_off_the_payload(payload: Seq<u8>)
    requires
        payload.len() == 92,
    ensures
        vouched_position(solved(payload)) == if 2 <= payload[20] <= 4 && payload[21] % 2 == 1
            && payload[78] % 2 == 0 {
            Some((i32_le(payload, 28), i32_le(payload, 24)))
        } else {
            None
        },
{
    reveal_with_fuel(super::solution::bit, 2);
}

/// Every field of a solution stands at its place in the payload.
pub proof fn law_solution_is_laid_out_like_nav_pvt(payload: Seq<u8>)
    requires
        payload.len() == 92,
    ensures
        ({
            let solution = solved(payload);
            &&& solution.itow_ms == u32_le(payload, 0)
            &&& solution.satellites == payload[23]
            &&& solution.longitude_e7 == i32_le(payload, 24)
            &&& solution.latitude_e7 == i32_le(payload, 28)
            &&& solution.height_ellipsoid_mm == i32_le(payload, 32)
            &&& solution.height_msl_mm == i32_le(payload, 36)
            &&& solution.horizontal_accuracy_mm == u32_le(payload, 40)
            &&& solution.vertical_accuracy_mm == u32_le(payload, 44)
            &&& solution.velocity_north_mmps == i32_le(payload, 48)
            &&& solution.velocity_east_mmps == i32_le(payload, 52)
            &&& solution.velocity_down_mmps == i32_le(payload, 56)
            &&& solution.ground_speed_mmps == i32_le(payload, 60)
            &&& solution.heading_of_motion_e5 == i32_le(payload, 64)
            &&& solution.speed_accuracy_mmps == u32_le(payload, 68)
            &&& solution.heading_accuracy_e5 == u32_le(payload, 72)
            &&& solution.pdop_e2 == u16_le(payload, 76)
            &&& solution.fix_ok <==> payload[21] % 2 == 1
            &&& solution.differential <==> (payload[21] / 2) % 2 == 1
            &&& solution.invalid_position <==> payload[78] % 2 == 1
        }),
{
    reveal_with_fuel(super::solution::bit, 3);
}

/// The fix types have these numbers, and every other number is no fix.
pub proof fn law_fix_types_are_those_of_nav_pvt(payload: Seq<u8>)
    requires
        payload.len() == 92,
    ensures
        ({
            let fix_type = solved(payload).fix_type;
            &&& fix_type is DeadReckoningOnly <==> payload[20] == 1
            &&& fix_type is Fix2D <==> payload[20] == 2
            &&& fix_type is Fix3D <==> payload[20] == 3
            &&& fix_type is GnssPlusDeadReckoning <==> payload[20] == 4
            &&& fix_type is TimeOnly <==> payload[20] == 5
            &&& fix_type is NoFix <==> payload[20] == 0 || payload[20] > 5
        }),
{
}

/// The time is given exactly when the three low bits of byte eleven are set,
/// and each part of it stands at its place in the payload.
pub proof fn law_time_is_laid_out_like_nav_pvt(payload: Seq<u8>)
    requires
        payload.len() == 92,
    ensures
        solved(payload).utc is Some <==> payload[11] % 8 == 7,
        solved(payload).utc matches Some(time) ==> {
            &&& time.year == u16_le(payload, 4)
            &&& time.month == payload[6]
            &&& time.day == payload[7]
            &&& time.hour == payload[8]
            &&& time.minute == payload[9]
            &&& time.second == payload[10]
            &&& time.nanosecond == i32_le(payload, 16)
        },
{
    reveal_with_fuel(super::solution::bit, 4);
}

/// Of the receiver's frames, the driver takes a NAV-PVT of 92 bytes for a
/// solution, an ACK-ACK and an ACK-NAK of two bytes for a verdict on the
/// message that they name, a MON-VER for a version if its strings are sound,
/// and no other for anything.
pub proof fn law_frames_are_taken_for_messages(class: u8, id: u8, payload: Seq<u8>)
    ensures
        ({
            let message = match ubx::carried(class, id, payload) {
                Some(frame) => understood(frame),
                None => None,
            };
            &&& message == Some(MessageView::Solution(solved(payload))) <== class == 0x01 && id
                == 0x07 && payload.len() == 92
            &&& message == Some(MessageView::Ack { class: payload[0], id: payload[1] }) <== class
                == 0x05 && id == 0x01 && payload.len() == 2
            &&& message == Some(MessageView::Nak { class: payload[0], id: payload[1] }) <== class
                == 0x05 && id == 0x00 && payload.len() == 2
            &&& message matches Some(MessageView::Solution(_)) ==> class == 0x01 && id == 0x07
                && payload.len() == 92
            &&& message matches Some(MessageView::Ack { .. }) ==> class == 0x05 && id == 0x01
                && payload.len() == 2
            &&& message matches Some(MessageView::Nak { .. }) ==> class == 0x05 && id == 0x00
                && payload.len() == 2
            &&& message matches Some(MessageView::Version(_)) ==> class == 0x0A && id == 0x04
        }),
{
}

/// A reading looks for solutions, a version or the verdict on one message, and
/// takes an acknowledgement for success and a refusal for failure.
pub proof fn law_messages_are_told_apart<E>(message: MessageView, class: u8, id: u8)
    ensures
        is_solution()(message) <==> message is Solution,
        is_version()(message) <==> message is Version,
        is_verdict_on(class, id)(message) <==> {
            ||| message matches MessageView::Ack { class: of, id: about } && of == class && about
                == id
            ||| message matches MessageView::Nak { class: of, id: about } && of == class && about
                == id
        },
        ruled::<E>(None) is None,
        message is Ack ==> ruled::<E>(Some(message)) == Some(Ok::<(), Error<E>>(())),
        message is Nak ==> ruled::<E>(Some(message)) == Some(
            Err::<(), Error<E>>(Error::Rejected),
        ),
{
}

/// The checksum of a frame is the sum of the bytes that it covers, and the sum
/// of those sums from the first byte on, each modulo 256: a byte put before the
/// others adds once to the first and once for every byte to the second.
pub proof fn law_checksum_adds_up(first: u8, others: Seq<u8>)
    ensures
        ubx::fletcher(Seq::<u8>::empty()) == (0u8, 0u8),
        ubx::fletcher(seq![first] + others).0 == (first + ubx::fletcher(others).0) % 256,
        ubx::fletcher(seq![first] + others).1 == (first * (others.len() + 1) + ubx::fletcher(
            others,
        ).1) % 256,
    decreases others.len(),
{
    let all = seq![first] + others;
    if others.len() == 0 {
        assert(all.drop_last() == Seq::<u8>::empty());
        assert(ubx::fletcher(all.drop_last()) == (0u8, 0u8));
    } else {
        let fewer = others.drop_last();
        let last = others.last();
        law_checksum_adds_up(first, fewer);
        assert(all.drop_last() == seq![first] + fewer);
        assert(all.last() == last);
        let (a, b) = ubx::fletcher(fewer);
        let n = others.len() as int;
        let product = first * n;
        assert(first * (n + 1) == product + first) by (nonlinear_arith)
            requires
                product == first * n,
        ;
        lemma_sums_add_up(product, first as int, a as int, b as int, last as int);
    }
}

/// Sums modulo 256 may be taken in any order.
proof fn lemma_sums_add_up(product: int, first: int, a: int, b: int, last: int)
    ensures
        ((first + a) % 256 + last) % 256 == (first + (a + last) % 256) % 256,
        ((product + b) % 256 + ((first + a) % 256 + last) % 256) % 256 == (product + first + (b + (a
            + last) % 256) % 256) % 256,
{
}

/// A frame is 0xB5, 0x62, class, ID, the length of the payload in two bytes,
/// the payload, and the checksum of what stands between the first two bytes
/// and it.
pub proof fn law_frame_layout(class: u8, id: u8, payload: Seq<u8>)
    requires
        payload.len() <= 65_535,
    ensures
        ({
            let frame = ubx::ubx_frame(class, id, payload);
            let covered = frame.subrange(2, frame.len() - 2);
            &&& frame.len() == payload.len() + 8
            &&& frame[0] == 0xB5
            &&& frame[1] == 0x62
            &&& frame[2] == class
            &&& frame[3] == id
            &&& frame[4] + 256 * frame[5] == payload.len()
            &&& frame.subrange(6, frame.len() - 2) == payload
            &&& frame[frame.len() - 2] == ubx::fletcher(covered).0
            &&& frame[frame.len() - 1] == ubx::fletcher(covered).1
        }),
{
    let frame = ubx::ubx_frame(class, id, payload);
    assert(frame.subrange(2, frame.len() - 2) == ubx::frame_body(class, id, payload));
    assert(frame.subrange(6, frame.len() - 2) == payload);
    assert(frame[4] == u16_bytes(payload.len() as u16)[0]);
    assert(frame[5] == u16_bytes(payload.len() as u16)[1]);
}

/// The configuration for `rate_hz` solutions a second, key by key: version zero
/// and the RAM layer, UBX in and out and no NMEA on UART1, NAV-PVT after every
/// solution, a measurement as often as whole milliseconds allow, and a solution
/// from each.
pub proof fn law_configuration_layout(rate_hz: u8)
    requires
        1 <= rate_hz <= 25,
    ensures
        ({
            let payload = ubx::valset(0, LAYER_RAM, 0, settings(rate_hz));
            let interval_ms = u16_le(payload, 28);
            &&& payload.len() == 36
            &&& payload.take(4) == seq![0u8, 1, 0, 0]
            &&& payload.subrange(4, 9) == seq![0x01u8, 0x00, 0x73, 0x10, 1]
            &&& payload.subrange(9, 14) == seq![0x01u8, 0x00, 0x74, 0x10, 1]
            &&& payload.subrange(14, 19) == seq![0x02u8, 0x00, 0x74, 0x10, 0]
            &&& payload.subrange(19, 24) == seq![0x07u8, 0x00, 0x91, 0x20, 1]
            &&& payload.subrange(24, 28) == seq![0x01u8, 0x00, 0x21, 0x30]
            &&& payload.subrange(30, 36) == seq![0x02u8, 0x00, 0x21, 0x30, 1, 0]
            &&& interval_ms * rate_hz <= 1000 < (interval_ms + 1) * rate_hz
        }),
{
    let all = settings(rate_hz);
    reveal_with_fuel(ubx::pairs, 7);
    assert(all.drop_last().drop_last().drop_last().drop_last().drop_last().drop_last()
        == Seq::<Setting>::empty());
    let interval = (1000int / rate_hz as int) as u16;
    let payload = ubx::valset(0, LAYER_RAM, 0, all);
    assert(payload == seq![
        0u8, 1, 0, 0,
        0x01, 0x00, 0x73, 0x10, 1,
        0x01, 0x00, 0x74, 0x10, 1,
        0x02, 0x00, 0x74, 0x10, 0,
        0x07, 0x00, 0x91, 0x20, 1,
        0x01, 0x00, 0x21, 0x30, (interval % 0x100) as u8, (interval / 0x100) as u8,
        0x02, 0x00, 0x21, 0x30, 1, 0,
    ]);
    assert(u16_le(payload, 28) == interval);
    assert(interval * rate_hz <= 1000 < (interval + 1) * rate_hz) by (nonlinear_arith)
        requires
            interval == 1000int / rate_hz as int,
            1 <= rate_hz <= 25,
    ;
    assert(payload.take(4) == seq![0u8, 1, 0, 0]);
    assert(payload.subrange(4, 9) == seq![0x01u8, 0x00, 0x73, 0x10, 1]);
    assert(payload.subrange(9, 14) == seq![0x01u8, 0x00, 0x74, 0x10, 1]);
    assert(payload.subrange(14, 19) == seq![0x02u8, 0x00, 0x74, 0x10, 0]);
    assert(payload.subrange(19, 24) == seq![0x07u8, 0x00, 0x91, 0x20, 1]);
    assert(payload.subrange(24, 28) == seq![0x01u8, 0x00, 0x21, 0x30]);
    assert(payload.subrange(30, 36) == seq![0x02u8, 0x00, 0x21, 0x30, 1, 0]);
}

/// A version keeps as much as fits of the software version in 30 bytes and of
/// the hardware version in ten. Each extension that begins with `MOD=` names
/// the module, each that begins with `PROTVER=` the protocol, and the last one
/// counts; other extensions change nothing.
pub proof fn law_version_goes_by_the_last_extension(
    software: Seq<char>,
    hardware: Seq<char>,
    extensions: Seq<Seq<char>>,
    next: Seq<char>,
)
    ensures
        ({
            let before = version::described(software, hardware, extensions);
            let module = seq!['M', 'O', 'D', '='];
            let protocol = seq!['P', 'R', 'O', 'T', 'V', 'E', 'R', '='];
            &&& before.software == fixed_str::fitting(software, 30)
            &&& before.hardware == fixed_str::fitting(hardware, 10)
            &&& extensions.len() == 0 ==> before.module is None && before.protocol is None
            &&& ({
                let after = version::described(software, hardware, extensions.push(module + next));
                &&& after.module == Some(fixed_str::fitting(next, 30))
                &&& after.protocol == before.protocol
            })
            &&& ({
                let after = version::described(
                    software,
                    hardware,
                    extensions.push(protocol + next),
                );
                &&& after.protocol == Some(fixed_str::fitting(next, 30))
                &&& after.module == before.module
            })
            &&& !module.is_prefix_of(next) && !protocol.is_prefix_of(next) ==> version::described(
                software,
                hardware,
                extensions.push(next),
            ) == before
        }),
{
    reveal_strlit("MOD=");
    reveal_strlit("PROTVER=");
    let module = seq!['M', 'O', 'D', '='];
    let protocol = seq!['P', 'R', 'O', 'T', 'V', 'E', 'R', '='];
    assert("MOD="@ == module);
    assert("PROTVER="@ == protocol);
    assert(extensions.push(module + next).drop_last() == extensions);
    assert(extensions.push(protocol + next).drop_last() == extensions);
    assert(extensions.push(next).drop_last() == extensions);
    assert((module + next).skip(4) == next);
    assert((protocol + next).skip(8) == next);
    assert(module.is_prefix_of(module + next));
    assert(protocol.is_prefix_of(protocol + next));
    assert((module + next)[0] == 'M');
    assert((protocol + next)[0] == 'P');
    assert(!protocol.is_prefix_of(module + next)) by {
        assert(protocol[0] == 'P');
    }
    assert(!module.is_prefix_of(protocol + next)) by {
        assert(module[0] == 'M');
    }
}

/// A field holds the text before its first zero, and no text if it has no
/// zero.
pub proof fn law_text_ends_at_the_first_zero(text: Seq<u8>, behind: Seq<u8>)
    requires
        forall|at: int| 0 <= at < text.len() ==> #[trigger] text[at] != 0,
    ensures
        ubx::until_zero(text) is None,
        ubx::until_zero(text + seq![0u8] + behind) == Some(text),
        vstd::utf8::valid_utf8(text) ==> ubx::field_text(text + seq![0u8] + behind) == Some(
            vstd::utf8::decode_utf8(text),
        ),
        !vstd::utf8::valid_utf8(text) ==> ubx::field_text(text + seq![0u8] + behind) is None,
    decreases text.len(),
{
    let field = text + seq![0u8] + behind;
    if text.len() > 0 {
        let rest = text.drop_first();
        assert forall|at: int| 0 <= at < rest.len() implies #[trigger] rest[at] != 0 by {
            assert(rest[at] == text[at + 1]);
        }
        law_text_ends_at_the_first_zero(rest, behind);
        assert(field.drop_first() == rest + seq![0u8] + behind);
        assert(field[0] == text[0]);
        assert(seq![text[0]] + rest == text);
    } else {
        assert(field[0] == 0);
        assert(text == Seq::<u8>::empty());
    }
}

/// A receiver speaks at 38400 baud from the factory, computes up to 25
/// solutions a second, and is given a second to answer.
pub proof fn law_factory_settings()
    ensures
        super::DEFAULT_BAUD_RATE == 38_400,
        super::MAX_NAV_RATE_HZ == 25,
        super::RESPONSE_TIMEOUT_MS == 1_000,
{
}

} // verus!
