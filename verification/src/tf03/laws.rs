//! What the driver makes of the bytes on the wire, and what it puts there, in
//! the numbers of the TF03's manual.

#[allow(unused_imports)]
use super::protocol;
#[allow(unused_imports)]
use super::protocol::{DataFrame, PacketView, ResponseView};
#[allow(unused_imports)]
use super::{
    answers, frame_rate, is_data, is_echoed, is_given_status, measured, next_wanted, status,
    Error, SUPPORTED_BAUD_RATES,
};
use vstd::prelude::*;

verus! {

/// A measurement carries what was sent. It has a distance exactly when the
/// distance is below the threshold and the return has a strength of 40 or
/// more, and then it is the distance that was sent.
pub proof fn law_distance_is_given_if_usable(frame: DataFrame, out_of_range_cm: u16)
    ensures
        ({
            let measurement = measured(frame, out_of_range_cm);
            &&& measurement.raw_distance_cm == frame.distance_cm
            &&& measurement.strength == frame.strength
            &&& measurement.distance_cm is Some <==> (frame.distance_cm < out_of_range_cm
                && frame.strength >= 40)
            &&& measurement.distance_cm matches Some(distance_cm) ==> distance_cm
                == frame.distance_cm
        }),
{
}

/// A measurement that has a distance keeps one if the return were stronger, the
/// target nearer or the threshold farther off.
pub proof fn law_better_returns_stay_usable(
    frame: DataFrame,
    better: DataFrame,
    out_of_range_cm: u16,
    farther_cm: u16,
)
    requires
        measured(frame, out_of_range_cm).distance_cm is Some,
        better.strength >= frame.strength,
        better.distance_cm <= frame.distance_cm,
        farther_cm >= out_of_range_cm,
    ensures
        measured(better, farther_cm).distance_cm == Some(better.distance_cm),
{
}

/// The sum of bytes is the first and the sum of the others.
pub proof fn law_sum_adds_up(first: u8, others: Seq<u8>)
    ensures
        protocol::total(Seq::<u8>::empty()) == 0,
        protocol::total(seq![first] + others) == first + protocol::total(others),
        protocol::low_sum(others) == protocol::total(others) % 256,
    decreases others.len(),
{
    let all = seq![first] + others;
    lemma_total_is_not_negative(others);
    if others.len() == 0 {
        assert(all.drop_last() == Seq::<u8>::empty());
        assert(protocol::total(all.drop_last()) == 0);
    } else {
        law_sum_adds_up(first, others.drop_last());
        assert(all.drop_last() == seq![first] + others.drop_last());
    }
}

proof fn lemma_total_is_not_negative(bytes: Seq<u8>)
    ensures
        protocol::total(bytes) >= 0,
    decreases bytes.len(),
{
    if bytes.len() > 0 {
        lemma_total_is_not_negative(bytes.drop_last());
    }
}

/// A packet is sound exactly in one of two shapes: nine bytes that begin with
/// two 0x59, or as many as the second byte says, four to eight, if the first
/// is 0x5A; and in both the last byte is the sum of the others modulo 256.
pub proof fn law_sound_packets_have_these_shapes(bytes: Seq<u8>)
    ensures
        protocol::sound(bytes) <==> {
            ||| {
                &&& bytes.len() >= 9
                &&& bytes[0] == 0x59
                &&& bytes[1] == 0x59
                &&& protocol::total(bytes.take(8)) % 256 == bytes[8]
            }
            ||| {
                &&& bytes.len() >= 4
                &&& bytes[0] == 0x5A
                &&& 4 <= bytes[1] <= 8
                &&& bytes.len() >= bytes[1]
                &&& protocol::total(bytes.take(bytes[1] - 1)) % 256 == bytes[bytes[1] - 1]
            }
        },
{
    if bytes.len() >= 2 && bytes[0] == 0x59 {
        lemma_total_is_not_negative(bytes.take(8));
    }
    if bytes.len() >= 2 && bytes[0] == 0x5A {
        lemma_total_is_not_negative(bytes.take(bytes[1] - 1));
    }
}

/// A command frame is 0x5A, its own length, the ID, the payload, and the sum
/// of all of these modulo 256.
pub proof fn law_command_frame_layout(id: u8, payload: Seq<u8>)
    requires
        payload.len() <= 4,
    ensures
        ({
            let frame = protocol::command_frame(id, payload);
            &&& frame.len() == payload.len() + 4
            &&& frame[0] == 0x5A
            &&& frame[1] == frame.len()
            &&& frame[2] == id
            &&& frame.subrange(3, frame.len() - 1) == payload
            &&& frame.last() == protocol::total(frame.drop_last()) % 256
        }),
{
    let frame = protocol::command_frame(id, payload);
    assert(frame.subrange(3, frame.len() - 1) == payload);
    lemma_total_is_not_negative(frame.drop_last());
    let body = seq![0x5Au8, (4 + payload.len()) as u8, id] + payload;
    assert(frame.drop_last() == body);
}

/// Nine bytes that begin with two 0x59 and end in the right sum are a
/// measurement to an idle driver: the distance in bytes two and three and the
/// strength in bytes four and five, low byte first.
pub proof fn law_data_frame_is_read_off_the_wire(bytes: Seq<u8>)
    requires
        bytes.len() == 9,
        bytes[0] == 0x59,
        bytes[1] == 0x59,
        protocol::total(bytes.take(8)) % 256 == bytes[8],
    ensures
        ({
            let (packet, held, unread) = next_wanted(Seq::empty(), bytes, is_data());
            &&& held.len() == 0
            &&& unread.len() == 0
            &&& packet matches Some(PacketView::Data(frame))
            &&& frame.distance_cm == bytes[2] + 256 * bytes[3]
            &&& frame.strength == bytes[4] + 256 * bytes[5]
        }),
{
    lemma_packet_is_read_off_the_wire(bytes, is_data());
}

/// Four to eight bytes that begin with 0x5A and their number and end in the
/// right sum are an answer to an idle driver: to the command in byte two, with
/// what stands between that and the sum.
pub proof fn law_answer_is_read_off_the_wire(bytes: Seq<u8>)
    requires
        4 <= bytes.len() <= 8,
        bytes[0] == 0x5A,
        bytes[1] == bytes.len(),
        protocol::total(bytes.drop_last()) % 256 == bytes.last(),
    ensures
        ({
            let (packet, held, unread) = next_wanted(Seq::empty(), bytes, answers(bytes[2]));
            &&& held.len() == 0
            &&& unread.len() == 0
            &&& packet matches Some(PacketView::Response(response))
            &&& response.id == bytes[2]
            &&& response.payload == bytes.subrange(3, bytes.len() - 1)
        }),
{
    assert(bytes.drop_last() == bytes.take(bytes[1] - 1));
    lemma_packet_is_read_off_the_wire(bytes, answers(bytes[2]));
}

/// A sound packet of a wanted kind is what an idle driver finds in its bytes.
proof fn lemma_packet_is_read_off_the_wire(
    bytes: Seq<u8>,
    wanted: spec_fn(PacketView) -> bool,
)
    requires
        protocol::total(bytes.take(protocol::packet_len(bytes) - 1)) % 256 == bytes.last(),
        bytes.len() >= 4,
        protocol::begins_packet(bytes),
        bytes.len() == protocol::packet_len(bytes),
        wanted(protocol::contents(bytes)),
    ensures
        next_wanted(Seq::empty(), bytes, wanted) == (
            Some(protocol::contents(bytes)),
            Seq::<u8>::empty(),
            Seq::<u8>::empty(),
        ),
{
    law_sound_packets_have_these_shapes(bytes);
    lemma_prefix_waits(bytes, 0);
    assert(bytes.take(0) == Seq::<u8>::empty());
    assert(bytes.skip(0) == bytes);
}

/// As long as bytes of a sound packet are missing, they are held.
proof fn lemma_prefix_waits(bytes: Seq<u8>, count: int)
    requires
        0 <= count < bytes.len(),
        protocol::sound(bytes),
        bytes.len() == protocol::packet_len(bytes),
    ensures
        super::next_packet(bytes.take(count), bytes.skip(count)) == (
            Some(protocol::contents(bytes)),
            Seq::<u8>::empty(),
            Seq::<u8>::empty(),
        ),
    decreases bytes.len() - count,
{
    let held = bytes.take(count);
    let next = bytes.take(count + 1);
    assert(held.push(bytes.skip(count)[0]) == next);
    assert(bytes.skip(count).drop_first() == bytes.skip(count + 1));
    if count + 1 == bytes.len() {
        assert(next == bytes);
        assert(bytes.skip(bytes.len() as int) == Seq::<u8>::empty());
    } else {
        assert(protocol::begins_packet(next));
        assert(!protocol::complete(next));
        lemma_prefix_waits(bytes, count + 1);
    }
}

/// Data frames are told from answers, and an answer by the command that it
/// answers.
pub proof fn law_packets_are_told_apart(packet: PacketView, id: u8)
    ensures
        is_data()(packet) <==> packet is Data,
        answers(id)(packet) <==> (packet matches PacketView::Response(response) && response.id
            == id),
        !(is_data()(packet) && answers(id)(packet)),
{
}

/// A status answer is one byte. Zero means done, anything else is the code with
/// which the command was refused, and an answer of another length is none.
pub proof fn law_status_is_one_byte<E>(payload: Seq<u8>)
    ensures
        status::<E>(payload) is Ok <==> payload == seq![0u8],
        forall|code: u8|
            status::<E>(payload) == Err::<(), Error<E>>(Error::Rejected(code)) <==> (code != 0
                && payload == #[trigger] seq![code]),
        status::<E>(payload) == Err::<(), Error<E>>(Error::Protocol) <==> payload.len() != 1,
{
    if payload.len() == 1 {
        assert(payload == seq![payload[0]]);
    }
}

/// Setting the frame rate, the baud rate or the output is echoed; a reset, the
/// factory settings, saving and the threshold are answered with a status; and
/// nothing is both.
pub proof fn law_commands_are_acknowledged_so(id: u8)
    ensures
        is_echoed(id) <==> id == 0x03 || id == 0x06 || id == 0x07,
        is_given_status(id) <==> id == 0x02 || id == 0x10 || id == 0x11 || id == 0x4F,
        !(is_echoed(id) && is_given_status(id)),
{
}

/// A frame rate is a digit from one to nine with up to three zeros behind it.
pub proof fn law_frame_rates_have_one_digit(hz: u16)
    ensures
        frame_rate(hz) <==> {
            ||| 1 <= hz <= 9
            ||| 10 <= hz <= 90 && hz % 10 == 0
            ||| 100 <= hz <= 900 && hz % 100 == 0
            ||| 1000 <= hz <= 9000 && hz % 1000 == 0
        },
{
    super::lemma_times_ten_to(hz as int);
    super::lemma_times_ten_to(hz as int / 10);
    super::lemma_times_ten_to(hz as int / 100);
    super::lemma_times_ten_to(hz as int / 1000);
    if frame_rate(hz) {
        let (n, k) = choose|n: int, k: int|
            1 <= n <= 9 && 0 <= k <= 3 && hz == #[trigger] super::times_ten_to(n, k);
        super::lemma_times_ten_to(n);
    } else {
        let h = hz as int;
        assert(hz != super::times_ten_to(h, 0) || !(1 <= h <= 9));
        assert(hz != super::times_ten_to(h / 10, 1) || !(1 <= h / 10 <= 9));
        assert(hz != super::times_ten_to(h / 100, 2) || !(1 <= h / 100 <= 9));
        assert(hz != super::times_ten_to(h / 1000, 3) || !(1 <= h / 1000 <= 9));
    }
}

/// These are the baud rates, and no others.
pub proof fn law_baud_rates_are_these(baud: u32)
    ensures
        SUPPORTED_BAUD_RATES@.contains(baud) <==> {
            ||| baud == 9_600 || baud == 14_400 || baud == 19_200 || baud == 38_400
            ||| baud == 56_000 || baud == 57_600 || baud == 115_200 || baud == 128_000
            ||| baud == 230_400 || baud == 256_000 || baud == 460_800 || baud == 512_000
            ||| baud == 750_000 || baud == 921_600 || baud == 1_000_000
        },
{
    let rates = SUPPORTED_BAUD_RATES@;
    assert(rates[0] == 9_600 && rates[1] == 14_400 && rates[2] == 19_200 && rates[3] == 38_400);
    assert(rates[4] == 56_000 && rates[5] == 57_600 && rates[6] == 115_200 && rates[7] == 128_000);
    assert(rates[8] == 230_400 && rates[9] == 256_000 && rates[10] == 460_800);
    assert(rates[11] == 512_000 && rates[12] == 750_000 && rates[13] == 921_600);
    assert(rates[14] == 1_000_000);
    assert(rates.len() == 15);
}

/// From the factory a TF03 means nothing in range by 180 m, and it is given a
/// second to answer.
pub proof fn law_factory_settings()
    ensures
        super::DEFAULT_OUT_OF_RANGE_CM == 18_000,
        super::RESPONSE_TIMEOUT_MS == 1_000,
{
}

} // verus!
