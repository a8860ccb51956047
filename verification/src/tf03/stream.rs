//! What a stream of bytes from the TF03 says, however it is cut up.
//!
//! [`Parser::push`](crate::tf03::protocol::Parser::push) looks at one byte at
//! a time. The laws here relate what it returns over a whole stream to the
//! stream itself.

#[allow(unused_imports)]
use crate::tf03::protocol;
use vstd::prelude::*;

verus! {

/// `packet` as a sequence of at most one.
pub open spec fn at_most_one<T>(packet: Option<T>) -> Seq<T> {
    match packet {
        Some(packet) => seq![packet],
        None => Seq::empty(),
    }
}

/// What a parser that holds `held` returns when it is given `bytes` one after
/// the other, and what it holds then.
pub open spec fn fed(held: Seq<u8>, bytes: Seq<u8>) -> (
    Seq<protocol::PacketView>,
    Seq<u8>,
)
    decreases bytes.len(),
{
    if bytes.len() == 0 {
        (Seq::empty(), held)
    } else {
        let (packet, rest) = protocol::first_packet(held.push(bytes[0]));
        let (packets, last) = fed(rest, bytes.drop_first());
        (at_most_one(packet) + packets, last)
    }
}

/// All packets in `bytes`, and the bytes left behind the last of them.
pub open spec fn packets(bytes: Seq<u8>) -> (Seq<protocol::PacketView>, Seq<u8>)
    decreases bytes.len(),
{
    let (packet, rest) = protocol::first_packet(bytes);
    proof {
        protocol::lemma_packet_takes_bytes(bytes);
    }
    match packet {
        Some(packet) => {
            let (later, last) = packets(rest);
            (seq![packet] + later, last)
        },
        None => (Seq::empty(), rest),
    }
}

/// Where in `bytes`, from `at` on, a packet is accepted.
pub open spec fn accepted(bytes: Seq<u8>, at: int) -> Seq<int>
    decreases bytes.len() - at,
{
    let rest = bytes.skip(at);
    if at < 0 || at >= bytes.len() {
        Seq::empty()
    } else if protocol::sound(rest) {
        seq![at] + accepted(bytes, at + protocol::packet_len(rest))
    } else if protocol::begins_packet(rest) && !protocol::complete(rest) {
        Seq::empty()
    } else {
        accepted(bytes, at + 1)
    }
}

/// Bytes that arrive later do not change what was found in those before.
proof fn lemma_more_bytes(bytes: Seq<u8>, more: Seq<u8>)
    ensures
        match protocol::first_packet(bytes) {
            (Some(packet), rest) => protocol::first_packet(bytes + more) == (
                Some(packet),
                rest + more,
            ),
            (None, rest) => protocol::first_packet(bytes + more)
                == protocol::first_packet(rest + more),
        },
    decreases bytes.len(),
{
    let all = bytes + more;
    if bytes.len() == 0 {
        assert(all == more);
    } else if protocol::sound(bytes) {
        let len = protocol::packet_len(bytes);
        assert(all.take(len - 1) == bytes.take(len - 1));
        assert(all.skip(len) == bytes.skip(len) + more);
        assert(all.subrange(3, len - 1) == bytes.subrange(3, len - 1));
    } else if protocol::begins_packet(bytes) && !protocol::complete(
        bytes,
    ) {
    } else {
        if protocol::complete(bytes) {
            let len = protocol::packet_len(bytes);
            if protocol::begins_packet(bytes) {
                assert(all.take(len - 1) == bytes.take(len - 1));
            }
        }
        assert(all.drop_first() == bytes.drop_first() + more);
        lemma_more_bytes(bytes.drop_first(), more);
    }
}

/// A parser fed byte by byte returns exactly the packets that are in the
/// stream as a whole, in order, and none of them is still among the bytes it
/// holds at the end.
pub proof fn law_stream_is_cut_up_anyhow(held: Seq<u8>, bytes: Seq<u8>)
    requires
        held.len() < protocol::MAX_PACKET_LEN,
        protocol::waiting(held),
    ensures
        fed(held, bytes).0 == packets(held + bytes).0,
        packets(fed(held, bytes).1) == (
            Seq::<protocol::PacketView>::empty(),
            packets(held + bytes).1,
        ),
        protocol::waiting(fed(held, bytes).1),
        fed(held, bytes).1.len() < protocol::MAX_PACKET_LEN,
    decreases bytes.len(),
{
    if bytes.len() == 0 {
        assert(held + bytes == held);
        protocol::lemma_packet_takes_bytes(held);
    } else {
        let start = held.push(bytes[0]);
        let more = bytes.drop_first();
        assert(held + bytes == start + more);
        protocol::lemma_push_settles(held, bytes[0]);
        lemma_more_bytes(start, more);
        let (packet, rest) = protocol::first_packet(start);
        law_stream_is_cut_up_anyhow(rest, more);
    }
}

/// Two streams one after the other are parsed as one.
pub proof fn law_streams_join(held: Seq<u8>, first: Seq<u8>, second: Seq<u8>)
    ensures
        fed(held, first + second).0 == fed(held, first).0 + fed(fed(held, first).1, second).0,
        fed(held, first + second).1 == fed(fed(held, first).1, second).1,
    decreases first.len(),
{
    if first.len() == 0 {
        assert(first + second == second);
    } else {
        let rest = protocol::first_packet(held.push(first[0])).1;
        assert((first + second).drop_first() == first.drop_first() + second);
        law_streams_join(rest, first.drop_first(), second);
    }
}

/// The packets in a stream are what the places at which one is accepted say.
pub proof fn law_accepted_places_say_the_packets(bytes: Seq<u8>, at: int)
    requires
        0 <= at <= bytes.len(),
    ensures
        packets(bytes.skip(at)).0 == accepted(bytes, at).map_values(
            |place: int| protocol::contents(bytes.skip(place)),
        ),
    decreases bytes.len() - at,
{
    let says = |place: int| protocol::contents(bytes.skip(place));
    let rest = bytes.skip(at);
    if rest.len() > 0 {
        if protocol::sound(rest) {
            let next = at + protocol::packet_len(rest);
            assert(rest.skip(protocol::packet_len(rest)) == bytes.skip(next));
            law_accepted_places_say_the_packets(bytes, next);
            assert(accepted(bytes, at).map_values(says) == seq![says(at)] + accepted(
                bytes,
                next,
            ).map_values(says));
        } else if protocol::begins_packet(rest) && !protocol::complete(
            rest,
        ) {
        } else {
            assert(rest.drop_first() == bytes.skip(at + 1));
            law_accepted_places_say_the_packets(bytes, at + 1);
            assert(protocol::first_packet(rest)
                == protocol::first_packet(bytes.skip(at + 1)));
        }
    }
}

/// Every accepted packet is sound, lies in the stream in full, and begins
/// where the one before it has ended.
pub proof fn law_accepted_packets_are_sound(bytes: Seq<u8>, at: int)
    requires
        0 <= at <= bytes.len(),
    ensures
        forall|i: int|
            #![trigger accepted(bytes, at)[i]]
            0 <= i < accepted(bytes, at).len() ==> {
                let place = accepted(bytes, at)[i];
                &&& at <= place < bytes.len()
                &&& protocol::sound(bytes.skip(place))
            },
        forall|i: int, j: int|
            #![trigger accepted(bytes, at)[i], accepted(bytes, at)[j]]
            0 <= i < j < accepted(bytes, at).len() ==> accepted(bytes, at)[i]
                + protocol::packet_len(bytes.skip(accepted(bytes, at)[i]))
                <= accepted(bytes, at)[j],
    decreases bytes.len() - at,
{
    let rest = bytes.skip(at);
    if rest.len() > 0 {
        if protocol::sound(rest) {
            let next = at + protocol::packet_len(rest);
            law_accepted_packets_are_sound(bytes, next);
            let later = accepted(bytes, next);
            assert(accepted(bytes, at) == seq![at] + later);
            assert forall|i: int|
                #![trigger accepted(bytes, at)[i]]
                0 <= i < accepted(bytes, at).len() implies {
                let place = accepted(bytes, at)[i];
                &&& at <= place < bytes.len()
                &&& protocol::sound(bytes.skip(place))
            } by {
                if i > 0 {
                    assert(accepted(bytes, at)[i] == later[i - 1]);
                }
            }
            assert forall|i: int, j: int|
                #![trigger accepted(bytes, at)[i], accepted(bytes, at)[j]]
                0 <= i < j < accepted(bytes, at).len() implies accepted(bytes, at)[i]
                + protocol::packet_len(bytes.skip(accepted(bytes, at)[i]))
                <= accepted(bytes, at)[j] by {
                assert(accepted(bytes, at)[j] == later[j - 1]);
                if i > 0 {
                    assert(accepted(bytes, at)[i] == later[i - 1]);
                }
            }
        } else if protocol::begins_packet(rest) && !protocol::complete(
            rest,
        ) {
        } else {
            law_accepted_packets_are_sound(bytes, at + 1);
            assert(accepted(bytes, at) == accepted(bytes, at + 1));
        }
    }
}

/// A sound packet is never lost to noise: unless it is accepted itself,
/// another sound packet was accepted that covers its first byte. It only
/// takes enough bytes behind it for a false header just before it to be found
/// out.
pub proof fn law_no_sound_packet_is_skipped(bytes: Seq<u8>, at: int, place: int)
    requires
        0 <= at <= place,
        place + protocol::MAX_PACKET_LEN <= bytes.len(),
        protocol::sound(bytes.skip(place)),
    ensures
        exists|i: int|
            #![trigger accepted(bytes, at)[i]]
            0 <= i < accepted(bytes, at).len() && accepted(bytes, at)[i] <= place < accepted(
                bytes,
                at,
            )[i] + protocol::packet_len(bytes.skip(accepted(bytes, at)[i])),
    decreases place - at,
{
    let rest = bytes.skip(at);
    if protocol::sound(rest) {
        let next = at + protocol::packet_len(rest);
        let all = accepted(bytes, at);
        assert(all == seq![at] + accepted(bytes, next));
        if place < next {
            assert(all[0] == at);
        } else {
            law_no_sound_packet_is_skipped(bytes, next, place);
            let i = choose|i: int|
                #![trigger accepted(bytes, next)[i]]
                0 <= i < accepted(bytes, next).len() && accepted(bytes, next)[i] <= place
                    < accepted(bytes, next)[i] + protocol::packet_len(
                    bytes.skip(accepted(bytes, next)[i]),
                );
            assert(all[i + 1] == accepted(bytes, next)[i]);
        }
    } else {
        law_no_sound_packet_is_skipped(bytes, at + 1, place);
        assert(accepted(bytes, at) == accepted(bytes, at + 1));
    }
}

/// A command frame is a sound packet that says what was framed.
pub proof fn law_command_frame_reads_back(id: u8, payload: Seq<u8>, more: Seq<u8>)
    requires
        payload.len() <= protocol::MAX_PAYLOAD,
    ensures
        protocol::first_packet(
            protocol::command_frame(id, payload) + more,
        ) == (
            Some(
                protocol::PacketView::Response(
                    protocol::ResponseView { id, payload },
                ),
            ),
            more,
        ),
{
    let frame = protocol::command_frame(id, payload);
    let body = seq![
        protocol::COMMAND_HEADER,
        (protocol::MIN_COMMAND_LEN + payload.len()) as u8,
        id,
    ] + payload;
    let all = frame + more;
    let len = protocol::packet_len(all);
    assert(all.take(len - 1) == body);
    assert(all.subrange(3, len - 1) == payload);
    assert(all.skip(len) == more);
}

/// A data frame is a sound packet that says what was measured.
pub proof fn law_data_frame_reads_back(
    frame: protocol::DataFrame,
    reserved: (u8, u8),
    more: Seq<u8>,
)
    ensures
        protocol::first_packet(
            protocol::data_frame(frame, reserved) + more,
        ) == (Some(protocol::PacketView::Data(frame)), more),
{
    let bytes = protocol::data_frame(frame, reserved);
    let all = bytes + more;
    let body = seq![protocol::DATA_HEADER, protocol::DATA_HEADER] + crate::bytes::u16_bytes(
        frame.distance_cm,
    ) + crate::bytes::u16_bytes(frame.strength) + seq![reserved.0, reserved.1];
    assert(all.take(8) == body);
    assert(all.skip(9) == more);
}

/// An idle parser returns a packet with the packet's last byte, and nothing
/// before that.
pub proof fn law_packet_is_returned_with_its_last_byte(frame: Seq<u8>, count: int)
    requires
        protocol::sound(frame),
        frame.len() == protocol::packet_len(frame),
        0 <= count <= frame.len(),
    ensures
        fed(Seq::empty(), frame.take(count)).0 == if count == frame.len() {
            seq![protocol::contents(frame)]
        } else {
            Seq::empty()
        },
{
    let sent = frame.take(count);
    law_stream_is_cut_up_anyhow(Seq::empty(), sent);
    assert(Seq::<u8>::empty() + sent == sent);
    if count == frame.len() {
        assert(sent == frame);
        assert(frame.skip(count) == Seq::<u8>::empty());
        assert(packets(Seq::<u8>::empty()).0 == Seq::<protocol::PacketView>::empty());
        assert(packets(frame).0 == seq![protocol::contents(frame)]);
    }
}

} // verus!
