//! Wire format of the TF03's UART protocol.
//!
//! Two kinds of packet share the line, told apart by their first byte:
//!
//! * **Data frames**, nine bytes, sent continuously at the configured frame
//!   rate (or once per trigger command):
//!   `59 59 DIST_L DIST_H STRENGTH_L STRENGTH_H reserved reserved SUM`
//! * **Command frames**, `5A LEN ID payload… SUM`, where `LEN` counts every
//!   byte including the header and the checksum. The host sends these, and
//!   the TF03 answers in the same shape.
//!
//! Every packet ends in the low eight bits of the sum of the bytes before it,
//! and multi-byte fields are little endian.

use crate::bytes::{copy_into, read_u16};
use vstd::prelude::*;
use vstd::slice::slice_subrange;

verus! {

/// Both of the first two bytes of every data frame.
pub const DATA_HEADER: u8 = 0x59;

/// Length of a data frame.
pub const DATA_FRAME_LEN: usize = 9;

/// First byte of every command and every response.
pub const COMMAND_HEADER: u8 = 0x5A;

/// Shortest command frame: header, length, ID and checksum, with no payload.
pub const MIN_COMMAND_LEN: usize = 4;

/// Longest command frame in the protocol, which belongs to the commands
/// taking a four byte parameter (UART baud rate, CAN IDs).
pub const MAX_COMMAND_LEN: usize = 8;

/// Longest command payload.
pub const MAX_PAYLOAD: usize = 4;

/// Longest packet of either kind, and so how much the parser has to hold.
pub const MAX_PACKET_LEN: usize = 9;

/// The sum of `bytes`.
pub open spec fn total(bytes: Seq<u8>) -> int
    decreases bytes.len(),
{
    if bytes.len() == 0 {
        0
    } else {
        total(bytes.drop_last()) + bytes.last()
    }
}

/// The low eight bits of the sum of `bytes`.
pub open spec fn low_sum(bytes: Seq<u8>) -> u8 {
    (total(bytes) % 0x100) as u8
}

/// `body` with its checksum behind it.
pub open spec fn checked(body: Seq<u8>) -> Seq<u8> {
    body.push(low_sum(body))
}

/// The frame that carries the command `id`, or the answer to it.
pub open spec fn command_frame(id: u8, payload: Seq<u8>) -> Seq<u8> {
    checked(seq![COMMAND_HEADER, (MIN_COMMAND_LEN + payload.len()) as u8, id] + payload)
}

/// The frame that carries one measurement. The TF03 leaves two bytes of it
/// unspecified.
pub open spec fn data_frame(frame: DataFrame, reserved: (u8, u8)) -> Seq<u8> {
    checked(
        seq![DATA_HEADER, DATA_HEADER] + crate::bytes::u16_bytes(frame.distance_cm)
            + crate::bytes::u16_bytes(frame.strength) + seq![reserved.0, reserved.1],
    )
}

/// The low eight bits of the sum of `bytes`.
pub fn checksum(bytes: &[u8]) -> (sum: u8)
    ensures
        sum == low_sum(bytes@),
{
    let mut sum: u8 = 0;
    let mut at: usize = 0;
    while at < bytes.len()
        invariant
            at <= bytes.len(),
            sum == low_sum(bytes@.take(at as int)),
        decreases bytes.len() - at,
    {
        assert(bytes@.take(at + 1).drop_last() == bytes@.take(at as int));
        sum = sum.wrapping_add(bytes[at]);
        at = at + 1;
    }
    assert(bytes@.take(at as int) == bytes@);
    sum
}

/// An outgoing command frame.
#[derive(Clone, Copy, Debug)]
pub struct Command {
    bytes: [u8; MAX_COMMAND_LEN],
    len: usize,
}

impl View for Command {
    type V = Seq<u8>;

    /// The complete frame.
    closed spec fn view(&self) -> Seq<u8> {
        self.bytes@.take(self.len as int)
    }
}

impl Command {
    /// The frame has room for a header, an ID and a checksum.
    pub closed spec fn wf(self) -> bool {
        MIN_COMMAND_LEN <= self.len <= MAX_COMMAND_LEN
    }

    /// Frames `payload` as the command `id`. No command in the protocol has a
    /// payload longer than [`MAX_PAYLOAD`].
    pub fn new(id: u8, payload: &[u8]) -> (command: Self)
        requires
            payload.len() <= MAX_PAYLOAD,
        ensures
            command.wf(),
            command@ == command_frame(id, payload@),
    {
        let len: usize = MIN_COMMAND_LEN + payload.len();
        let mut bytes: [u8; MAX_COMMAND_LEN] = [0; MAX_COMMAND_LEN];
        bytes[0] = COMMAND_HEADER;
        bytes[1] = len as u8;
        bytes[2] = id;
        copy_into(&mut bytes, 3, payload);
        let ghost body = seq![COMMAND_HEADER, len as u8, id] + payload@;
        assert(bytes@.take(len - 1) == body);
        bytes[len - 1] = checksum(slice_subrange(&bytes, 0, len - 1));
        assert(bytes@.take(len as int) == body.push(low_sum(body)));
        Self { bytes, len }
    }

    /// The command's ID.
    pub fn id(&self) -> (id: u8)
        requires
            self.wf(),
        ensures
            id == self@[2],
    {
        self.bytes[2]
    }

    /// What the command carries besides its ID.
    pub fn payload(&self) -> (payload: &[u8])
        requires
            self.wf(),
        ensures
            payload@ == self@.subrange(3, self@.len() - 1),
    {
        assert(self.bytes@.subrange(3, self.len - 1) == self@.subrange(3, self@.len() - 1));
        slice_subrange(&self.bytes, 3, self.len - 1)
    }

    /// The complete frame, ready to write to the UART.
    pub fn as_bytes(&self) -> (bytes: &[u8])
        requires
            self.wf(),
        ensures
            bytes@ == self@,
    {
        slice_subrange(&self.bytes, 0, self.len)
    }
}

/// A packet received from the TF03.
#[derive(Clone, Copy, PartialEq, Eq, Debug)]
pub enum Packet {
    Data(DataFrame),
    Response(Response),
}

/// The fields of a data frame, exactly as sent.
#[derive(Clone, Copy, PartialEq, Eq, Debug)]
pub struct DataFrame {
    pub distance_cm: u16,
    pub strength: u16,
}

/// What an answer carries besides the command's ID.
#[derive(Clone, Copy, PartialEq, Eq, Debug)]
pub struct Payload {
    bytes: [u8; MAX_PAYLOAD],
    len: usize,
}

impl View for Payload {
    type V = Seq<u8>;

    closed spec fn view(&self) -> Seq<u8> {
        self.bytes@.take(self.len as int)
    }
}

impl Payload {
    /// The payload fits the space kept for it, and that space is zero behind
    /// it, so that payloads that say the same are equal.
    pub closed spec fn wf(self) -> bool {
        &&& self.len <= MAX_PAYLOAD
        &&& forall|at: int| self.len <= at < MAX_PAYLOAD ==> #[trigger] self.bytes@[at] == 0
    }

    /// Keeps what an answer carries.
    pub fn new(received: &[u8]) -> (payload: Self)
        requires
            received.len() <= MAX_PAYLOAD,
        ensures
            payload.wf(),
            payload@ == received@,
    {
        let mut bytes: [u8; MAX_PAYLOAD] = [0; MAX_PAYLOAD];
        copy_into(&mut bytes, 0, received);
        assert(bytes@.take(received@.len() as int) == received@);
        Self { bytes, len: received.len() }
    }

    /// The bytes.
    pub fn as_bytes(&self) -> (bytes: &[u8])
        requires
            self.wf(),
        ensures
            bytes@ == self@,
    {
        slice_subrange(&self.bytes, 0, self.len)
    }
}

/// A command frame sent back by the TF03 in answer to a command.
#[derive(Clone, Copy, PartialEq, Eq, Debug)]
pub struct Response {
    /// The ID of the command being answered.
    pub id: u8,
    /// What the answer carries besides it.
    pub payload: Payload,
}

/// What a [`Response`] says.
pub struct ResponseView {
    pub id: u8,
    pub payload: Seq<u8>,
}

/// What a [`Packet`] says.
pub enum PacketView {
    Data(DataFrame),
    Response(ResponseView),
}

impl View for Response {
    type V = ResponseView;

    open spec fn view(&self) -> ResponseView {
        ResponseView { id: self.id, payload: self.payload@ }
    }
}

impl Response {
    /// The payload is well formed.
    pub open spec fn wf(self) -> bool {
        self.payload.wf()
    }

    /// What the answer carries besides the command's ID.
    pub fn payload(&self) -> (payload: &[u8])
        requires
            self.wf(),
        ensures
            payload@ == self@.payload,
    {
        self.payload.as_bytes()
    }
}

impl View for Packet {
    type V = PacketView;

    open spec fn view(&self) -> PacketView {
        match *self {
            Packet::Data(frame) => PacketView::Data(frame),
            Packet::Response(response) => PacketView::Response(response@),
        }
    }
}

impl Packet {
    /// A response inside is well formed.
    pub open spec fn wf(self) -> bool {
        self matches Packet::Response(response) ==> response.wf()
    }
}

/// Whether `bytes` could be the beginning of a packet.
pub open spec fn begins_packet(bytes: Seq<u8>) -> bool {
    &&& bytes.len() > 0
    &&& bytes[0] == DATA_HEADER || bytes[0] == COMMAND_HEADER
    &&& bytes.len() > 1 && bytes[0] == DATA_HEADER ==> bytes[1] == DATA_HEADER
    &&& bytes.len() > 1 && bytes[0] == COMMAND_HEADER ==> MIN_COMMAND_LEN <= bytes[1]
        <= MAX_COMMAND_LEN
}

/// Length of the packet that `bytes`, at least two of them, begin.
pub open spec fn packet_len(bytes: Seq<u8>) -> int {
    if bytes[0] == DATA_HEADER {
        DATA_FRAME_LEN as int
    } else {
        bytes[1] as int
    }
}

/// Whether the packet that `bytes` begin has arrived in full.
pub open spec fn complete(bytes: Seq<u8>) -> bool {
    bytes.len() >= 2 && bytes.len() >= packet_len(bytes)
}

/// Whether `bytes` begin with a complete packet whose checksum agrees.
pub open spec fn sound(bytes: Seq<u8>) -> bool {
    &&& begins_packet(bytes)
    &&& complete(bytes)
    &&& bytes[packet_len(bytes) - 1] == low_sum(bytes.take(packet_len(bytes) - 1))
}

/// What the sound packet that `bytes` begin with says.
pub open spec fn contents(bytes: Seq<u8>) -> PacketView {
    if bytes[0] == DATA_HEADER {
        PacketView::Data(
            DataFrame {
                distance_cm: crate::bytes::u16_le(bytes, 2),
                strength: crate::bytes::u16_le(bytes, 4),
            },
        )
    } else {
        PacketView::Response(
            ResponseView { id: bytes[2], payload: bytes.subrange(3, packet_len(bytes) - 1) },
        )
    }
}

/// The first packet in `bytes`, and the bytes left once it has been taken.
///
/// A byte that cannot begin a packet is stepped past, and so is the first
/// byte of a complete packet whose checksum disagrees. A packet that has not
/// arrived in full is left where it is.
pub open spec fn first_packet(bytes: Seq<u8>) -> (Option<PacketView>, Seq<u8>)
    decreases bytes.len(),
{
    if bytes.len() == 0 {
        (None, bytes)
    } else if sound(bytes) {
        (Some(contents(bytes)), bytes.skip(packet_len(bytes)))
    } else if begins_packet(bytes) && !complete(bytes) {
        (None, bytes)
    } else {
        first_packet(bytes.drop_first())
    }
}

/// Whether no further packet can be had from `bytes` until more arrive.
pub open spec fn waiting(bytes: Seq<u8>) -> bool {
    bytes.len() < MIN_COMMAND_LEN || (begins_packet(bytes) && !complete(bytes))
}

/// Pulls packets out of a byte stream.
///
/// Bytes are fed in one at a time as they arrive. A header is not trusted
/// until the checksum at the end of its packet agrees, and on a mismatch the
/// parser steps forward a single byte rather than throwing the whole
/// candidate away. Discarding whole candidates can lock a parser out of
/// step: a checksum byte of `0x59` directly before a real frame reads as a
/// header, and for as long as the measurement does not change, every retry
/// after a nine byte discard lands on the same false header.
#[derive(Debug)]
pub struct Parser {
    buf: [u8; MAX_PACKET_LEN],
    len: usize,
}

impl Clone for Parser {
    fn clone(&self) -> (parser: Self)
        ensures
            parser == *self,
    {
        Self { buf: self.buf, len: self.len }
    }
}

impl View for Parser {
    type V = Seq<u8>;

    /// The bytes of a partly received packet.
    closed spec fn view(&self) -> Seq<u8> {
        self.buf@.take(self.len as int)
    }
}

impl Default for Parser {
    fn default() -> (parser: Self)
        ensures
            parser.wf(),
            parser@ == Seq::<u8>::empty(),
    {
        Self::new()
    }
}

impl Parser {
    /// There is room for another byte, and no packet left behind.
    pub closed spec fn wf(self) -> bool {
        &&& self.len < MAX_PACKET_LEN
        &&& waiting(self@)
    }

    /// A parser that has received nothing.
    pub fn new() -> (parser: Self)
        ensures
            parser.wf(),
            parser@ == Seq::<u8>::empty(),
    {
        let parser = Self { buf: [0; MAX_PACKET_LEN], len: 0 };
        assert(parser@ == Seq::<u8>::empty());
        parser
    }

    /// Forgets any partly received packet, e.g. after bytes were lost.
    pub fn reset(&mut self)
        ensures
            final(self).wf(),
            final(self)@ == Seq::<u8>::empty(),
    {
        self.len = 0;
        assert(self@ == Seq::<u8>::empty());
    }

    /// Adds one received byte, returning a packet if it completed one.
    pub fn push(&mut self, byte: u8) -> (packet: Option<Packet>)
        requires
            old(self).wf(),
        ensures
            final(self).wf(),
            packet matches Some(packet) ==> packet.wf(),
            first_packet(old(self)@.push(byte)) == (
                match packet {
                    Some(packet) => Some(packet@),
                    None => None,
                },
                final(self)@,
            ),
    {
        self.buf[self.len] = byte;
        self.len = self.len + 1;
        assert(self@ == old(self)@.push(byte));
        proof {
            lemma_push_settles(old(self)@, byte);
        }
        self.settle()
    }

    /// Decodes the packet at the front of the buffer if it is complete and
    /// sound, stepping past bytes that cannot begin one.
    fn settle(&mut self) -> (packet: Option<Packet>)
        requires
            old(self).len <= MAX_PACKET_LEN,
        ensures
            final(self).len <= old(self).len,
            packet matches Some(packet) ==> packet.wf(),
            first_packet(old(self)@) == (
                match packet {
                    Some(packet) => Some(packet@),
                    None => None,
                },
                final(self)@,
            ),
    {
        loop
            invariant
                self.len <= MAX_PACKET_LEN,
                self.len <= old(self).len,
                first_packet(self@) == first_packet(old(self)@),
            decreases self.len,
        {
            if self.len == 0 {
                return None;
            }
            if self.plausible_start() {
                match self.expected_len() {
                    None => {
                        return None;
                    },
                    Some(needed) => {
                        if self.len < needed {
                            return None;
                        }
                        let candidate = slice_subrange(&self.buf, 0, needed);
                        assert(candidate@ == self@.take(needed as int));
                        assert(candidate@.take(needed - 1) == self@.take(needed - 1));
                        if checksum(slice_subrange(candidate, 0, needed - 1)) == candidate[needed
                            - 1] {
                            let packet = decode(candidate);
                            assert(packet@ == contents(self@)) by {
                                assert(candidate@.subrange(3, needed - 1) == self@.subrange(
                                    3,
                                    needed - 1,
                                ));
                            }
                            self.consume(needed);
                            return Some(packet);
                        }
                    },
                }
            }
            // Nothing, a false header, or a corrupted packet. A real one may
            // begin anywhere after its first byte.

            assert(self@.skip(1) == self@.drop_first());
            self.consume(1);
        }
    }

    /// Whether the buffered bytes could be the beginning of a packet.
    fn plausible_start(&self) -> (plausible: bool)
        requires
            0 < self.len <= MAX_PACKET_LEN,
        ensures
            plausible == begins_packet(self@),
    {
        if self.buf[0] == DATA_HEADER {
            self.len == 1 || self.buf[1] == DATA_HEADER
        } else if self.buf[0] == COMMAND_HEADER {
            self.len == 1 || (MIN_COMMAND_LEN <= self.buf[1] as usize && self.buf[1] as usize
                <= MAX_COMMAND_LEN)
        } else {
            false
        }
    }

    /// Length of the packet the buffer begins with, once enough of it has
    /// arrived to tell.
    fn expected_len(&self) -> (expected: Option<usize>)
        requires
            self.len <= MAX_PACKET_LEN,
        ensures
            expected is None <==> self@.len() < 2,
            expected matches Some(expected) ==> expected == packet_len(self@),
    {
        if self.len < 2 {
            return None;
        }
        Some(
            if self.buf[0] == DATA_HEADER {
                DATA_FRAME_LEN
            } else {
                self.buf[1] as usize
            },
        )
    }

    /// Forgets the first `count` bytes.
    fn consume(&mut self, count: usize)
        requires
            count <= old(self).len <= MAX_PACKET_LEN,
        ensures
            final(self).len == old(self).len - count,
            final(self)@ == old(self)@.skip(count as int),
    {
        let kept: usize = self.len - count;
        let mut at: usize = 0;
        while at < kept
            invariant
                at <= kept,
                count + kept == self.len == old(self).len,
                self.len <= MAX_PACKET_LEN,
                forall|i: int| 0 <= i < at ==> self.buf@[i] == old(self).buf@[i + count],
                forall|i: int| at <= i < self.len ==> self.buf@[i] == old(self).buf@[i],
            decreases kept - at,
        {
            self.buf[at] = self.buf[at + count];
            at = at + 1;
        }
        self.len = kept;
        assert(self@ == old(self)@.skip(count as int));
    }
}

/// Decodes a packet whose header, length and checksum have been checked.
pub fn decode(packet: &[u8]) -> (decoded: Packet)
    requires
        begins_packet(packet@),
        packet.len() >= 2,
        packet.len() == packet_len(packet@),
    ensures
        decoded.wf(),
        decoded@ == contents(packet@),
{
    if packet[0] == DATA_HEADER {
        Packet::Data(
            DataFrame { distance_cm: read_u16(packet, 2), strength: read_u16(packet, 4) },
        )
    } else {
        let received = slice_subrange(packet, 3, packet.len() - 1);
        Packet::Response(Response { id: packet[2], payload: Payload::new(received) })
    }
}

/// A packet takes at least as many bytes as the shortest one.
pub proof fn lemma_packet_takes_bytes(bytes: Seq<u8>)
    ensures
        first_packet(bytes).0 is Some ==> first_packet(bytes).1.len() + MIN_COMMAND_LEN
            <= bytes.len(),
        first_packet(bytes).0 is None ==> waiting(first_packet(bytes).1),
        first_packet(bytes).1.len() <= bytes.len(),
    decreases bytes.len(),
{
    if bytes.len() > 0 && !sound(bytes) && !(begins_packet(bytes) && !complete(bytes)) {
        lemma_packet_takes_bytes(bytes.drop_first());
    }
}

/// Once a byte has been added to a waiting buffer and the packet that it
/// completed has been taken, the buffer waits again.
pub proof fn lemma_push_settles(held: Seq<u8>, byte: u8)
    requires
        held.len() < MAX_PACKET_LEN,
        waiting(held),
    ensures
        waiting(first_packet(held.push(byte)).1),
        first_packet(held.push(byte)).1.len() < MAX_PACKET_LEN,
{
    let bytes = held.push(byte);
    lemma_packet_takes_bytes(bytes);
    if held.len() >= MIN_COMMAND_LEN && !sound(bytes) && complete(bytes) {
        // The two bytes of the false header cannot begin a packet that has
        // arrived in full.
        lemma_packet_takes_bytes(bytes.drop_first());
        lemma_packet_takes_bytes(bytes.drop_first().drop_first());
    }
}

} // verus!
