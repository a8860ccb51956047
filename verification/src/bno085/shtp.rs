//! SHTP — the Sensor Hub Transport Protocol that frames every BNO085 transfer.
//!
//! All traffic, in both directions, is a *cargo*: a four byte header followed
//! by a payload. The header carries the total cargo length (header included),
//! the channel the payload belongs to, and a per-channel sequence number.
//!
//! Reference: CEVA SH-2 / SHTP Reference Manual, and the reference driver at
//! <https://github.com/ceva-dsp/sh2>.

use crate::bytes::write_u16;
use vstd::prelude::*;

verus! {

/// Length of the SHTP header prefixing every cargo.
pub const HEADER_LEN: usize = 4;

/// Set in the length field when a transfer continues the preceding cargo.
pub const CONTINUATION_BIT: u16 = 0x8000;

/// How many channels there are.
pub const CHANNELS: usize = 6;

/// The SHTP channels the sensor hub advertises.
#[derive(Clone, Copy, PartialEq, Eq, Debug)]
pub enum Channel {
    /// SHTP-level commands and the advertisement sent after reset.
    Command,
    /// Reset requests, and the reset-complete notification.
    Executable,
    /// Sensor hub control: feature commands, product ID, FRS records.
    Control,
    /// Sensor reports from non-wake sensors.
    InputNormal,
    /// Sensor reports from sensors configured as wake sources.
    InputWake,
    /// The gyro-integrated rotation vector, which has its own channel.
    InputGyroRv,
}

impl Channel {
    /// The channel's number on the wire.
    pub open spec fn number(self) -> u8 {
        match self {
            Channel::Command => 0,
            Channel::Executable => 1,
            Channel::Control => 2,
            Channel::InputNormal => 3,
            Channel::InputWake => 4,
            Channel::InputGyroRv => 5,
        }
    }

    /// The channel numbered `value`, if there is one.
    pub fn from_u8(value: u8) -> (channel: Option<Self>)
        ensures
            match channel {
                Some(channel) => channel.number() == value,
                None => value >= CHANNELS,
            },
    {
        match value {
            0 => Some(Self::Command),
            1 => Some(Self::Executable),
            2 => Some(Self::Control),
            3 => Some(Self::InputNormal),
            4 => Some(Self::InputWake),
            5 => Some(Self::InputGyroRv),
            _ => None,
        }
    }

    /// The channel's number on the wire.
    pub fn to_u8(self) -> (number: u8)
        ensures
            number == self.number(),
            number < CHANNELS,
    {
        match self {
            Self::Command => 0,
            Self::Executable => 1,
            Self::Control => 2,
            Self::InputNormal => 3,
            Self::InputWake => 4,
            Self::InputGyroRv => 5,
        }
    }
}

/// A decoded SHTP header.
#[derive(Clone, Copy, PartialEq, Eq, Debug)]
pub struct Header {
    /// Total cargo length in bytes, *including* these four header bytes.
    pub cargo_len: u16,
    /// Whether this transfer continues the previous one.
    pub continuation: bool,
    pub channel: u8,
    pub sequence: u8,
}

/// The header that `bytes` begin with, if it announces a cargo with a payload.
pub open spec fn parsed(bytes: Seq<u8>) -> Option<Header> {
    let raw = crate::bytes::u16_le(bytes, 0);
    let cargo_len = raw % CONTINUATION_BIT;
    if raw == 0xFFFF || cargo_len <= HEADER_LEN {
        None
    } else {
        Some(
            Header {
                cargo_len: cargo_len as u16,
                continuation: raw >= CONTINUATION_BIT,
                channel: bytes[2],
                sequence: bytes[3],
            },
        )
    }
}

/// The header of a cargo that carries `payload_len` bytes. The length field
/// has sixteen bits.
pub open spec fn encoded(payload_len: int, channel: Channel, sequence: u8) -> Seq<u8> {
    crate::bytes::u16_bytes(((payload_len + HEADER_LEN) % 0x1_0000) as u16) + seq![
        channel.number(),
        sequence,
    ]
}

impl Header {
    /// Decodes a header, returning `None` when the bytes do not describe a
    /// cargo with a payload.
    ///
    /// A hub with nothing to say clocks out zeros, and a hub that is asleep or
    /// absent leaves the bus pulled high; a cargo of exactly `HEADER_LEN` has
    /// no payload to deliver. None of the three is worth reading further.
    pub fn parse(bytes: [u8; HEADER_LEN]) -> (header: Option<Self>)
        ensures
            header == parsed(bytes@),
    {
        let raw: u16 = crate::bytes::read_u16(&bytes, 0);
        if raw == 0x0000 || raw == 0xFFFF {
            return None;
        }
        let cargo_len: u16 = raw & !CONTINUATION_BIT;
        assert(raw & !0x8000u16 == raw % 0x8000) by (bit_vector);
        if cargo_len as usize <= HEADER_LEN {
            return None;
        }
        assert(raw & 0x8000u16 != 0 <==> raw >= 0x8000) by (bit_vector);
        Some(
            Self {
                cargo_len,
                continuation: (raw & CONTINUATION_BIT) != 0,
                channel: bytes[2],
                sequence: bytes[3],
            },
        )
    }

    /// Payload length, i.e. the cargo without its header.
    pub fn payload_len(&self) -> (len: usize)
        requires
            self.cargo_len >= HEADER_LEN,
        ensures
            len == self.cargo_len - HEADER_LEN,
    {
        self.cargo_len as usize - HEADER_LEN
    }

    /// Builds the header for an outgoing payload.
    pub fn encode(payload_len: usize, channel: Channel, sequence: u8) -> (bytes: [u8; HEADER_LEN])
        requires
            payload_len + HEADER_LEN <= usize::MAX,
        ensures
            bytes@ == encoded(payload_len as int, channel, sequence),
    {
        let cargo_len: u16 = ((payload_len + HEADER_LEN) % 0x1_0000) as u16;
        let len: [u8; 2] = write_u16(cargo_len);
        let bytes: [u8; HEADER_LEN] = [len[0], len[1], channel.to_u8(), sequence];
        assert(bytes@ == encoded(payload_len as int, channel, sequence));
        bytes
    }
}

/// The header built for a payload is decoded to what it was built from, as
/// long as there is a payload and its length leaves the continuation bit
/// alone.
pub proof fn law_header_reads_back(payload_len: int, channel: Channel, sequence: u8)
    requires
        0 < payload_len,
        payload_len + HEADER_LEN < CONTINUATION_BIT,
    ensures
        parsed(encoded(payload_len, channel, sequence)) == Some(
            Header {
                cargo_len: (payload_len + HEADER_LEN) as u16,
                continuation: false,
                channel: channel.number(),
                sequence,
            },
        ),
{
}

/// No two channels share a number, and every number is below [`CHANNELS`].
pub proof fn law_channel_numbers_are_distinct(a: Channel, b: Channel)
    ensures
        a.number() == b.number() ==> a == b,
        a.number() < CHANNELS,
{
}

/// Every header that is decoded announces a payload.
pub proof fn law_header_announces_a_payload(bytes: Seq<u8>)
    ensures
        parsed(bytes) matches Some(header) ==> HEADER_LEN < header.cargo_len < CONTINUATION_BIT,
{
}

} // verus!
