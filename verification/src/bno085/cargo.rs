//! Cargos on their way in and out.
//!
//! Every read transaction comes back with a four byte header in front of it,
//! so a four byte read peeks the length without consuming any payload, and
//! each chunk after the first has a header to skip.

use super::shtp::{Channel, Header, HEADER_LEN};
#[allow(unused_imports)]
use super::shtp;
use crate::bytes::copy_into;
use vstd::prelude::*;
use vstd::slice::slice_subrange;

verus! {

/// Largest cargo the driver will buffer.
///
/// A packet holds a timestamp report and however many sensor reports were
/// due at once, so tens of bytes in normal use and a few hundred only under
/// aggressive batching. The reset advertisement is the one genuinely large
/// packet the hub sends, and that is discarded rather than parsed.
pub const MAX_CARGO: usize = 256;

/// Largest single I²C transfer the driver will attempt.
///
/// Cargos longer than this are read in several transactions, each of which
/// the hub prefixes with a fresh four byte header.
pub const MAX_TRANSFER: usize = 64;

/// Enough for the longest command this driver sends (set feature, 17 bytes)
/// plus its SHTP header.
pub const MAX_WRITE: usize = 32;

/// How far the reading of a cargo has got.
#[derive(Clone, Copy, PartialEq, Eq, Debug)]
pub enum Reading {
    /// Nothing has been read yet.
    Head,
    /// `header` has been peeked, and `read` bytes of its cargo have been read.
    Cargo { header: Header, read: usize },
}

/// What one transfer did to the reading of a cargo.
#[derive(Clone, Copy, PartialEq, Eq, Debug)]
pub enum Progress {
    /// More is to be read.
    More(Reading),
    /// The hub has nothing to send.
    Nothing,
    /// The whole of a cargo has been read.
    Complete(Header),
}

/// How many bytes of a cargo are still to come, if its header is known.
pub open spec fn to_come(header: Header, read: usize) -> int {
    header.cargo_len - read
}

/// How many bytes the next transfer is to read.
pub open spec fn transfer_len(reading: Reading) -> int {
    let wanted = match reading {
        Reading::Head => HEADER_LEN as int,
        Reading::Cargo { header, read } => if read == 0 {
            to_come(header, read)
        } else {
            to_come(header, read) + HEADER_LEN
        },
    };
    if wanted <= MAX_TRANSFER {
        wanted
    } else {
        MAX_TRANSFER as int
    }
}

/// The part of a transfer's bytes that belongs to the cargo. The header of the
/// first chunk is the cargo's own; later chunks carry a repeat of it.
pub open spec fn chunk(read: usize, bytes: Seq<u8>) -> Seq<u8> {
    if read == 0 {
        bytes
    } else {
        bytes.skip(HEADER_LEN as int)
    }
}

/// Where a transfer of `bytes` takes the reading of a cargo.
pub open spec fn after(reading: Reading, bytes: Seq<u8>) -> Progress {
    match reading {
        Reading::Head => match shtp::parsed(bytes) {
            Some(header) => Progress::More(Reading::Cargo { header, read: 0 }),
            None => Progress::Nothing,
        },
        Reading::Cargo { header, read } => {
            let read = (read + chunk(read, bytes).len()) as usize;
            if read < header.cargo_len {
                Progress::More(Reading::Cargo { header, read })
            } else {
                Progress::Complete(header)
            }
        },
    }
}

/// `buf` once a transfer of `bytes` has been stored in it. The peek at the
/// header leaves nothing behind, and neither does a cargo that is too large.
pub open spec fn stored(buf: Seq<u8>, reading: Reading, bytes: Seq<u8>) -> Seq<u8> {
    match reading {
        Reading::Cargo { header, read } if header.cargo_len <= MAX_CARGO => {
            let chunk = chunk(read, bytes);
            buf.take(read as int) + chunk + buf.skip(read + chunk.len())
        },
        _ => buf,
    }
}

impl Reading {
    /// There is something left to read of a cargo with a payload.
    pub open spec fn wf(self) -> bool {
        self matches Reading::Cargo { header, read } ==> {
            &&& HEADER_LEN < header.cargo_len < shtp::CONTINUATION_BIT
            &&& read < header.cargo_len
        }
    }

    /// How many bytes the next transfer is to read.
    pub fn want(&self) -> (want: usize)
        requires
            self.wf(),
        ensures
            want == transfer_len(*self),
            HEADER_LEN <= want <= MAX_TRANSFER,
    {
        let wanted: usize = match *self {
            Reading::Head => HEADER_LEN,
            Reading::Cargo { header, read } => {
                let remaining: usize = header.cargo_len as usize - read;
                if read == 0 {
                    remaining
                } else {
                    remaining + HEADER_LEN
                }
            },
        };
        if wanted <= MAX_TRANSFER {
            wanted
        } else {
            MAX_TRANSFER
        }
    }

    /// Takes note of a transfer that read as many bytes as
    /// [`Reading::want`] asked for.
    pub fn transferred(&self, bytes: &[u8]) -> (progress: Progress)
        requires
            self.wf(),
            bytes.len() == transfer_len(*self),
        ensures
            progress == after(*self, bytes@),
            progress matches Progress::More(reading) ==> reading.wf(),
            progress matches Progress::Complete(header) ==> {
                &&& HEADER_LEN < header.cargo_len < shtp::CONTINUATION_BIT
                &&& self matches Reading::Cargo { header: announced, read } && announced == header
            },
    {
        match *self {
            Reading::Head => {
                let head: [u8; HEADER_LEN] = [bytes[0], bytes[1], bytes[2], bytes[3]];
                assert(head@ == bytes@);
                match Header::parse(head) {
                    Some(header) => Progress::More(Reading::Cargo { header, read: 0 }),
                    None => Progress::Nothing,
                }
            },
            Reading::Cargo { header, read } => {
                let read: usize = if read == 0 {
                    bytes.len()
                } else {
                    read + (bytes.len() - HEADER_LEN)
                };
                if read < header.cargo_len as usize {
                    Progress::More(Reading::Cargo { header, read })
                } else {
                    Progress::Complete(header)
                }
            },
        }
    }
}

/// What a hub with `cargo` to deliver sends in the next transfer, where
/// `repeat` is the header it puts before a later chunk.
pub open spec fn hub_sends(cargo: Seq<u8>, repeat: Seq<u8>, reading: Reading) -> Seq<u8> {
    match reading {
        Reading::Cargo { header, read } if read > 0 => {
            repeat + cargo.subrange(read as int, read + transfer_len(reading) - HEADER_LEN)
        },
        _ => cargo.take(transfer_len(reading)),
    }
}

/// Reads `cargo` to its end from a hub, and says what came of it and what is
/// then in the buffer that held `buf`. `repeat` gives the header that the hub
/// puts before the chunk that follows so many bytes.
pub open spec fn read_through(
    cargo: Seq<u8>,
    repeat: spec_fn(usize) -> Seq<u8>,
    reading: Reading,
    buf: Seq<u8>,
) -> (Progress, Seq<u8>)
    decreases left_of(reading),
{
    let read: usize = match reading {
        Reading::Head => 0,
        Reading::Cargo { read, .. } => read,
    };
    let bytes = hub_sends(cargo, repeat(read), reading);
    let buf = stored(buf, reading, bytes);
    match after(reading, bytes) {
        Progress::More(next) if left_of(next) < left_of(reading) => {
            read_through(cargo, repeat, next, buf)
        },
        progress => (progress, buf),
    }
}

/// How many bytes are left to read, at the most.
pub open spec fn left_of(reading: Reading) -> nat {
    match reading {
        Reading::Head => 0x1_0000,
        Reading::Cargo { header, read } => if read < header.cargo_len {
            to_come(header, read) as nat
        } else {
            0
        },
    }
}

/// However long a cargo is, it is read to its end, and no further. One that
/// the buffer has room for is then in the buffer whole, though the hub puts a
/// header before each chunk; one that is too large leaves the buffer alone.
pub proof fn law_cargo_is_read_whole(
    cargo: Seq<u8>,
    repeat: spec_fn(usize) -> Seq<u8>,
    header: Header,
    buf: Seq<u8>,
)
    requires
        cargo.len() >= HEADER_LEN,
        shtp::parsed(cargo.take(HEADER_LEN as int)) == Some(header),
        cargo.len() == header.cargo_len,
        buf.len() == MAX_CARGO,
        forall|read: usize| (#[trigger] repeat(read)).len() == HEADER_LEN,
    ensures
        ({
            let (progress, read) = read_through(cargo, repeat, Reading::Head, buf);
            &&& progress == Progress::Complete(header)
            &&& if cargo.len() <= MAX_CARGO {
                read == cargo + buf.skip(cargo.len() as int)
            } else {
                read == buf
            }
        }),
{
    assert(stored(buf, Reading::Head, cargo.take(HEADER_LEN as int)) == buf);
    assert(buf.take(0) == cargo.take(0));
    lemma_rest_is_read(cargo, repeat, header, 0, buf);
}

/// What is left of a cargo is read to its end.
proof fn lemma_rest_is_read(
    cargo: Seq<u8>,
    repeat: spec_fn(usize) -> Seq<u8>,
    header: Header,
    read: usize,
    buf: Seq<u8>,
)
    requires
        HEADER_LEN < header.cargo_len,
        cargo.len() == header.cargo_len,
        read < cargo.len(),
        buf.len() == MAX_CARGO,
        cargo.len() <= MAX_CARGO ==> buf.take(read as int) == cargo.take(read as int),
        forall|read: usize| (#[trigger] repeat(read)).len() == HEADER_LEN,
    ensures
        ({
            let (progress, last) = read_through(
                cargo,
                repeat,
                Reading::Cargo { header, read },
                buf,
            );
            &&& progress == Progress::Complete(header)
            &&& if cargo.len() <= MAX_CARGO {
                last == cargo + buf.skip(cargo.len() as int)
            } else {
                last == buf
            }
        }),
    decreases cargo.len() - read,
{
    let reading = Reading::Cargo { header, read };
    let bytes = hub_sends(cargo, repeat(read), reading);
    assert(repeat(read).len() == HEADER_LEN);
    let part = chunk(read, bytes);
    assert(part == cargo.subrange(read as int, read + part.len()));
    let next = (read + part.len()) as usize;
    let filled = stored(buf, reading, bytes);
    if cargo.len() <= MAX_CARGO {
        assert(filled.take(next as int) == cargo.take(next as int));
        assert(filled.skip(cargo.len() as int) == buf.skip(cargo.len() as int));
    }
    if next < cargo.len() {
        lemma_rest_is_read(cargo, repeat, header, next, filled);
    } else if cargo.len() <= MAX_CARGO {
        assert(cargo.take(next as int) == cargo);
        assert(filled == filled.take(next as int) + filled.skip(next as int));
    }
}

/// A cargo on its way out: the header and the payload.
pub open spec fn framed(channel: Channel, sequence: u8, payload: Seq<u8>) -> Seq<u8> {
    shtp::encoded(payload.len() as int, channel, sequence) + payload
}

/// A cargo on its way out, ready to write to the hub.
#[derive(Clone, Copy, Debug)]
pub struct Frame {
    bytes: [u8; MAX_WRITE],
    len: usize,
}

impl View for Frame {
    type V = Seq<u8>;

    /// The complete cargo.
    closed spec fn view(&self) -> Seq<u8> {
        self.bytes@.take(self.len as int)
    }
}

impl Frame {
    /// The cargo fits the space kept for it.
    pub closed spec fn wf(self) -> bool {
        self.len <= MAX_WRITE
    }

    /// Frames a payload for `channel`.
    pub fn new(channel: Channel, sequence: u8, payload: &[u8]) -> (frame: Self)
        requires
            payload.len() + HEADER_LEN <= MAX_WRITE,
        ensures
            frame.wf(),
            frame@ == framed(channel, sequence, payload@),
    {
        let header: [u8; HEADER_LEN] = Header::encode(payload.len(), channel, sequence);
        let mut bytes: [u8; MAX_WRITE] = [0; MAX_WRITE];
        copy_into(&mut bytes, 0, &header);
        copy_into(&mut bytes, HEADER_LEN, payload);
        let frame = Self { bytes, len: HEADER_LEN + payload.len() };
        assert(frame@ == framed(channel, sequence, payload@));
        frame
    }

    /// The complete cargo.
    pub fn as_bytes(&self) -> (bytes: &[u8])
        requires
            self.wf(),
        ensures
            bytes@ == self@,
    {
        slice_subrange(&self.bytes, 0, self.len)
    }
}

/// The header of a cargo on its way out announces exactly that cargo.
pub proof fn law_frame_reads_back(channel: Channel, sequence: u8, payload: Seq<u8>)
    requires
        0 < payload.len(),
        payload.len() + HEADER_LEN <= MAX_WRITE,
    ensures
        ({
            let frame = framed(channel, sequence, payload);
            &&& shtp::parsed(frame.take(HEADER_LEN as int)) == Some(
                Header {
                    cargo_len: frame.len() as u16,
                    continuation: false,
                    channel: channel.number(),
                    sequence,
                },
            )
            &&& frame.skip(HEADER_LEN as int) == payload
        }),
{
    shtp::law_header_reads_back(payload.len() as int, channel, sequence);
    let frame = framed(channel, sequence, payload);
    let head = shtp::encoded(payload.len() as int, channel, sequence);
    assert(frame.take(HEADER_LEN as int) == head);
    assert(frame.skip(HEADER_LEN as int) == payload);
}

} // verus!
