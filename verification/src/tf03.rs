//! Driver core for the Benewake TF03 long-range LiDAR (TF03-100 and TF03-180,
//! which differ only in maximum range).
//!
//! The TF03 measures distance by pulsed time of flight and, unless told
//! otherwise, streams a nine byte data frame per measurement at 100 Hz
//! without being asked. Configuration commands share the same line under a
//! separate framing; see [`protocol`].
//!
//! A [`Tf03`] carries the UART but never touches it. Its owner reads the UART
//! and hands over what came with [`Tf03::received`], takes measurements with
//! [`Tf03::read`] and answers with [`Tf03::await_response`], and writes the
//! [`Command`]s that the methods named after the TF03's commands build.
//!
//! # Keeping up
//!
//! A data frame is 90 bits on the wire, so at 115200 baud the line tops out
//! near 1.2 kHz of frames. The ESP32-S3's UART FIFO holds 128 bytes, about
//! fourteen frames; a task that stops reading for longer than that loses
//! bytes, and the next read reports the overflow. Reading can carry on
//! afterwards, since the parser resynchronises on the next sound frame.

pub mod laws;
pub mod protocol;
pub mod stream;

use crate::bytes::{copy_into, same_bytes, write_u16, write_u32};
use protocol::{Command, DataFrame, Packet, Parser, Response};
use vstd::prelude::*;

verus! {

// Command IDs.
pub const COMMAND_FIRMWARE_VERSION: u8 = 0x01;

pub const COMMAND_SYSTEM_RESET: u8 = 0x02;

pub const COMMAND_FRAME_RATE: u8 = 0x03;

pub const COMMAND_TRIGGER: u8 = 0x04;

pub const COMMAND_BAUD_RATE: u8 = 0x06;

pub const COMMAND_OUTPUT_ENABLE: u8 = 0x07;

pub const COMMAND_RESTORE_DEFAULTS: u8 = 0x10;

pub const COMMAND_SAVE_SETTINGS: u8 = 0x11;

pub const COMMAND_OUT_OF_RANGE: u8 = 0x4F;

/// The distance the TF03 reports when nothing is in range, until configured
/// otherwise with [`Tf03::set_out_of_range_threshold`].
pub const DEFAULT_OUT_OF_RANGE_CM: u16 = 18_000;

/// Below this signal strength the TF03 does not trust its return, and sends
/// the out-of-range distance in place of a measurement.
pub const MIN_RELIABLE_STRENGTH: u16 = 40;

/// UART baud rates the TF03 accepts.
///
/// The two editions of the manual disagree at the fast end (V1.2.2 adds
/// 500000 and 600000, the 2024 edition 1500000 and 2000000), so only the
/// rates both list are allowed. An unsupported rate is not refused by the
/// TF03; it silently falls back to 115200 and the link is lost.
pub const SUPPORTED_BAUD_RATES: [u32; 15] = [
    9_600,
    14_400,
    19_200,
    38_400,
    56_000,
    57_600,
    115_200,
    128_000,
    230_400,
    256_000,
    460_800,
    512_000,
    750_000,
    921_600,
    1_000_000,
];

/// How long the TF03 may take to answer a command. The manual gives a
/// command no response within one second as failed.
pub const RESPONSE_TIMEOUT_MS: u64 = 1_000;

/// Largest chunk taken from the UART in one read.
pub const RX_CHUNK: usize = 64;

/// What the driver can fail at.
#[derive(Debug)]
pub enum Error<E> {
    /// The underlying UART returned an error. On esp-hal this includes RX
    /// FIFO overflows, after which reading can simply continue.
    Uart(E),
    /// The UART stream reported end of file.
    EndOfStream,
    /// The TF03 did not answer a command in time.
    Timeout,
    /// The TF03 answered a command with this nonzero status code.
    Rejected(u8),
    /// The TF03 answered a command with something other than the manual
    /// describes.
    Protocol,
    /// The TF03 does not support the value asked for.
    Unsupported,
}

/// One distance reading.
#[derive(Clone, Copy, PartialEq, Eq, Debug)]
pub struct Measurement {
    /// Distance to the target in centimetres, or `None` when nothing was in
    /// range or the return was too weak to trust.
    pub distance_cm: Option<u16>,
    /// The distance field as sent, which reads as the out-of-range threshold
    /// when there was no usable return.
    pub raw_distance_cm: u16,
    /// Strength of the return, from 0 to 3500. Readings between 40 and 1200
    /// are the most reliable; highly reflective targets read above 1500.
    pub strength: u16,
}

/// The firmware version, which the TF03 reports as `major.minor.patch`.
#[derive(Clone, Copy, PartialEq, Eq, Debug)]
pub struct FirmwareVersion {
    pub major: u8,
    pub minor: u8,
    pub patch: u8,
}

/// A TF03 on a UART.
pub struct Tf03<U> {
    uart: U,
    parser: Parser,
    /// The last chunk read from the UART.
    rx_buf: [u8; RX_CHUNK],
    /// How far through `rx_buf` the parser has been fed.
    rx_start: usize,
    /// How much of `rx_buf` holds received bytes.
    rx_end: usize,
    /// The distance that means nothing was measured.
    out_of_range_cm: u16,
}

/// What a [`Tf03`] stands for.
pub struct Tf03View<U> {
    pub uart: U,
    /// The bytes of a partly received packet.
    pub held: Seq<u8>,
    /// The bytes received and not looked at yet.
    pub unread: Seq<u8>,
    /// The distance that means nothing was measured.
    pub out_of_range_cm: u16,
}

/// The measurement that `frame` holds, to a driver that takes
/// `out_of_range_cm` to mean that nothing was measured.
pub open spec fn measured(frame: DataFrame, out_of_range_cm: u16) -> Measurement {
    Measurement {
        distance_cm: if frame.distance_cm < out_of_range_cm && frame.strength
            >= MIN_RELIABLE_STRENGTH {
            Some(frame.distance_cm)
        } else {
            None
        },
        raw_distance_cm: frame.distance_cm,
        strength: frame.strength,
    }
}

/// The next packet that a parser holding `held` finds in `unread`, what it
/// holds then, and the bytes it has not looked at.
pub open spec fn next_packet(held: Seq<u8>, unread: Seq<u8>) -> (
    Option<protocol::PacketView>,
    Seq<u8>,
    Seq<u8>,
)
    decreases unread.len(),
{
    if unread.len() == 0 {
        (None, held, unread)
    } else {
        match protocol::first_packet(held.push(unread[0])) {
            (Some(packet), rest) => (Some(packet), rest, unread.drop_first()),
            (None, rest) => next_packet(rest, unread.drop_first()),
        }
    }
}

/// The next packet that satisfies `wanted`, those before it being dropped.
pub open spec fn next_wanted(
    held: Seq<u8>,
    unread: Seq<u8>,
    wanted: spec_fn(protocol::PacketView) -> bool,
) -> (Option<protocol::PacketView>, Seq<u8>, Seq<u8>)
    decreases unread.len(),
{
    let (packet, rest, left) = next_packet(held, unread);
    proof {
        lemma_next_packet_reads(held, unread);
    }
    match packet {
        Some(packet) if !wanted(packet) => next_wanted(rest, left, wanted),
        _ => (packet, rest, left),
    }
}

/// Whether `packet` is a data frame.
pub open spec fn is_data() -> spec_fn(protocol::PacketView) -> bool {
    |packet: protocol::PacketView| packet is Data
}

/// Whether `packet` answers the command `id`.
pub open spec fn answers(id: u8) -> spec_fn(protocol::PacketView) -> bool {
    |packet: protocol::PacketView| packet matches protocol::PacketView::Response(response)
        && response.id == id
}

/// Looking for a packet uses up bytes.
pub proof fn lemma_next_packet_reads(held: Seq<u8>, unread: Seq<u8>)
    ensures
        next_packet(held, unread).2.len() <= unread.len(),
        next_packet(held, unread).0 is Some ==> next_packet(held, unread).2.len() < unread.len(),
    decreases unread.len(),
{
    if unread.len() > 0 {
        let rest = protocol::first_packet(held.push(unread[0])).1;
        lemma_next_packet_reads(rest, unread.drop_first());
    }
}

impl<U> View for Tf03<U> {
    type V = Tf03View<U>;

    closed spec fn view(&self) -> Tf03View<U> {
        Tf03View {
            uart: self.uart,
            held: self.parser@,
            unread: self.rx_buf@.subrange(self.rx_start as int, self.rx_end as int),
            out_of_range_cm: self.out_of_range_cm,
        }
    }
}

impl<U> Tf03<U> {
    /// The received bytes lie inside the buffer, and the parser is ready for
    /// them.
    pub closed spec fn wf(self) -> bool {
        &&& self.parser.wf()
        &&& self.rx_start <= self.rx_end <= RX_CHUNK
    }

    /// Wraps a UART already configured to match the TF03, 115200 8N1 from
    /// the factory. Nothing is sent.
    pub fn new(uart: U) -> (lidar: Self)
        ensures
            lidar.wf(),
            lidar@ == (Tf03View {
                uart,
                held: Seq::empty(),
                unread: Seq::empty(),
                out_of_range_cm: DEFAULT_OUT_OF_RANGE_CM,
            }),
    {
        let lidar = Self {
            uart,
            parser: Parser::new(),
            rx_buf: [0; RX_CHUNK],
            rx_start: 0,
            rx_end: 0,
            out_of_range_cm: DEFAULT_OUT_OF_RANGE_CM,
        };
        assert(lidar@.unread == Seq::<u8>::empty());
        lidar
    }

    /// Tells the driver about an out-of-range threshold configured on the
    /// TF03 earlier, so readings at that distance are reported as `None`.
    /// The TF03 keeps the threshold in flash and has no command to read it
    /// back.
    pub fn with_out_of_range_threshold(self, threshold_cm: u16) -> (lidar: Self)
        ensures
            self.wf() ==> lidar.wf(),
            lidar@ == (Tf03View { out_of_range_cm: threshold_cm, ..self@ }),
    {
        let mut lidar = self;
        lidar.out_of_range_cm = threshold_cm;
        lidar
    }

    /// Hands the UART back.
    pub fn release(self) -> (uart: U)
        ensures
            uart == self@.uart,
    {
        self.uart
    }

    /// The UART, to read from or write to.
    pub fn uart_mut(&mut self) -> (uart: &mut U)
        ensures
            *uart == old(self)@.uart,
            final(self)@ == (Tf03View { uart: *final(uart), ..old(self)@ }),
            old(self).wf() ==> final(self).wf(),
    {
        &mut self.uart
    }

    /// What `frame` says of the distance.
    pub fn measurement(&self, frame: DataFrame) -> (measurement: Measurement)
        ensures
            measurement == measured(frame, self@.out_of_range_cm),
            measurement.raw_distance_cm == frame.distance_cm,
            measurement.strength == frame.strength,
            measurement.distance_cm == if frame.distance_cm < self@.out_of_range_cm
                && frame.strength >= 40 {
                Some(frame.distance_cm)
            } else {
                None
            },
    {
        let usable = frame.distance_cm < self.out_of_range_cm && frame.strength
            >= MIN_RELIABLE_STRENGTH;
        Measurement {
            distance_cm: if usable {
                Some(frame.distance_cm)
            } else {
                None
            },
            raw_distance_cm: frame.distance_cm,
            strength: frame.strength,
        }
    }

    /// Whether everything that was received has been read.
    pub fn is_read_out(&self) -> (read_out: bool)
        requires
            self.wf(),
        ensures
            read_out == (self@.unread.len() == 0),
    {
        self.rx_start == self.rx_end
    }

    /// Takes over what a read of the UART brought, once everything that an
    /// earlier one brought has been read.
    ///
    /// A stream that brings nothing has ended. After an error bytes were
    /// probably lost, so whatever the parser holds would be spliced onto an
    /// unrelated later packet, and is forgotten.
    pub fn received<E>(&mut self, outcome: Result<&[u8], E>) -> (result: Result<(), Error<E>>)
        requires
            old(self).wf(),
            old(self)@.unread.len() == 0,
            outcome matches Ok(bytes) ==> bytes.len() <= RX_CHUNK,
        ensures
            final(self).wf(),
            match outcome {
                Ok(bytes) => if bytes@.len() == 0 {
                    &&& result == Err::<(), Error<E>>(Error::EndOfStream)
                    &&& final(self)@ == old(self)@
                } else {
                    &&& result == Ok::<(), Error<E>>(())
                    &&& final(self)@ == (Tf03View { unread: bytes@, ..old(self)@ })
                },
                Err(error) => {
                    &&& result == Err::<(), Error<E>>(Error::Uart(error))
                    &&& final(self)@ == (Tf03View {
                        held: Seq::empty(),
                        unread: Seq::empty(),
                        ..old(self)@
                    })
                },
            },
    {
        match outcome {
            Ok(bytes) => {
                if bytes.len() == 0 {
                    return Err(Error::EndOfStream);
                }
                copy_into(&mut self.rx_buf, 0, bytes);
                self.rx_start = 0;
                self.rx_end = bytes.len();
                assert(self@.unread == bytes@);
                Ok(())
            },
            Err(error) => {
                self.parser.reset();
                assert(self@.unread == Seq::<u8>::empty());
                Err(Error::Uart(error))
            },
        }
    }

    /// The next packet of either kind, as far as received bytes reach.
    pub fn read_packet(&mut self) -> (packet: Option<Packet>)
        requires
            old(self).wf(),
        ensures
            final(self).wf(),
            packet matches Some(packet) ==> packet.wf(),
            final(self)@ == (Tf03View {
                held: next_packet(old(self)@.held, old(self)@.unread).1,
                unread: next_packet(old(self)@.held, old(self)@.unread).2,
                ..old(self)@
            }),
            match packet {
                Some(packet) => Some(packet@),
                None => None,
            } == next_packet(old(self)@.held, old(self)@.unread).0,
            packet is None ==> final(self)@.unread.len() == 0,
    {
        while self.rx_start < self.rx_end
            invariant
                self.wf(),
                self@.uart == old(self)@.uart,
                self@.out_of_range_cm == old(self)@.out_of_range_cm,
                next_packet(self@.held, self@.unread) == next_packet(
                    old(self)@.held,
                    old(self)@.unread,
                ),
            decreases self.rx_end - self.rx_start,
        {
            let ghost unread = self@.unread;
            let byte: u8 = self.rx_buf[self.rx_start];
            assert(byte == unread[0]);
            self.rx_start = self.rx_start + 1;
            assert(self@.unread == unread.drop_first());
            if let Some(packet) = self.parser.push(byte) {
                return Some(packet);
            }
        }
        None
    }

    /// The next measurement, as far as received bytes reach.
    ///
    /// Any command responses that arrive in the meantime are dropped.
    pub fn read(&mut self) -> (measurement: Option<Measurement>)
        requires
            old(self).wf(),
        ensures
            final(self).wf(),
            final(self)@ == (Tf03View {
                held: next_wanted(old(self)@.held, old(self)@.unread, is_data()).1,
                unread: next_wanted(old(self)@.held, old(self)@.unread, is_data()).2,
                ..old(self)@
            }),
            match next_wanted(old(self)@.held, old(self)@.unread, is_data()).0 {
                Some(protocol::PacketView::Data(frame)) => measurement == Some(
                    measured(frame, old(self)@.out_of_range_cm),
                ),
                _ => measurement is None,
            },
            measurement is None ==> final(self)@.unread.len() == 0,
    {
        loop
            invariant
                self.wf(),
                self@.uart == old(self)@.uart,
                self@.out_of_range_cm == old(self)@.out_of_range_cm,
                next_wanted(self@.held, self@.unread, is_data()) == next_wanted(
                    old(self)@.held,
                    old(self)@.unread,
                    is_data(),
                ),
            decreases self@.unread.len(),
        {
            proof {
                lemma_next_packet_reads(self@.held, self@.unread);
            }
            match self.read_packet() {
                Some(Packet::Data(frame)) => {
                    return Some(self.measurement(frame));
                },
                Some(Packet::Response(_)) => {},
                None => {
                    return None;
                },
            }
        }
    }

    /// The TF03's answer to the command `id`, as far as received bytes reach,
    /// skipping data frames and answers to anything else.
    pub fn await_response(&mut self, id: u8) -> (response: Option<Response>)
        requires
            old(self).wf(),
        ensures
            final(self).wf(),
            response matches Some(response) ==> response.wf(),
            final(self)@ == (Tf03View {
                held: next_wanted(old(self)@.held, old(self)@.unread, answers(id)).1,
                unread: next_wanted(old(self)@.held, old(self)@.unread, answers(id)).2,
                ..old(self)@
            }),
            match response {
                Some(response) => Some(protocol::PacketView::Response(response@)),
                None => None,
            } == next_wanted(old(self)@.held, old(self)@.unread, answers(id)).0,
            response is None ==> final(self)@.unread.len() == 0,
    {
        loop
            invariant
                self.wf(),
                self@.uart == old(self)@.uart,
                self@.out_of_range_cm == old(self)@.out_of_range_cm,
                next_wanted(self@.held, self@.unread, answers(id)) == next_wanted(
                    old(self)@.held,
                    old(self)@.unread,
                    answers(id),
                ),
            decreases self@.unread.len(),
        {
            proof {
                lemma_next_packet_reads(self@.held, self@.unread);
            }
            match self.read_packet() {
                Some(Packet::Response(response)) => {
                    if response.id == id {
                        return Some(response);
                    }
                },
                Some(Packet::Data(_)) => {},
                None => {
                    return None;
                },
            }
        }
    }
}

impl<U> Tf03<U> {
    /// Asks for the firmware version, which
    /// [`FirmwareVersion::from_response`] reads. Also a cheap way to check the
    /// TF03 is there and the baud rate matches.
    pub fn firmware_version(&self) -> (command: Command)
        ensures
            command.wf(),
            command@ == protocol::command_frame(COMMAND_FIRMWARE_VERSION, Seq::empty()),
    {
        Command::new(COMMAND_FIRMWARE_VERSION, &[])
    }

    /// Reboots the TF03. Settings in flash are kept. The TF03 answers with a
    /// status.
    pub fn system_reset(&self) -> (command: Command)
        ensures
            command.wf(),
            command@ == protocol::command_frame(COMMAND_SYSTEM_RESET, Seq::empty()),
    {
        Command::new(COMMAND_SYSTEM_RESET, &[])
    }

    /// Sets how many measurements per second the TF03 streams. The TF03
    /// answers with an echo.
    ///
    /// The TF03 supports rates of the form `n × 10^k` for `n` from 1 to 9 and
    /// `k` from 0 to 3, i.e. 1–9, 10–90, 100–900 and 1000–9000 Hz; Benewake
    /// rates it for up to 1000 Hz. Anything else is refused here, since the
    /// TF03 itself would quietly fall back to 100 Hz. Mind the baud rate: see
    /// the module documentation.
    pub fn set_frame_rate<E>(&self, hz: u16) -> (command: Result<Command, Error<E>>)
        ensures
            match command {
                Ok(command) => {
                    &&& frame_rate(hz)
                    &&& command.wf()
                    &&& command@ == protocol::command_frame(
                        COMMAND_FRAME_RATE,
                        crate::bytes::u16_bytes(hz),
                    )
                },
                Err(error) => !frame_rate(hz) && error == Error::<E>::Unsupported,
            },
    {
        if !is_supported_frame_rate(hz) {
            return Err(Error::Unsupported);
        }
        Ok(Command::new(COMMAND_FRAME_RATE, &write_u16(hz)))
    }

    /// Starts or stops the automatic stream of measurements. With output
    /// stopped, the TF03 measures only when [`Tf03::trigger`] asks. The TF03
    /// answers with an echo.
    pub fn set_output_enabled(&self, enabled: bool) -> (command: Command)
        ensures
            command.wf(),
            command@ == protocol::command_frame(
                COMMAND_OUTPUT_ENABLE,
                seq![if enabled { 1u8 } else { 0u8 }],
            ),
    {
        let payload: [u8; 1] = [if enabled { 1u8 } else { 0u8 }];
        assert(payload@ == seq![if enabled { 1u8 } else { 0u8 }]);
        Command::new(COMMAND_OUTPUT_ENABLE, &payload)
    }

    /// Asks for a single measurement, which the TF03 sends as a data frame
    /// and not as an answer. Meant for when output has been stopped with
    /// [`Tf03::set_output_enabled`]; otherwise whichever streamed measurement
    /// arrives next is taken for it.
    pub fn trigger(&self) -> (command: Command)
        ensures
            command.wf(),
            command@ == protocol::command_frame(COMMAND_TRIGGER, Seq::empty()),
    {
        Command::new(COMMAND_TRIGGER, &[])
    }

    /// Changes the TF03's UART baud rate. The TF03 answers with an echo.
    ///
    /// The host UART has to be reconfigured to match afterwards, and the
    /// manual does not say which of the two rates the TF03 answers this
    /// command at. No answer in time therefore does not mean the change
    /// failed: switch the host UART over and confirm with
    /// [`Tf03::firmware_version`].
    pub fn set_baud_rate<E>(&self, baud: u32) -> (command: Result<Command, Error<E>>)
        ensures
            match command {
                Ok(command) => {
                    &&& SUPPORTED_BAUD_RATES@.contains(baud)
                    &&& command.wf()
                    &&& command@ == protocol::command_frame(
                        COMMAND_BAUD_RATE,
                        crate::bytes::u32_bytes(baud),
                    )
                },
                Err(error) => {
                    &&& !SUPPORTED_BAUD_RATES@.contains(baud)
                    &&& error == Error::<E>::Unsupported
                },
            },
    {
        if !is_supported_baud_rate(baud) {
            return Err(Error::Unsupported);
        }
        Ok(Command::new(COMMAND_BAUD_RATE, &write_u32(baud)))
    }

    /// Sets the distance the TF03 reports when nothing is in range. The TF03
    /// answers with a status, to be handed to
    /// [`Tf03::out_of_range_threshold_set`].
    pub fn set_out_of_range_threshold(&self, threshold_cm: u16) -> (command: Command)
        ensures
            command.wf(),
            command@ == protocol::command_frame(
                COMMAND_OUT_OF_RANGE,
                crate::bytes::u16_bytes(threshold_cm),
            ),
    {
        Command::new(COMMAND_OUT_OF_RANGE, &write_u16(threshold_cm))
    }

    /// Takes the TF03's answer to a new out-of-range threshold. If the TF03
    /// took it over, the driver reports readings at that distance as `None`.
    pub fn out_of_range_threshold_set<E>(&mut self, threshold_cm: u16, response: &Response) -> (
        result: Result<(), Error<E>>)
        requires
            old(self).wf(),
            response.wf(),
        ensures
            final(self).wf(),
            result == status::<E>(response@.payload),
            final(self)@ == if result is Ok {
                Tf03View { out_of_range_cm: threshold_cm, ..old(self)@ }
            } else {
                old(self)@
            },
    {
        let result = check_status(response);
        if let Ok(_) = result {
            self.out_of_range_cm = threshold_cm;
        }
        result
    }

    /// Writes the current settings to flash. The TF03 answers with a status.
    ///
    /// The manual says settings are stored once acknowledged, but also lists
    /// this command; calling it after configuring costs nothing.
    pub fn save_settings(&self) -> (command: Command)
        ensures
            command.wf(),
            command@ == protocol::command_frame(COMMAND_SAVE_SETTINGS, Seq::empty()),
    {
        Command::new(COMMAND_SAVE_SETTINGS, &[])
    }

    /// Restores factory settings, including a baud rate of 115200 and a
    /// frame rate of 100 Hz. The TF03 answers with a status, to be handed to
    /// [`Tf03::defaults_restored`].
    pub fn restore_defaults(&self) -> (command: Command)
        ensures
            command.wf(),
            command@ == protocol::command_frame(COMMAND_RESTORE_DEFAULTS, Seq::empty()),
    {
        Command::new(COMMAND_RESTORE_DEFAULTS, &[])
    }

    /// Takes the TF03's answer to the command to restore factory settings,
    /// which bring back the factory's out-of-range threshold.
    pub fn defaults_restored<E>(&mut self, response: &Response) -> (result: Result<(), Error<E>>)
        requires
            old(self).wf(),
            response.wf(),
        ensures
            final(self).wf(),
            result == status::<E>(response@.payload),
            final(self)@ == if result is Ok {
                Tf03View { out_of_range_cm: DEFAULT_OUT_OF_RANGE_CM, ..old(self)@ }
            } else {
                old(self)@
            },
    {
        self.out_of_range_threshold_set(DEFAULT_OUT_OF_RANGE_CM, response)
    }
}

impl FirmwareVersion {
    /// Reads the TF03's answer to [`Tf03::firmware_version`], three bytes of
    /// which the most significant comes last.
    pub fn from_response<E>(response: &Response) -> (version: Result<Self, Error<E>>)
        requires
            response.wf(),
        ensures
            version == if response@.payload.len() == 3 {
                Ok(
                    FirmwareVersion {
                        patch: response@.payload[0],
                        minor: response@.payload[1],
                        major: response@.payload[2],
                    },
                )
            } else {
                Err::<Self, Error<E>>(Error::Protocol)
            },
    {
        let payload = response.payload();
        if payload.len() == 3 {
            Ok(FirmwareVersion { patch: payload[0], minor: payload[1], major: payload[2] })
        } else {
            Err(Error::Protocol)
        }
    }
}

/// `n × 10^k`.
pub open spec fn times_ten_to(n: int, k: int) -> int
    decreases k,
{
    if k <= 0 {
        n
    } else {
        10 * times_ten_to(n, k - 1)
    }
}

/// Whether the TF03 can stream `hz` measurements per second.
pub open spec fn frame_rate(hz: u16) -> bool {
    exists|n: int, k: int| 1 <= n <= 9 && 0 <= k <= 3 && hz == #[trigger] times_ten_to(n, k)
}

/// Whether `hz` is of the form `n × 10^k` with `n` in 1..=9 and `k` in 0..=3.
pub fn is_supported_frame_rate(hz: u16) -> (supported: bool)
    ensures
        supported == frame_rate(hz),
{
    let units = 1 <= hz && hz <= 9;
    let tens = hz % 10 == 0 && 1 <= hz / 10 && hz / 10 <= 9;
    let hundreds = hz % 100 == 0 && 1 <= hz / 100 && hz / 100 <= 9;
    let thousands = hz % 1000 == 0 && 1 <= hz / 1000 && hz / 1000 <= 9;
    proof {
        assert forall|n: int, k: int| 1 <= n <= 9 && 0 <= k <= 3 && hz == #[trigger] times_ten_to(
            n,
            k,
        ) implies units || tens || hundreds || thousands by {
            lemma_times_ten_to(n);
        }
        lemma_times_ten_to(hz as int);
        lemma_times_ten_to(hz as int / 10);
        lemma_times_ten_to(hz as int / 100);
        lemma_times_ten_to(hz as int / 1000);
    }
    units || tens || hundreds || thousands
}

/// `n` times each power of ten that a frame rate may have.
pub(crate) proof fn lemma_times_ten_to(n: int)
    ensures
        times_ten_to(n, 0) == n,
        times_ten_to(n, 1) == n * 10,
        times_ten_to(n, 2) == n * 100,
        times_ten_to(n, 3) == n * 1000,
{
    reveal_with_fuel(times_ten_to, 4);
}

/// Whether the TF03 accepts the baud rate `baud`.
pub fn is_supported_baud_rate(baud: u32) -> (supported: bool)
    ensures
        supported == SUPPORTED_BAUD_RATES@.contains(baud),
{
    let rates: [u32; 15] = SUPPORTED_BAUD_RATES;
    let mut at: usize = 0;
    while at < 15
        invariant
            at <= 15,
            rates@ == SUPPORTED_BAUD_RATES@,
            forall|tried: int| 0 <= tried < at ==> rates@[tried] != baud,
        decreases 15 - at,
    {
        if rates[at] == baud {
            assert(SUPPORTED_BAUD_RATES@[at as int] == baud);
            return true;
        }
        at = at + 1;
    }
    false
}

/// What an answer of a single status byte says of the command.
pub open spec fn status<E>(payload: Seq<u8>) -> Result<(), Error<E>> {
    if payload.len() != 1 {
        Err(Error::Protocol)
    } else if payload[0] != 0 {
        Err(Error::Rejected(payload[0]))
    } else {
        Ok(())
    }
}

/// For commands the TF03 acknowledges with a single status byte.
pub fn check_status<E>(response: &Response) -> (result: Result<(), Error<E>>)
    requires
        response.wf(),
    ensures
        result == status::<E>(response@.payload),
{
    let payload = response.payload();
    if payload.len() != 1 {
        Err(Error::Protocol)
    } else if payload[0] != 0 {
        Err(Error::Rejected(payload[0]))
    } else {
        Ok(())
    }
}

/// For commands the TF03 acknowledges by sending the command back.
pub fn check_echo<E>(command: &Command, response: &Response) -> (result: Result<(), Error<E>>)
    requires
        command.wf(),
        response.wf(),
    ensures
        result == if response@.payload == command@.subrange(3, command@.len() - 1) {
            Ok(())
        } else {
            Err::<(), Error<E>>(Error::Protocol)
        },
{
    if same_bytes(response.payload(), command.payload()) {
        Ok(())
    } else {
        Err(Error::Protocol)
    }
}

/// Whether the TF03 acknowledges the command `id` by sending it back.
pub open spec fn is_echoed(id: u8) -> bool {
    id == COMMAND_FRAME_RATE || id == COMMAND_BAUD_RATE || id == COMMAND_OUTPUT_ENABLE
}

/// Whether the TF03 acknowledges the command `id` with a single status byte.
pub open spec fn is_given_status(id: u8) -> bool {
    id == COMMAND_SYSTEM_RESET || id == COMMAND_RESTORE_DEFAULTS || id == COMMAND_SAVE_SETTINGS
        || id == COMMAND_OUT_OF_RANGE
}

/// What the TF03's answer to a command that it acknowledges says of it.
///
/// The other two commands are not acknowledged: the firmware version is read
/// with [`FirmwareVersion::from_response`], and a trigger is followed by a
/// measurement.
pub fn settled<E>(command: &Command, response: &Response) -> (result: Result<(), Error<E>>)
    requires
        command.wf(),
        response.wf(),
        is_echoed(command@[2]) || is_given_status(command@[2]),
    ensures
        is_given_status(command@[2]) ==> result == status::<E>(response@.payload),
        is_echoed(command@[2]) ==> result == if response@.payload == command@.subrange(
            3,
            command@.len() - 1,
        ) {
            Ok(())
        } else {
            Err::<(), Error<E>>(Error::Protocol)
        },
{
    match command.id() {
        COMMAND_FRAME_RATE | COMMAND_BAUD_RATE | COMMAND_OUTPUT_ENABLE => {
            check_echo(command, response)
        },
        _ => check_status(response),
    }
}

/// Reading packets off one chunk after another gives what a parser returns
/// that is given the chunk byte by byte, in the same order, and leaves the
/// parser as that would. So it does not matter how the UART cuts the stream
/// up; see [`stream::law_streams_join`].
pub proof fn law_packets_are_read_in_order(held: Seq<u8>, unread: Seq<u8>)
    ensures
        match next_packet(held, unread) {
            (None, rest, left) => {
                &&& stream::fed(held, unread) == (Seq::<protocol::PacketView>::empty(), rest)
                &&& left.len() == 0
            },
            (Some(packet), rest, left) => {
                &&& stream::fed(held, unread).0 == seq![packet] + stream::fed(rest, left).0
                &&& stream::fed(held, unread).1 == stream::fed(rest, left).1
            },
        },
    decreases unread.len(),
{
    if unread.len() > 0 {
        let (packet, rest) = protocol::first_packet(held.push(unread[0]));
        law_packets_are_read_in_order(rest, unread.drop_first());
        assert(Seq::<protocol::PacketView>::empty() + stream::fed(rest, unread.drop_first()).0
            == stream::fed(rest, unread.drop_first()).0);
    }
}

/// Looking for packets of one kind finds every one of that kind in the
/// stream, in order, and nothing else.
pub proof fn law_wanted_packets_are_found_in_order(
    held: Seq<u8>,
    unread: Seq<u8>,
    wanted: spec_fn(protocol::PacketView) -> bool,
)
    ensures
        match next_wanted(held, unread, wanted) {
            (None, rest, left) => {
                &&& stream::fed(held, unread).0.filter(wanted).len() == 0
                &&& stream::fed(held, unread).1 == rest
                &&& left.len() == 0
            },
            (Some(packet), rest, left) => {
                &&& stream::fed(held, unread).0.filter(wanted) == seq![packet] + stream::fed(
                    rest,
                    left,
                ).0.filter(wanted)
                &&& stream::fed(held, unread).1 == stream::fed(rest, left).1
            },
        },
    decreases unread.len(),
{
    law_packets_are_read_in_order(held, unread);
    lemma_next_packet_reads(held, unread);
    let (packet, rest, left) = next_packet(held, unread);
    match packet {
        Some(packet) => {
            let one = seq![packet];
            let later = stream::fed(rest, left).0;
            Seq::filter_distributes_over_add(one, later, wanted);
            reveal_with_fuel(Seq::filter, 2);
            assert(one.drop_last() == Seq::<protocol::PacketView>::empty());
            if wanted(packet) {
                assert(one.filter(wanted) == one);
            } else {
                assert(one.filter(wanted) == Seq::<protocol::PacketView>::empty());
                assert(stream::fed(held, unread).0.filter(wanted) == later.filter(wanted));
                law_wanted_packets_are_found_in_order(rest, left, wanted);
            }
        },
        None => {
            reveal_with_fuel(Seq::filter, 1);
        },
    }
}

/// A command sent back as it is counts as its own answer, and [`check_echo`]
/// accepts it.
pub proof fn law_echo_answers_its_command(command: Command, id: u8, payload: Seq<u8>)
    requires
        payload.len() <= protocol::MAX_PAYLOAD,
        command@ == protocol::command_frame(id, payload),
    ensures
        ({
            let (packet, rest) = protocol::first_packet(command@);
            &&& packet is Some
            &&& answers(command@[2])(packet.unwrap())
            &&& packet.unwrap()->Response_0.payload == command@.subrange(3, command@.len() - 1)
            &&& rest.len() == 0
        }),
{
    stream::law_command_frame_reads_back(id, payload, Seq::empty());
    assert(command@ + Seq::<u8>::empty() == command@);
    assert(payload == command@.subrange(3, command@.len() - 1));
}

} // verus!
