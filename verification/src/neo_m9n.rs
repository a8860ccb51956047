//! Driver core for the u-blox NEO-M9N GNSS receiver (as on the SparkFun
//! GPS-15733 breakout).
//!
//! The receiver speaks two protocols on the same line: NMEA text, which it
//! sends from the factory, and u-blox's binary UBX. This driver uses UBX
//! only. It asks for one `UBX-NAV-PVT` message per navigation solution, which
//! carries position, velocity, time and their accuracy estimates in a single
//! 100 byte frame, and turns NMEA output off so the line carries nothing
//! else.
//!
//! Framing and checksums come from the `ublox` crate, through [`ubx`], and
//! [`stream`] says what that makes of a stream with noise in it; this module
//! adds the configuration, the handling of what arrives, and a plain
//! [`Solution`] type that does not borrow from the parser.
//!
//! A [`NeoM9n`] carries the UART but never touches it. Its owner reads the
//! UART and hands over what came with [`NeoM9n::received`], takes solutions
//! with [`NeoM9n::read`], and writes the frames that [`NeoM9n::configure`] and
//! [`NeoM9n::version`] build. What the receiver answers to those is looked for
//! with [`NeoM9n::await_ack`] and [`NeoM9n::read_version`].
//!
//! # Interface
//!
//! The NEO-M9N has UART, I²C and SPI. This driver uses UART1, which the
//! SparkFun board breaks out as TX/RX at 3.3 V, so it wires straight to
//! ESP32-S3 GPIOs. The factory baud rate is 38400 8N1. A NAV-PVT frame is 100
//! bytes, so 38400 baud carries it at the receiver's full 25 Hz with room to
//! spare, and there is no reason to change the rate.
//!
//! # Configuration
//!
//! The M9 generation is configured with key/value pairs (`UBX-CFG-VALSET`);
//! the older `CFG-PRT`/`CFG-MSG` messages are gone. [`NeoM9n::configure`]
//! writes to the RAM layer only, so nothing is left behind in the receiver's
//! flash and a fresh board and a reused one behave the same after a power
//! cycle. Call it once at start-up.

pub mod fixed_str;
pub mod frame_writer;
pub mod laws;
pub mod solution;
pub mod stream;
pub mod ubx;
pub mod version;

pub use fixed_str::FixedStr;
pub use frame_writer::FrameWriter;
pub use solution::{FixType, Solution, UtcTime};
pub use ubx::RX_CHUNK;
pub use version::Version;

use crate::bytes::copy_into;
use ubx::{Setting, UbxFrame, UbxParser, FRAME_OVERHEAD, PARSER_BUF, SYNC_LEN};
use vstd::prelude::*;
use vstd::slice::slice_subrange;

verus! {

/// The baud rate the NEO-M9N's UART1 uses from the factory.
pub const DEFAULT_BAUD_RATE: u32 = 38_400;

/// The fastest navigation rate the NEO-M9N supports.
pub const MAX_NAV_RATE_HZ: u8 = 25;

/// How long the receiver may take to answer a poll or acknowledge a
/// configuration. u-blox answers within a navigation epoch; one second covers
/// the slowest rate this driver configures.
pub const RESPONSE_TIMEOUT_MS: u64 = 1_000;

/// Room for the configuration [`NeoM9n::configure`] sends: a 4 byte header,
/// six keys of at most 6 bytes each, and 8 bytes of framing.
pub const CONFIG_BUF: usize = 64;

/// The configuration layer that a power cycle clears.
pub const LAYER_RAM: u8 = 0b001;

/// What the driver can fail at.
#[derive(Debug)]
pub enum Error<E> {
    /// The underlying UART returned an error. On esp-hal this includes RX
    /// FIFO overflows, after which reading can simply continue.
    Uart(E),
    /// The UART stream reported end of file.
    EndOfStream,
    /// The receiver did not answer in time.
    Timeout,
    /// The receiver refused a configuration message (`UBX-ACK-NAK`).
    Rejected,
    /// The receiver does not support the value asked for.
    Unsupported,
}

/// The UBX messages this driver acts on, copied out of the parser.
#[derive(Debug)]
pub enum Message {
    Solution(Solution),
    Version(Version),
    Ack { class: u8, id: u8 },
    Nak { class: u8, id: u8 },
}

/// What a [`Message`] says.
pub enum MessageView {
    Solution(Solution),
    Version(version::VersionView),
    Ack { class: u8, id: u8 },
    Nak { class: u8, id: u8 },
}

impl View for Message {
    type V = MessageView;

    open spec fn view(&self) -> MessageView {
        match *self {
            Message::Solution(solution) => MessageView::Solution(solution),
            Message::Version(version) => MessageView::Version(version@),
            Message::Ack { class, id } => MessageView::Ack { class, id },
            Message::Nak { class, id } => MessageView::Nak { class, id },
        }
    }
}

/// What `message` says, if there is one.
pub open spec fn shown(message: Option<Message>) -> Option<MessageView> {
    match message {
        Some(message) => Some(message@),
        None => None,
    }
}

/// The message that `frame` carries, if this driver acts on it.
pub open spec fn understood(frame: ubx::UbxFrameView) -> Option<MessageView> {
    match frame {
        ubx::UbxFrameView::NavPvt(payload) => Some(
            MessageView::Solution(solution::solved(payload)),
        ),
        ubx::UbxFrameView::MonVer { software, hardware, extensions } => Some(
            MessageView::Version(version::described(software, hardware, extensions)),
        ),
        ubx::UbxFrameView::AckAck { class, id } => Some(MessageView::Ack { class, id }),
        ubx::UbxFrameView::AckNak { class, id } => Some(MessageView::Nak { class, id }),
        _ => None,
    }
}

impl Message {
    /// The strings in a version are well formed.
    pub open spec fn wf(self) -> bool {
        self matches Message::Version(version) ==> version.wf()
    }

    /// The message that `frame` carries, if this driver acts on it.
    pub fn from_packet(frame: UbxFrame) -> (message: Option<Self>)
        requires
            frame matches UbxFrame::NavPvt(payload) ==> payload@.len() == ubx::NAV_PVT_LEN,
        ensures
            message matches Some(message) ==> message.wf(),
            shown(message) == understood(frame@),
    {
        match frame {
            UbxFrame::NavPvt(payload) => Some(
                Self::Solution(Solution::from_nav_pvt(payload.as_slice())),
            ),
            UbxFrame::MonVer { software, hardware, extensions } => Some(
                Self::Version(
                    Version::from_mon_ver(
                        software.as_str(),
                        hardware.as_str(),
                        extensions.as_slice(),
                    ),
                ),
            ),
            UbxFrame::AckAck { class, id } => Some(Self::Ack { class, id }),
            UbxFrame::AckNak { class, id } => Some(Self::Nak { class, id }),
            UbxFrame::Other => None,
            UbxFrame::Corrupt => None,
        }
    }
}

/// How many of the last bytes given to the parser it had no room for, when it
/// held `before` and was given `count`, found `frame` and then holds `after`.
pub open spec fn lost(
    before: nat,
    count: nat,
    frame: Option<ubx::UbxFrameView>,
    after: nat,
) -> int {
    if frame is Some && before + count > PARSER_BUF + SYNC_LEN && after == PARSER_BUF {
        before + count - PARSER_BUF - SYNC_LEN
    } else {
        0
    }
}

/// What the parser finds next, when it holds `held` and `unread` has arrived,
/// what it holds then, and what is left to give to it. It is first looked for
/// in what is held, and then with everything that has arrived. What the parser
/// has no room for is given to it again.
pub open spec fn fed(held: Seq<u8>, unread: Seq<u8>) -> (
    Option<ubx::UbxFrameView>,
    Seq<u8>,
    Seq<u8>,
) {
    let (found, kept) = ubx::ubx_next(held, Seq::empty());
    if found is Some || unread.len() == 0 {
        (found, kept, unread)
    } else {
        let (frame, rest) = ubx::ubx_next(kept, unread);
        let again = lost(kept.len(), unread.len(), frame, rest.len());
        (frame, rest, unread.skip(unread.len() - again))
    }
}

/// The next message that this driver acts on, when the parser holds `held` and
/// `unread` has arrived, what the parser holds then, and what is left to give
/// to it. Every other message is dropped, and so are frames that are not
/// sound.
pub open spec fn next_message(held: Seq<u8>, unread: Seq<u8>) -> (
    Option<MessageView>,
    Seq<u8>,
    Seq<u8>,
)
    decreases held.len() + unread.len(),
{
    let (frame, rest, left) = fed(held, unread);
    match frame {
        None => (None, rest, left),
        Some(frame) => match understood(frame) {
            Some(message) => (Some(message), rest, left),
            None if rest.len() + left.len() < held.len() + unread.len() => next_message(
                rest,
                left,
            ),
            None => (None, rest, left),
        },
    }
}

/// The next message that satisfies `wanted`, those before it being dropped.
pub open spec fn next_wanted(
    held: Seq<u8>,
    unread: Seq<u8>,
    wanted: spec_fn(MessageView) -> bool,
) -> (Option<MessageView>, Seq<u8>, Seq<u8>)
    decreases held.len() + unread.len(),
{
    let (message, rest, left) = next_message(held, unread);
    match message {
        Some(message) if !wanted(message) && rest.len() + left.len() < held.len()
            + unread.len() => next_wanted(rest, left, wanted),
        _ => (message, rest, left),
    }
}

/// Whether a message is a navigation solution.
pub open spec fn is_solution() -> spec_fn(MessageView) -> bool {
    |message: MessageView| message is Solution
}

/// Whether a message says what the receiver is.
pub open spec fn is_version() -> spec_fn(MessageView) -> bool {
    |message: MessageView| message is Version
}

/// Whether a message acknowledges or refuses the message `id` of `class`.
pub open spec fn is_verdict_on(class: u8, id: u8) -> spec_fn(MessageView) -> bool {
    |message: MessageView|
        message == (MessageView::Ack { class, id }) || message == (MessageView::Nak { class, id })
}

/// What messages are looked for.
#[derive(Clone, Copy, PartialEq, Eq, Debug)]
pub enum Wanted {
    /// A navigation solution.
    Solution,
    /// What the receiver is.
    Version,
    /// An acknowledgement or a refusal of the message `id` of `class`.
    Verdict { class: u8, id: u8 },
}

impl Wanted {
    /// Whether a message is one of them.
    pub open spec fn means(self) -> spec_fn(MessageView) -> bool {
        match self {
            Wanted::Solution => is_solution(),
            Wanted::Version => is_version(),
            Wanted::Verdict { class, id } => is_verdict_on(class, id),
        }
    }

    /// Whether `message` is one of them.
    pub fn accepts(self, message: &Message) -> (wanted: bool)
        ensures
            wanted == self.means()(message@),
    {
        match (self, message) {
            (Wanted::Solution, Message::Solution(_)) => true,
            (Wanted::Version, Message::Version(_)) => true,
            (Wanted::Verdict { class, id }, Message::Ack { class: of, id: message }) => {
                *of == class && *message == id
            },
            (Wanted::Verdict { class, id }, Message::Nak { class: of, id: message }) => {
                *of == class && *message == id
            },
            _ => false,
        }
    }
}

/// What an acknowledgement or a refusal means.
pub open spec fn ruled<E>(message: Option<MessageView>) -> Option<Result<(), Error<E>>> {
    match message {
        None => None,
        Some(MessageView::Ack { .. }) => Some(Ok(())),
        Some(_) => Some(Err(Error::Rejected)),
    }
}

/// What is set to have `rate_hz` solutions a second, and nothing but them.
pub open spec fn settings(rate_hz: u8) -> Seq<Setting> {
    seq![
        Setting::Uart1InProtUbx(true),
        Setting::Uart1OutProtUbx(true),
        Setting::Uart1OutProtNmea(false),
        Setting::MsgOutUbxNavPvtUart1(1),
        Setting::RateMeas((1000int / rate_hz as int) as u16),
        Setting::RateNav(1),
    ]
}

/// A NEO-M9N on a UART.
pub struct NeoM9n<U> {
    uart: U,
    /// UBX frames are up to a few hundred bytes and arrive split across UART
    /// reads, so the parser keeps a partial frame between them.
    parser: UbxParser,
    /// The last chunk read from the UART.
    rx_buf: [u8; RX_CHUNK],
    /// How far through `rx_buf` the parser has been fed.
    rx_start: usize,
    /// How much of `rx_buf` holds received bytes.
    rx_end: usize,
}

/// What a [`NeoM9n`] stands for.
pub struct NeoM9nView<U> {
    pub uart: U,
    /// The bytes that the parser holds.
    pub held: Seq<u8>,
    /// The bytes received and not handed to the parser yet.
    pub unread: Seq<u8>,
}

impl<U> View for NeoM9n<U> {
    type V = NeoM9nView<U>;

    closed spec fn view(&self) -> NeoM9nView<U> {
        NeoM9nView {
            uart: self.uart,
            held: ubx::ubx_held(self.parser),
            unread: self.rx_buf@.subrange(self.rx_start as int, self.rx_end as int),
        }
    }
}

impl<U> NeoM9n<U> {
    /// The received bytes lie inside the buffer, and the parser holds no more
    /// than it has room for.
    pub closed spec fn wf(self) -> bool {
        &&& self.rx_start <= self.rx_end <= RX_CHUNK
        &&& ubx::ubx_held(self.parser).len() <= PARSER_BUF
    }

    /// Wraps a UART already configured to match the receiver,
    /// [`DEFAULT_BAUD_RATE`] 8N1 from the factory. Nothing is sent.
    pub fn new(uart: U) -> (gps: Self)
        ensures
            gps.wf(),
            gps@ == (NeoM9nView { uart, held: Seq::empty(), unread: Seq::empty() }),
    {
        let gps = Self {
            uart,
            parser: ubx::new_parser(),
            rx_buf: [0; RX_CHUNK],
            rx_start: 0,
            rx_end: 0,
        };
        assert(gps@.unread == Seq::<u8>::empty());
        gps
    }

    /// Hands the UART back.
    pub fn release(self) -> (uart: U)
        ensures
            uart == self@.uart,
    {
        self.uart
    }

    /// The UART, to read from or write to.
    pub fn uart_mut(&mut self) -> (uart: &mut U)
        ensures
            *uart == old(self)@.uart,
            final(self)@ == (NeoM9nView { uart: *final(uart), ..old(self)@ }),
            old(self).wf() ==> final(self).wf(),
    {
        &mut self.uart
    }

    /// Whether the parser has been given everything that was received.
    pub fn is_read_out(&self) -> (read_out: bool)
        requires
            self.wf(),
        ensures
            read_out == (self@.unread.len() == 0),
    {
        self.rx_start == self.rx_end
    }

    /// Takes over what a read of the UART brought, once the parser has been
    /// given everything that an earlier one brought.
    ///
    /// A stream that brings nothing has ended. After an error bytes were
    /// probably lost, so a partial frame in the parser would be spliced onto
    /// an unrelated later one, and is forgotten.
    pub fn received<E>(&mut self, outcome: Result<&[u8], E>) -> (result: Result<(), Error<E>>)
        requires
            old(self).wf(),
            old(self)@.unread.len() == 0,
            outcome matches Ok(bytes) ==> bytes.len() <= RX_CHUNK,
        ensures
            final(self).wf(),
            match outcome {
                Ok(bytes) => if bytes@.len() == 0 {
                    &&& result == Err::<(), Error<E>>(Error::EndOfStream)
                    &&& final(self)@ == old(self)@
                } else {
                    &&& result == Ok::<(), Error<E>>(())
                    &&& final(self)@ == (NeoM9nView { unread: bytes@, ..old(self)@ })
                },
                Err(error) => {
                    &&& result == Err::<(), Error<E>>(Error::Uart(error))
                    &&& final(self)@ == (NeoM9nView {
                        held: Seq::empty(),
                        unread: Seq::empty(),
                        ..old(self)@
                    })
                },
            },
    {
        match outcome {
            Ok(bytes) => {
                if bytes.len() == 0 {
                    return Err(Error::EndOfStream);
                }
                copy_into(&mut self.rx_buf, 0, bytes);
                self.rx_start = 0;
                self.rx_end = bytes.len();
                assert(self@.unread == bytes@);
                Ok(())
            },
            Err(error) => {
                self.parser = ubx::new_parser();
                assert(self@.unread == Seq::<u8>::empty());
                Err(Error::Uart(error))
            },
        }
    }

    /// Has the parser look for the next frame, first in what it holds and then
    /// with what was received.
    fn feed(&mut self) -> (frame: Option<UbxFrame>)
        requires
            old(self).wf(),
        ensures
            final(self).wf(),
            final(self)@.uart == old(self)@.uart,
            (ubx::shown(frame), final(self)@.held, final(self)@.unread) == fed(
                old(self)@.held,
                old(self)@.unread,
            ),
            frame is None ==> final(self)@.unread.len() == 0,
            frame is Some ==> final(self)@.held.len() + final(self)@.unread.len() < old(
                self,
            )@.held.len() + old(self)@.unread.len(),
            ubx::is_end_of(
                final(self)@.held + final(self)@.unread,
                old(self)@.held + old(self)@.unread,
            ),
            frame matches Some(UbxFrame::NavPvt(payload)) ==> payload@.len() == ubx::NAV_PVT_LEN,
            ({
                let bytes = old(self)@.held + old(self)@.unread;
                let rest = final(self)@.held + final(self)@.unread;
                let message = match frame {
                    Some(frame) => understood(frame@),
                    None => None,
                };
                &&& message is Some ==> stream::settles(bytes, stream::any(), message, rest)
                &&& message is None ==> stream::leads_to(bytes, rest, stream::any())
                &&& frame is None ==> stream::settles(bytes, stream::any(), None, rest)
            }),
    {
        let ghost held = self@.held;
        let ghost unread = self@.unread;
        let ghost bytes = held + unread;
        let none: [u8; 0] = [];
        assert(none@ == Seq::<u8>::empty());
        let found = ubx::next_frame(&mut self.parser, &none);
        let ghost kept = self@.held;
        proof {
            assert(held + none@ == held);
            assert(bytes.take(held.len() as int) == held);
            assert(bytes.skip(held.len() as int) == unread);
            assert(self@.unread == unread);
            assert(kept + unread == bytes.skip(bytes.len() - (kept + unread).len()));
        }
        if found.is_some() || self.is_read_out() {
            proof {
                stream::lemma_frame_leads_on(
                    bytes,
                    held.len() as int,
                    ubx::shown(found),
                    kept,
                );
                if unread.len() == 0 {
                    assert(bytes == held);
                    assert(kept + unread == kept);
                }
            }
            return found;
        }
        let before: usize = ubx::held_len(&self.parser);
        let count: usize = self.rx_end - self.rx_start;
        let given = slice_subrange(&self.rx_buf, self.rx_start, self.rx_end);
        let frame = ubx::next_frame(&mut self.parser, given);
        // The parser silently drops what its buffer has no room for. It does
        // so only where it gives up on a frame, of which it then uses up two
        // bytes.
        let after: usize = ubx::held_len(&self.parser);
        self.rx_start = if frame.is_some() && before + count > PARSER_BUF + SYNC_LEN && after
            == PARSER_BUF {
            self.rx_end - (before + count - PARSER_BUF - SYNC_LEN)
        } else {
            self.rx_end
        };
        proof {
            let all = kept + unread;
            let again = lost(kept.len(), unread.len(), ubx::shown(frame), self@.held.len());
            let rest = self@.held + self@.unread;
            assert(given@ == unread);
            assert(self@.unread == unread.skip(unread.len() - again));
            if again > 0 {
                assert(self@.unread == all.skip(PARSER_BUF + SYNC_LEN));
                assert(rest == all.skip(SYNC_LEN as int));
            } else {
                assert(self@.unread == Seq::<u8>::empty());
                assert(rest == self@.held);
            }
            assert(ubx::is_end_of(rest, all));
            assert(rest == bytes.skip(bytes.len() - rest.len()));
            stream::lemma_chunk_leads_on(
                bytes,
                held.len() as int,
                kept,
                ubx::shown(frame),
                self@.held,
                rest,
            );
        }
        frame
    }

    /// The next UBX message this driver understands, as far as received bytes
    /// reach.
    ///
    /// Stopping at a message leaves the rest for next time. Corrupted frames
    /// and NMEA text are skipped by the parser, and nothing behind them is
    /// lost.
    pub fn read_message(&mut self) -> (message: Option<Message>)
        requires
            old(self).wf(),
        ensures
            final(self).wf(),
            message matches Some(message) ==> message.wf(),
            (
                shown(message),
                final(self)@.held,
                final(self)@.unread,
            ) == next_message(old(self)@.held, old(self)@.unread),
            final(self)@.uart == old(self)@.uart,
            message is None ==> final(self)@.unread.len() == 0,
            message is Some ==> final(self)@.held.len() + final(self)@.unread.len() < old(
                self,
            )@.held.len() + old(self)@.unread.len(),
            ubx::is_end_of(
                final(self)@.held + final(self)@.unread,
                old(self)@.held + old(self)@.unread,
            ),
            stream::settles(
                old(self)@.held + old(self)@.unread,
                stream::any(),
                shown(message),
                final(self)@.held + final(self)@.unread,
            ),
    {
        let ghost bytes = self@.held + self@.unread;
        proof {
            stream::lemma_leads_to_itself(bytes, stream::any());
            assert(bytes == bytes.skip(0));
        }
        loop
            invariant
                self.wf(),
                self@.uart == old(self)@.uart,
                bytes == old(self)@.held + old(self)@.unread,
                next_message(self@.held, self@.unread) == next_message(
                    old(self)@.held,
                    old(self)@.unread,
                ),
                ubx::is_end_of(self@.held + self@.unread, bytes),
                stream::leads_to(bytes, self@.held + self@.unread, stream::any()),
            decreases self@.held.len() + self@.unread.len(),
        {
            let ghost before = self@.held + self@.unread;
            let frame = self.feed();
            let ghost rest = self@.held + self@.unread;
            proof {
                stream::lemma_leads_on(bytes, before, stream::any(), None, rest);
                assert(rest == bytes.skip(bytes.len() - rest.len()));
            }
            match frame {
                None => {
                    return None;
                },
                Some(frame) => {
                    let ghost found = understood(frame@);
                    if let Some(message) = Message::from_packet(frame) {
                        proof {
                            stream::lemma_leads_on(bytes, before, stream::any(), found, rest);
                        }
                        return Some(message);
                    }
                },
            }
        }
    }

    /// The next message that is wanted, as far as received bytes reach,
    /// skipping everything else.
    fn seek(&mut self, wanted: Wanted) -> (message: Option<Message>)
        requires
            old(self).wf(),
        ensures
            final(self).wf(),
            message matches Some(message) ==> message.wf() && wanted.means()(message@),
            (shown(message), final(self)@.held, final(self)@.unread) == next_wanted(
                old(self)@.held,
                old(self)@.unread,
                wanted.means(),
            ),
            final(self)@.uart == old(self)@.uart,
            message is None ==> final(self)@.unread.len() == 0,
            ubx::is_end_of(
                final(self)@.held + final(self)@.unread,
                old(self)@.held + old(self)@.unread,
            ),
            stream::settles(
                old(self)@.held + old(self)@.unread,
                wanted.means(),
                shown(message),
                final(self)@.held + final(self)@.unread,
            ),
    {
        let ghost bytes = self@.held + self@.unread;
        let ghost means = wanted.means();
        proof {
            stream::lemma_leads_to_itself(bytes, means);
            assert(bytes == bytes.skip(0));
        }
        loop
            invariant
                self.wf(),
                self@.uart == old(self)@.uart,
                bytes == old(self)@.held + old(self)@.unread,
                means == wanted.means(),
                next_wanted(self@.held, self@.unread, means) == next_wanted(
                    old(self)@.held,
                    old(self)@.unread,
                    means,
                ),
                ubx::is_end_of(self@.held + self@.unread, bytes),
                stream::leads_to(bytes, self@.held + self@.unread, means),
            decreases self@.held.len() + self@.unread.len(),
        {
            let ghost before = self@.held + self@.unread;
            let found = self.read_message();
            proof {
                let rest = self@.held + self@.unread;
                assert(rest == bytes.skip(bytes.len() - rest.len()));
                stream::lemma_wanted_or_not(before, means, shown(found), rest);
                stream::lemma_leads_on(bytes, before, means, shown(found), rest);
            }
            match found {
                None => {
                    return None;
                },
                Some(message) => {
                    if wanted.accepts(&message) {
                        return Some(message);
                    }
                },
            }
        }
    }

    /// The next navigation solution, as far as received bytes reach.
    ///
    /// Solutions arrive once per navigation epoch whether or not there is a
    /// fix; check [`Solution::position`] before using the position.
    pub fn read(&mut self) -> (solution: Option<Solution>)
        requires
            old(self).wf(),
        ensures
            final(self).wf(),
            ({
                let message = match solution {
                    Some(solution) => Some(MessageView::Solution(solution)),
                    None => None,
                };
                &&& (message, final(self)@.held, final(self)@.unread) == next_wanted(
                    old(self)@.held,
                    old(self)@.unread,
                    is_solution(),
                )
                &&& stream::settles(
                    old(self)@.held + old(self)@.unread,
                    is_solution(),
                    message,
                    final(self)@.held + final(self)@.unread,
                )
            }),
            final(self)@.uart == old(self)@.uart,
            solution is None ==> final(self)@.unread.len() == 0,
            ubx::is_end_of(
                final(self)@.held + final(self)@.unread,
                old(self)@.held + old(self)@.unread,
            ),
    {
        match self.seek(Wanted::Solution) {
            Some(Message::Solution(solution)) => Some(solution),
            _ => None,
        }
    }

    /// The receiver's answer to [`NeoM9n::version`], as far as received bytes
    /// reach, skipping everything else.
    pub fn read_version(&mut self) -> (version: Option<Version>)
        requires
            old(self).wf(),
        ensures
            final(self).wf(),
            version matches Some(version) ==> version.wf(),
            ({
                let message = match version {
                    Some(version) => Some(MessageView::Version(version@)),
                    None => None,
                };
                &&& (message, final(self)@.held, final(self)@.unread) == next_wanted(
                    old(self)@.held,
                    old(self)@.unread,
                    is_version(),
                )
                &&& stream::settles(
                    old(self)@.held + old(self)@.unread,
                    is_version(),
                    message,
                    final(self)@.held + final(self)@.unread,
                )
            }),
            final(self)@.uart == old(self)@.uart,
            version is None ==> final(self)@.unread.len() == 0,
            ubx::is_end_of(
                final(self)@.held + final(self)@.unread,
                old(self)@.held + old(self)@.unread,
            ),
    {
        match self.seek(Wanted::Version) {
            Some(Message::Version(version)) => Some(version),
            _ => None,
        }
    }

    /// Whether the receiver has acknowledged or refused the message `id` of
    /// `class`, as far as received bytes reach, skipping everything else.
    pub fn await_ack<E>(&mut self, class: u8, id: u8) -> (verdict: Option<Result<(), Error<E>>>)
        requires
            old(self).wf(),
        ensures
            final(self).wf(),
            ({
                let (message, held, unread) = next_wanted(
                    old(self)@.held,
                    old(self)@.unread,
                    is_verdict_on(class, id),
                );
                &&& final(self)@.held == held
                &&& final(self)@.unread == unread
                &&& verdict == ruled::<E>(message)
                &&& stream::settles(
                    old(self)@.held + old(self)@.unread,
                    is_verdict_on(class, id),
                    message,
                    held + unread,
                )
            }),
            final(self)@.uart == old(self)@.uart,
            verdict is None ==> final(self)@.unread.len() == 0,
            ubx::is_end_of(
                final(self)@.held + final(self)@.unread,
                old(self)@.held + old(self)@.unread,
            ),
    {
        match self.seek(Wanted::Verdict { class, id }) {
            None => None,
            Some(Message::Ack { .. }) => Some(Ok(())),
            Some(_) => Some(Err(Error::Rejected)),
        }
    }

    /// Switches UART1 to UBX-only output and sets the receiver to send one
    /// `UBX-NAV-PVT` per solution, `rate_hz` solutions a second. The receiver
    /// acknowledges or refuses it.
    ///
    /// Written to RAM only; see the module documentation. `rate_hz` must be
    /// between 1 and [`MAX_NAV_RATE_HZ`].
    pub fn configure<E>(&self, rate_hz: u8) -> (frame: Result<FrameWriter<CONFIG_BUF>, Error<E>>)
        ensures
            match frame {
                Ok(frame) => {
                    &&& 1 <= rate_hz <= MAX_NAV_RATE_HZ
                    &&& frame.wf()
                    &&& frame@ == (frame_writer::FrameWriterView {
                        written: ubx::ubx_frame(
                            ubx::CLASS_CFG,
                            ubx::ID_CFG_VALSET,
                            ubx::valset(0, LAYER_RAM, 0, settings(rate_hz)),
                        ),
                        overflowed: false,
                    })
                },
                Err(error) => {
                    &&& !(1 <= rate_hz <= MAX_NAV_RATE_HZ)
                    &&& error == Error::<E>::Unsupported
                },
            },
    {
        if !(1 <= rate_hz && rate_hz <= MAX_NAV_RATE_HZ) {
            return Err(Error::Unsupported);
        }
        let wanted: [Setting; 6] = [
            Setting::Uart1InProtUbx(true),
            Setting::Uart1OutProtUbx(true),
            Setting::Uart1OutProtNmea(false),
            // One NAV-PVT per navigation solution.
            Setting::MsgOutUbxNavPvtUart1(1),
            // Measure every 1000 / rate_hz ms, and compute a solution from
            // every measurement.
            Setting::RateMeas(1000 / rate_hz as u16),
            Setting::RateNav(1),
        ];
        assert(wanted@ == settings(rate_hz));
        let frame = ubx::valset_frame(0, LAYER_RAM, 0, &wanted);
        proof {
            lemma_settings_fit(rate_hz);
        }
        let mut writer: FrameWriter<CONFIG_BUF> = FrameWriter::new();
        writer.extend(frame.as_slice());
        assert(Seq::<u8>::empty() + frame@ == frame@);
        // CONFIG_BUF is sized for exactly these settings, so this only fails
        // if someone adds one without growing it.
        if writer.frame().is_none() {
            return Err(Error::Unsupported);
        }
        Ok(writer)
    }

    /// Asks the receiver what it is, which [`NeoM9n::read_version`] reads. Also
    /// a cheap way to check it is there and the baud rate matches.
    pub fn version(&self) -> (frame: [u8; FRAME_OVERHEAD])
        ensures
            frame@ == ubx::ubx_frame(ubx::CLASS_MON, ubx::ID_MON_VER, Seq::empty()),
    {
        ubx::version_request()
    }
}

/// The configuration fits the room kept for it.
proof fn lemma_settings_fit(rate_hz: u8)
    ensures
        ubx::ubx_frame(
            ubx::CLASS_CFG,
            ubx::ID_CFG_VALSET,
            ubx::valset(0, LAYER_RAM, 0, settings(rate_hz)),
        ).len() <= CONFIG_BUF,
{
    reveal_with_fuel(ubx::pairs, 7);
}

} // verus!
