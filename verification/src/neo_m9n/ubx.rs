//! The UBX protocol, as the `ublox` crate speaks it.
//!
//! Everything that rests on that crate stands here: the parser that finds
//! frames in a byte stream, and the builders of the frames that are sent.

use ublox::cfg_val::CfgVal;
use ublox::packets::cfg_val::{CfgLayerSet, CfgValSetBuilder};
use ublox::packets::mon_ver::MonVer;
use ublox::proto31::{PacketRef, Proto31};
use ublox::{FixedBuffer, Parser, UbxPacket, UbxPacketRequest};
use vstd::prelude::*;
#[allow(unused_imports)]
use vstd::utf8;

verus! {

/// How much the UBX parser holds between reads. The largest message this
/// driver reads is `UBX-MON-VER`: 40 bytes plus 30 per extension string, a
/// few hundred bytes in all.
pub const PARSER_BUF: usize = 1024;

/// Largest chunk taken from the UART in one read, and handed to the parser.
pub const RX_CHUNK: usize = 64;

/// Length of what stands before a frame's payload.
pub const HEADER_LEN: usize = 6;

/// The longest payload that the parser takes a header at its word for.
pub const MAX_PAYLOAD: u16 = 8176;

/// How many bytes every frame begins with.
pub const SYNC_LEN: usize = 2;

/// First byte of every frame.
pub const SYNC_CHAR_1: u8 = 0xB5;

/// Second byte of every frame.
pub const SYNC_CHAR_2: u8 = 0x62;

/// Bytes of a frame around its payload: two to synchronise on, the class, the
/// ID, two of length and two of checksum.
pub const FRAME_OVERHEAD: usize = 8;

/// Class of the navigation messages.
pub const CLASS_NAV: u8 = 0x01;

/// Class of the acknowledgements.
pub const CLASS_ACK: u8 = 0x05;

/// Class of the configuration messages.
pub const CLASS_CFG: u8 = 0x06;

/// Class of the monitoring messages.
pub const CLASS_MON: u8 = 0x0A;

/// ID of `UBX-NAV-PVT`.
pub const ID_NAV_PVT: u8 = 0x07;

/// ID of `UBX-ACK-NAK`.
pub const ID_ACK_NAK: u8 = 0x00;

/// ID of `UBX-ACK-ACK`.
pub const ID_ACK_ACK: u8 = 0x01;

/// ID of `UBX-CFG-VALSET`.
pub const ID_CFG_VALSET: u8 = 0x8A;

/// ID of `UBX-MON-VER`.
pub const ID_MON_VER: u8 = 0x04;

/// Length of the payload of `UBX-NAV-PVT`.
pub const NAV_PVT_LEN: usize = 92;

/// Length of the payload of an acknowledgement.
pub const ACK_LEN: usize = 2;

/// Length of a field of `UBX-MON-VER` for the software version or an extension.
pub const LONG_FIELD: usize = 30;

/// Length of the field of `UBX-MON-VER` for the hardware version.
pub const SHORT_FIELD: usize = 10;

/// The checksum of `bytes`: their sum, and the sum of the sums so far, each
/// modulo 256.
pub open spec fn fletcher(bytes: Seq<u8>) -> (u8, u8)
    decreases bytes.len(),
{
    if bytes.len() == 0 {
        (0, 0)
    } else {
        let (a, b) = fletcher(bytes.drop_last());
        let sum = ((a + bytes.last()) % 0x100) as u8;
        (sum, ((b + sum) % 0x100) as u8)
    }
}

/// The part of a frame that its checksum covers.
pub open spec fn frame_body(class: u8, id: u8, payload: Seq<u8>) -> Seq<u8> {
    seq![class, id] + crate::bytes::u16_bytes(payload.len() as u16) + payload
}

/// The frame that carries the message `id` of `class`.
pub open spec fn ubx_frame(class: u8, id: u8, payload: Seq<u8>) -> Seq<u8> {
    let body = frame_body(class, id, payload);
    seq![SYNC_CHAR_1, SYNC_CHAR_2] + body + seq![fletcher(body).0, fletcher(body).1]
}

/// What the parser makes of the bytes of one frame.
#[derive(Debug)]
pub enum UbxFrame {
    /// The payload of `UBX-NAV-PVT`.
    NavPvt(Vec<u8>),
    /// The strings of `UBX-MON-VER`.
    MonVer { software: String, hardware: String, extensions: Vec<String> },
    /// `UBX-ACK-ACK` for the message `id` of `class`.
    AckAck { class: u8, id: u8 },
    /// `UBX-ACK-NAK` for the message `id` of `class`.
    AckNak { class: u8, id: u8 },
    /// Another message.
    Other,
    /// A frame that is not sound.
    Corrupt,
}

/// What a [`UbxFrame`] says.
pub enum UbxFrameView {
    NavPvt(Seq<u8>),
    MonVer { software: Seq<char>, hardware: Seq<char>, extensions: Seq<Seq<char>> },
    AckAck { class: u8, id: u8 },
    AckNak { class: u8, id: u8 },
    Other,
    Corrupt,
}

/// What each of `strings` says.
pub open spec fn texts(strings: Seq<String>) -> Seq<Seq<char>> {
    strings.map_values(|string: String| string@)
}

impl View for UbxFrame {
    type V = UbxFrameView;

    open spec fn view(&self) -> UbxFrameView {
        match *self {
            UbxFrame::NavPvt(payload) => UbxFrameView::NavPvt(payload@),
            UbxFrame::MonVer { software, hardware, extensions } => UbxFrameView::MonVer {
                software: software@,
                hardware: hardware@,
                extensions: texts(extensions@),
            },
            UbxFrame::AckAck { class, id } => UbxFrameView::AckAck { class, id },
            UbxFrame::AckNak { class, id } => UbxFrameView::AckNak { class, id },
            UbxFrame::Other => UbxFrameView::Other,
            UbxFrame::Corrupt => UbxFrameView::Corrupt,
        }
    }
}

/// What `frame` says, if there is one.
pub open spec fn shown(frame: Option<UbxFrame>) -> Option<UbxFrameView> {
    match frame {
        Some(frame) => Some(frame@),
        None => None,
    }
}

/// The bytes before the first zero, if there is one.
pub open spec fn until_zero(bytes: Seq<u8>) -> Option<Seq<u8>>
    decreases bytes.len(),
{
    if bytes.len() == 0 {
        None
    } else if bytes[0] == 0 {
        Some(Seq::empty())
    } else {
        match until_zero(bytes.drop_first()) {
            Some(rest) => Some(seq![bytes[0]] + rest),
            None => None,
        }
    }
}

/// The text in a field that a zero ends, if it is valid UTF-8.
pub open spec fn field_text(field: Seq<u8>) -> Option<Seq<char>> {
    match until_zero(field) {
        Some(bytes) if utf8::valid_utf8(bytes) => Some(utf8::decode_utf8(bytes)),
        _ => None,
    }
}

/// The texts in a row of fields, as long as each of them holds one. Empty ones
/// are left out.
pub open spec fn field_texts(fields: Seq<u8>) -> Option<Seq<Seq<char>>>
    decreases fields.len(),
{
    if fields.len() == 0 {
        Some(Seq::empty())
    } else if fields.len() < LONG_FIELD {
        None
    } else {
        match (field_text(fields.take(LONG_FIELD as int)), field_texts(
            fields.skip(LONG_FIELD as int),
        )) {
            (Some(text), Some(rest)) => Some(
                if text.len() == 0 {
                    rest
                } else {
                    seq![text] + rest
                },
            ),
            _ => None,
        }
    }
}

/// The strings in a `UBX-MON-VER` payload, if it holds nothing else.
pub open spec fn version_strings(payload: Seq<u8>) -> Option<UbxFrameView> {
    if payload.len() < LONG_FIELD + SHORT_FIELD {
        None
    } else {
        match (
            field_text(payload.take(LONG_FIELD as int)),
            field_text(payload.subrange(LONG_FIELD as int, LONG_FIELD + SHORT_FIELD)),
            field_texts(payload.skip(LONG_FIELD + SHORT_FIELD)),
        ) {
            (Some(software), Some(hardware), Some(extensions)) => Some(
                UbxFrameView::MonVer { software, hardware, extensions },
            ),
            _ => None,
        }
    }
}

/// What the message `id` of `class` says, if it is one that this driver acts
/// on and `payload` has the form laid down for it.
pub open spec fn carried(class: u8, id: u8, payload: Seq<u8>) -> Option<UbxFrameView> {
    if class == CLASS_NAV && id == ID_NAV_PVT && payload.len() == NAV_PVT_LEN {
        Some(UbxFrameView::NavPvt(payload))
    } else if class == CLASS_MON && id == ID_MON_VER {
        version_strings(payload)
    } else if class == CLASS_ACK && id == ID_ACK_ACK && payload.len() == ACK_LEN {
        Some(UbxFrameView::AckAck { class: payload[0], id: payload[1] })
    } else if class == CLASS_ACK && id == ID_ACK_NAK && payload.len() == ACK_LEN {
        Some(UbxFrameView::AckNak { class: payload[0], id: payload[1] })
    } else {
        None
    }
}

/// What stands behind the class and the ID of a frame.
pub enum Body {
    /// A payload and a checksum, which may be wrong.
    Whole { payload: Seq<u8>, check: (u8, u8) },
    /// A length that the parser's buffer has no room for, as a damaged header
    /// may hold.
    Overlong { len: u16 },
}

/// A stretch of a byte stream: bytes that belong to no frame, and a frame or
/// the header of one behind them.
pub struct Piece {
    pub noise: Seq<u8>,
    pub class: u8,
    pub id: u8,
    pub body: Body,
}

/// Whether the bytes from `at` on begin with what could be a header if more
/// bytes came.
pub open spec fn is_open(bytes: Seq<u8>, at: int) -> bool {
    &&& bytes[at] == SYNC_CHAR_1
    &&& at + 1 < bytes.len() ==> bytes[at + 1] == SYNC_CHAR_2 && at + HEADER_LEN > bytes.len()
}

/// Whether the bytes from `at` on begin with a header with a length that the
/// parser does not take at its word.
pub open spec fn is_absurd(bytes: Seq<u8>, at: int) -> bool {
    &&& at + HEADER_LEN <= bytes.len()
    &&& bytes[at + 1] == SYNC_CHAR_2
    &&& crate::bytes::u16_le(bytes, at + 4) > MAX_PAYLOAD
}

/// Whether no frame begins among `bytes`, whatever follows them: where the
/// first byte of a frame stands, either not the second follows it or an absurd
/// header.
pub open spec fn quiet(bytes: Seq<u8>) -> bool {
    forall|at: int|
        0 <= at < bytes.len() && #[trigger] bytes[at] == SYNC_CHAR_1 ==> (at + 1 < bytes.len()
            && bytes[at + 1] != SYNC_CHAR_2) || is_absurd(bytes, at)
}

/// The first place from which on `bytes` could be a header if more bytes came.
pub open spec fn first_open(bytes: Seq<u8>) -> int
    decreases bytes.len(),
{
    if bytes.len() == 0 || is_open(bytes, 0) {
        0
    } else {
        1 + first_open(bytes.drop_first())
    }
}

/// What of `bytes` the parser's buffer has room for.
pub open spec fn kept(bytes: Seq<u8>) -> Seq<u8> {
    if bytes.len() <= PARSER_BUF {
        bytes
    } else {
        bytes.take(PARSER_BUF as int)
    }
}

impl Piece {
    /// The frame, or its header.
    pub open spec fn frame(self) -> Seq<u8> {
        match self.body {
            Body::Whole { payload, check } => seq![SYNC_CHAR_1, SYNC_CHAR_2] + frame_body(
                self.class,
                self.id,
                payload,
            ) + seq![check.0, check.1],
            Body::Overlong { len } => seq![SYNC_CHAR_1, SYNC_CHAR_2, self.class, self.id]
                + crate::bytes::u16_bytes(len),
        }
    }

    /// The noise and the frame.
    pub open spec fn bytes(self) -> Seq<u8> {
        self.noise + self.frame()
    }

    /// Whether the frame is whole and its checksum right.
    pub open spec fn sound(self) -> bool {
        match self.body {
            Body::Whole { payload, check } => check == fletcher(
                frame_body(self.class, self.id, payload),
            ),
            Body::Overlong { .. } => false,
        }
    }

    /// What the frame says, if this driver acts on it.
    pub open spec fn message(self) -> Option<UbxFrameView> {
        match self.body {
            Body::Whole { payload, .. } => carried(self.class, self.id, payload),
            Body::Overlong { .. } => None,
        }
    }

    /// Whether the noise is noise, and the parser's buffer has room for what
    /// follows the header if the frame is whole, and none if it is too long.
    pub open spec fn fits(self) -> bool {
        &&& quiet(self.noise)
        &&& match self.body {
            Body::Whole { payload, .. } => payload.len() + FRAME_OVERHEAD <= PARSER_BUF
                + HEADER_LEN,
            Body::Overlong { len } => {
                &&& PARSER_BUF + HEADER_LEN < len + FRAME_OVERHEAD
                &&& len <= MAX_PAYLOAD
            },
        }
    }

    /// How many bytes have to arrive before it is known what comes of the
    /// frame: all of it, or more than the parser's buffer has room for.
    pub open spec fn needed(self) -> int {
        self.noise.len() + if self.body is Whole && self.frame().len() <= PARSER_BUF {
            self.frame().len() as int
        } else {
            PARSER_BUF + 1
        }
    }

    /// What of `bytes`, which open with this stretch, is held: what stands
    /// behind the noise, or could do so for all that is known.
    pub open spec fn begun(self, bytes: Seq<u8>) -> Seq<u8> {
        if bytes.len() <= self.noise.len() {
            bytes.skip(first_open(bytes))
        } else {
            bytes.skip(self.noise.len() as int)
        }
    }
}

/// Whether `a` and `b` agree as far as both go.
pub open spec fn agree(a: Seq<u8>, b: Seq<u8>) -> bool {
    forall|at: int| 0 <= at < a.len() && at < b.len() ==> #[trigger] a[at] == b[at]
}

/// Whether `bytes` open with `piece`, as far as they go, and too few of them
/// have arrived to know what comes of it.
pub open spec fn arriving(bytes: Seq<u8>, piece: Piece) -> bool {
    &&& piece.fits()
    &&& bytes.len() < piece.needed()
    &&& agree(bytes, piece.bytes())
}

/// Whether `bytes` open with `piece`, as far as they go, and enough of them
/// have arrived to know what comes of it.
pub open spec fn arrived(bytes: Seq<u8>, piece: Piece) -> bool {
    &&& piece.fits()
    &&& piece.needed() <= bytes.len()
    &&& agree(bytes, piece.bytes())
}

/// What comes of `piece` once `bytes`, which open with it, have arrived: a
/// sound frame that is all there is taken for what it says and used up. Every
/// other frame is corrupt, and what it begins with is used up.
pub open spec fn comes_of(
    bytes: Seq<u8>,
    piece: Piece,
    frame: Option<UbxFrameView>,
    held: Seq<u8>,
) -> bool {
    &&& frame is Some
    &&& if piece.sound() && bytes.len() >= piece.bytes().len() {
        &&& taken_for(piece, frame.unwrap())
        &&& held == kept(bytes.skip(piece.bytes().len() as int))
    } else {
        &&& frame.unwrap() is Corrupt
        &&& held == kept(bytes.skip(piece.noise.len() + SYNC_LEN))
    }
}

/// Whether `frame` is what a sound frame with `piece`'s message is taken for:
/// what it says if this driver acts on it, and otherwise nothing that this
/// driver acts on.
pub open spec fn taken_for(piece: Piece, frame: UbxFrameView) -> bool {
    match piece.message() {
        Some(message) => frame == message,
        None => frame is Other || frame is Corrupt,
    }
}

/// The `ublox` crate's streaming parser, with a buffer of [`PARSER_BUF`] bytes
/// and the messages of protocol version 31.
#[verifier::external_body]
pub struct UbxParser {
    parser: Parser<FixedBuffer<PARSER_BUF>, Proto31>,
}

/// Whether `end` is how `bytes` end.
pub open spec fn is_end_of(end: Seq<u8>, bytes: Seq<u8>) -> bool {
    &&& end.len() <= bytes.len()
    &&& end == bytes.skip(bytes.len() - end.len())
}

/// Whether nothing is to be found in what is `held` until more arrives.
pub open spec fn settled(held: Seq<u8>) -> bool {
    ubx_next(held, Seq::empty()) == (None::<UbxFrameView>, held)
}

/// The bytes that a parser holds between reads.
pub uninterp spec fn ubx_held(parser: UbxParser) -> Seq<u8>;

/// What `Parser::consume_ubx` yields first when the parser holds `held` and is
/// given `fresh`, and what the parser holds once the walk stops there.
pub uninterp spec fn ubx_next(held: Seq<u8>, fresh: Seq<u8>) -> (Option<UbxFrameView>, Seq<u8>);

/// Calls `ublox::Parser::with_fixed_buffer`, whose parser holds nothing.
#[verifier::external_body]
pub(crate) fn new_parser() -> (parser: UbxParser)
    ensures
        ubx_held(parser) == Seq::<u8>::empty(),
{
    UbxParser { parser: Parser::with_fixed_buffer() }
}

/// Calls `ublox::Parser::buffer_len`, which is how many bytes a parser holds.
#[verifier::external_body]
pub(crate) fn held_len(parser: &UbxParser) -> (len: usize)
    ensures
        len == ubx_held(*parser).len(),
{
    parser.parser.buffer_len()
}

/// Calls `ublox::Parser::consume_ubx` and takes the first thing that the
/// iterator it returns yields. What that is, and what the parser then holds,
/// is a function of the bytes held and the bytes given.
///
/// Of that function this much is claimed. The payload of a `UBX-NAV-PVT` has
/// the length fixed for it. Whatever is yielded uses up two bytes or more.
/// Where nothing is yielded, what is held are the last of the bytes held and
/// given, and nothing is to be found in them until more arrives. Where
/// something is, the buffer may have no room for all that is left. That is not
/// so if it had room for all but two bytes; and if nothing was to be found in
/// what it held, then either there is room to spare or just the two bytes that
/// a frame begins with were used up.
///
/// Bytes in which no frame begins are dropped, a frame that is not complete is
/// held, and a sound frame yields its message and is used up. A frame with a
/// wrong checksum yields [`UbxFrame::Corrupt`] and uses up the two bytes that
/// it begins with, and so does one that is not complete when the buffer is
/// full.
#[verifier::external_body]
pub(crate) fn next_frame(parser: &mut UbxParser, fresh: &[u8]) -> (frame: Option<UbxFrame>)
    requires
        fresh.len() <= RX_CHUNK,
    ensures
        ubx_next(ubx_held(*old(parser)), fresh@) == (shown(frame), ubx_held(*final(parser))),
        ubx_held(*final(parser)).len() <= PARSER_BUF,
        ubx_held(*final(parser)).len() + (if frame is Some { SYNC_LEN as int } else { 0 })
            <= ubx_held(*old(parser)).len() + fresh@.len(),
        frame is None ==> settled(ubx_held(*final(parser))),
        frame is None || ubx_held(*old(parser)).len() + fresh@.len() <= PARSER_BUF + SYNC_LEN
            ==> is_end_of(ubx_held(*final(parser)), ubx_held(*old(parser)) + fresh@),
        settled(ubx_held(*old(parser))) && ubx_held(*old(parser)).len() + fresh@.len() > PARSER_BUF
            + SYNC_LEN ==> {
            let bytes = ubx_held(*old(parser)) + fresh@;
            ||| ubx_held(*final(parser)).len() < PARSER_BUF && is_end_of(
                ubx_held(*final(parser)),
                bytes,
            )
            ||| ubx_held(*final(parser)) == kept(bytes.skip(SYNC_LEN as int))
        },
        frame matches Some(UbxFrame::NavPvt(payload)) ==> payload@.len() == NAV_PVT_LEN,
        forall|piece: Piece| #[trigger]
            arriving(ubx_held(*old(parser)) + fresh@, piece) ==> {
                &&& frame is None
                &&& ubx_held(*final(parser)) == piece.begun(ubx_held(*old(parser)) + fresh@)
            },
        forall|piece: Piece| #[trigger]
            arrived(ubx_held(*old(parser)) + fresh@, piece) ==> comes_of(
                ubx_held(*old(parser)) + fresh@,
                piece,
                shown(frame),
                ubx_held(*final(parser)),
            ),
{
    let mut packets = parser.parser.consume_ubx(fresh);
    let UbxPacket::Proto31(packet) = match packets.next()? {
        Ok(packet) => packet,
        Err(_) => return Some(UbxFrame::Corrupt),
    };
    Some(match packet {
        PacketRef::NavPvt(pvt) => UbxFrame::NavPvt(pvt.as_bytes().to_vec()),
        PacketRef::MonVer(ver) => UbxFrame::MonVer { software: ver.software_version().into(),
            hardware: ver.hardware_version().into(),
            extensions: ver.extension().map(String::from).collect() },
        PacketRef::AckAck(ack) => UbxFrame::AckAck { class: ack.class(), id: ack.msg_id() },
        PacketRef::AckNak(nak) => UbxFrame::AckNak { class: nak.class(), id: nak.msg_id() },
        _ => UbxFrame::Other,
    })
}

/// One setting of the receiver.
#[derive(Clone, Copy, PartialEq, Eq, Debug)]
pub enum Setting {
    /// Whether UART1 takes UBX in.
    Uart1InProtUbx(bool),
    /// Whether UART1 sends UBX.
    Uart1OutProtUbx(bool),
    /// Whether UART1 sends NMEA.
    Uart1OutProtNmea(bool),
    /// After how many solutions `UBX-NAV-PVT` is sent on UART1.
    MsgOutUbxNavPvtUart1(u8),
    /// Time between measurements, in milliseconds.
    RateMeas(u16),
    /// Measurements per solution.
    RateNav(u16),
}

/// The key that stands for a setting.
pub open spec fn setting_key(setting: Setting) -> u32 {
    match setting {
        Setting::Uart1InProtUbx(_) => 0x1073_0001,
        Setting::Uart1OutProtUbx(_) => 0x1074_0001,
        Setting::Uart1OutProtNmea(_) => 0x1074_0002,
        Setting::MsgOutUbxNavPvtUart1(_) => 0x2091_0007,
        Setting::RateMeas(_) => 0x3021_0001,
        Setting::RateNav(_) => 0x3021_0002,
    }
}

/// The bytes of a setting's value.
pub open spec fn setting_value(setting: Setting) -> Seq<u8> {
    match setting {
        Setting::Uart1InProtUbx(on) => seq![if on { 1u8 } else { 0u8 }],
        Setting::Uart1OutProtUbx(on) => seq![if on { 1u8 } else { 0u8 }],
        Setting::Uart1OutProtNmea(on) => seq![if on { 1u8 } else { 0u8 }],
        Setting::MsgOutUbxNavPvtUart1(rate) => seq![rate],
        Setting::RateMeas(time) => crate::bytes::u16_bytes(time),
        Setting::RateNav(count) => crate::bytes::u16_bytes(count),
    }
}

/// The key/value pairs of `settings`, back to back.
pub open spec fn pairs(settings: Seq<Setting>) -> Seq<u8>
    decreases settings.len(),
{
    if settings.len() == 0 {
        Seq::empty()
    } else {
        pairs(settings.drop_last()) + crate::bytes::u32_bytes(setting_key(settings.last()))
            + setting_value(settings.last())
    }
}

/// The payload of the `UBX-CFG-VALSET` message that applies `settings` to
/// `layers`.
pub open spec fn valset(version: u8, layers: u8, reserved: u16, settings: Seq<Setting>) -> Seq<u8> {
    seq![version, layers] + crate::bytes::u16_bytes(reserved) + pairs(settings)
}

/// The most settings that one `UBX-CFG-VALSET` message may hold.
pub const MAX_SETTINGS: usize = 64;

/// Calls `ublox`'s `CfgValSetBuilder::extend_to`, which writes the frame of a
/// `UBX-CFG-VALSET` message: version, layers and reserved field, then the key
/// and the value of each setting, all of them little endian.
#[verifier::external_body]
pub(crate) fn valset_frame(version: u8, layers: u8, reserved1: u16, settings: &[Setting]) -> (frame:
    Vec<u8>)
    requires
        layers < 8,
        settings.len() <= MAX_SETTINGS,
    ensures
        frame@ == ubx_frame(
            CLASS_CFG,
            ID_CFG_VALSET,
            valset(version, layers, reserved1, settings@),
        ),
{
    let values: Vec<CfgVal> = settings.iter().map(|setting| match *setting {
        Setting::Uart1InProtUbx(on) => CfgVal::Uart1InProtUbx(on),
        Setting::Uart1OutProtUbx(on) => CfgVal::Uart1OutProtUbx(on),
        Setting::Uart1OutProtNmea(on) => CfgVal::Uart1OutProtNmea(on),
        Setting::MsgOutUbxNavPvtUart1(rate) => CfgVal::MsgOutUbxNavPvtUart1(rate),
        Setting::RateMeas(time) => CfgVal::RateMeas(time),
        Setting::RateNav(count) => CfgVal::RateNav(count),
    }).collect();
    let layers = CfgLayerSet::from_bits_truncate(layers);
    let mut frame = Vec::new();
    CfgValSetBuilder { version, layers, reserved1, cfg_data: &values }.extend_to(&mut frame);
    frame
}

/// Calls `ublox`'s `UbxPacketRequest::into_packet_bytes` on a request for
/// `UBX-MON-VER`, which is the frame of that message without a payload.
#[verifier::external_body]
pub(crate) fn version_request() -> (frame: [u8; FRAME_OVERHEAD])
    ensures
        frame@ == ubx_frame(CLASS_MON, ID_MON_VER, Seq::empty()),
{
    UbxPacketRequest::request_for::<MonVer>().into_packet_bytes()
}

} // verus!
