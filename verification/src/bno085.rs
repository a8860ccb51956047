//! Driver core for the CEVA/Hillcrest BNO085 nine axis sensor hub.
//!
//! The BNO085 is not a register mapped IMU. It runs SH-2 sensor fusion
//! firmware on its own microcontroller and speaks a packet protocol: you ask
//! it to start producing a *report* at some rate, and it pushes reports at you
//! until told otherwise. This module implements that protocol.
//!
//! A [`Bno085`] carries the I²C bus and a delay source but never uses them.
//! The methods named after requests build the [`Frame`] to write. What comes
//! back is read in transfers: [`Reading::want`] says how many bytes the next
//! one reads, and its outcome goes to [`Bno085::read_event`], or to
//! [`Bno085::await_reset`] or [`Bno085::await_product_id`] after the requests
//! that are answered.
//!
//! # Interrupt pin
//!
//! The hub drives its `INT` line low when it has a packet waiting. Reading
//! when nothing is pending is harmless — [`Bno085::read_event`] then gives
//! `Ok(None)` — but polling wastes bus bandwidth and, on some boards, reads
//! while the hub is asleep are unreliable. Wire `INT` up and await a falling
//! edge before each read.

pub mod cargo;
pub mod init;
pub mod laws;
pub mod reports;
pub mod run;
pub mod shtp;
pub mod wait;
pub mod walk;

pub use cargo::{Frame, Reading};
pub use reports::{Accuracy, Event, Fixed, Quaternion, RawVec3, SensorData, SensorId, Vec3};

use crate::bytes::{copy_into, read_i32, read_u16, read_u32, write_u16, write_u32};
use cargo::{Progress, MAX_CARGO, MAX_WRITE};
use shtp::{Channel, Header, CHANNELS, HEADER_LEN};
use vstd::prelude::*;
use vstd::slice::slice_subrange;
use wait::{Step, Waiting};
use walk::{REPORT_BASE_TIMESTAMP, REPORT_TIMESTAMP_REBASE, TIMESTAMP_LEN};

verus! {

// Control channel report IDs.
pub const REPORT_COMMAND_REQUEST: u8 = 0xF2;

pub const REPORT_PRODUCT_ID_RESPONSE: u8 = 0xF8;

pub const REPORT_PRODUCT_ID_REQUEST: u8 = 0xF9;

pub const REPORT_SET_FEATURE_COMMAND: u8 = 0xFD;

/// Length of the hub's answer to a product ID request.
pub const PRODUCT_ID_LEN: usize = 16;

/// Both the request we send on the executable channel and the notification the
/// hub sends back once it has rebooted.
pub const EXECUTABLE_RESET: u8 = 0x01;

// Commands carried by a command request report.
pub const COMMAND_TARE: u8 = 0x03;

pub const COMMAND_SAVE_DCD: u8 = 0x06;

pub const COMMAND_ME_CALIBRATE: u8 = 0x07;

pub const TARE_NOW: u8 = 0x00;

pub const TARE_PERSIST: u8 = 0x01;

/// Tare about the X axis.
pub const TARE_AXIS_X: u8 = 0b001;

/// Tare about the Y axis.
pub const TARE_AXIS_Y: u8 = 0b010;

/// Tare about the Z axis.
pub const TARE_AXIS_Z: u8 = 0b100;

/// Tare about all three axes.
pub const TARE_AXIS_ALL: u8 = 0b111;

/// How long the hub takes to come up after a reset.
pub const BOOT_DELAY_MS: u32 = 100;

/// How long to wait between polls when the hub has nothing to say.
pub const POLL_INTERVAL_MS: u32 = 2;

/// How long to keep waiting for an expected packet before giving up.
pub const RESPONSE_TIMEOUT_MS: u32 = 1_000;

/// I²C address, selected on the board by the ADR/SA0 pin.
#[derive(Clone, Copy, Debug)]
pub enum Address {
    /// ADR pulled low, the usual case.
    Default,
    /// ADR pulled high.
    Alternate,
}

impl Address {
    /// The seven bit bus address.
    pub open spec fn number(self) -> u8 {
        match self {
            Address::Default => 0x4A,
            Address::Alternate => 0x4B,
        }
    }

    /// The seven bit bus address.
    pub fn to_u8(self) -> (number: u8)
        ensures
            number == self.number(),
    {
        match self {
            Self::Default => 0x4A,
            Self::Alternate => 0x4B,
        }
    }
}

/// What the driver can fail at.
#[derive(Debug)]
pub enum Error<E> {
    /// The underlying I²C bus returned an error.
    I2c(E),
    /// A cargo arrived that is larger than [`MAX_CARGO`]. It has been read and
    /// discarded so the bus stays in sync; nothing else is wrong.
    CargoTooLarge(u16),
    /// The hub did not send an expected packet in time.
    Timeout,
    /// A packet arrived that does not fit the protocol.
    Protocol,
}

/// Which reset the hub is reporting in its product ID response.
#[derive(Clone, Copy, PartialEq, Eq, Debug)]
pub enum ResetCause {
    NotApplicable,
    PowerOn,
    InternalSystemReset,
    WatchdogTimeout,
    ExternalReset,
    Other(u8),
}

impl ResetCause {
    /// The cause that the hub reports as `value`.
    pub open spec fn reported(value: u8) -> Self {
        if value == 0 {
            ResetCause::NotApplicable
        } else if value == 1 {
            ResetCause::PowerOn
        } else if value == 2 {
            ResetCause::InternalSystemReset
        } else if value == 3 {
            ResetCause::WatchdogTimeout
        } else if value == 4 {
            ResetCause::ExternalReset
        } else {
            ResetCause::Other(value)
        }
    }

    /// The cause that the hub reports as `value`.
    pub fn from_u8(value: u8) -> (cause: Self)
        ensures
            cause == Self::reported(value),
    {
        match value {
            0 => Self::NotApplicable,
            1 => Self::PowerOn,
            2 => Self::InternalSystemReset,
            3 => Self::WatchdogTimeout,
            4 => Self::ExternalReset,
            other => Self::Other(other),
        }
    }
}

/// The hub's identification, its answer to [`Bno085::product_id`].
#[derive(Clone, Copy, PartialEq, Eq, Debug)]
pub struct ProductId {
    pub reset_cause: ResetCause,
    pub sw_version_major: u8,
    pub sw_version_minor: u8,
    pub sw_version_patch: u16,
    pub sw_part_number: u32,
    pub sw_build_number: u32,
}

/// The identification that `payload` gives.
pub open spec fn identified(payload: Seq<u8>) -> ProductId {
    ProductId {
        reset_cause: ResetCause::reported(payload[1]),
        sw_version_major: payload[2],
        sw_version_minor: payload[3],
        sw_part_number: crate::bytes::u32_le(payload, 4),
        sw_build_number: crate::bytes::u32_le(payload, 8),
        sw_version_patch: crate::bytes::u16_le(payload, 12),
    }
}

impl ProductId {
    /// Decodes the payload of the hub's answer to a product ID request.
    pub fn decode(payload: &[u8]) -> (id: Self)
        requires
            payload.len() >= PRODUCT_ID_LEN,
        ensures
            id == identified(payload@),
    {
        Self {
            reset_cause: ResetCause::from_u8(payload[1]),
            sw_version_major: payload[2],
            sw_version_minor: payload[3],
            sw_part_number: read_u32(payload, 4),
            sw_build_number: read_u32(payload, 8),
            sw_version_patch: read_u16(payload, 12),
        }
    }
}

/// Which orientation output a tare should be applied to.
#[derive(Clone, Copy, Debug)]
pub enum TareBasis {
    RotationVector,
    GameRotationVector,
    GeomagneticRotationVector,
    GyroIntegratedRotationVector,
    ArvrStabilizedRotationVector,
    ArvrStabilizedGameRotationVector,
}

impl TareBasis {
    /// The output's number in a tare command.
    pub open spec fn number(self) -> u8 {
        match self {
            TareBasis::RotationVector => 0,
            TareBasis::GameRotationVector => 1,
            TareBasis::GeomagneticRotationVector => 2,
            TareBasis::GyroIntegratedRotationVector => 3,
            TareBasis::ArvrStabilizedRotationVector => 4,
            TareBasis::ArvrStabilizedGameRotationVector => 5,
        }
    }

    /// The output's number in a tare command.
    pub fn to_u8(self) -> (number: u8)
        ensures
            number == self.number(),
    {
        match self {
            Self::RotationVector => 0,
            Self::GameRotationVector => 1,
            Self::GeomagneticRotationVector => 2,
            Self::GyroIntegratedRotationVector => 3,
            Self::ArvrStabilizedRotationVector => 4,
            Self::ArvrStabilizedGameRotationVector => 5,
        }
    }
}

/// Everything the hub needs to know to start producing a report.
///
/// [`ReportConfig::new`] covers the common case; the remaining fields matter
/// only for change-sensitivity filtering, batching and wake behaviour.
#[derive(Clone, Copy, Debug)]
pub struct ReportConfig {
    pub sensor: SensorId,
    /// How often to report, in microseconds. Zero disables the sensor.
    pub interval_us: u32,
    /// How long the hub may batch reports before delivering them, in
    /// microseconds. Zero delivers each report as it is produced.
    pub batch_interval_us: u32,
    /// Threshold below which a change is not worth reporting, in the
    /// sensor's own units.
    pub change_sensitivity: u16,
    /// Treat `change_sensitivity` as a fraction of the last value rather than
    /// an absolute amount.
    pub change_sensitivity_relative: bool,
    /// Apply `change_sensitivity` at all.
    pub change_sensitivity_enabled: bool,
    /// Let this sensor wake the host.
    pub wake_enabled: bool,
    /// Keep this sensor running even when the hub would otherwise sleep.
    pub always_on_enabled: bool,
    /// Sensor specific configuration word; zero for all the motion sensors.
    pub sensor_specific: u32,
}

/// A plain periodic report at `interval_us`, with no filtering or batching.
pub open spec fn plain_report(sensor: SensorId, interval_us: u32) -> ReportConfig {
    ReportConfig {
        sensor,
        interval_us,
        batch_interval_us: 0,
        change_sensitivity: 0,
        change_sensitivity_relative: false,
        change_sensitivity_enabled: false,
        wake_enabled: false,
        always_on_enabled: false,
        sensor_specific: 0,
    }
}

/// `bit` if `set`, else nothing.
pub open spec fn bit_if(set: bool, bit: u8) -> u8 {
    if set {
        bit
    } else {
        0
    }
}

/// The flags byte of a set feature command, one bit for each switch.
pub open spec fn feature_flags(config: ReportConfig) -> u8 {
    (bit_if(config.change_sensitivity_relative, 0b0001) + bit_if(
        config.change_sensitivity_enabled,
        0b0010,
    ) + bit_if(config.wake_enabled, 0b0100) + bit_if(config.always_on_enabled, 0b1000)) as u8
}

/// The set feature command that asks for `config`.
pub open spec fn feature_command(config: ReportConfig) -> Seq<u8> {
    seq![REPORT_SET_FEATURE_COMMAND, config.sensor.code(), feature_flags(config)]
        + crate::bytes::u16_bytes(config.change_sensitivity) + crate::bytes::u32_bytes(
        config.interval_us,
    ) + crate::bytes::u32_bytes(config.batch_interval_us) + crate::bytes::u32_bytes(
        config.sensor_specific,
    )
}

impl ReportConfig {
    /// A plain periodic report at `interval_us`, with no filtering or batching.
    pub fn new(sensor: SensorId, interval_us: u32) -> (config: Self)
        ensures
            config == plain_report(sensor, interval_us),
    {
        Self {
            sensor,
            interval_us,
            batch_interval_us: 0,
            change_sensitivity: 0,
            change_sensitivity_relative: false,
            change_sensitivity_enabled: false,
            wake_enabled: false,
            always_on_enabled: false,
            sensor_specific: 0,
        }
    }

    /// The flags byte of a set feature command.
    pub fn flags(&self) -> (flags: u8)
        ensures
            flags == feature_flags(*self),
    {
        let mut flags: u8 = 0;
        if self.change_sensitivity_relative {
            flags = flags + 0b0001;
        }
        if self.change_sensitivity_enabled {
            flags = flags + 0b0010;
        }
        if self.wake_enabled {
            flags = flags + 0b0100;
        }
        if self.always_on_enabled {
            flags = flags + 0b1000;
        }
        flags
    }
}

/// A BNO085 on an I²C bus.
pub struct Bno085<I2C, D> {
    i2c: I2C,
    address: u8,
    delay: D,
    /// SHTP sequence numbers, one per channel.
    sequence: [u8; CHANNELS],
    /// Sequence number for command requests, which count separately.
    command_sequence: u8,
    /// The cargo most recently read, header included.
    buf: [u8; MAX_CARGO],
    /// Length of the cargo that is walked through, or zero when there is none.
    cargo_len: usize,
    /// How far through the buffer [`Bno085::next_buffered_event`] has walked.
    cursor: usize,
    /// The channel the cargo that is walked through arrived on.
    channel: u8,
    /// Timestamp correction from the last base timestamp report, in the hub's
    /// 100 µs ticks. Added to a report's delay to place the sample in time.
    reference_delta: i32,
}

/// What a [`Bno085`] stands for.
#[verifier::ext_equal]
pub struct Bno085View<I2C, D> {
    pub i2c: I2C,
    pub delay: D,
    pub address: u8,
    /// SHTP sequence numbers, one per channel.
    pub sequence: Seq<u8>,
    /// Sequence number for command requests.
    pub command_sequence: u8,
    /// What the last transfers left behind.
    pub buf: Seq<u8>,
    /// Where in `buf` what is left to walk through starts, or zero.
    pub start: int,
    /// Where in `buf` what is left to walk through ends, or zero.
    pub end: int,
    /// The channel that the cargo being walked through arrived on.
    pub channel: u8,
    /// Timestamp correction, in the hub's 100 µs ticks.
    pub reference_delta: i32,
}

impl<I2C, D> Bno085View<I2C, D> {
    /// What is left to walk through.
    pub open spec fn unread(self) -> Seq<u8> {
        self.buf.subrange(self.start, self.end)
    }

    /// The same with only the last `len` bytes left to walk through.
    pub open spec fn left(self, len: nat) -> Self {
        if len == 0 {
            Bno085View { start: 0, end: 0, ..self }
        } else {
            Bno085View { start: self.end - len, ..self }
        }
    }
}

/// The number after `count`, which starts again at zero.
pub open spec fn counted(count: u8) -> u8 {
    ((count + 1) % 0x100) as u8
}

/// `hub` once a cargo has been framed for `channel`.
pub open spec fn sent<I2C, D>(hub: Bno085View<I2C, D>, channel: Channel) -> Bno085View<I2C, D> {
    let at = channel.number() as int;
    Bno085View { sequence: hub.sequence.update(at, counted(hub.sequence[at])), ..hub }
}

/// The next cargo for `channel`.
pub open spec fn outgoing<I2C, D>(
    hub: Bno085View<I2C, D>,
    channel: Channel,
    payload: Seq<u8>,
) -> Seq<u8> {
    cargo::framed(channel, hub.sequence[channel.number() as int], payload)
}

/// The command request report for `command`.
pub open spec fn command_request(sequence: u8, command: u8, params: Seq<u8>) -> Seq<u8> {
    seq![REPORT_COMMAND_REQUEST, sequence, command] + params
}

/// `hub` once a command request has been framed.
pub open spec fn commanded<I2C, D>(hub: Bno085View<I2C, D>) -> Bno085View<I2C, D> {
    Bno085View {
        command_sequence: counted(hub.command_sequence),
        ..sent(hub, Channel::Control)
    }
}

/// The cargo that asks the hub for `command`.
pub open spec fn outgoing_command<I2C, D>(
    hub: Bno085View<I2C, D>,
    command: u8,
    params: Seq<u8>,
) -> Seq<u8> {
    outgoing(hub, Channel::Control, command_request(hub.command_sequence, command, params))
}

impl<I2C, D> View for Bno085<I2C, D> {
    type V = Bno085View<I2C, D>;

    closed spec fn view(&self) -> Bno085View<I2C, D> {
        Bno085View {
            i2c: self.i2c,
            delay: self.delay,
            address: self.address,
            sequence: self.sequence@,
            command_sequence: self.command_sequence,
            buf: self.buf@,
            start: if self.cursor < self.cargo_len {
                self.cursor as int
            } else {
                0
            },
            end: if self.cursor < self.cargo_len {
                self.cargo_len as int
            } else {
                0
            },
            channel: self.channel,
            reference_delta: self.reference_delta,
        }
    }
}

/// A hub counts for every channel, and its buffer has room for the largest
/// cargo that is kept.
pub proof fn lemma_hub_sizes<I2C, D>(hub: Bno085<I2C, D>)
    ensures
        hub@.sequence.len() == CHANNELS,
        hub@.buf.len() == MAX_CARGO,
{
}

impl<I2C, D> Bno085<I2C, D> {
    /// The buffered cargo lies inside the buffer, and a gyro-integrated
    /// rotation vector has been walked through whole or not at all.
    pub closed spec fn wf(self) -> bool {
        &&& self.cargo_len <= MAX_CARGO
        &&& self.cursor <= MAX_CARGO
        &&& self.channel == Channel::InputGyroRv.number() && self.cursor < self.cargo_len
            ==> self.cursor == HEADER_LEN
    }

    /// Wraps an I²C bus. Nothing is sent.
    pub fn new(i2c: I2C, address: Address, delay: D) -> (hub: Self)
        ensures
            hub.wf(),
            hub@ == (Bno085View {
                i2c,
                delay,
                address: address.number(),
                sequence: crate::bytes::zeros(CHANNELS as nat),
                command_sequence: 0,
                buf: crate::bytes::zeros(MAX_CARGO as nat),
                start: 0,
                end: 0,
                channel: 0,
                reference_delta: 0,
            }),
    {
        let hub = Self {
            i2c,
            address: address.to_u8(),
            delay,
            sequence: [0; CHANNELS],
            command_sequence: 0,
            buf: [0; MAX_CARGO],
            cargo_len: 0,
            cursor: 0,
            channel: 0,
            reference_delta: 0,
        };
        assert(hub@.sequence == crate::bytes::zeros(CHANNELS as nat));
        assert(hub@.buf == crate::bytes::zeros(MAX_CARGO as nat));
        hub
    }

    /// The hub's bus address.
    pub fn address(&self) -> (address: u8)
        ensures
            address == self@.address,
    {
        self.address
    }

    /// The I²C bus, to read from or write to.
    pub fn i2c_mut(&mut self) -> (i2c: &mut I2C)
        ensures
            *i2c == old(self)@.i2c,
            final(self)@ == (Bno085View { i2c: *final(i2c), ..old(self)@ }),
            old(self).wf() ==> final(self).wf(),
    {
        &mut self.i2c
    }

    /// The delay source, to wait with.
    pub fn delay_mut(&mut self) -> (delay: &mut D)
        ensures
            *delay == old(self)@.delay,
            final(self)@ == (Bno085View { delay: *final(delay), ..old(self)@ }),
            old(self).wf() ==> final(self).wf(),
    {
        &mut self.delay
    }

    /// Gives the I²C bus back.
    pub fn release(self) -> (i2c: I2C)
        ensures
            i2c == self@.i2c,
    {
        self.i2c
    }

    /// Frames a payload for `channel`.
    pub fn write_cargo(&mut self, channel: Channel, payload: &[u8]) -> (frame: Frame)
        requires
            old(self).wf(),
            payload.len() + HEADER_LEN <= MAX_WRITE,
        ensures
            final(self).wf(),
            final(self)@ == sent(old(self)@, channel),
            frame.wf(),
            frame@ == outgoing(old(self)@, channel, payload@),
    {
        let at: usize = channel.to_u8() as usize;
        let sequence: u8 = self.sequence[at];
        self.sequence[at] = sequence.wrapping_add(1);
        Frame::new(channel, sequence, payload)
    }

    /// Asks the hub to reboot. Once the request has been written and
    /// [`BOOT_DELAY_MS`] have passed, [`Bno085::reset_sent`] is due.
    pub fn soft_reset(&mut self) -> (frame: Frame)
        requires
            old(self).wf(),
        ensures
            final(self).wf(),
            final(self)@ == sent(old(self)@, Channel::Executable),
            frame.wf(),
            frame@ == outgoing(old(self)@, Channel::Executable, seq![EXECUTABLE_RESET]),
    {
        let payload: [u8; 1] = [EXECUTABLE_RESET];
        assert(payload@ == seq![EXECUTABLE_RESET]);
        self.write_cargo(Channel::Executable, &payload)
    }

    /// Makes ready for a hub that has been told to reboot. A reset resets the
    /// hub's sequence numbers too.
    pub fn reset_sent(&mut self)
        requires
            old(self).wf(),
        ensures
            final(self).wf(),
            final(self)@ == (Bno085View {
                sequence: crate::bytes::zeros(CHANNELS as nat),
                start: 0,
                end: 0,
                ..old(self)@
            }),
    {
        self.sequence = [0; CHANNELS];
        self.discard_buffered();
        assert(self@.sequence == crate::bytes::zeros(CHANNELS as nat));
    }

    /// Asks the hub what it is and which reset it last went through. The hub's
    /// answer is awaited with [`Bno085::await_product_id`].
    ///
    /// Take the buffered reports first, with [`Bno085::next_buffered_event`].
    /// The answer is read into the buffer that they are in, and a walk through
    /// the buffer that is not over then goes on over the answer's bytes.
    pub fn product_id(&mut self) -> (frame: Frame)
        requires
            old(self).wf(),
        ensures
            final(self).wf(),
            final(self)@ == sent(old(self)@, Channel::Control),
            frame.wf(),
            frame@ == outgoing(old(self)@, Channel::Control, seq![REPORT_PRODUCT_ID_REQUEST, 0u8]),
    {
        let payload: [u8; 2] = [REPORT_PRODUCT_ID_REQUEST, 0];
        assert(payload@ == seq![REPORT_PRODUCT_ID_REQUEST, 0u8]);
        self.write_cargo(Channel::Control, &payload)
    }

    /// Starts a sensor reporting every `interval_us` microseconds.
    ///
    /// The hub rounds the interval to what the sensor can actually do; ask for
    /// 10_000 µs to get roughly 100 Hz. Enabling a sensor that is already
    /// enabled just changes its rate.
    pub fn enable_report(&mut self, sensor: SensorId, interval_us: u32) -> (frame: Frame)
        requires
            old(self).wf(),
        ensures
            final(self).wf(),
            final(self)@ == sent(old(self)@, Channel::Control),
            frame.wf(),
            frame@ == outgoing(
                old(self)@,
                Channel::Control,
                feature_command(plain_report(sensor, interval_us)),
            ),
    {
        self.set_feature(&ReportConfig::new(sensor, interval_us))
    }

    /// Stops a sensor reporting.
    pub fn disable_report(&mut self, sensor: SensorId) -> (frame: Frame)
        requires
            old(self).wf(),
        ensures
            final(self).wf(),
            final(self)@ == sent(old(self)@, Channel::Control),
            frame.wf(),
            frame@ == outgoing(
                old(self)@,
                Channel::Control,
                feature_command(plain_report(sensor, 0)),
            ),
    {
        self.set_feature(&ReportConfig::new(sensor, 0))
    }

    /// Configures a report in full, for the cases [`Bno085::enable_report`]
    /// does not cover.
    pub fn set_feature(&mut self, config: &ReportConfig) -> (frame: Frame)
        requires
            old(self).wf(),
        ensures
            final(self).wf(),
            final(self)@ == sent(old(self)@, Channel::Control),
            frame.wf(),
            frame@ == outgoing(old(self)@, Channel::Control, feature_command(*config)),
    {
        let mut payload: [u8; 17] = [0; 17];
        payload[0] = REPORT_SET_FEATURE_COMMAND;
        payload[1] = config.sensor.to_u8();
        payload[2] = config.flags();
        copy_into(&mut payload, 3, &write_u16(config.change_sensitivity));
        copy_into(&mut payload, 5, &write_u32(config.interval_us));
        copy_into(&mut payload, 9, &write_u32(config.batch_interval_us));
        copy_into(&mut payload, 13, &write_u32(config.sensor_specific));
        assert(payload@ == feature_command(*config));
        self.write_cargo(Channel::Control, &payload)
    }

    /// Zeroes the current orientation, so that where the sensor points now
    /// becomes the reference the chosen output reports against.
    ///
    /// The tare is lost on reset unless [`Bno085::persist_tare`] follows.
    pub fn tare(&mut self, axes: u8, basis: TareBasis) -> (frame: Frame)
        requires
            old(self).wf(),
        ensures
            final(self).wf(),
            final(self)@ == commanded(old(self)@),
            frame.wf(),
            frame@ == outgoing_command(
                old(self)@,
                COMMAND_TARE,
                seq![TARE_NOW, axes, basis.number(), 0, 0, 0, 0, 0, 0],
            ),
    {
        let params: [u8; 9] = [TARE_NOW, axes, basis.to_u8(), 0, 0, 0, 0, 0, 0];
        assert(params@ == seq![TARE_NOW, axes, basis.number(), 0, 0, 0, 0, 0, 0]);
        self.send_command(COMMAND_TARE, &params)
    }

    /// Writes the current tare to flash so it survives a reset.
    pub fn persist_tare(&mut self) -> (frame: Frame)
        requires
            old(self).wf(),
        ensures
            final(self).wf(),
            final(self)@ == commanded(old(self)@),
            frame.wf(),
            frame@ == outgoing_command(
                old(self)@,
                COMMAND_TARE,
                seq![TARE_PERSIST, 0, 0, 0, 0, 0, 0, 0, 0],
            ),
    {
        let params: [u8; 9] = [TARE_PERSIST, 0, 0, 0, 0, 0, 0, 0, 0];
        assert(params@ == seq![TARE_PERSIST, 0, 0, 0, 0, 0, 0, 0, 0]);
        self.send_command(COMMAND_TARE, &params)
    }

    /// Chooses which sensors the hub keeps calibrating as it runs.
    ///
    /// The hub calibrates the accelerometer and magnetometer by default. Gyro
    /// calibration is worth enabling if the device spends time still.
    pub fn configure_calibration(
        &mut self,
        accelerometer: bool,
        gyroscope: bool,
        magnetometer: bool,
    ) -> (frame: Frame)
        requires
            old(self).wf(),
        ensures
            final(self).wf(),
            final(self)@ == commanded(old(self)@),
            frame.wf(),
            frame@ == outgoing_command(
                old(self)@,
                COMMAND_ME_CALIBRATE,
                seq![
                    bit_if(accelerometer, 1),
                    bit_if(gyroscope, 1),
                    bit_if(magnetometer, 1),
                    0,
                    0,
                    0,
                    0,
                    0,
                    0,
                ],
            ),
    {
        let mut params: [u8; 9] = [0; 9];
        if accelerometer {
            params[0] = 1;
        }
        if gyroscope {
            params[1] = 1;
        }
        if magnetometer {
            params[2] = 1;
        }
        // Behind these stand subcommand 0, which configures, and the switch
        // for planar accelerometer calibration.

        assert(params@ == seq![
            bit_if(accelerometer, 1),
            bit_if(gyroscope, 1),
            bit_if(magnetometer, 1),
            0,
            0,
            0,
            0,
            0,
            0,
        ]);
        self.send_command(COMMAND_ME_CALIBRATE, &params)
    }

    /// Saves the running calibration to flash.
    ///
    /// Worth doing once the hub reports [`Accuracy::High`], so the next boot
    /// starts from a good calibration instead of relearning it.
    pub fn save_calibration(&mut self) -> (frame: Frame)
        requires
            old(self).wf(),
        ensures
            final(self).wf(),
            final(self)@ == commanded(old(self)@),
            frame.wf(),
            frame@ == outgoing_command(old(self)@, COMMAND_SAVE_DCD, crate::bytes::zeros(9)),
    {
        let params: [u8; 9] = [0; 9];
        assert(params@ == crate::bytes::zeros(9));
        self.send_command(COMMAND_SAVE_DCD, &params)
    }

    /// Sends a raw command request. See the SH-2 Reference Manual for the
    /// command numbers and their parameters.
    pub fn send_command(&mut self, command: u8, params: &[u8; 9]) -> (frame: Frame)
        requires
            old(self).wf(),
        ensures
            final(self).wf(),
            final(self)@ == commanded(old(self)@),
            frame.wf(),
            frame@ == outgoing_command(old(self)@, command, params@),
    {
        let mut payload: [u8; 12] = [0; 12];
        payload[0] = REPORT_COMMAND_REQUEST;
        payload[1] = self.command_sequence;
        payload[2] = command;
        copy_into(&mut payload, 3, params);
        assert(payload@ == command_request(self.command_sequence, command, params@));
        self.command_sequence = self.command_sequence.wrapping_add(1);
        self.write_cargo(Channel::Control, &payload)
    }

    fn discard_buffered(&mut self)
        requires
            old(self).wf(),
        ensures
            final(self).wf(),
            final(self)@ == old(self)@.left(0),
            final(self).cargo_len == 0,
            final(self).sequence == old(self).sequence,
    {
        self.cargo_len = 0;
        self.cursor = 0;
    }
}

/// What a transfer brought, or what went wrong with it.
pub open spec fn brought<E>(outcome: Result<&[u8], E>) -> Result<Seq<u8>, E> {
    match outcome {
        Ok(bytes) => Ok(bytes@),
        Err(error) => Err(error),
    }
}

/// `hub` once a transfer of `bytes` has been stored. What was left to walk
/// through stays where it was in the buffer, whatever is stored there.
pub open spec fn transferred<I2C, D>(
    hub: Bno085View<I2C, D>,
    reading: Reading,
    bytes: Seq<u8>,
) -> Bno085View<I2C, D> {
    match reading {
        Reading::Cargo { header, .. } if header.cargo_len <= MAX_CARGO => Bno085View {
            buf: cargo::stored(hub.buf, reading, bytes),
            ..hub
        },
        _ => hub,
    }
}

/// What the end of a cargo comes to.
pub open spec fn cargo_end<E>(header: Header) -> Result<Option<Header>, Error<E>> {
    if header.cargo_len <= MAX_CARGO {
        Ok(Some(header))
    } else {
        Err(Error::CargoTooLarge(header.cargo_len))
    }
}

/// What a transfer does to the hub and to the reading of a cargo, and what
/// the reading has come to if it is over.
pub open spec fn cargo_read<I2C, D, E>(
    hub: Bno085View<I2C, D>,
    reading: Reading,
    outcome: Result<Seq<u8>, E>,
) -> (Bno085View<I2C, D>, Reading, Option<Result<Option<Header>, Error<E>>>) {
    match outcome {
        Ok(bytes) => {
            let hub = transferred(hub, reading, bytes);
            match cargo::after(reading, bytes) {
                Progress::More(next) => (hub, next, None),
                Progress::Nothing => (hub, Reading::Head, Some(Ok(None))),
                Progress::Complete(header) => (hub, Reading::Head, Some(cargo_end(header))),
            }
        },
        Err(error) => (hub, Reading::Head, Some(Err(Error::I2c(error)))),
    }
}

/// `hub` once it walks through the cargo that `header` announced.
pub open spec fn walking<I2C, D>(hub: Bno085View<I2C, D>, header: Header) -> Bno085View<I2C, D> {
    Bno085View {
        start: HEADER_LEN as int,
        end: header.cargo_len as int,
        channel: header.channel,
        ..hub
    }
}

/// The next event of the cargo being walked through, and `hub` behind it.
pub open spec fn walked<I2C, D>(hub: Bno085View<I2C, D>) -> (Option<Event>, Bno085View<I2C, D>) {
    let (event, unread, reference_delta) = walk::next_event(
        hub.channel,
        hub.unread(),
        hub.reference_delta,
    );
    (event, Bno085View { reference_delta, ..hub.left(unread.len()) })
}

/// What the reading of a cargo, as far as it has come, means to a search for an
/// event. A cargo without one is skipped.
pub open spec fn searched<I2C, D, E>(
    hub: Bno085View<I2C, D>,
    end: Option<Result<Option<Header>, Error<E>>>,
) -> (Bno085View<I2C, D>, Option<Result<Option<Event>, Error<E>>>) {
    match end {
        None => (hub, None),
        Some(Ok(None)) => (hub, Some(Ok(None))),
        Some(Err(error)) => (hub, Some(Err(error))),
        Some(Ok(Some(header))) => match walked(walking(hub, header)) {
            (Some(event), hub) => (hub, Some(Ok(Some(event)))),
            (None, hub) => (hub, None),
        },
    }
}

/// What a transfer does while an event is being looked for, and what the
/// search has come to if it is over.
pub open spec fn event_read<I2C, D, E>(
    hub: Bno085View<I2C, D>,
    reading: Reading,
    outcome: Result<Seq<u8>, E>,
) -> (Bno085View<I2C, D>, Reading, Option<Result<Option<Event>, Error<E>>>) {
    let (hub, reading, end) = cargo_read(hub, reading, outcome);
    let (hub, end) = searched(hub, end);
    (hub, reading, end)
}

/// Whether the cargo in `buf` is a hub's notice that it has rebooted.
pub open spec fn is_reset_notice(header: Header, buf: Seq<u8>) -> bool {
    header.channel == Channel::Executable.number() && buf[HEADER_LEN as int] == EXECUTABLE_RESET
}

/// What a transfer does while a reset is being waited for.
///
/// A cargo that is too large is no failure: the advertisement is expected to
/// be, it carries nothing the driver needs, and reading it kept the bus in
/// sync. Another error is not one yet, since the hub may not answer at all
/// while it is rebooting.
pub open spec fn reset_awaited<I2C, D, E>(
    hub: Bno085View<I2C, D>,
    waiting: Waiting<E>,
    outcome: Result<Seq<u8>, E>,
) -> (Bno085View<I2C, D>, Waiting<E>, Step<(), E>) {
    let (hub, reading, end) = cargo_read(hub, waiting.reading, outcome);
    let waiting = Waiting { reading, ..waiting };
    match end {
        None => (hub, waiting, Step::Read),
        Some(Ok(Some(header))) => if is_reset_notice(header, hub.buf) {
            (hub, waiting, Step::Done(Ok(())))
        } else {
            (hub, waiting, Step::Read)
        },
        Some(Ok(None)) => (hub, waiting, Step::Pause),
        Some(Err(Error::CargoTooLarge(_))) => (hub, waiting, Step::Read),
        Some(Err(error)) => (hub, Waiting { last_error: Some(error), ..waiting }, Step::Pause),
    }
}

/// Whether the cargo in `buf` is a report on the control channel that begins
/// with `report_id` and has at least `min_len` bytes.
pub open spec fn is_control_report(
    header: Header,
    buf: Seq<u8>,
    report_id: u8,
    min_len: usize,
) -> bool {
    &&& header.channel == Channel::Control.number()
    &&& header.cargo_len - HEADER_LEN >= min_len
    &&& buf[HEADER_LEN as int] == report_id
}

/// What a transfer does while a report on the control channel is being waited
/// for. The wait ends with the length of the report's payload.
pub open spec fn control_report_awaited<I2C, D, E>(
    hub: Bno085View<I2C, D>,
    waiting: Waiting<E>,
    report_id: u8,
    min_len: usize,
    outcome: Result<Seq<u8>, E>,
) -> (Bno085View<I2C, D>, Waiting<E>, Step<usize, E>) {
    let (hub, reading, end) = cargo_read(hub, waiting.reading, outcome);
    let waiting = Waiting { reading, ..waiting };
    match end {
        None => (hub, waiting, Step::Read),
        Some(Ok(Some(header))) => if is_control_report(header, hub.buf, report_id, min_len) {
            (hub, waiting, Step::Done(Ok((header.cargo_len - HEADER_LEN) as usize)))
        } else {
            (hub, waiting, Step::Read)
        },
        Some(Ok(None)) => (hub, waiting, Step::Pause),
        Some(Err(Error::CargoTooLarge(_))) => (hub, waiting, Step::Read),
        Some(Err(error)) => (hub, waiting, Step::Done(Err(error))),
    }
}

/// What a transfer does while the hub's identification is being waited for.
pub open spec fn product_id_awaited<I2C, D, E>(
    hub: Bno085View<I2C, D>,
    waiting: Waiting<E>,
    outcome: Result<Seq<u8>, E>,
) -> (Bno085View<I2C, D>, Waiting<E>, Step<ProductId, E>) {
    let (hub, waiting, step) = control_report_awaited(
        hub,
        waiting,
        REPORT_PRODUCT_ID_RESPONSE,
        PRODUCT_ID_LEN,
        outcome,
    );
    (
        hub,
        waiting,
        match step {
            Step::Read => Step::Read,
            Step::Pause => Step::Pause,
            Step::Done(Err(error)) => Step::Done(Err(error)),
            Step::Done(Ok(len)) => Step::Done(
                Ok(identified(hub.buf.subrange(HEADER_LEN as int, HEADER_LEN + len))),
            ),
        },
    )
}

impl<I2C, D> Bno085<I2C, D> {
    /// Takes the outcome of a transfer that was to read what
    /// [`Reading::want`] asked for, and says what cargo is now in the buffer
    /// if that was the last of it, or `Ok(None)` when the hub has nothing to
    /// send.
    pub fn read_cargo<E>(&mut self, reading: &mut Reading, outcome: Result<&[u8], E>) -> (end:
        Option<Result<Option<Header>, Error<E>>>)
        requires
            old(self).wf(),
            old(reading).wf(),
            outcome matches Ok(bytes) ==> bytes.len() == cargo::transfer_len(*old(reading)),
        ensures
            final(self).wf(),
            final(reading).wf(),
            (final(self)@, *final(reading), end) == cargo_read(
                old(self)@,
                *old(reading),
                brought(outcome),
            ),
            end matches Some(Ok(Some(header))) ==> HEADER_LEN < header.cargo_len <= MAX_CARGO,
    {
        let bytes = match outcome {
            Ok(bytes) => bytes,
            Err(error) => {
                *reading = Reading::Head;
                return Some(Err(Error::I2c(error)));
            },
        };
        if let Reading::Cargo { header, read } = *reading {
            if header.cargo_len as usize <= MAX_CARGO {
                // The first chunk's header is the cargo's own; later chunks
                // carry a repeat of it that is not part of the payload.
                let chunk = if read == 0 {
                    bytes
                } else {
                    slice_subrange(bytes, HEADER_LEN, bytes.len())
                };
                assert(chunk@ == cargo::chunk(read, bytes@));
                copy_into(&mut self.buf, read, chunk);
            }
        }
        assert(self@ == transferred(old(self)@, *old(reading), bytes@));
        match reading.transferred(bytes) {
            Progress::More(next) => {
                *reading = next;
                None
            },
            Progress::Nothing => {
                *reading = Reading::Head;
                Some(Ok(None))
            },
            Progress::Complete(header) => {
                *reading = Reading::Head;
                if header.cargo_len as usize <= MAX_CARGO {
                    Some(Ok(Some(header)))
                } else {
                    Some(Err(Error::CargoTooLarge(header.cargo_len)))
                }
            },
        }
    }

    /// Pulls the next report out of the buffered cargo, if there is one left.
    pub fn next_buffered_event(&mut self) -> (event: Option<Event>)
        requires
            old(self).wf(),
        ensures
            final(self).wf(),
            (event, final(self)@) == walked(old(self)@),
            event is None ==> final(self)@.unread().len() == 0,
    {
        proof {
            walk::law_walk_gets_on(self@.channel, self@.unread(), self@.reference_delta);
        }
        match Channel::from_u8(self.channel) {
            Some(Channel::InputGyroRv) => {
                if self.cursor >= self.cargo_len {
                    return None;
                }
                let payload = slice_subrange(&self.buf, HEADER_LEN, self.cargo_len);
                self.cursor = self.cargo_len;
                let expected: usize = SensorId::GyroIntegratedRotationVector.report_len();
                if payload.len() >= expected {
                    Some(reports::decode_gyro_integrated_rv(payload))
                } else {
                    None
                }
            },
            Some(Channel::InputNormal) | Some(Channel::InputWake) => {
                while self.cursor < self.cargo_len
                    invariant
                        self.wf(),
                        self.channel == old(self).channel,
                        self.cargo_len == old(self).cargo_len,
                        self.channel == Channel::InputNormal.number() || self.channel
                            == Channel::InputWake.number(),
                        self@ == (Bno085View {
                            start: self@.start,
                            end: self@.end,
                            reference_delta: self@.reference_delta,
                            ..old(self)@
                        }),
                        walk::next_report(self@.unread(), self@.reference_delta)
                            == walk::next_report(old(self)@.unread(), old(self)@.reference_delta),
                    decreases self.cargo_len - self.cursor,
                {
                    let ghost unread = self@.unread();
                    let id: u8 = self.buf[self.cursor];
                    assert(id == unread[0]);
                    let remaining: usize = self.cargo_len - self.cursor;

                    // Timestamp reports are not sensor data; they set the
                    // reference the reports after them are measured against.
                    if id == REPORT_BASE_TIMESTAMP || id == REPORT_TIMESTAMP_REBASE {
                        if remaining < TIMESTAMP_LEN {
                            self.discard_buffered();
                            return None;
                        }
                        let ticks: i32 = read_i32(&self.buf, self.cursor + 1);
                        assert(ticks == crate::bytes::i32_le(unread, 1));
                        self.reference_delta = if id == REPORT_BASE_TIMESTAMP {
                            0i32.wrapping_sub(ticks)
                        } else {
                            self.reference_delta.wrapping_add(ticks)
                        };
                        self.cursor = self.cursor + TIMESTAMP_LEN;
                        assert(self@.unread() == unread.skip(TIMESTAMP_LEN as int));
                    } else {
                        // Without a length for this report there is no way to
                        // find where the next one starts, so the rest of the
                        // packet has to go.
                        let sensor = match SensorId::from_u8(id) {
                            Some(sensor) => sensor,
                            None => {
                                self.discard_buffered();
                                return None;
                            },
                        };
                        let len: usize = sensor.report_len();
                        if len > remaining {
                            self.discard_buffered();
                            return None;
                        }
                        let start: usize = self.cursor;
                        let report = slice_subrange(&self.buf, start, start + len);
                        assert(report@ == unread.take(len as int));
                        let event = reports::decode(sensor, report, self.reference_delta);
                        self.cursor = start + len;
                        assert(self@.unread() == unread.skip(len as int));
                        return Some(event);
                    }
                }
                self.discard_buffered();
                None
            },
            // Advertisements, command responses and the like.
            _ => {
                self.discard_buffered();
                None
            },
        }
    }

    /// Looks for the next sensor report, given the outcome of a transfer that
    /// was to read what [`Reading::want`] asked for. `None` asks for another
    /// transfer. `Ok(None)` says that no report is waiting.
    ///
    /// One packet often carries several reports, and those are taken with
    /// [`Bno085::next_buffered_event`] before anything is read. Packets that
    /// are not sensor reports are consumed and skipped.
    pub fn read_event<E>(&mut self, reading: &mut Reading, outcome: Result<&[u8], E>) -> (end:
        Option<Result<Option<Event>, Error<E>>>)
        requires
            old(self).wf(),
            old(self)@.unread().len() == 0,
            old(reading).wf(),
            outcome matches Ok(bytes) ==> bytes.len() == cargo::transfer_len(*old(reading)),
        ensures
            final(self).wf(),
            final(reading).wf(),
            (final(self)@, *final(reading), end) == event_read(
                old(self)@,
                *old(reading),
                brought(outcome),
            ),
            !(end matches Some(Ok(Some(_)))) ==> final(self)@.unread().len() == 0,
    {
        match self.read_cargo(reading, outcome) {
            None => None,
            Some(Err(error)) => Some(Err(error)),
            Some(Ok(None)) => Some(Ok(None)),
            Some(Ok(Some(header))) => {
                let ghost before = self@;
                self.cargo_len = header.cargo_len as usize;
                self.cursor = HEADER_LEN;
                self.channel = header.channel;
                assert(self@ == walking(before, header));
                match self.next_buffered_event() {
                    Some(event) => Some(Ok(Some(event))),
                    None => None,
                }
            },
        }
    }

    /// Waits for a hub that was told to reboot to announce that it has.
    ///
    /// The hub sends an advertisement packet on its way up. That packet is
    /// larger than the driver's buffer and describes only things the driver
    /// already knows, so it is read and discarded.
    pub fn await_reset<E>(&mut self, waiting: &mut Waiting<E>, outcome: Result<&[u8], E>) -> (step:
        Step<(), E>)
        requires
            old(self).wf(),
            old(waiting).wf(),
            outcome matches Ok(bytes) ==> bytes.len() == cargo::transfer_len(
                old(waiting).reading,
            ),
        ensures
            final(self).wf(),
            final(waiting).wf(),
            (final(self)@, *final(waiting), step) == reset_awaited(
                old(self)@,
                *old(waiting),
                brought(outcome),
            ),
    {
        match self.read_cargo(&mut waiting.reading, outcome) {
            None => Step::Read,
            Some(Ok(Some(header))) => {
                if header.channel == Channel::Executable.to_u8() && self.buf[HEADER_LEN]
                    == EXECUTABLE_RESET {
                    Step::Done(Ok(()))
                } else {
                    Step::Read
                }
            },
            Some(Ok(None)) => Step::Pause,
            Some(Err(Error::CargoTooLarge(_))) => Step::Read,
            Some(Err(error)) => {
                waiting.last_error = Some(error);
                Step::Pause
            },
        }
    }

    /// Waits for a particular report to arrive on the control channel,
    /// discarding anything else that turns up first. Gives the length of the
    /// payload, which is left in the buffer behind the header.
    ///
    /// What is read meanwhile is stored over buffered reports that have not
    /// been taken, and a walk that is not over goes on where it was, over
    /// whatever is then there.
    pub fn await_control_report<E>(
        &mut self,
        waiting: &mut Waiting<E>,
        report_id: u8,
        min_len: usize,
        outcome: Result<&[u8], E>,
    ) -> (step: Step<usize, E>)
        requires
            old(self).wf(),
            old(waiting).wf(),
            outcome matches Ok(bytes) ==> bytes.len() == cargo::transfer_len(
                old(waiting).reading,
            ),
        ensures
            final(self).wf(),
            final(waiting).wf(),
            (final(self)@, *final(waiting), step) == control_report_awaited(
                old(self)@,
                *old(waiting),
                report_id,
                min_len,
                brought(outcome),
            ),
            step matches Step::Done(Ok(len)) ==> min_len <= len <= MAX_CARGO - HEADER_LEN,
    {
        match self.read_cargo(&mut waiting.reading, outcome) {
            None => Step::Read,
            Some(Ok(Some(header))) => {
                if header.channel == Channel::Control.to_u8() && header.payload_len() >= min_len
                    && self.buf[HEADER_LEN] == report_id {
                    Step::Done(Ok(header.payload_len()))
                } else {
                    Step::Read
                }
            },
            Some(Ok(None)) => Step::Pause,
            Some(Err(Error::CargoTooLarge(_))) => Step::Read,
            Some(Err(error)) => Step::Done(Err(error)),
        }
    }

    /// Waits for the hub's answer to [`Bno085::product_id`].
    pub fn await_product_id<E>(&mut self, waiting: &mut Waiting<E>, outcome: Result<&[u8], E>) -> (
        step: Step<ProductId, E>)
        requires
            old(self).wf(),
            old(waiting).wf(),
            outcome matches Ok(bytes) ==> bytes.len() == cargo::transfer_len(
                old(waiting).reading,
            ),
        ensures
            final(self).wf(),
            final(waiting).wf(),
            (final(self)@, *final(waiting), step) == product_id_awaited(
                old(self)@,
                *old(waiting),
                brought(outcome),
            ),
    {
        match self.await_control_report(
            waiting,
            REPORT_PRODUCT_ID_RESPONSE,
            PRODUCT_ID_LEN,
            outcome,
        ) {
            Step::Read => Step::Read,
            Step::Pause => Step::Pause,
            Step::Done(Err(error)) => Step::Done(Err(error)),
            Step::Done(Ok(len)) => {
                let payload = slice_subrange(&self.buf, HEADER_LEN, HEADER_LEN + len);
                Step::Done(Ok(ProductId::decode(payload)))
            },
        }
    }
}

/// Reads `cargo` to its end from a hub that has it to deliver, and says what
/// the reading comes to. `repeat` gives the header that the hub puts before
/// the chunk that follows so many bytes.
pub open spec fn cargo_delivered<I2C, D, E>(
    hub: Bno085View<I2C, D>,
    reading: Reading,
    cargo: Seq<u8>,
    repeat: spec_fn(usize) -> Seq<u8>,
) -> (Bno085View<I2C, D>, Option<Result<Option<Header>, Error<E>>>)
    decreases cargo::left_of(reading),
{
    let read: usize = match reading {
        Reading::Head => 0,
        Reading::Cargo { read, .. } => read,
    };
    let bytes = cargo::hub_sends(cargo, repeat(read), reading);
    let (hub, next, end) = cargo_read(hub, reading, Ok::<Seq<u8>, E>(bytes));
    if end is None && cargo::left_of(next) < cargo::left_of(reading) {
        cargo_delivered(hub, next, cargo, repeat)
    } else {
        (hub, end)
    }
}

/// Transfer by transfer, a hub's cargo is read to its end. One that the buffer
/// has room for is then in the buffer whole. One that is too large is said to
/// be so, and the driver is as it was before.
pub proof fn law_cargo_is_delivered<I2C, D, E>(
    hub: Bno085View<I2C, D>,
    cargo: Seq<u8>,
    repeat: spec_fn(usize) -> Seq<u8>,
    header: Header,
)
    requires
        hub.buf.len() == MAX_CARGO,
        cargo.len() >= HEADER_LEN,
        shtp::parsed(cargo.take(HEADER_LEN as int)) == Some(header),
        cargo.len() == header.cargo_len,
        forall|read: usize| (#[trigger] repeat(read)).len() == HEADER_LEN,
    ensures
        cargo_delivered::<I2C, D, E>(hub, Reading::Head, cargo, repeat) == if cargo.len()
            <= MAX_CARGO {
            (
                Bno085View {
                    buf: cargo + hub.buf.skip(cargo.len() as int),
                    ..hub
                },
                Some(Ok::<_, Error<E>>(Some(header))),
            )
        } else {
            (hub, Some(Err(Error::CargoTooLarge(header.cargo_len))))
        },
{
    cargo::law_cargo_is_read_whole(cargo, repeat, header, hub.buf);
    assert(cargo::hub_sends(cargo, repeat(0), Reading::Head) == cargo.take(HEADER_LEN as int));
    lemma_delivery_stores::<I2C, D, E>(hub, header, 0, cargo, repeat);
}

/// What is left of a cargo is delivered as [`cargo::read_through`] says.
proof fn lemma_delivery_stores<I2C, D, E>(
    hub: Bno085View<I2C, D>,
    header: Header,
    read: usize,
    cargo: Seq<u8>,
    repeat: spec_fn(usize) -> Seq<u8>,
)
    requires
        HEADER_LEN < header.cargo_len,
        cargo.len() == header.cargo_len,
        read < header.cargo_len,
        forall|read: usize| (#[trigger] repeat(read)).len() == HEADER_LEN,
    ensures
        ({
            let reading = Reading::Cargo { header, read };
            let (last, end) = cargo_delivered::<I2C, D, E>(hub, reading, cargo, repeat);
            let (progress, buf) = cargo::read_through(cargo, repeat, reading, hub.buf);
            &&& progress == Progress::Complete(header) ==> end == Some(cargo_end::<E>(header))
            &&& last == if header.cargo_len <= MAX_CARGO {
                Bno085View { buf, ..hub }
            } else {
                hub
            }
        }),
    decreases header.cargo_len - read,
{
    let reading = Reading::Cargo { header, read };
    assert(repeat(read).len() == HEADER_LEN);
    let bytes = cargo::hub_sends(cargo, repeat(read), reading);
    let (after, next, end) = cargo_read(hub, reading, Ok::<Seq<u8>, E>(bytes));
    if let Reading::Cargo { read: more, .. } = next {
        if end is None {
            lemma_delivery_stores::<I2C, D, E>(after, header, more, cargo, repeat);
        }
    }
}

/// Looks for an event in `cargo`, transfer by transfer.
pub open spec fn event_delivered<I2C, D, E>(
    hub: Bno085View<I2C, D>,
    reading: Reading,
    cargo: Seq<u8>,
    repeat: spec_fn(usize) -> Seq<u8>,
) -> (Bno085View<I2C, D>, Option<Result<Option<Event>, Error<E>>>)
    decreases cargo::left_of(reading),
{
    let read: usize = match reading {
        Reading::Head => 0,
        Reading::Cargo { read, .. } => read,
    };
    let bytes = cargo::hub_sends(cargo, repeat(read), reading);
    let (hub, next, end) = event_read(hub, reading, Ok::<Seq<u8>, E>(bytes));
    if end is None && cargo::left_of(next) < cargo::left_of(reading) {
        event_delivered(hub, next, cargo, repeat)
    } else {
        (hub, end)
    }
}

/// The reports that a hub sends in one packet all come out, in order: the
/// search gives the first of them, and what is left in the buffer are the
/// others. A packet of timestamp reports alone gives nothing.
pub proof fn law_packet_gives_its_reports<I2C, D, E>(
    hub: Bno085View<I2C, D>,
    cargo: Seq<u8>,
    repeat: spec_fn(usize) -> Seq<u8>,
    header: Header,
    channel: Channel,
    reports: Seq<Seq<u8>>,
)
    requires
        hub.buf.len() == MAX_CARGO,
        HEADER_LEN <= cargo.len() <= MAX_CARGO,
        shtp::parsed(cargo.take(HEADER_LEN as int)) == Some(header),
        cargo.len() == header.cargo_len,
        forall|read: usize| (#[trigger] repeat(read)).len() == HEADER_LEN,
        channel == Channel::InputNormal || channel == Channel::InputWake,
        header.channel == channel.number(),
        cargo.skip(HEADER_LEN as int) == walk::joined(reports),
        forall|at: int| 0 <= at < reports.len() ==> walk::is_report(#[trigger] reports[at]),
    ensures
        ({
            let (last, end) = event_delivered::<I2C, D, E>(hub, Reading::Head, cargo, repeat);
            let (told, reference_delta) = walk::told(reports, hub.reference_delta);
            let (left, left_delta) = walk::events(last.channel, last.unread(), last.reference_delta);
            match end {
                Some(Ok(Some(event))) => {
                    &&& told == seq![event] + left
                    &&& reference_delta == left_delta
                },
                Some(_) => false,
                None => told.len() == 0 && last.reference_delta == reference_delta,
            }
        }),
{
    walk::law_reports_come_out_in_order(channel, reports, hub.reference_delta);
    law_cargo_is_delivered::<I2C, D, E>(hub, cargo, repeat, header);
    assert(cargo::hub_sends(cargo, repeat(0), Reading::Head) == cargo.take(HEADER_LEN as int));
    lemma_search_follows_delivery::<I2C, D, E>(hub, header, 0, cargo, repeat);
    let (delivered, end) = cargo_delivered::<I2C, D, E>(hub, Reading::Head, cargo, repeat);
    assert(delivered.buf.subrange(HEADER_LEN as int, cargo.len() as int) == cargo.skip(
        HEADER_LEN as int,
    ));
    let walking = walking(delivered, header);
    walk::law_walk_gets_on(walking.channel, walking.unread(), walking.reference_delta);
    let (event, rest, _) = walk::next_event(
        walking.channel,
        walking.unread(),
        walking.reference_delta,
    );
    let (_, last) = walked(walking);
    assert(last.unread() == rest);
}

/// Looking for an event in a cargo comes to what the delivery of the cargo
/// comes to.
proof fn lemma_search_follows_delivery<I2C, D, E>(
    hub: Bno085View<I2C, D>,
    header: Header,
    read: usize,
    cargo: Seq<u8>,
    repeat: spec_fn(usize) -> Seq<u8>,
)
    requires
        HEADER_LEN < header.cargo_len,
        cargo.len() == header.cargo_len,
        read < header.cargo_len,
        forall|read: usize| (#[trigger] repeat(read)).len() == HEADER_LEN,
    ensures
        ({
            let reading = Reading::Cargo { header, read };
            let (last, end) = cargo_delivered::<I2C, D, E>(hub, reading, cargo, repeat);
            event_delivered::<I2C, D, E>(hub, reading, cargo, repeat) == searched(last, end)
        }),
    decreases header.cargo_len - read,
{
    let reading = Reading::Cargo { header, read };
    assert(repeat(read).len() == HEADER_LEN);
    let bytes = cargo::hub_sends(cargo, repeat(read), reading);
    let (after, next, end) = cargo_read(hub, reading, Ok::<Seq<u8>, E>(bytes));
    if let Reading::Cargo { read: more, .. } = next {
        if end is None {
            lemma_search_follows_delivery::<I2C, D, E>(after, header, more, cargo, repeat);
        }
    }
}

/// Reading when nothing is pending is harmless: whatever bytes come that
/// announce no payload, the reading says so and changes nothing.
pub proof fn law_idle_hub_is_left_alone<I2C, D, E>(hub: Bno085View<I2C, D>, bytes: Seq<u8>)
    requires
        bytes.len() == HEADER_LEN,
        shtp::parsed(bytes) is None,
    ensures
        event_read(hub, Reading::Head, Ok::<Seq<u8>, E>(bytes)) == (
            hub,
            Reading::Head,
            Some(Ok::<Option<Event>, Error<E>>(None)),
        ),
{
}

/// Each channel counts its cargos for itself, modulo 256, and command requests
/// are counted besides.
pub proof fn law_cargos_are_counted_per_channel<I2C, D>(
    hub: Bno085View<I2C, D>,
    used: Channel,
    other: Channel,
)
    requires
        hub.sequence.len() == CHANNELS,
    ensures
        sent(hub, used).sequence[used.number() as int] == (hub.sequence[used.number() as int] + 1)
            % 0x100,
        other != used ==> sent(hub, used).sequence[other.number() as int]
            == hub.sequence[other.number() as int],
        sent(hub, used).command_sequence == hub.command_sequence,
        commanded(hub).command_sequence == (hub.command_sequence + 1) % 0x100,
        commanded(hub).sequence == sent(hub, Channel::Control).sequence,
{
    shtp::law_channel_numbers_are_distinct(used, other);
}

} // verus!
