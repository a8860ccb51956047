//! The NEO-M9N driver core against frames as they stand on the wire, and
//! against what the `ublox` crate makes of the same bytes.

use ping_capstone::neo_m9n::ubx::{UbxFrame, CLASS_CFG, ID_CFG_VALSET};
use ping_capstone::neo_m9n::{
    Error, FixType, FixedStr, FrameWriter, Message, NeoM9n, Solution, UtcTime, Version,
};
use ublox::packets::nav_pvt::common::{NavPvtFlags, NavPvtValidFlags};
use ublox::proto31::{PacketRef, Proto31};
use ublox::{FixedBuffer, GnssFixType, Parser, UbxPacket};

/// A frame, with its checksum.
fn frame(class: u8, id: u8, payload: &[u8]) -> Vec<u8> {
    let mut body = vec![class, id];
    body.extend((payload.len() as u16).to_le_bytes());
    body.extend(payload);
    let (mut a, mut b) = (0u8, 0u8);
    for byte in &body {
        a = a.wrapping_add(*byte);
        b = b.wrapping_add(a);
    }
    let mut frame = vec![0xB5, 0x62];
    frame.extend(body);
    frame.extend([a, b]);
    frame
}

/// A navigation solution with something different in every field.
fn nav_pvt(fix_type: u8, flags: u8, valid: u8, flags3: u8) -> Vec<u8> {
    let mut payload = Vec::new();
    payload.extend(345_678_900u32.to_le_bytes());
    payload.extend(2026u16.to_le_bytes());
    payload.extend([11, 16, 12, 34, 56, valid]);
    payload.extend(25u32.to_le_bytes());
    payload.extend((-123_456i32).to_le_bytes());
    payload.extend([fix_type, flags, 0xE0, 17]);
    payload.extend((-1_234_567_890i32).to_le_bytes());
    payload.extend(423_456_789i32.to_le_bytes());
    payload.extend(123_456i32.to_le_bytes());
    payload.extend((-98_765i32).to_le_bytes());
    payload.extend(1_500u32.to_le_bytes());
    payload.extend(2_500u32.to_le_bytes());
    payload.extend(111i32.to_le_bytes());
    payload.extend((-222i32).to_le_bytes());
    payload.extend(333i32.to_le_bytes());
    payload.extend(248i32.to_le_bytes());
    payload.extend(12_345_678i32.to_le_bytes());
    payload.extend(77u32.to_le_bytes());
    payload.extend(345_678u32.to_le_bytes());
    payload.extend(321u16.to_le_bytes());
    payload.push(flags3);
    payload.extend([0; 13]);
    assert_eq!(payload.len(), 92);
    payload
}

/// The strings of a version message.
fn mon_ver(software: &str, hardware: &str, extensions: &[&str]) -> Vec<u8> {
    let padded = |text: &str, len: usize| {
        let mut bytes = text.as_bytes().to_vec();
        bytes.resize(len, 0);
        bytes
    };
    let mut payload = padded(software, 30);
    payload.extend(padded(hardware, 10));
    for extension in extensions {
        payload.extend(padded(extension, 30));
    }
    payload
}

/// Hands `bytes` to the driver in chunks of `len` and reads it out after each.
fn messages(gps: &mut NeoM9n<()>, bytes: &[u8], len: usize) -> Vec<Message> {
    let mut found = Vec::new();
    for chunk in bytes.chunks(len) {
        assert!(gps.received::<()>(Ok(chunk)).is_ok());
        while let Some(message) = gps.read_message() {
            found.push(message);
        }
    }
    found
}

/// The solution in a payload.
fn solution(payload: &[u8]) -> Solution {
    Solution::from_nav_pvt(payload)
}

#[test]
fn solution_is_decoded() {
    let found = solution(&nav_pvt(3, 0b11, 0b111, 0));
    assert_eq!(
        found,
        Solution {
            itow_ms: 345_678_900,
            fix_type: FixType::Fix3D,
            fix_ok: true,
            differential: true,
            satellites: 17,
            latitude_e7: 423_456_789,
            longitude_e7: -1_234_567_890,
            height_ellipsoid_mm: 123_456,
            height_msl_mm: -98_765,
            horizontal_accuracy_mm: 1_500,
            vertical_accuracy_mm: 2_500,
            velocity_north_mmps: 111,
            velocity_east_mmps: -222,
            velocity_down_mmps: 333,
            ground_speed_mmps: 248,
            speed_accuracy_mmps: 77,
            heading_of_motion_e5: 12_345_678,
            heading_accuracy_e5: 345_678,
            pdop_e2: 321,
            utc: Some(UtcTime {
                year: 2026,
                month: 11,
                day: 16,
                hour: 12,
                minute: 34,
                second: 56,
                nanosecond: -123_456,
            }),
            invalid_position: false,
        }
    );
}

#[test]
fn solution_agrees_with_the_accessors() {
    for (fix_type, flags, valid, flags3) in [
        (0, 0, 0, 0),
        (1, 1, 1, 1),
        (2, 2, 2, 2),
        (3, 3, 7, 0),
        (4, 1, 3, 3),
        (5, 0xFC, 5, 0xFE),
        (6, 0xFF, 0xFF, 0xFF),
        (255, 0x21, 0x0F, 0x10),
    ] {
        let payload = nav_pvt(fix_type, flags, valid, flags3);
        let found = solution(&payload);
        let mut parser: Parser<FixedBuffer<1024>, Proto31> = Parser::with_fixed_buffer();
        let bytes = frame(0x01, 0x07, &payload);
        let mut packets = parser.consume_ubx(&bytes);
        let Some(Ok(UbxPacket::Proto31(PacketRef::NavPvt(pvt)))) = packets.next() else {
            panic!("no solution");
        };

        assert_eq!(found.itow_ms, pvt.itow());
        assert_eq!(
            found.fix_type,
            match pvt.fix_type() {
                GnssFixType::NoFix => FixType::NoFix,
                GnssFixType::DeadReckoningOnly => FixType::DeadReckoningOnly,
                GnssFixType::Fix2D => FixType::Fix2D,
                GnssFixType::Fix3D => FixType::Fix3D,
                GnssFixType::GPSPlusDeadReckoning => FixType::GnssPlusDeadReckoning,
                GnssFixType::TimeOnlyFix => FixType::TimeOnly,
                _ => FixType::NoFix,
            }
        );
        assert_eq!(found.fix_ok, pvt.flags().contains(NavPvtFlags::GPS_FIX_OK));
        assert_eq!(found.differential, pvt.flags().contains(NavPvtFlags::DIFF_SOLN));
        assert_eq!(found.satellites, pvt.num_satellites());
        let close = |raw: f64, step: f64, value: f64| (raw * step - value).abs() < step / 4.0;
        assert!(close(found.latitude_e7.into(), 1e-7, pvt.latitude()));
        assert!(close(found.longitude_e7.into(), 1e-7, pvt.longitude()));
        assert!(close(found.height_ellipsoid_mm.into(), 1e-3, pvt.height_above_ellipsoid()));
        assert!(close(found.height_msl_mm.into(), 1e-3, pvt.height_msl()));
        assert!(close(found.horizontal_accuracy_mm.into(), 1e-3, pvt.horizontal_accuracy()));
        assert!(close(found.vertical_accuracy_mm.into(), 1e-3, pvt.vertical_accuracy()));
        assert!(close(found.velocity_north_mmps.into(), 1e-3, pvt.vel_north()));
        assert!(close(found.velocity_east_mmps.into(), 1e-3, pvt.vel_east()));
        assert!(close(found.velocity_down_mmps.into(), 1e-3, pvt.vel_down()));
        assert!(close(found.ground_speed_mmps.into(), 1e-3, pvt.ground_speed_2d()));
        assert!(close(found.speed_accuracy_mmps.into(), 1e-3, pvt.speed_accuracy()));
        assert!(close(found.heading_of_motion_e5.into(), 1e-5, pvt.heading_motion()));
        assert!(close(found.heading_accuracy_e5.into(), 1e-5, pvt.heading_accuracy()));
        assert!(close(found.pdop_e2.into(), 1e-2, pvt.pdop()));
        let resolved = pvt.valid().contains(
            NavPvtValidFlags::VALID_DATE
                | NavPvtValidFlags::VALID_TIME
                | NavPvtValidFlags::FULLY_RESOLVED,
        );
        assert_eq!(
            found.utc,
            resolved.then_some(UtcTime {
                year: pvt.year(),
                month: pvt.month(),
                day: pvt.day(),
                hour: pvt.hour(),
                minute: pvt.min(),
                second: pvt.sec(),
                nanosecond: pvt.nanosec(),
            })
        );
        assert_eq!(found.invalid_position, pvt.flags3().invalid_llh());
    }
}

#[test]
fn position_needs_a_usable_fix() {
    let position = Some((423_456_789, -1_234_567_890));
    for fix_type in 0..=6 {
        let vouched = matches!(fix_type, 2 | 3 | 4);
        let expected = if vouched { position } else { None };
        assert_eq!(solution(&nav_pvt(fix_type, 1, 0, 0)).position(), expected);
        assert_eq!(solution(&nav_pvt(fix_type, 0, 0, 0)).position(), None);
        assert_eq!(solution(&nav_pvt(fix_type, 1, 0, 1)).position(), None);
    }
}

#[test]
fn fix_types_have_their_numbers() {
    assert_eq!(FixType::from_u8(0), FixType::NoFix);
    assert_eq!(FixType::from_u8(1), FixType::DeadReckoningOnly);
    assert_eq!(FixType::from_u8(5), FixType::TimeOnly);
    assert_eq!(FixType::from_u8(6), FixType::NoFix);
}

#[test]
fn the_cut_of_the_uart_does_not_matter() {
    let payload = nav_pvt(3, 1, 7, 0);
    let mut bytes = b"$GNRMC,not ubx*00\r\n".to_vec();
    bytes.extend(frame(0x01, 0x07, &payload));
    bytes.extend(frame(0x05, 0x01, &[0x06, 0x8A]));
    bytes.extend(frame(0x01, 0x07, &payload));
    for len in [1, 2, 5, 8, 50, 63, 64] {
        let found = messages(&mut NeoM9n::new(()), &bytes, len);
        assert_eq!(found.len(), 3);
        assert!(matches!(&found[0], Message::Solution(s) if *s == solution(&payload)));
        assert!(matches!(found[1], Message::Ack { class: 0x06, id: 0x8A }));
        assert!(matches!(&found[2], Message::Solution(s) if *s == solution(&payload)));
    }
}

#[test]
fn several_messages_in_one_chunk_are_all_read() {
    let mut bytes = frame(0x05, 0x01, &[1, 2]);
    bytes.extend(frame(0x0A, 0x36, &[]));
    bytes.extend(frame(0x05, 0x00, &[3, 4]));
    let mut gps = NeoM9n::new(());
    assert!(gps.received::<()>(Ok(&bytes)).is_ok());
    assert!(matches!(gps.read_message(), Some(Message::Ack { class: 1, id: 2 })));
    assert!(matches!(gps.read_message(), Some(Message::Nak { class: 3, id: 4 })));
    assert!(gps.read_message().is_none());
}

#[test]
fn corrupted_frame_is_skipped() {
    let mut bytes = frame(0x05, 0x01, &[1, 2]);
    bytes[6] ^= 1;
    bytes.extend(frame(0x05, 0x01, &[3, 4]));
    let found = messages(&mut NeoM9n::new(()), &bytes, 64);
    assert_eq!(found.len(), 1);
    assert!(matches!(found[0], Message::Ack { class: 3, id: 4 }));
}

#[test]
fn reading_skips_to_the_next_solution() {
    let mut bytes = frame(0x05, 0x01, &[1, 2]);
    bytes.extend(frame(0x01, 0x07, &nav_pvt(2, 1, 0, 0)));
    let mut gps = NeoM9n::new(());
    let mut found = None;
    for chunk in bytes.chunks(64) {
        assert!(gps.received::<()>(Ok(chunk)).is_ok());
        assert!(found.is_none());
        found = gps.read();
    }
    assert_eq!(found.unwrap().fix_type, FixType::Fix2D);
    assert!(gps.read().is_none());
}

#[test]
fn receiver_end_of_stream_and_uart_errors_are_told_apart() {
    let mut gps = NeoM9n::new(());
    assert!(matches!(gps.received::<u8>(Ok(&[])), Err(Error::EndOfStream)));
    assert!(matches!(gps.received::<u8>(Err(7)), Err(Error::Uart(7))));
}

#[test]
fn uart_error_forgets_a_partial_frame() {
    let bytes = frame(0x05, 0x01, &[1, 2]);
    let mut gps = NeoM9n::new(());
    assert!(gps.received::<u8>(Ok(&bytes[..7])).is_ok());
    assert!(gps.read_message().is_none());
    assert!(gps.received::<u8>(Err(0)).is_err());
    assert!(gps.received::<u8>(Ok(&bytes[7..])).is_ok());
    assert!(gps.read_message().is_none());
    assert!(gps.received::<u8>(Ok(&bytes)).is_ok());
    assert!(gps.read_message().is_some());
}

#[test]
fn acknowledgement_is_looked_for_by_its_message() {
    let verdict = |bytes: &[u8]| {
        let mut gps = NeoM9n::new(());
        assert!(gps.received::<()>(Ok(bytes)).is_ok());
        gps.await_ack::<()>(CLASS_CFG, ID_CFG_VALSET)
    };
    assert!(matches!(verdict(&frame(0x05, 0x01, &[0x06, 0x8A])), Some(Ok(()))));
    assert!(matches!(
        verdict(&frame(0x05, 0x00, &[0x06, 0x8A])),
        Some(Err(Error::Rejected))
    ));
    assert!(verdict(&frame(0x05, 0x01, &[0x06, 0x8B])).is_none());
    assert!(verdict(&frame(0x05, 0x00, &[0x05, 0x8A])).is_none());
    let mut later = frame(0x05, 0x00, &[0x06, 0x01]);
    later.extend(frame(0x05, 0x01, &[0x06, 0x8A]));
    assert!(matches!(verdict(&later), Some(Ok(()))));
}

#[test]
fn configuration_is_framed() {
    let gps = NeoM9n::new(());
    let writer = gps.configure::<()>(10).unwrap();
    let mut payload = vec![0, 1, 0, 0];
    payload.extend([0x01, 0x00, 0x73, 0x10, 1]);
    payload.extend([0x01, 0x00, 0x74, 0x10, 1]);
    payload.extend([0x02, 0x00, 0x74, 0x10, 0]);
    payload.extend([0x07, 0x00, 0x91, 0x20, 1]);
    payload.extend([0x01, 0x00, 0x21, 0x30, 100, 0]);
    payload.extend([0x02, 0x00, 0x21, 0x30, 1, 0]);
    assert_eq!(writer.frame().unwrap(), frame(0x06, 0x8A, &payload));
}

#[test]
fn every_rate_up_to_the_fastest_is_configured() {
    let gps = NeoM9n::new(());
    for rate in 0..=255u8 {
        match gps.configure::<()>(rate) {
            Ok(writer) => {
                assert!((1..=25).contains(&rate));
                let interval = 1000 / u16::from(rate);
                assert_eq!(writer.frame().unwrap()[34..36], interval.to_le_bytes());
            }
            Err(error) => {
                assert!(!(1..=25).contains(&rate));
                assert!(matches!(error, Error::Unsupported));
            }
        }
    }
}

#[test]
fn version_is_asked_for() {
    let gps = NeoM9n::new(());
    assert_eq!(gps.version(), [0xB5, 0x62, 0x0A, 0x04, 0x00, 0x00, 0x0E, 0x34]);
}

#[test]
fn version_is_read() {
    let payload = mon_ver(
        "ROM SPG 4.04 (7f89f7)",
        "000A0000",
        &["FWVER=SPG 4.04", "PROTVER=32.01", "MOD=NEO-M9N", "GPS;GLO;GAL;BDS"],
    );
    let bytes = frame(0x0A, 0x04, &payload);
    let mut gps = NeoM9n::new(());
    let mut found = None;
    for chunk in bytes.chunks(64) {
        assert!(gps.received::<()>(Ok(chunk)).is_ok());
        found = gps.read_version();
    }
    let version = found.unwrap();
    assert_eq!(version.software.as_str(), "ROM SPG 4.04 (7f89f7)");
    assert_eq!(version.hardware.as_str(), "000A0000");
    assert_eq!(version.module.unwrap().as_str(), "NEO-M9N");
    assert_eq!(version.protocol.unwrap().as_str(), "32.01");
}

#[test]
fn version_takes_the_last_of_each_extension() {
    let extensions = ["MOD=A", "PROTVER=1", "XMOD=no", "MOD=B", "PROTVER=", "mod=no"]
        .map(String::from);
    let version = Version::from_mon_ver("s", "h", &extensions);
    assert_eq!(version.module.unwrap().as_str(), "B");
    assert_eq!(version.protocol.unwrap().as_str(), "");
    let bare = Version::from_mon_ver("s", "h", &[]);
    assert!(bare.module.is_none() && bare.protocol.is_none());
}

#[test]
fn strings_are_cut_at_a_character() {
    assert_eq!(FixedStr::<4>::new("abcd").as_str(), "abcd");
    assert_eq!(FixedStr::<4>::new("abcde").as_str(), "abcd");
    assert_eq!(FixedStr::<4>::new("").as_str(), "");
    assert_eq!(FixedStr::<0>::new("a").as_str(), "");
    assert_eq!(FixedStr::<4>::new("abcé").as_str(), "abc");
    assert_eq!(FixedStr::<5>::new("abcé").as_str(), "abcé");
    assert_eq!(FixedStr::<4>::new("a€b").as_str(), "a€");
    assert_eq!(FixedStr::<3>::new("a€b").as_str(), "a");
    assert_eq!(FixedStr::<6>::new("€🛰").as_str(), "€");
    assert_eq!(FixedStr::<7>::new("€🛰x").as_str(), "€🛰");
    assert!(FixedStr::<4>::new("abcde") == FixedStr::<4>::new("abcdx"));
}

#[test]
fn frame_writer_says_when_it_runs_out_of_room() {
    let mut writer = FrameWriter::<4>::new();
    assert_eq!(writer.frame().unwrap(), []);
    writer.extend(&[1, 2]);
    writer.extend(&[3, 4]);
    assert_eq!(writer.frame().unwrap(), [1, 2, 3, 4]);
    writer.extend(&[]);
    assert!(writer.frame().is_some());
    writer.extend(&[5]);
    assert!(writer.frame().is_none());
    let mut writer = FrameWriter::<4>::new();
    writer.extend(&[1, 2, 3, 4, 5]);
    assert!(writer.frame().is_none());
}

#[test]
fn messages_are_told_from_other_frames() {
    assert!(Message::from_packet(UbxFrame::Other).is_none());
    assert!(Message::from_packet(UbxFrame::Corrupt).is_none());
    let ack = Message::from_packet(UbxFrame::AckAck { class: 1, id: 2 });
    assert!(matches!(ack, Some(Message::Ack { class: 1, id: 2 })));
    let pvt = Message::from_packet(UbxFrame::NavPvt(nav_pvt(5, 0, 0, 0)));
    assert!(matches!(pvt, Some(Message::Solution(s)) if s.fix_type == FixType::TimeOnly));
}

#[test]
fn receiver_hands_its_uart_out_and_back() {
    let mut gps = NeoM9n::new(vec![1]);
    gps.uart_mut().push(2);
    assert_eq!(gps.release(), [1, 2]);
}

/// A stream of frames, some of them damaged, with noise between them.
fn noisy_stream(seed: u32) -> Vec<u8> {
    let mut state = seed;
    let mut random = || {
        state = state.wrapping_mul(1_664_525).wrapping_add(1_013_904_223);
        (state >> 24) as u8
    };
    let mut bytes = Vec::new();
    for _ in 0..60 {
        for _ in 0..random() % 8 {
            bytes.push(if random() % 4 == 0 { 0xB5 } else { random() });
        }
        if random() % 16 == 0 {
            bytes.extend([0xB5, 0x62, random(), random(), random(), random() % 40]);
        }
        let mut next = match random() % 4 {
            0 => frame(0x01, 0x07, &nav_pvt(random() % 7, random(), random(), random())),
            1 => frame(0x05, random() % 2, &[random(), random()]),
            2 => frame(0x0A, 0x04, &mon_ver("sw", "hw", &["MOD=X", "", "PROTVER=9"])),
            _ => frame(random(), random(), &[random(); 5]),
        };
        if random() % 3 == 0 {
            let at = 6 + usize::from(random()) % (next.len() - 6);
            next[at] ^= 1 << (random() % 8);
        }
        bytes.extend(next);
    }
    bytes
}

#[test]
fn messages_are_those_the_parser_finds() {
    for seed in 0..40 {
        let bytes = noisy_stream(seed);
        let mut wanted = Vec::new();
        let mut parser: Parser<FixedBuffer<1024>, Proto31> = Parser::with_fixed_buffer();
        for chunk in bytes.chunks(64) {
            let mut packets = parser.consume_ubx(chunk);
            while let Some(result) = packets.next() {
                let Ok(UbxPacket::Proto31(packet)) = result else {
                    continue;
                };
                match packet {
                    PacketRef::NavPvt(pvt) => wanted.push((0, pvt.as_bytes().to_vec())),
                    PacketRef::MonVer(_) => wanted.push((1, vec![])),
                    PacketRef::AckAck(ack) => wanted.push((2, vec![ack.class(), ack.msg_id()])),
                    PacketRef::AckNak(nak) => wanted.push((3, vec![nak.class(), nak.msg_id()])),
                    _ => {}
                }
            }
        }
        let found = messages(&mut NeoM9n::new(()), &bytes, 64);
        assert_eq!(found.len(), wanted.len());
        for (message, (kind, content)) in found.iter().zip(&wanted) {
            match message {
                Message::Solution(found) => {
                    assert_eq!(*kind, 0);
                    assert_eq!(*found, solution(content));
                }
                Message::Version(version) => {
                    assert_eq!(*kind, 1);
                    assert_eq!(version.module.unwrap().as_str(), "X");
                }
                Message::Ack { class, id } => assert_eq!((2, &vec![*class, *id]), (*kind, content)),
                Message::Nak { class, id } => assert_eq!((3, &vec![*class, *id]), (*kind, content)),
            }
        }
    }
}

#[test]
fn nothing_behind_a_false_header_is_lost() {
    for len in [1017u16, 1100, 8176, 8177, 0xFFFF] {
        let mut bytes = vec![0xB5, 0x62, 0x01, 0x07];
        bytes.extend(len.to_le_bytes());
        for id in 0..200u8 {
            bytes.extend(frame(0x05, 0x01, &[1, id]));
        }
        for chunk in [1, 7, 63, 64] {
            let found = messages(&mut NeoM9n::new(()), &bytes, chunk);
            assert_eq!(found.len(), 200);
            for (id, message) in found.iter().enumerate() {
                assert!(matches!(message, Message::Ack { class: 1, id: at } if *at as usize == id));
            }
        }
    }
}

#[test]
fn acknowledgement_behind_a_full_buffer_is_found() {
    let mut gps = NeoM9n::new(());
    let mut bytes = vec![0xB5, 0x62, 0x01, 0x07, 0x5C, 0x04];
    bytes.resize(1024, 0);
    for chunk in bytes.chunks(64) {
        assert!(gps.received::<()>(Ok(chunk)).is_ok());
        assert!(gps.read_message().is_none());
    }
    let mut last = vec![0; 54];
    last.extend(frame(0x05, 0x01, &[0x06, 0x8A]));
    assert!(gps.received::<()>(Ok(&last)).is_ok());
    assert!(matches!(gps.await_ack::<()>(CLASS_CFG, ID_CFG_VALSET), Some(Ok(()))));
}

#[test]
fn damaged_long_frame_costs_only_itself() {
    let mut long = frame(0x0A, 0x04, &[b'x'; 1010]);
    let end = long.len() - 1;
    long[end] ^= 1;
    let mut bytes = b"$GNGGA,,,*00\r\n".to_vec();
    bytes.extend(long);
    for id in 0..20u8 {
        bytes.extend(b"$GN");
        bytes.extend(frame(0x01, 0x35, &[0; 12]));
        bytes.extend(frame(0x05, 0x00, &[2, id]));
    }
    for chunk in [1, 5, 64] {
        let found = messages(&mut NeoM9n::new(()), &bytes, chunk);
        assert_eq!(found.len(), 20);
        for (id, message) in found.iter().enumerate() {
            assert!(matches!(message, Message::Nak { class: 2, id: at } if *at as usize == id));
        }
    }
}

#[test]
fn receiver_says_when_the_parser_has_been_given_everything() {
    let mut gps = NeoM9n::new(());
    assert!(gps.is_read_out());
    let mut bytes = frame(0x05, 0x01, &[1, 2]);
    bytes.extend(frame(0x05, 0x01, &[3, 4]));
    assert!(gps.received::<()>(Ok(&bytes)).is_ok());
    assert!(!gps.is_read_out());
    assert!(gps.read_message().is_some());
    assert!(gps.read_message().is_some());
    assert!(gps.read_message().is_none());
    assert!(gps.is_read_out());
}

/// A frame of `len` bytes in all, with acknowledgements in its payload.
fn nested(len: usize) -> Vec<u8> {
    let mut payload = Vec::new();
    while payload.len() + 10 <= len - 8 {
        payload.extend(frame(0x05, 0x01, &[9, 9]));
    }
    payload.resize(len - 8, 0);
    frame(0x7E, 0x01, &payload)
}

/// The acknowledgements that the parser finds in `bytes`, given them in chunks
/// of `chunk`.
fn acknowledgements(bytes: &[u8], chunk: usize) -> Vec<(u8, u8)> {
    let mut parser: Parser<FixedBuffer<1024>, Proto31> = Parser::with_fixed_buffer();
    let mut found = Vec::new();
    for chunk in bytes.chunks(chunk) {
        let mut packets = parser.consume_ubx(chunk);
        while let Some(result) = packets.next() {
            if let Ok(UbxPacket::Proto31(PacketRef::AckAck(ack))) = result {
                found.push((ack.class(), ack.msg_id()));
            }
        }
    }
    found
}

#[test]
fn long_frames_are_taken_where_the_parser_takes_them() {
    for len in [1000, 1023, 1024, 1025, 1026, 1027, 1028, 1029, 1030, 1031, 1040, 1100, 2000] {
        for chunk in [1, 2, 3, 5, 6, 7, 13, 60, 61, 63, 64] {
            for noise in [0, 1, 17] {
                let mut bytes = vec![b'$'; noise];
                bytes.extend(nested(len));
                for id in 0..150u8 {
                    bytes.extend(frame(0x05, 0x01, &[1, id]));
                }
                let found: Vec<(u8, u8)> = messages(&mut NeoM9n::new(()), &bytes, chunk)
                    .iter()
                    .map(|message| match message {
                        Message::Ack { class, id } => (*class, *id),
                        _ => panic!("only acknowledgements are sent"),
                    })
                    .collect();
                assert_eq!(found, acknowledgements(&bytes, chunk));
            }
        }
    }
    // Given at once, a frame is taken up to the room that its header leaves.
    let whole = nested(1030);
    let mut gps = NeoM9n::new(());
    assert!(messages(&mut gps, &whole[..1024], 64).is_empty());
    assert!(messages(&mut gps, &whole[1024..], 64).is_empty());
    assert!(!acknowledgements(&nested(1031), 64).is_empty());
}

#[test]
fn stray_sync_bytes_are_noise() {
    let mut bytes = vec![0xB5, 0xB5, 0x41, 0xB5, 0x62, 0x01, 0x07, 0xFF, 0xFF, 0x00, 0xB5];
    bytes.extend(frame(0x05, 0x01, &[1, 1]));
    bytes.extend([0xB5, 0x00]);
    bytes.extend(frame(0x05, 0x01, &[1, 2]));
    for chunk in 1..30 {
        assert_eq!(messages(&mut NeoM9n::new(()), &bytes, chunk).len(), 2);
    }
}
