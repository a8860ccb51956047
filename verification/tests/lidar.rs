//! The TF03 driver core against frames as they stand on the wire.

use ping_capstone::tf03::protocol::{checksum, decode, Command, DataFrame, Packet, Parser};
use ping_capstone::tf03::{
    check_echo, check_status, is_supported_baud_rate, is_supported_frame_rate, settled, Error,
    FirmwareVersion, Measurement, Tf03, DEFAULT_OUT_OF_RANGE_CM, SUPPORTED_BAUD_RATES,
};

/// A data frame, with its checksum.
fn data(distance_cm: u16, strength: u16) -> Vec<u8> {
    let mut frame = vec![0x59, 0x59];
    frame.extend(distance_cm.to_le_bytes());
    frame.extend(strength.to_le_bytes());
    frame.extend([0, 0]);
    frame.push(checksum(&frame));
    frame
}

/// An answer to the command `id`, with its checksum.
fn answer(id: u8, payload: &[u8]) -> Vec<u8> {
    let mut frame = vec![0x5A, 4 + payload.len() as u8, id];
    frame.extend(payload);
    frame.push(checksum(&frame));
    frame
}

/// Everything that a parser finds in `bytes`.
fn parse(bytes: &[u8]) -> Vec<Packet> {
    let mut parser = Parser::new();
    let mut packets = Vec::new();
    for byte in bytes {
        packets.extend(parser.push(*byte));
    }
    packets
}

/// Hands `bytes` to the driver in chunks of `len` and reads it out after each.
fn read_in_chunks(lidar: &mut Tf03<()>, bytes: &[u8], len: usize) -> Vec<Measurement> {
    let mut found = Vec::new();
    for chunk in bytes.chunks(len) {
        assert!(lidar.received::<()>(Ok(chunk)).is_ok());
        while let Some(measurement) = lidar.read() {
            found.push(measurement);
        }
    }
    found
}

/// The answer that the driver finds in `bytes`.
fn response_in(bytes: &[u8], id: u8) -> ping_capstone::tf03::protocol::Response {
    let mut lidar = Tf03::new(());
    assert!(lidar.received::<()>(Ok(bytes)).is_ok());
    lidar.await_response(id).expect("no answer")
}

#[test]
fn checksum_is_the_low_byte_of_the_sum() {
    assert_eq!(checksum(&[]), 0);
    assert_eq!(checksum(&[0x5A, 0x04, 0x01]), 0x5F);
    assert_eq!(checksum(&[0xFF, 0xFF, 0x03]), 0x01);
}

#[test]
fn commands_are_framed_as_in_the_manual() {
    let lidar = Tf03::new(());
    assert_eq!(lidar.firmware_version().as_bytes(), [0x5A, 0x04, 0x01, 0x5F]);
    assert_eq!(lidar.system_reset().as_bytes(), [0x5A, 0x04, 0x02, 0x60]);
    assert_eq!(lidar.trigger().as_bytes(), [0x5A, 0x04, 0x04, 0x62]);
    assert_eq!(lidar.set_output_enabled(false).as_bytes(), [0x5A, 0x05, 0x07, 0x00, 0x66]);
    assert_eq!(lidar.set_output_enabled(true).as_bytes(), [0x5A, 0x05, 0x07, 0x01, 0x67]);
    assert_eq!(lidar.restore_defaults().as_bytes(), [0x5A, 0x04, 0x10, 0x6E]);
    assert_eq!(lidar.save_settings().as_bytes(), [0x5A, 0x04, 0x11, 0x6F]);
    assert_eq!(
        lidar.set_out_of_range_threshold(15_000).as_bytes(),
        [0x5A, 0x06, 0x4F, 0x98, 0x3A, 0x81]
    );
    assert_eq!(
        lidar.set_frame_rate::<()>(100).unwrap().as_bytes(),
        [0x5A, 0x06, 0x03, 0x64, 0x00, 0xC7]
    );
    assert_eq!(
        lidar.set_baud_rate::<()>(115_200).unwrap().as_bytes(),
        [0x5A, 0x08, 0x06, 0x00, 0xC2, 0x01, 0x00, 0x2B]
    );
}

#[test]
fn command_gives_its_parts_back() {
    let command = Command::new(0x4F, &[1, 2, 3, 4]);
    assert_eq!(command.id(), 0x4F);
    assert_eq!(command.payload(), [1, 2, 3, 4]);
    assert_eq!(command.as_bytes().len(), 8);
}

#[test]
fn data_frame_is_parsed() {
    let packets = parse(&data(1234, 567));
    assert_eq!(packets, [Packet::Data(DataFrame { distance_cm: 1234, strength: 567 })]);
}

#[test]
fn packet_comes_with_its_last_byte_and_not_before() {
    let frame = data(300, 400);
    let mut parser = Parser::new();
    for byte in &frame[..frame.len() - 1] {
        assert!(parser.push(*byte).is_none());
    }
    assert!(parser.push(frame[frame.len() - 1]).is_some());
}

#[test]
fn decode_reads_a_whole_packet() {
    let packet = decode(&answer(0x03, &[0x64, 0x00]));
    match packet {
        Packet::Response(response) => {
            assert_eq!(response.id, 0x03);
            assert_eq!(response.payload(), [0x64, 0x00]);
        }
        Packet::Data(_) => panic!("not a data frame"),
    }
}

#[test]
fn shortest_and_longest_answers_are_parsed() {
    assert_eq!(response_in(&answer(0x01, &[]), 0x01).payload(), []);
    assert_eq!(response_in(&answer(0x06, &[1, 2, 3, 4]), 0x06).payload(), [1, 2, 3, 4]);
}

#[test]
fn garbage_before_a_frame_is_stepped_past() {
    let mut bytes = vec![0x00, 0x59, 0x12, 0x5A, 0xFF, 0x5A, 0x03, 0x59];
    bytes.extend(data(42, 43));
    assert_eq!(parse(&bytes), [Packet::Data(DataFrame { distance_cm: 42, strength: 43 })]);
}

#[test]
fn corrupted_packet_costs_only_itself() {
    let mut bytes = data(1, 100);
    bytes[3] ^= 0x40;
    bytes.extend(data(2, 100));
    assert_eq!(parse(&bytes), [Packet::Data(DataFrame { distance_cm: 2, strength: 100 })]);
}

#[test]
fn false_header_in_a_checksum_does_not_lock_the_parser_out() {
    // A frame whose checksum is itself a header byte, sent over and over, and
    // joined in the middle.
    let mut strength = 0;
    while data(700, strength)[8] != 0x59 {
        strength += 1;
    }
    let frame = data(700, strength);
    let mut bytes = frame[8..].to_vec();
    for _ in 0..4 {
        bytes.extend(&frame);
    }
    let wanted = Packet::Data(DataFrame { distance_cm: 700, strength });
    assert_eq!(parse(&bytes), [wanted; 4]);
}

#[test]
fn reset_parser_forgets_a_partial_packet() {
    let frame = data(5, 50);
    let mut parser = Parser::new();
    for byte in &frame[..5] {
        parser.push(*byte);
    }
    parser.reset();
    for byte in &frame[5..] {
        assert!(parser.push(*byte).is_none());
    }
    let mut copy = parser.clone();
    let mut found = None;
    for byte in &frame {
        found = copy.push(*byte);
    }
    assert!(found.is_some());
    assert!(Parser::default().push(0x59).is_none());
}

#[test]
fn the_cut_of_the_stream_does_not_matter() {
    let mut bytes = vec![0x59, 0x00];
    for distance in 0..20 {
        bytes.extend(data(distance, 100));
        bytes.extend(answer(0x11, &[0]));
    }
    let whole: Vec<_> = read_in_chunks(&mut Tf03::new(()), &bytes, 64);
    assert_eq!(whole.len(), 20);
    for len in [1, 2, 3, 7, 9, 10, 13, 63] {
        assert_eq!(read_in_chunks(&mut Tf03::new(()), &bytes, len), whole);
    }
    for (distance, measurement) in whole.iter().enumerate() {
        assert_eq!(measurement.distance_cm, Some(distance as u16));
    }
}

#[test]
fn weak_or_far_returns_have_no_distance() {
    let mut bytes = data(17_999, 40);
    bytes.extend(data(18_000, 40));
    bytes.extend(data(17_999, 39));
    let found = read_in_chunks(&mut Tf03::new(()), &bytes, 64);
    assert_eq!(
        found,
        [
            Measurement { distance_cm: Some(17_999), raw_distance_cm: 17_999, strength: 40 },
            Measurement { distance_cm: None, raw_distance_cm: 18_000, strength: 40 },
            Measurement { distance_cm: None, raw_distance_cm: 17_999, strength: 39 },
        ]
    );
}

#[test]
fn configured_threshold_is_used() {
    let mut lidar = Tf03::new(()).with_out_of_range_threshold(500);
    let mut bytes = data(499, 100);
    bytes.extend(data(500, 100));
    let found = read_in_chunks(&mut lidar, &bytes, 64);
    assert_eq!(found[0].distance_cm, Some(499));
    assert_eq!(found[1].distance_cm, None);
}

#[test]
fn threshold_changes_only_when_the_lidar_accepts_it() {
    let mut lidar = Tf03::new(());
    let refused = response_in(&answer(0x4F, &[1]), 0x4F);
    assert!(matches!(
        lidar.out_of_range_threshold_set::<()>(100, &refused),
        Err(Error::Rejected(1))
    ));
    assert_eq!(read_in_chunks(&mut lidar, &data(200, 100), 64)[0].distance_cm, Some(200));

    let accepted = response_in(&answer(0x4F, &[0]), 0x4F);
    assert!(lidar.out_of_range_threshold_set::<()>(100, &accepted).is_ok());
    assert_eq!(read_in_chunks(&mut lidar, &data(200, 100), 64)[0].distance_cm, None);

    let restored = response_in(&answer(0x10, &[0]), 0x10);
    assert!(lidar.defaults_restored::<()>(&restored).is_ok());
    let far = DEFAULT_OUT_OF_RANGE_CM - 1;
    assert_eq!(read_in_chunks(&mut lidar, &data(far, 100), 64)[0].distance_cm, Some(far));
}

#[test]
fn end_of_stream_and_uart_errors_are_told_apart() {
    let mut lidar = Tf03::new(());
    assert!(matches!(lidar.received::<u8>(Ok(&[])), Err(Error::EndOfStream)));
    assert!(matches!(lidar.received::<u8>(Err(7)), Err(Error::Uart(7))));
}

#[test]
fn uart_error_forgets_a_partial_packet() {
    let frame = data(900, 100);
    let mut lidar = Tf03::new(());
    assert!(lidar.received::<u8>(Ok(&frame[..6])).is_ok());
    assert!(lidar.read().is_none());
    assert!(lidar.received::<u8>(Err(1)).is_err());
    assert!(lidar.received::<u8>(Ok(&frame[6..])).is_ok());
    assert!(lidar.read().is_none());
    assert!(lidar.received::<u8>(Ok(&frame)).is_ok());
    assert!(lidar.read().is_some());
}

#[test]
fn answers_are_looked_for_by_their_id() {
    let mut bytes = data(1, 100);
    bytes.extend(answer(0x02, &[9]));
    bytes.extend(answer(0x11, &[0]));
    let mut lidar = Tf03::new(());
    assert!(lidar.received::<()>(Ok(&bytes)).is_ok());
    assert_eq!(lidar.await_response(0x11).unwrap().payload(), [0]);
    assert!(lidar.await_response(0x11).is_none());
}

#[test]
fn packets_of_either_kind_are_read_in_order() {
    let mut bytes = data(1, 100);
    bytes.extend(answer(0x02, &[9]));
    let mut lidar = Tf03::new(());
    assert!(lidar.received::<()>(Ok(&bytes)).is_ok());
    assert!(matches!(lidar.read_packet(), Some(Packet::Data(_))));
    assert!(matches!(lidar.read_packet(), Some(Packet::Response(_))));
    assert!(lidar.read_packet().is_none());
}

#[test]
fn firmware_version_comes_least_significant_first() {
    let version = FirmwareVersion::from_response::<()>(&response_in(&answer(1, &[3, 2, 1]), 1));
    assert_eq!(version.unwrap(), FirmwareVersion { major: 1, minor: 2, patch: 3 });
    let short = FirmwareVersion::from_response::<()>(&response_in(&answer(1, &[3, 2]), 1));
    assert!(matches!(short, Err(Error::Protocol)));
}

#[test]
fn status_answers_are_checked() {
    assert!(check_status::<()>(&response_in(&answer(2, &[0]), 2)).is_ok());
    assert!(matches!(
        check_status::<()>(&response_in(&answer(2, &[0xFF]), 2)),
        Err(Error::Rejected(0xFF))
    ));
    assert!(matches!(check_status::<()>(&response_in(&answer(2, &[]), 2)), Err(Error::Protocol)));
    assert!(matches!(
        check_status::<()>(&response_in(&answer(2, &[0, 0]), 2)),
        Err(Error::Protocol)
    ));
}

#[test]
fn echoes_are_checked() {
    let command = Tf03::new(()).set_frame_rate::<()>(200).unwrap();
    let echo = response_in(command.as_bytes(), command.id());
    assert!(check_echo::<()>(&command, &echo).is_ok());
    let other = response_in(&answer(0x03, &[0x64, 0x00]), 0x03);
    assert!(matches!(check_echo::<()>(&command, &other), Err(Error::Protocol)));
    let short = response_in(&answer(0x03, &[0xC8]), 0x03);
    assert!(matches!(check_echo::<()>(&command, &short), Err(Error::Protocol)));
}

#[test]
fn frame_rates_have_one_leading_digit() {
    for hz in [1, 9, 10, 90, 100, 900, 1000, 9000] {
        assert!(is_supported_frame_rate(hz));
    }
    for hz in [0, 11, 15, 95, 101, 150, 950, 1001, 1100, 9001, 10_000, 20_000, 65_535] {
        assert!(!is_supported_frame_rate(hz));
    }
    let supported = (0..=u16::MAX).filter(|hz| is_supported_frame_rate(*hz)).count();
    assert_eq!(supported, 36);
    assert!(matches!(Tf03::new(()).set_frame_rate::<()>(150), Err(Error::Unsupported)));
}

#[test]
fn baud_rates_are_those_both_manuals_list() {
    for baud in SUPPORTED_BAUD_RATES {
        assert!(is_supported_baud_rate(baud));
    }
    for baud in [0, 9_599, 500_000, 600_000, 1_500_000, 2_000_000] {
        assert!(!is_supported_baud_rate(baud));
        assert!(matches!(Tf03::new(()).set_baud_rate::<()>(baud), Err(Error::Unsupported)));
    }
}

#[test]
fn lidar_hands_its_uart_out_and_back() {
    let mut lidar = Tf03::new(vec![1]);
    lidar.uart_mut().push(2);
    assert_eq!(lidar.release(), [1, 2]);
}

#[test]
fn each_command_is_settled_by_its_own_kind_of_answer() {
    let lidar = Tf03::new(());
    let echoed = [
        lidar.set_frame_rate::<()>(100).unwrap(),
        lidar.set_baud_rate::<()>(9_600).unwrap(),
        lidar.set_output_enabled(true),
    ];
    for command in echoed {
        let echo = response_in(command.as_bytes(), command.id());
        assert!(settled::<()>(&command, &echo).is_ok());
        let status = response_in(&answer(command.id(), &[0]), command.id());
        assert!(matches!(settled::<()>(&command, &status), Err(Error::Protocol)));
    }
    let given_status = [
        lidar.system_reset(),
        lidar.restore_defaults(),
        lidar.save_settings(),
        lidar.set_out_of_range_threshold(100),
    ];
    for command in given_status {
        let done = response_in(&answer(command.id(), &[0]), command.id());
        assert!(settled::<()>(&command, &done).is_ok());
        let refused = response_in(&answer(command.id(), &[4]), command.id());
        assert!(matches!(settled::<()>(&command, &refused), Err(Error::Rejected(4))));
        let other = response_in(&answer(command.id(), &[0, 0]), command.id());
        assert!(matches!(settled::<()>(&command, &other), Err(Error::Protocol)));
    }
}

#[test]
fn lidar_says_when_everything_has_been_read() {
    let mut lidar = Tf03::new(());
    assert!(lidar.is_read_out());
    let mut bytes = data(1, 100);
    bytes.extend(data(2, 100));
    assert!(lidar.received::<()>(Ok(&bytes)).is_ok());
    assert!(lidar.read().is_some());
    assert!(!lidar.is_read_out());
    assert!(lidar.read().is_some());
    assert!(lidar.read().is_none());
    assert!(lidar.is_read_out());
}
