use hinata::pn532::frame::{FrameError, MAX_PAYLOAD};
use hinata::pn532::{Pn532Command, Pn532Direction, Pn532Packet};

const ALL_COMMANDS: [Pn532Command; 32] = [
    Pn532Command::Diagnose,
    Pn532Command::GetFirmwareVersion,
    Pn532Command::GetGeneralStatus,
    Pn532Command::ReadRegister,
    Pn532Command::WriteRegister,
    Pn532Command::ReadGpio,
    Pn532Command::WriteGpio,
    Pn532Command::SetSerialBaudRate,
    Pn532Command::SetParameters,
    Pn532Command::SamConfiguration,
    Pn532Command::PowerDown,
    Pn532Command::RfConfiguration,
    Pn532Command::RfRegulationTest,
    Pn532Command::InJumpForDep,
    Pn532Command::InJumpForPsl,
    Pn532Command::InListPassiveTarget,
    Pn532Command::InAtr,
    Pn532Command::InPsl,
    Pn532Command::InDataExchange,
    Pn532Command::InCommunicateThru,
    Pn532Command::InDeselect,
    Pn532Command::InRelease,
    Pn532Command::InSelect,
    Pn532Command::InAutoPoll,
    Pn532Command::TgInitAsTarget,
    Pn532Command::TgSetGeneralBytes,
    Pn532Command::TgGetData,
    Pn532Command::TgSetData,
    Pn532Command::TgSetMetadata,
    Pn532Command::TgGetInitiatorCommand,
    Pn532Command::TgResponseToInitiator,
    Pn532Command::TgGetTargetStatus,
];

#[test]
fn packet_test() {
    let example = vec![0x00, 0x00, 0xFF, 0x02, 0xFE, 0xD4, 0x02, 0x2A, 0x00];
    let example2 = vec![0x00, 0x00, 0xFF, 0x03, 0xFD, 0xD5, 0x4B, 0x00, 0xE0, 0x00];
    let packet = Pn532Packet::from_bytes(&example).unwrap();
    let packet2 = Pn532Packet::from_bytes(&example2).unwrap();
    println!("{:?}", packet2);
    println!("{:02X?}", packet.to_bytes());
    println!("{:02X?}", packet2.to_bytes());
}

#[test]
fn decodes_get_firmware_version_request() {
    let frame = [0x00, 0x00, 0xFF, 0x02, 0xFE, 0xD4, 0x02, 0x2A, 0x00];
    let packet = Pn532Packet::from_bytes(&frame).unwrap();
    assert_eq!(packet.direction, Pn532Direction::HostToPn532);
    assert_eq!(packet.command, Pn532Command::GetFirmwareVersion);
    assert_eq!(packet.command.to_u8(), 0x02);
    // LEN is 2: the frame holds TFI and CMD only, and 0x2A is its data checksum.
    assert_eq!(packet.payload, Vec::<u8>::new());
    assert_eq!(packet.to_bytes(), frame.to_vec());
}

#[test]
fn decodes_list_passive_target_response() {
    let frame = [0x00, 0x00, 0xFF, 0x03, 0xFD, 0xD5, 0x4B, 0x00, 0xE0, 0x00];
    let packet = Pn532Packet::from_bytes(&frame).unwrap();
    assert_eq!(packet.direction, Pn532Direction::Pn532ToHost);
    assert_eq!(packet.command, Pn532Command::InListPassiveTarget);
    assert_eq!(packet.command.to_u8(), 0x4A);
    // LEN is 3: one byte of payload, and 0xE0 is the data checksum.
    assert_eq!(packet.payload, vec![0x00]);
    assert_eq!(packet.to_bytes(), frame.to_vec());
}

#[test]
fn encodes_length_and_checksums() {
    let packet = Pn532Packet::new(
        Pn532Direction::HostToPn532,
        Pn532Command::InListPassiveTarget,
        vec![0x01, 0x00],
    );
    // LEN = 2 + 2, LCS = 0x100 - 4, DCS = 0x100 - (0xD4 + 0x4A + 0x01) mod 0x100
    assert_eq!(
        packet.to_bytes(),
        vec![0x00, 0x00, 0xFF, 0x04, 0xFC, 0xD4, 0x4A, 0x01, 0x00, 0xE1, 0x00]
    );
}

#[test]
fn response_carries_opcode_plus_one() {
    let packet =
        Pn532Packet::new(Pn532Direction::Pn532ToHost, Pn532Command::TgSetMetadata, vec![]);
    let bytes = packet.to_bytes();
    assert_eq!(bytes[5], 0xD5);
    assert_eq!(bytes[6], 0x95);
}

#[test]
fn round_trip_every_command_and_direction() {
    for direction in [Pn532Direction::HostToPn532, Pn532Direction::Pn532ToHost] {
        for command in ALL_COMMANDS {
            for len in [0usize, 1, 2, 17, 252, MAX_PAYLOAD] {
                let payload: Vec<u8> = (0..len).map(|i| (i * 7 + 3) as u8).collect();
                let bytes = Pn532Packet::new(direction, command, payload.clone()).to_bytes();
                assert_eq!(bytes.len(), len + 9);
                let back = Pn532Packet::from_bytes(&bytes).unwrap();
                assert_eq!(back.direction, direction);
                assert_eq!(back.command, command);
                assert_eq!(back.payload, payload);
            }
        }
    }
}

#[test]
fn payload_above_the_limit_does_not_round_trip() {
    let payload = vec![0u8; MAX_PAYLOAD + 1];
    let bytes =
        Pn532Packet::new(Pn532Direction::HostToPn532, Pn532Command::Diagnose, payload).to_bytes();
    // LEN wraps to 0.
    assert_eq!(bytes[3], 0x00);
    assert!(Pn532Packet::from_bytes(&bytes).is_err());
}

#[test]
fn opcodes_map_both_ways() {
    let mut known = 0;
    for byte in 0..=255u8 {
        if let Some(command) = Pn532Command::from_u8(byte) {
            assert_eq!(command.to_u8(), byte);
            known += 1;
        }
    }
    assert_eq!(known, 32);
    for command in ALL_COMMANDS {
        assert_eq!(Pn532Command::from_u8(command.to_u8()), Some(command));
    }
    assert_eq!(Pn532Direction::from_u8(0xD4), Some(Pn532Direction::HostToPn532));
    assert_eq!(Pn532Direction::from_u8(0xD5), Some(Pn532Direction::Pn532ToHost));
    assert_eq!(Pn532Direction::from_u8(0xD6), None);
    assert_eq!(Pn532Direction::HostToPn532.to_u8(), 0xD4);
    assert_eq!(Pn532Direction::Pn532ToHost.to_u8(), 0xD5);
}

#[test]
fn corrupt_length_checksum_is_rejected() {
    let good = [0x00, 0x00, 0xFF, 0x03, 0xFD, 0xD5, 0x4B, 0x00, 0xE0, 0x00];
    for corrupt in 0..=255u8 {
        if corrupt == good[4] {
            continue;
        }
        let mut frame = good;
        frame[4] = corrupt;
        assert_eq!(Pn532Packet::decode(&frame).unwrap_err(), FrameError::LengthChecksum);
        assert_eq!(
            Pn532Packet::from_bytes(&frame).unwrap_err(),
            "Invalid length checksum (LCS)"
        );
    }
}

#[test]
fn corrupt_data_checksum_is_rejected() {
    let good = [0x00, 0x00, 0xFF, 0x03, 0xFD, 0xD5, 0x4B, 0x00, 0xE0, 0x00];
    for corrupt in 0..=255u8 {
        if corrupt == good[8] {
            continue;
        }
        let mut frame = good;
        frame[8] = corrupt;
        assert_eq!(
            Pn532Packet::decode(&frame).unwrap_err(),
            FrameError::DataChecksum { sum: 0x20, expected: corrupt }
        );
    }
}

#[test]
fn corrupt_data_checksum_is_reported_with_both_bytes() {
    let frame = [0x00, 0x00, 0xFF, 0x02, 0xFE, 0xD4, 0x02, 0x2B, 0x00];
    assert_eq!(
        Pn532Packet::decode(&frame).unwrap_err(),
        FrameError::DataChecksum { sum: 0xD6, expected: 0x2B }
    );
    assert_eq!(
        Pn532Packet::from_bytes(&frame).unwrap_err(),
        "Invalid checksum (DCS): sum=0xD6, expected=0x2B"
    );
    // Digits below ten and a leading zero.
    let frame = [0x00, 0x00, 0xFF, 0x03, 0xFD, 0xD4, 0x00, 0x35, 0x0A, 0x00, 0x00];
    assert_eq!(
        Pn532Packet::from_bytes(&frame).unwrap_err(),
        "Invalid checksum (DCS): sum=0x09, expected=0x0A"
    );
}

#[test]
fn each_frame_error() {
    let short = [0x00, 0x00, 0xFF, 0x02, 0xFE, 0xD4, 0x02, 0x2A];
    assert_eq!(Pn532Packet::decode(&short).unwrap_err(), FrameError::TooShort);
    assert_eq!(Pn532Packet::from_bytes(&short).unwrap_err(), "Packet too short");
    assert_eq!(Pn532Packet::decode(&[]).unwrap_err(), FrameError::TooShort);

    let preamble = [0x00, 0x01, 0xFF, 0x02, 0xFE, 0xD4, 0x02, 0x2A, 0x00];
    assert_eq!(Pn532Packet::decode(&preamble).unwrap_err(), FrameError::Preamble);
    assert_eq!(Pn532Packet::from_bytes(&preamble).unwrap_err(), "Invalid preamble");

    let direction = [0x00, 0x00, 0xFF, 0x02, 0xFE, 0xD6, 0x02, 0x28, 0x00];
    assert_eq!(Pn532Packet::decode(&direction).unwrap_err(), FrameError::Direction);
    assert_eq!(Pn532Packet::from_bytes(&direction).unwrap_err(), "Invalid direction");

    let command = [0x00, 0x00, 0xFF, 0x02, 0xFE, 0xD4, 0x03, 0x29, 0x00];
    assert_eq!(Pn532Packet::decode(&command).unwrap_err(), FrameError::Command);
    assert_eq!(Pn532Packet::from_bytes(&command).unwrap_err(), "Invalid command");

    let truncated = [0x00, 0x00, 0xFF, 0x05, 0xFB, 0xD4, 0x02, 0x2A, 0x00];
    assert_eq!(Pn532Packet::decode(&truncated).unwrap_err(), FrameError::Truncated);
    assert_eq!(Pn532Packet::from_bytes(&truncated).unwrap_err(), "Packet truncated");
}

#[test]
fn response_code_zero_names_no_command() {
    // In a response CMD is the opcode plus one, so zero stands for nothing.
    let frame = [0x00, 0x00, 0xFF, 0x02, 0xFE, 0xD5, 0x00, 0x2B, 0x00];
    assert_eq!(Pn532Packet::decode(&frame).unwrap_err(), FrameError::Command);
}

#[test]
fn length_below_two_never_decodes() {
    for len in [0u8, 1] {
        for tfi in [0xD4u8, 0xD5] {
            for cmd in 0..=255u8 {
                let frame = [0x00, 0x00, 0xFF, len, 0u8.wrapping_sub(len), tfi, cmd, 0x00, 0x00];
                assert!(Pn532Packet::decode(&frame).is_err());
            }
        }
    }
}

#[test]
fn bytes_behind_the_frame_are_ignored() {
    let mut frame = vec![0x00, 0x00, 0xFF, 0x03, 0xFD, 0xD5, 0x4B, 0x00, 0xE0, 0x00];
    frame.extend_from_slice(&[0xAA; 20]);
    let packet = Pn532Packet::from_bytes(&frame).unwrap();
    assert_eq!(packet.payload, vec![0x00]);
}
