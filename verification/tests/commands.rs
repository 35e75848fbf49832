use hinata::card::{Iso14443a, PassiveTarget};
use hinata::error::{Error, HinataResult};
use hinata::pn532::port::{
    data_exchange_payload, data_exchange_reply, done_reply, felica_read_input, get_error_code,
    list_passive_target_payload, list_passive_target_reply, mifare_auth_input, mifare_block_of,
    mifare_read_reply, mifare_write_input, status_reply, with_header,
};
use hinata::pn532::{MifareCommand, Pn532, Pn532Command, Pn532Error, Pn532Port};

/// A port that records what it is asked and answers from a list.
struct ScriptedPort {
    asked: Vec<(Pn532Command, Vec<u8>)>,
    answers: Vec<HinataResult<Vec<u8>>>,
}

impl ScriptedPort {
    fn new(mut answers: Vec<HinataResult<Vec<u8>>>) -> Self {
        answers.reverse();
        ScriptedPort { asked: Vec::new(), answers }
    }
}

impl Pn532Port for ScriptedPort {
    fn request(&mut self, pn532_cmd: Pn532Command, payload: &[u8]) -> HinataResult<Vec<u8>> {
        self.asked.push((pn532_cmd, payload.to_vec()));
        self.answers.pop().unwrap()
    }
}

fn protocol_message<T: std::fmt::Debug>(result: HinataResult<T>) -> String {
    match result {
        Err(Error::Protocol(message)) => message,
        other => panic!("a protocol error was expected, not {:?}", other),
    }
}

#[test]
fn status_bytes() {
    assert!(get_error_code(&[0x00]).is_ok());
    assert!(get_error_code(&[0x00, 1, 2, 3]).is_ok());
    assert!(matches!(get_error_code(&[0x01]), Err(Error::Pn532(Pn532Error::Timeout))));
    assert!(matches!(get_error_code(&[0x14, 9]), Err(Error::Pn532(Pn532Error::MifareAuth))));
    assert!(matches!(get_error_code(&[0x2E]), Err(Error::Pn532(Pn532Error::NoNad))));
    assert_eq!(
        get_error_code(&[0x14]).unwrap_err().to_string(),
        "PN532 Error: MIFARE: Authentication error"
    );
    assert_eq!(protocol_message(get_error_code(&[])), "Empty response from InDataExchange");
}

#[test]
fn unknown_status_bytes_are_named_in_decimal() {
    assert_eq!(protocol_message(get_error_code(&[0x08])), "Unknown status code from PN532: 8");
    assert_eq!(protocol_message(get_error_code(&[0x2F])), "Unknown status code from PN532: 47");
    assert_eq!(protocol_message(get_error_code(&[100])), "Unknown status code from PN532: 100");
    assert_eq!(protocol_message(get_error_code(&[0xFF])), "Unknown status code from PN532: 255");
    assert_eq!(protocol_message(get_error_code(&[0xD2])), "Unknown status code from PN532: 210");
}

#[test]
fn payloads() {
    assert_eq!(with_header(1, 2, &[3, 4]), vec![1, 2, 3, 4]);
    assert_eq!(list_passive_target_payload(0, 1, &[]), vec![1, 0]);
    assert_eq!(list_passive_target_payload(1, 2, &[0, 0xFF, 0xFF, 1, 0]), vec![2, 1, 0, 0xFF, 0xFF, 1, 0]);
    assert_eq!(data_exchange_payload(1, 0x30, &[4]), vec![1, 0x30, 4]);
}

#[test]
fn mifare_inputs() {
    let key = [0xA0, 0xA1, 0xA2, 0xA3, 0xA4, 0xA5];
    let uid = [1, 2, 3, 4];
    assert_eq!(
        mifare_auth_input(&uid, 7, &key).unwrap(),
        vec![7, 0xA0, 0xA1, 0xA2, 0xA3, 0xA4, 0xA5, 1, 2, 3, 4]
    );
    // Longer keys and UIDs are cut.
    assert_eq!(
        mifare_auth_input(&[1, 2, 3, 4, 5, 6, 7], 7, &[9, 9, 9, 9, 9, 9, 8, 8]).unwrap(),
        vec![7, 9, 9, 9, 9, 9, 9, 1, 2, 3, 4]
    );
    assert_eq!(protocol_message(mifare_auth_input(&uid, 7, &key[..5])), "Mifare key must be 6 bytes");
    assert_eq!(
        protocol_message(mifare_auth_input(&uid[..3], 7, &key)),
        "Mifare UID must be at least 4 bytes for auth"
    );
    // The key is checked first.
    assert_eq!(protocol_message(mifare_auth_input(&[], 7, &[])), "Mifare key must be 6 bytes");

    let block: Vec<u8> = (0..16).collect();
    let mut expected = vec![5];
    expected.extend_from_slice(&block);
    assert_eq!(mifare_write_input(5, &block).unwrap(), expected);
    let mut longer = block.clone();
    longer.push(99);
    assert_eq!(mifare_write_input(5, &longer).unwrap(), expected);
    assert_eq!(
        protocol_message(mifare_write_input(5, &block[..15])),
        "Mifare block data must be 16 bytes"
    );

    let mut response = vec![0];
    response.extend_from_slice(&block);
    let mut wanted = [0u8; 16];
    wanted.copy_from_slice(&block);
    assert_eq!(mifare_block_of(&response).unwrap(), wanted);
    assert_eq!(
        protocol_message(mifare_block_of(&response[..16])),
        "Invalid data length in Mifare read response"
    );
    assert_eq!(mifare_read_reply(Ok(response.clone())).unwrap(), wanted);
    assert!(matches!(mifare_read_reply(Err(Error::Timeout("late".to_string()))), Err(Error::Timeout(_))));
    // The status byte is looked at before the length.
    response[0] = 0x14;
    assert!(matches!(mifare_read_reply(Ok(response)), Err(Error::Pn532(Pn532Error::MifareAuth))));
    assert!(matches!(mifare_read_reply(Ok(vec![0x14])), Err(Error::Pn532(Pn532Error::MifareAuth))));
    assert_eq!(
        protocol_message(mifare_read_reply(Ok(vec![0x00, 1, 2]))),
        "Invalid data length in Mifare read response"
    );
}

#[test]
fn felica_read_input_lists_services_and_blocks() {
    let idm = [1, 2, 3, 4, 5, 6, 7, 8];
    let (length, input) = felica_read_input(&idm, &[0x090F], &[0x8000, 0x8001]).unwrap();
    assert_eq!(
        input,
        vec![0x06, 1, 2, 3, 4, 5, 6, 7, 8, 1, 0x09, 0x0F, 2, 0x80, 0x00, 0x80, 0x01]
    );
    assert_eq!(length, 18);
    let (length, input) = felica_read_input(&idm, &[], &[]).unwrap();
    assert_eq!(input, vec![0x06, 1, 2, 3, 4, 5, 6, 7, 8, 0, 0]);
    assert_eq!(length, 12);
    assert_eq!(protocol_message(felica_read_input(&idm[..7], &[], &[])), "Felica IDM must be 8 bytes");
}

#[test]
fn replies() {
    assert_eq!(data_exchange_reply(Ok(vec![0, 1, 2])).unwrap(), vec![0, 1, 2]);
    assert!(matches!(
        data_exchange_reply(Ok(vec![0x27, 1, 2])),
        Err(Error::Pn532(Pn532Error::Context))
    ));
    assert!(matches!(data_exchange_reply(Ok(vec![])), Err(Error::Protocol(_))));
    assert!(matches!(
        data_exchange_reply(Err(Error::Disconnected("gone".to_string()))),
        Err(Error::Disconnected(message)) if message == "gone"
    ));
    assert!(done_reply(Ok(vec![0, 9, 9])).is_ok());
    assert!(matches!(done_reply(Ok(vec![0x01])), Err(Error::Pn532(Pn532Error::Timeout))));
    assert!(matches!(done_reply(Err(Error::Timeout("late".to_string()))), Err(Error::Timeout(_))));
    assert!(status_reply(Ok(vec![0])).is_ok());
    assert!(matches!(status_reply(Ok(vec![0x29])), Err(Error::Pn532(Pn532Error::Released))));
    assert!(matches!(status_reply(Err(Error::Timeout("late".to_string()))), Err(Error::Timeout(_))));
    let card = vec![0x01, 0x01, 0x00, 0x04, 0x08, 0x04, 0xAA, 0xBB, 0xCC, 0xDD];
    assert_eq!(
        list_passive_target_reply(Ok(card), 0).unwrap(),
        vec![PassiveTarget::Iso14443a(Iso14443a::new(vec![0xAA, 0xBB, 0xCC, 0xDD], 0x08, 0x0004))]
    );
    assert!(matches!(
        list_passive_target_reply(Err(Error::Timeout("late".to_string())), 0),
        Err(Error::Timeout(_))
    ));
}

#[test]
fn list_passive_target_over_a_port() {
    let card = vec![0x01, 0x01, 0x00, 0x04, 0x08, 0x04, 0xAA, 0xBB, 0xCC, 0xDD];
    let mut port = ScriptedPort::new(vec![Ok(card), Err(Error::Timeout("late".to_string()))]);
    let found = Pn532::new(&mut port).in_list_passive_target(0, 1, &[]).unwrap();
    assert_eq!(
        found,
        vec![PassiveTarget::Iso14443a(Iso14443a::new(vec![0xAA, 0xBB, 0xCC, 0xDD], 0x08, 0x0004))]
    );
    assert!(matches!(
        Pn532::new(&mut port).in_list_passive_target(1, 2, &[0, 0xFF, 0xFF, 1, 0]),
        Err(Error::Timeout(_))
    ));
    assert_eq!(
        port.asked,
        vec![
            (Pn532Command::InListPassiveTarget, vec![1, 0]),
            (Pn532Command::InListPassiveTarget, vec![2, 1, 0, 0xFF, 0xFF, 1, 0]),
        ]
    );
}

#[test]
fn mifare_over_a_port() {
    let key = [0xFF; 6];
    let uid = [0xAA, 0xBB, 0xCC, 0xDD];
    let mut block = vec![0x00];
    block.extend_from_slice(&[7; 16]);
    let mut port = ScriptedPort::new(vec![Ok(vec![0x00]), Ok(block), Ok(vec![0x00]), Ok(vec![0x14])]);
    {
        let mut chip = Pn532::new(&mut port);
        chip.mifare_classic_auth(1, &uid, 4, MifareCommand::AuthA, &key).unwrap();
        assert_eq!(chip.mifare_classic_read_block(1, 4).unwrap(), [7; 16]);
        chip.mifare_classic_write_block(1, 4, &[9; 16]).unwrap();
        assert!(matches!(
            chip.mifare_classic_auth(1, &uid, 8, MifareCommand::AuthB, &key),
            Err(Error::Pn532(Pn532Error::MifareAuth))
        ));
        // Refused before the port is asked.
        assert!(chip.mifare_classic_auth(1, &uid, 4, MifareCommand::AuthA, &key[..5]).is_err());
        assert!(chip.mifare_classic_write_block(1, 4, &[9; 15]).is_err());
    }
    let mut write = vec![1, 0xA0, 4];
    write.extend_from_slice(&[9; 16]);
    assert_eq!(
        port.asked,
        vec![
            (
                Pn532Command::InDataExchange,
                vec![1, 0x60, 4, 0xFF, 0xFF, 0xFF, 0xFF, 0xFF, 0xFF, 0xAA, 0xBB, 0xCC, 0xDD]
            ),
            (Pn532Command::InDataExchange, vec![1, 0x30, 4]),
            (Pn532Command::InDataExchange, write),
            (
                Pn532Command::InDataExchange,
                vec![1, 0x61, 8, 0xFF, 0xFF, 0xFF, 0xFF, 0xFF, 0xFF, 0xAA, 0xBB, 0xCC, 0xDD]
            ),
        ]
    );
}

#[test]
fn select_release_and_felica_over_a_port() {
    let mut port = ScriptedPort::new(vec![
        Ok(vec![0x00]),
        Ok(vec![0x27]),
        Ok(vec![0x00, 0x1D, 0x07]),
        Ok(vec![0x00, 5, 6]),
    ]);
    {
        let mut chip = Pn532::new(&mut port);
        chip.in_select(2).unwrap();
        assert!(matches!(chip.in_release(2), Err(Error::Pn532(Pn532Error::Context))));
        let idm = [1, 2, 3, 4, 5, 6, 7, 8];
        assert_eq!(
            chip.felica_read_without_encryption(1, &idm, &[0x090F], &[0x8000]).unwrap(),
            vec![0x00, 0x1D, 0x07]
        );
        assert!(chip.felica_read_without_encryption(1, &idm[..4], &[], &[]).is_err());
        assert_eq!(chip.in_data_exchange(3, 0x30, &[1]).unwrap(), vec![0x00, 5, 6]);
    }
    assert_eq!(
        port.asked,
        vec![
            (Pn532Command::InSelect, vec![2]),
            (Pn532Command::InRelease, vec![2]),
            (
                Pn532Command::InDataExchange,
                vec![1, 16, 0x06, 1, 2, 3, 4, 5, 6, 7, 8, 1, 0x09, 0x0F, 1, 0x80, 0x00]
            ),
            (Pn532Command::InDataExchange, vec![3, 0x30, 1]),
        ]
    );
}
