use hinata::card::{Felica, Iso14443a, PassiveTarget};
use hinata::error::Error;
use hinata::pn532::{gen_felica_poll_initial_data, parse_in_list_passive_target};

#[test]
fn decodes_one_type_a_card() {
    let payload = [0x01, 0x01, 0x00, 0x04, 0x08, 0x04, 0xAA, 0xBB, 0xCC, 0xDD];
    let targets = parse_in_list_passive_target(&payload, 0).unwrap();
    assert_eq!(
        targets,
        vec![PassiveTarget::Iso14443a(Iso14443a::new(vec![0xAA, 0xBB, 0xCC, 0xDD], 0x08, 0x0004))]
    );
    match &targets[0] {
        PassiveTarget::Iso14443a(card) => {
            assert_eq!(card.get_uid(), &[0xAA, 0xBB, 0xCC, 0xDD]);
            assert_eq!(card.get_sak(), 0x08);
            assert_eq!(card.get_aqta(), 0x0004);
            assert!(card.is_mifare_classic());
        }
        PassiveTarget::Felica(_) => panic!("a Type A card was expected"),
    }
}

#[test]
fn atqa_is_big_endian() {
    let payload = [0x01, 0x01, 0x12, 0x34, 0x20, 0x00];
    let targets = parse_in_list_passive_target(&payload, 0).unwrap();
    assert_eq!(targets, vec![PassiveTarget::Iso14443a(Iso14443a::new(vec![], 0x20, 0x1234))]);
}

#[test]
fn decodes_two_type_a_cards() {
    let payload = [
        0x02, 0x01, 0x00, 0x04, 0x08, 0x04, 0x01, 0x02, 0x03, 0x04, 0x02, 0x00, 0x44, 0x00, 0x07,
        0x04, 0x11, 0x22, 0x33, 0x44, 0x55, 0x66,
    ];
    let targets = parse_in_list_passive_target(&payload, 0).unwrap();
    assert_eq!(
        targets,
        vec![
            PassiveTarget::Iso14443a(Iso14443a::new(vec![1, 2, 3, 4], 0x08, 0x0004)),
            PassiveTarget::Iso14443a(Iso14443a::new(
                vec![0x04, 0x11, 0x22, 0x33, 0x44, 0x55, 0x66],
                0x00,
                0x0044
            )),
        ]
    );
}

#[test]
fn no_target_is_an_empty_list_for_any_type() {
    for brty in [0u8, 1, 2, 3, 200] {
        assert_eq!(parse_in_list_passive_target(&[0x00], brty).unwrap(), vec![]);
    }
    assert_eq!(parse_in_list_passive_target(&[0x00, 0xFF, 0xFF], 0).unwrap(), vec![]);
}

#[test]
fn decodes_felica_with_system_codes() {
    let mut payload = vec![0x01, 0x01, 22, 0x01];
    payload.extend_from_slice(&[1, 2, 3, 4, 5, 6, 7, 8]);
    payload.extend_from_slice(&[11, 12, 13, 14, 15, 16, 17, 18]);
    payload.extend_from_slice(&[0x88, 0xB4, 0x00, 0x03]);
    for brty in [1u8, 2] {
        let targets = parse_in_list_passive_target(&payload, brty).unwrap();
        assert_eq!(
            targets,
            vec![PassiveTarget::Felica(Felica::new(
                [1, 2, 3, 4, 5, 6, 7, 8],
                [11, 12, 13, 14, 15, 16, 17, 18],
                vec![0x88B4, 0x0003]
            ))]
        );
        match &targets[0] {
            PassiveTarget::Felica(card) => {
                assert_eq!(card.get_idm(), &[1, 2, 3, 4, 5, 6, 7, 8]);
                assert_eq!(card.get_pmm(), &[11, 12, 13, 14, 15, 16, 17, 18]);
                assert_eq!(card.get_system_codes(), &[0x88B4, 0x0003]);
            }
            PassiveTarget::Iso14443a(_) => panic!("a FeliCa card was expected"),
        }
    }
}

#[test]
fn felica_without_system_codes_and_with_an_odd_byte() {
    let mut payload = vec![0x01, 0x01, 18, 0x01];
    payload.extend_from_slice(&[0; 16]);
    let targets = parse_in_list_passive_target(&payload, 1).unwrap();
    assert_eq!(targets, vec![PassiveTarget::Felica(Felica::new([0; 8], [0; 8], vec![]))]);

    // A length of 21 leaves three bytes: one system code, the odd byte is not read.
    let mut payload = vec![0x01, 0x01, 21, 0x01];
    payload.extend_from_slice(&[0; 16]);
    payload.extend_from_slice(&[0x12, 0x34]);
    let targets = parse_in_list_passive_target(&payload, 1).unwrap();
    assert_eq!(targets, vec![PassiveTarget::Felica(Felica::new([0; 8], [0; 8], vec![0x1234]))]);
}

#[test]
fn felica_length_below_eighteen_fails() {
    let mut payload = vec![0x01, 0x01, 17, 0x01];
    payload.extend_from_slice(&[0; 16]);
    let error = parse_in_list_passive_target(&payload, 1).unwrap_err();
    assert!(matches!(&error, Error::Other(message) if message == "Len error"));
    assert_eq!(error.to_string(), "Other Error: Len error");
}

#[test]
fn unsupported_type_fails() {
    let payload = [0x01, 0x01, 0x00, 0x04, 0x08, 0x04, 0xAA, 0xBB, 0xCC, 0xDD];
    for brty in [3u8, 4, 255] {
        let error = parse_in_list_passive_target(&payload, brty).unwrap_err();
        assert!(matches!(&error, Error::Protocol(message) if message == "Not Supported"));
    }
}

#[test]
fn truncated_payloads_fail() {
    let full = [0x01, 0x01, 0x00, 0x04, 0x08, 0x04, 0xAA, 0xBB, 0xCC, 0xDD];
    for len in 0..full.len() {
        let error = parse_in_list_passive_target(&full[..len], 0).unwrap_err();
        assert!(
            matches!(&error, Error::Protocol(message) if message == "failed to fill whole buffer")
        );
    }
    // Two targets announced, one present.
    let mut two = full.to_vec();
    two[0] = 2;
    assert!(matches!(parse_in_list_passive_target(&two, 0), Err(Error::Protocol(_))));
    // The target number is read before the type is looked at.
    assert!(matches!(
        parse_in_list_passive_target(&[0x01], 9),
        Err(Error::Protocol(message)) if message == "failed to fill whole buffer"
    ));

    let mut felica = vec![0x01, 0x01, 20, 0x01];
    felica.extend_from_slice(&[0; 16]);
    felica.push(0x12);
    assert!(matches!(
        parse_in_list_passive_target(&felica, 2),
        Err(Error::Protocol(message)) if message == "failed to fill whole buffer"
    ));
}

#[test]
fn mifare_classic_is_told_by_sak_and_uid_length() {
    for sak in [0x08u8, 0x18, 0x88] {
        assert!(Iso14443a::new(vec![1, 2, 3, 4], sak, 4).is_mifare_classic());
        assert!(!Iso14443a::new(vec![1, 2, 3, 4, 5, 6, 7], sak, 4).is_mifare_classic());
    }
    assert!(!Iso14443a::new(vec![1, 2, 3, 4], 0x20, 4).is_mifare_classic());
    assert!(!Iso14443a::new(vec![1, 2, 3, 4], 0x00, 4).is_mifare_classic());
}

#[test]
fn felica_poll_initial_data() {
    assert_eq!(gen_felica_poll_initial_data(0x88B4, 0x0001), vec![0x00, 0x88, 0xB4, 0x01, 0x00]);
    assert_eq!(gen_felica_poll_initial_data(0xFFFF, 0x1234), vec![0x00, 0xFF, 0xFF, 0x34, 0x00]);
    assert_eq!(gen_felica_poll_initial_data(0x0003, 0x0000), vec![0x00, 0x00, 0x03, 0x00, 0x00]);
}
