use hinata::pn532::{FelicaCommand, MifareCommand, Pn532Error};

#[test]
fn status_codes_map_both_ways() {
    let mut known = 0;
    for byte in 0..=255u8 {
        if let Some(status) = Pn532Error::from_u8(byte) {
            assert_eq!(status.to_u8(), byte);
            known += 1;
        }
    }
    assert_eq!(known, 29);
    assert_eq!(Pn532Error::from_u8(0x00), Some(Pn532Error::NoError));
    assert_eq!(Pn532Error::from_u8(0x14), Some(Pn532Error::MifareAuth));
    assert_eq!(Pn532Error::from_u8(0x2E), Some(Pn532Error::NoNad));
    assert_eq!(Pn532Error::from_u8(0x08), None);
    assert_eq!(Pn532Error::from_u8(0x2F), None);
}

#[test]
fn status_codes_have_their_text() {
    assert_eq!(Pn532Error::NoError.to_string(), "No error");
    assert_eq!(Pn532Error::Timeout.to_string(), "Time Out, the target has not answered");
    assert_eq!(Pn532Error::MifareAuth.to_string(), "MIFARE: Authentication error");
    assert_eq!(Pn532Error::NoNad.to_string(), "NAD missing in DEP frame");
}

#[test]
fn card_commands_have_their_bytes() {
    assert_eq!(MifareCommand::AuthA.to_u8(), 0x60);
    assert_eq!(MifareCommand::AuthB.to_u8(), 0x61);
    assert_eq!(MifareCommand::Read.to_u8(), 0x30);
    assert_eq!(MifareCommand::Write.to_u8(), 0xA0);
    assert_eq!(MifareCommand::Transfer.to_u8(), 0xB0);
    assert_eq!(MifareCommand::Decrement.to_u8(), 0xC0);
    assert_eq!(MifareCommand::Increment.to_u8(), 0xC1);
    assert_eq!(MifareCommand::Store.to_u8(), 0xC2);
    assert_eq!(MifareCommand::UltralightWrite.to_u8(), 0xA2);
    assert_eq!(MifareCommand::from_u8(0xA2), Some(MifareCommand::UltralightWrite));
    assert_eq!(MifareCommand::from_u8(0x00), None);

    assert_eq!(FelicaCommand::Polling.to_u8(), 0x00);
    assert_eq!(FelicaCommand::RequestService.to_u8(), 0x02);
    assert_eq!(FelicaCommand::RequestResponse.to_u8(), 0x04);
    assert_eq!(FelicaCommand::ReadWithoutEncryption.to_u8(), 0x06);
    assert_eq!(FelicaCommand::WriteWithoutEncryption.to_u8(), 0x08);
    assert_eq!(FelicaCommand::RequestSystemCode.to_u8(), 0x0C);
    assert_eq!(FelicaCommand::from_u8(0x0C), Some(FelicaCommand::RequestSystemCode));
    assert_eq!(FelicaCommand::from_u8(0x0A), None);
}
