//! The bytes that name things on the wire: frame directions, PN532 opcodes
//! and status codes, and the command bytes of MIFARE and FeliCa cards.

use vstd::prelude::*;

verus! {

/// Who sent a frame. On the wire this is the frame identifier byte (TFI).
#[derive(Copy, Clone, Debug, PartialEq, Eq, Structural)]
pub enum Pn532Direction {
    HostToPn532,
    Pn532ToHost,
}

impl Pn532Direction {
    /// The frame identifier byte of this direction.
    pub open spec fn tfi(self) -> u8 {
        match self {
            Pn532Direction::HostToPn532 => 0xD4,
            Pn532Direction::Pn532ToHost => 0xD5,
        }
    }

    /// The direction that a frame identifier byte stands for, if any.
    pub open spec fn of_tfi(byte: u8) -> Option<Pn532Direction> {
        if byte == 0xD4 {
            Some(Pn532Direction::HostToPn532)
        } else if byte == 0xD5 {
            Some(Pn532Direction::Pn532ToHost)
        } else {
            None
        }
    }

    pub fn to_u8(self) -> (byte: u8)
        ensures
            byte == self.tfi(),
    {
        match self {
            Pn532Direction::HostToPn532 => 0xD4,
            Pn532Direction::Pn532ToHost => 0xD5,
        }
    }

    pub fn from_u8(byte: u8) -> (direction: Option<Pn532Direction>)
        ensures
            direction == Self::of_tfi(byte),
    {
        match byte {
            0xD4 => Some(Pn532Direction::HostToPn532),
            0xD5 => Some(Pn532Direction::Pn532ToHost),
            _ => None,
        }
    }
}

/// The commands of the PN532, by name.
#[derive(Copy, Clone, Debug, PartialEq, Eq, Structural)]
pub enum Pn532Command {
    Diagnose,
    GetFirmwareVersion,
    GetGeneralStatus,
    ReadRegister,
    WriteRegister,
    ReadGpio,
    WriteGpio,
    SetSerialBaudRate,
    SetParameters,
    SamConfiguration,
    PowerDown,
    RfConfiguration,
    RfRegulationTest,
    InJumpForDep,
    InJumpForPsl,
    InListPassiveTarget,
    InAtr,
    InPsl,
    InDataExchange,
    InCommunicateThru,
    InDeselect,
    InRelease,
    InSelect,
    InAutoPoll,
    TgInitAsTarget,
    TgSetGeneralBytes,
    TgGetData,
    TgSetData,
    TgSetMetadata,
    TgGetInitiatorCommand,
    TgResponseToInitiator,
    TgGetTargetStatus,
}

impl Pn532Command {
    /// The opcode of this command as the host sends it.
    pub open spec fn opcode(self) -> u8 {
        match self {
            Pn532Command::Diagnose => 0x00,
            Pn532Command::GetFirmwareVersion => 0x02,
            Pn532Command::GetGeneralStatus => 0x04,
            Pn532Command::ReadRegister => 0x06,
            Pn532Command::WriteRegister => 0x08,
            Pn532Command::ReadGpio => 0x0C,
            Pn532Command::WriteGpio => 0x0E,
            Pn532Command::SetSerialBaudRate => 0x10,
            Pn532Command::SetParameters => 0x12,
            Pn532Command::SamConfiguration => 0x14,
            Pn532Command::PowerDown => 0x16,
            Pn532Command::RfConfiguration => 0x32,
            Pn532Command::RfRegulationTest => 0x58,
            Pn532Command::InJumpForDep => 0x56,
            Pn532Command::InJumpForPsl => 0x46,
            Pn532Command::InListPassiveTarget => 0x4A,
            Pn532Command::InAtr => 0x50,
            Pn532Command::InPsl => 0x4E,
            Pn532Command::InDataExchange => 0x40,
            Pn532Command::InCommunicateThru => 0x42,
            Pn532Command::InDeselect => 0x44,
            Pn532Command::InRelease => 0x52,
            Pn532Command::InSelect => 0x54,
            Pn532Command::InAutoPoll => 0x60,
            Pn532Command::TgInitAsTarget => 0x8C,
            Pn532Command::TgSetGeneralBytes => 0x92,
            Pn532Command::TgGetData => 0x86,
            Pn532Command::TgSetData => 0x8E,
            Pn532Command::TgSetMetadata => 0x94,
            Pn532Command::TgGetInitiatorCommand => 0x88,
            Pn532Command::TgResponseToInitiator => 0x90,
            Pn532Command::TgGetTargetStatus => 0x8A,
        }
    }

    /// The command that has `byte` as its opcode, if any.
    pub open spec fn of_opcode(byte: u8) -> Option<Pn532Command> {
        if exists|c: Pn532Command| c.opcode() == byte {
            Some(choose|c: Pn532Command| c.opcode() == byte)
        } else {
            None
        }
    }

    pub fn to_u8(self) -> (byte: u8)
        ensures
            byte == self.opcode(),
    {
        match self {
            Pn532Command::Diagnose => 0x00,
            Pn532Command::GetFirmwareVersion => 0x02,
            Pn532Command::GetGeneralStatus => 0x04,
            Pn532Command::ReadRegister => 0x06,
            Pn532Command::WriteRegister => 0x08,
            Pn532Command::ReadGpio => 0x0C,
            Pn532Command::WriteGpio => 0x0E,
            Pn532Command::SetSerialBaudRate => 0x10,
            Pn532Command::SetParameters => 0x12,
            Pn532Command::SamConfiguration => 0x14,
            Pn532Command::PowerDown => 0x16,
            Pn532Command::RfConfiguration => 0x32,
            Pn532Command::RfRegulationTest => 0x58,
            Pn532Command::InJumpForDep => 0x56,
            Pn532Command::InJumpForPsl => 0x46,
            Pn532Command::InListPassiveTarget => 0x4A,
            Pn532Command::InAtr => 0x50,
            Pn532Command::InPsl => 0x4E,
            Pn532Command::InDataExchange => 0x40,
            Pn532Command::InCommunicateThru => 0x42,
            Pn532Command::InDeselect => 0x44,
            Pn532Command::InRelease => 0x52,
            Pn532Command::InSelect => 0x54,
            Pn532Command::InAutoPoll => 0x60,
            Pn532Command::TgInitAsTarget => 0x8C,
            Pn532Command::TgSetGeneralBytes => 0x92,
            Pn532Command::TgGetData => 0x86,
            Pn532Command::TgSetData => 0x8E,
            Pn532Command::TgSetMetadata => 0x94,
            Pn532Command::TgGetInitiatorCommand => 0x88,
            Pn532Command::TgResponseToInitiator => 0x90,
            Pn532Command::TgGetTargetStatus => 0x8A,
        }
    }

    pub fn from_u8(byte: u8) -> (command: Option<Pn532Command>)
        ensures
            command == Self::of_opcode(byte),
    {
        let command = match byte {
            0x00 => Some(Pn532Command::Diagnose),
            0x02 => Some(Pn532Command::GetFirmwareVersion),
            0x04 => Some(Pn532Command::GetGeneralStatus),
            0x06 => Some(Pn532Command::ReadRegister),
            0x08 => Some(Pn532Command::WriteRegister),
            0x0C => Some(Pn532Command::ReadGpio),
            0x0E => Some(Pn532Command::WriteGpio),
            0x10 => Some(Pn532Command::SetSerialBaudRate),
            0x12 => Some(Pn532Command::SetParameters),
            0x14 => Some(Pn532Command::SamConfiguration),
            0x16 => Some(Pn532Command::PowerDown),
            0x32 => Some(Pn532Command::RfConfiguration),
            0x58 => Some(Pn532Command::RfRegulationTest),
            0x56 => Some(Pn532Command::InJumpForDep),
            0x46 => Some(Pn532Command::InJumpForPsl),
            0x4A => Some(Pn532Command::InListPassiveTarget),
            0x50 => Some(Pn532Command::InAtr),
            0x4E => Some(Pn532Command::InPsl),
            0x40 => Some(Pn532Command::InDataExchange),
            0x42 => Some(Pn532Command::InCommunicateThru),
            0x44 => Some(Pn532Command::InDeselect),
            0x52 => Some(Pn532Command::InRelease),
            0x54 => Some(Pn532Command::InSelect),
            0x60 => Some(Pn532Command::InAutoPoll),
            0x8C => Some(Pn532Command::TgInitAsTarget),
            0x92 => Some(Pn532Command::TgSetGeneralBytes),
            0x86 => Some(Pn532Command::TgGetData),
            0x8E => Some(Pn532Command::TgSetData),
            0x94 => Some(Pn532Command::TgSetMetadata),
            0x88 => Some(Pn532Command::TgGetInitiatorCommand),
            0x90 => Some(Pn532Command::TgResponseToInitiator),
            0x8A => Some(Pn532Command::TgGetTargetStatus),
            _ => None,
        };
        proof {
            match command {
                Some(c) => {
                    assert(c.opcode() == byte);
                    lemma_opcode_injective(c, choose|d: Pn532Command| d.opcode() == byte);
                },
                None => {
                    assert forall|c: Pn532Command| c.opcode() != byte by {
                        lemma_opcode_values(c);
                    }
                },
            }
        }
        command
    }
}

/// No two commands share an opcode.
pub proof fn lemma_opcode_injective(a: Pn532Command, b: Pn532Command)
    requires
        a.opcode() == b.opcode(),
    ensures
        a == b,
{
}

/// Every opcode is even and at most 0x94, so the response code, one above
/// it, fits in a byte and is no opcode itself.
pub proof fn lemma_opcode_values(c: Pn532Command)
    ensures
        c.opcode() % 2 == 0,
        c.opcode() <= 0x94,
{
}

/// The opcode table maps both ways: looking up the opcode of a command gives
/// that command back, and a byte that names a command is that command's
/// opcode.
pub proof fn lemma_opcode_round_trip(c: Pn532Command, byte: u8)
    ensures
        Pn532Command::of_opcode(c.opcode()) == Some(c),
        Pn532Command::of_opcode(byte) == Some(c) ==> c.opcode() == byte,
{
    let d = choose|d: Pn532Command| d.opcode() == c.opcode();
    lemma_opcode_injective(c, d);
}

/// The status byte with which the PN532 closes a data exchange.
#[derive(Copy, Clone, Debug, PartialEq, Eq, Structural)]
pub enum Pn532Error {
    NoError,
    Timeout,
    Crc,
    Parity,
    CollisionBitCount,
    MifareFraming,
    CollisionBitCollision,
    NoBufs,
    RfNoBufs,
    ActiveTooSlow,
    RfProto,
    TooHot,
    InternalNoBufs,
    Inval,
    DepInvalidCommand,
    DepBadData,
    MifareAuth,
    NoSecure,
    I2cBusy,
    UidChecksum,
    DepState,
    HciInval,
    Context,
    Released,
    CardSwapped,
    NoCard,
    Mismatch,
    Overcurrent,
    NoNad,
}

impl Pn532Error {
    /// The status byte of this error.
    pub open spec fn code(self) -> u8 {
        match self {
            Pn532Error::NoError => 0x00,
            Pn532Error::Timeout => 0x01,
            Pn532Error::Crc => 0x02,
            Pn532Error::Parity => 0x03,
            Pn532Error::CollisionBitCount => 0x04,
            Pn532Error::MifareFraming => 0x05,
            Pn532Error::CollisionBitCollision => 0x06,
            Pn532Error::NoBufs => 0x07,
            Pn532Error::RfNoBufs => 0x09,
            Pn532Error::ActiveTooSlow => 0x0A,
            Pn532Error::RfProto => 0x0B,
            Pn532Error::TooHot => 0x0D,
            Pn532Error::InternalNoBufs => 0x0E,
            Pn532Error::Inval => 0x10,
            Pn532Error::DepInvalidCommand => 0x12,
            Pn532Error::DepBadData => 0x13,
            Pn532Error::MifareAuth => 0x14,
            Pn532Error::NoSecure => 0x18,
            Pn532Error::I2cBusy => 0x19,
            Pn532Error::UidChecksum => 0x23,
            Pn532Error::DepState => 0x25,
            Pn532Error::HciInval => 0x26,
            Pn532Error::Context => 0x27,
            Pn532Error::Released => 0x29,
            Pn532Error::CardSwapped => 0x2A,
            Pn532Error::NoCard => 0x2B,
            Pn532Error::Mismatch => 0x2C,
            Pn532Error::Overcurrent => 0x2D,
            Pn532Error::NoNad => 0x2E,
        }
    }

    /// The error that a status byte stands for, if any.
    pub open spec fn of_code(byte: u8) -> Option<Pn532Error> {
        if exists|v: Pn532Error| v.code() == byte {
            Some(choose|v: Pn532Error| v.code() == byte)
        } else {
            None
        }
    }

    pub fn to_u8(&self) -> (byte: u8)
        ensures
            byte == self.code(),
    {
        match self {
            Pn532Error::NoError => 0x00,
            Pn532Error::Timeout => 0x01,
            Pn532Error::Crc => 0x02,
            Pn532Error::Parity => 0x03,
            Pn532Error::CollisionBitCount => 0x04,
            Pn532Error::MifareFraming => 0x05,
            Pn532Error::CollisionBitCollision => 0x06,
            Pn532Error::NoBufs => 0x07,
            Pn532Error::RfNoBufs => 0x09,
            Pn532Error::ActiveTooSlow => 0x0A,
            Pn532Error::RfProto => 0x0B,
            Pn532Error::TooHot => 0x0D,
            Pn532Error::InternalNoBufs => 0x0E,
            Pn532Error::Inval => 0x10,
            Pn532Error::DepInvalidCommand => 0x12,
            Pn532Error::DepBadData => 0x13,
            Pn532Error::MifareAuth => 0x14,
            Pn532Error::NoSecure => 0x18,
            Pn532Error::I2cBusy => 0x19,
            Pn532Error::UidChecksum => 0x23,
            Pn532Error::DepState => 0x25,
            Pn532Error::HciInval => 0x26,
            Pn532Error::Context => 0x27,
            Pn532Error::Released => 0x29,
            Pn532Error::CardSwapped => 0x2A,
            Pn532Error::NoCard => 0x2B,
            Pn532Error::Mismatch => 0x2C,
            Pn532Error::Overcurrent => 0x2D,
            Pn532Error::NoNad => 0x2E,
        }
    }

    pub fn from_u8(byte: u8) -> (value: Option<Pn532Error>)
        ensures
            value == Self::of_code(byte),
            value matches Some(v) ==> v.code() == byte,
    {
        let value = match byte {
            0x00 => Some(Pn532Error::NoError),
            0x01 => Some(Pn532Error::Timeout),
            0x02 => Some(Pn532Error::Crc),
            0x03 => Some(Pn532Error::Parity),
            0x04 => Some(Pn532Error::CollisionBitCount),
            0x05 => Some(Pn532Error::MifareFraming),
            0x06 => Some(Pn532Error::CollisionBitCollision),
            0x07 => Some(Pn532Error::NoBufs),
            0x09 => Some(Pn532Error::RfNoBufs),
            0x0A => Some(Pn532Error::ActiveTooSlow),
            0x0B => Some(Pn532Error::RfProto),
            0x0D => Some(Pn532Error::TooHot),
            0x0E => Some(Pn532Error::InternalNoBufs),
            0x10 => Some(Pn532Error::Inval),
            0x12 => Some(Pn532Error::DepInvalidCommand),
            0x13 => Some(Pn532Error::DepBadData),
            0x14 => Some(Pn532Error::MifareAuth),
            0x18 => Some(Pn532Error::NoSecure),
            0x19 => Some(Pn532Error::I2cBusy),
            0x23 => Some(Pn532Error::UidChecksum),
            0x25 => Some(Pn532Error::DepState),
            0x26 => Some(Pn532Error::HciInval),
            0x27 => Some(Pn532Error::Context),
            0x29 => Some(Pn532Error::Released),
            0x2A => Some(Pn532Error::CardSwapped),
            0x2B => Some(Pn532Error::NoCard),
            0x2C => Some(Pn532Error::Mismatch),
            0x2D => Some(Pn532Error::Overcurrent),
            0x2E => Some(Pn532Error::NoNad),
            _ => None,
        };
        proof {
            match value {
                Some(v) => {
                    let w = choose|w: Pn532Error| w.code() == byte;
                    assert(v.code() == w.code());
                },
                None => {
                    assert forall|v: Pn532Error| v.code() != byte by {
                        let _ = v.code();
                    }
                },
            }
        }
        value
    }

    /// What this status means, in words.
    pub open spec fn text(self) -> Seq<char> {
        match self {
            Pn532Error::NoError => "No error"@,
            Pn532Error::Timeout => "Time Out, the target has not answered"@,
            Pn532Error::Crc => "A CRC error has been detected by the CIU"@,
            Pn532Error::Parity => "A Parity error has been detected by the CIU"@,
            Pn532Error::CollisionBitCount => "Erroneous Bit Count detected during anti-collision/select"@,
            Pn532Error::MifareFraming => "Framing error during MIFARE operation"@,
            Pn532Error::CollisionBitCollision => "Abnormal bit-collision detected during bit wise anti-collision at 106 kbps"@,
            Pn532Error::NoBufs => "Communication buffer size insufficient"@,
            Pn532Error::RfNoBufs => "RF Buffer overflow has been detected by the CIU"@,
            Pn532Error::ActiveTooSlow => "RF field has not been switched on in time by the counterpart"@,
            Pn532Error::RfProto => "RF Protocol error"@,
            Pn532Error::TooHot => "Internal temperature sensor has detected overheating"@,
            Pn532Error::InternalNoBufs => "Internal buffer overflow"@,
            Pn532Error::Inval => "Invalid parameter (range, format...)"@,
            Pn532Error::DepInvalidCommand => "DEP Protocol: Unsupported command received from the initiator"@,
            Pn532Error::DepBadData => "DEP Protocol, MIFARE or ISO/IEC14443-4: Data format mismatch"@,
            Pn532Error::MifareAuth => "MIFARE: Authentication error"@,
            Pn532Error::NoSecure => "Target or Initiator does not support NFC Secure"@,
            Pn532Error::I2cBusy => "I2C bus line is Busy. A TDA transaction is on going"@,
            Pn532Error::UidChecksum => "ISO/IEC14443-3: UID Check byte is wrong"@,
            Pn532Error::DepState => "DEP Protocol: Invalid device state"@,
            Pn532Error::HciInval => "Operation not allowed in this configuration (host controller interface)"@,
            Pn532Error::Context => "Command not acceptable due to the current context"@,
            Pn532Error::Released => "The PN532 configured as target has been released by its initiator"@,
            Pn532Error::CardSwapped => "ISO/IEC14443-3B: Card ID does not match (card swapped)"@,
            Pn532Error::NoCard => "ISO/IEC14443-3B: The card previously activated has disappeared"@,
            Pn532Error::Mismatch => "Mismatch between the NFCID3 initiator and target in DEP 212/424 kbps passive"@,
            Pn532Error::Overcurrent => "An over-current event has been detected"@,
            Pn532Error::NoNad => "NAD missing in DEP frame"@,
        }
    }

    pub fn to_string(&self) -> (text: String)
        ensures
            text@ == self.text(),
    {
        let text: &str = match self {
            Pn532Error::NoError => "No error",
            Pn532Error::Timeout => "Time Out, the target has not answered",
            Pn532Error::Crc => "A CRC error has been detected by the CIU",
            Pn532Error::Parity => "A Parity error has been detected by the CIU",
            Pn532Error::CollisionBitCount => "Erroneous Bit Count detected during anti-collision/select",
            Pn532Error::MifareFraming => "Framing error during MIFARE operation",
            Pn532Error::CollisionBitCollision => "Abnormal bit-collision detected during bit wise anti-collision at 106 kbps",
            Pn532Error::NoBufs => "Communication buffer size insufficient",
            Pn532Error::RfNoBufs => "RF Buffer overflow has been detected by the CIU",
            Pn532Error::ActiveTooSlow => "RF field has not been switched on in time by the counterpart",
            Pn532Error::RfProto => "RF Protocol error",
            Pn532Error::TooHot => "Internal temperature sensor has detected overheating",
            Pn532Error::InternalNoBufs => "Internal buffer overflow",
            Pn532Error::Inval => "Invalid parameter (range, format...)",
            Pn532Error::DepInvalidCommand => "DEP Protocol: Unsupported command received from the initiator",
            Pn532Error::DepBadData => "DEP Protocol, MIFARE or ISO/IEC14443-4: Data format mismatch",
            Pn532Error::MifareAuth => "MIFARE: Authentication error",
            Pn532Error::NoSecure => "Target or Initiator does not support NFC Secure",
            Pn532Error::I2cBusy => "I2C bus line is Busy. A TDA transaction is on going",
            Pn532Error::UidChecksum => "ISO/IEC14443-3: UID Check byte is wrong",
            Pn532Error::DepState => "DEP Protocol: Invalid device state",
            Pn532Error::HciInval => "Operation not allowed in this configuration (host controller interface)",
            Pn532Error::Context => "Command not acceptable due to the current context",
            Pn532Error::Released => "The PN532 configured as target has been released by its initiator",
            Pn532Error::CardSwapped => "ISO/IEC14443-3B: Card ID does not match (card swapped)",
            Pn532Error::NoCard => "ISO/IEC14443-3B: The card previously activated has disappeared",
            Pn532Error::Mismatch => "Mismatch between the NFCID3 initiator and target in DEP 212/424 kbps passive",
            Pn532Error::Overcurrent => "An over-current event has been detected",
            Pn532Error::NoNad => "NAD missing in DEP frame",
        };
        text.to_string()
    }
}


/// The commands of MIFARE cards, sent through a data exchange.
#[derive(Copy, Clone, Debug, PartialEq, Eq, Structural)]
pub enum MifareCommand {
    AuthA,
    AuthB,
    Read,
    Write,
    Transfer,
    Decrement,
    Increment,
    Store,
    /// Specific to MIFARE Ultralight cards.
    UltralightWrite,
}

impl MifareCommand {
    /// The command byte.
    pub open spec fn code(self) -> u8 {
        match self {
            MifareCommand::AuthA => 0x60,
            MifareCommand::AuthB => 0x61,
            MifareCommand::Read => 0x30,
            MifareCommand::Write => 0xA0,
            MifareCommand::Transfer => 0xB0,
            MifareCommand::Decrement => 0xC0,
            MifareCommand::Increment => 0xC1,
            MifareCommand::Store => 0xC2,
            MifareCommand::UltralightWrite => 0xA2,
        }
    }

    /// The command that a byte stands for, if any.
    pub open spec fn of_code(byte: u8) -> Option<MifareCommand> {
        if exists|v: MifareCommand| v.code() == byte {
            Some(choose|v: MifareCommand| v.code() == byte)
        } else {
            None
        }
    }

    pub fn to_u8(&self) -> (byte: u8)
        ensures
            byte == self.code(),
    {
        match self {
            MifareCommand::AuthA => 0x60,
            MifareCommand::AuthB => 0x61,
            MifareCommand::Read => 0x30,
            MifareCommand::Write => 0xA0,
            MifareCommand::Transfer => 0xB0,
            MifareCommand::Decrement => 0xC0,
            MifareCommand::Increment => 0xC1,
            MifareCommand::Store => 0xC2,
            MifareCommand::UltralightWrite => 0xA2,
        }
    }

    pub fn from_u8(byte: u8) -> (value: Option<MifareCommand>)
        ensures
            value == Self::of_code(byte),
            value matches Some(v) ==> v.code() == byte,
    {
        let value = match byte {
            0x60 => Some(MifareCommand::AuthA),
            0x61 => Some(MifareCommand::AuthB),
            0x30 => Some(MifareCommand::Read),
            0xA0 => Some(MifareCommand::Write),
            0xB0 => Some(MifareCommand::Transfer),
            0xC0 => Some(MifareCommand::Decrement),
            0xC1 => Some(MifareCommand::Increment),
            0xC2 => Some(MifareCommand::Store),
            0xA2 => Some(MifareCommand::UltralightWrite),
            _ => None,
        };
        proof {
            match value {
                Some(v) => {
                    let w = choose|w: MifareCommand| w.code() == byte;
                    assert(v.code() == w.code());
                },
                None => {
                    assert forall|v: MifareCommand| v.code() != byte by {
                        let _ = v.code();
                    }
                },
            }
        }
        value
    }
}

/// The commands of FeliCa cards.
#[derive(Copy, Clone, Debug, PartialEq, Eq, Structural)]
pub enum FelicaCommand {
    Polling,
    RequestService,
    RequestResponse,
    ReadWithoutEncryption,
    WriteWithoutEncryption,
    RequestSystemCode,
}

impl FelicaCommand {
    /// The command byte.
    pub open spec fn code(self) -> u8 {
        match self {
            FelicaCommand::Polling => 0x00,
            FelicaCommand::RequestService => 0x02,
            FelicaCommand::RequestResponse => 0x04,
            FelicaCommand::ReadWithoutEncryption => 0x06,
            FelicaCommand::WriteWithoutEncryption => 0x08,
            FelicaCommand::RequestSystemCode => 0x0C,
        }
    }

    /// The command that a byte stands for, if any.
    pub open spec fn of_code(byte: u8) -> Option<FelicaCommand> {
        if exists|v: FelicaCommand| v.code() == byte {
            Some(choose|v: FelicaCommand| v.code() == byte)
        } else {
            None
        }
    }

    pub fn to_u8(&self) -> (byte: u8)
        ensures
            byte == self.code(),
    {
        match self {
            FelicaCommand::Polling => 0x00,
            FelicaCommand::RequestService => 0x02,
            FelicaCommand::RequestResponse => 0x04,
            FelicaCommand::ReadWithoutEncryption => 0x06,
            FelicaCommand::WriteWithoutEncryption => 0x08,
            FelicaCommand::RequestSystemCode => 0x0C,
        }
    }

    pub fn from_u8(byte: u8) -> (value: Option<FelicaCommand>)
        ensures
            value == Self::of_code(byte),
            value matches Some(v) ==> v.code() == byte,
    {
        let value = match byte {
            0x00 => Some(FelicaCommand::Polling),
            0x02 => Some(FelicaCommand::RequestService),
            0x04 => Some(FelicaCommand::RequestResponse),
            0x06 => Some(FelicaCommand::ReadWithoutEncryption),
            0x08 => Some(FelicaCommand::WriteWithoutEncryption),
            0x0C => Some(FelicaCommand::RequestSystemCode),
            _ => None,
        };
        proof {
            match value {
                Some(v) => {
                    let w = choose|w: FelicaCommand| w.code() == byte;
                    assert(v.code() == w.code());
                },
                None => {
                    assert forall|v: FelicaCommand| v.code() != byte by {
                        let _ = v.code();
                    }
                },
            }
        }
        value
    }
}

} // verus!
