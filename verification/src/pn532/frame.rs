//! The PN532 frame codec.
//!
//! A frame on the wire is
//! `00 00 FF LEN LCS TFI CMD PAYLOAD.. DCS 00`, where `LEN` counts `TFI`,
//! `CMD` and the payload, `LCS` makes `LEN + LCS` zero modulo 256 and `DCS`
//! makes the sum of `TFI`, `CMD`, the payload and `DCS` zero modulo 256.
//! A response carries the opcode of its command plus one.

use vstd::prelude::*;
use vstd::slice::{slice_subrange, slice_to_vec};
use crate::pn532::codes::{lemma_opcode_round_trip, lemma_opcode_values, Pn532Command, Pn532Direction};

verus! {

/// One PN532 frame, decoded.
#[derive(Debug)]
pub struct Pn532Packet {
    pub direction: Pn532Direction,
    pub command: Pn532Command,
    pub payload: Vec<u8>,
}

/// Mathematical content of a [`Pn532Packet`].
pub struct PacketView {
    pub direction: Pn532Direction,
    pub command: Pn532Command,
    pub payload: Seq<u8>,
}

impl View for Pn532Packet {
    type V = PacketView;

    open spec fn view(&self) -> PacketView {
        PacketView { direction: self.direction, command: self.command, payload: self.payload@ }
    }
}

/// Why a byte string is no PN532 frame.
#[derive(Copy, Clone, Debug, PartialEq, Eq, Structural)]
pub enum FrameError {
    /// Fewer than nine bytes.
    TooShort,
    /// The first three bytes are not `00 00 FF`.
    Preamble,
    /// `LEN + LCS` is not zero modulo 256.
    LengthChecksum,
    /// `TFI` names no direction.
    Direction,
    /// `CMD` names no command in that direction.
    Command,
    /// The bytes end before the data checksum that `LEN` announces.
    Truncated,
    /// `TFI + CMD + payload + DCS` is not zero modulo 256. `sum` is the sum
    /// of the data bytes modulo 256, `expected` the `DCS` byte found.
    DataChecksum { sum: u8, expected: u8 },
}

/// The largest payload that fits a frame: `LEN` is one byte and counts two
/// bytes more than the payload.
pub const MAX_PAYLOAD: usize = 253;

/// Sum of the bytes of `bytes`.
pub open spec fn byte_sum(bytes: Seq<u8>) -> int
    decreases bytes.len(),
{
    if bytes.len() == 0 {
        0
    } else {
        byte_sum(bytes.drop_last()) + bytes.last() as int
    }
}

/// The byte that, added to `sum`, gives zero modulo 256.
pub open spec fn checksum_of(sum: int) -> u8 {
    ((256 - sum % 256) % 256) as u8
}

/// The `LEN` byte of a frame with a payload of `payload_len` bytes.
pub open spec fn length_byte(payload_len: nat) -> u8 {
    ((payload_len + 2) % 256) as u8
}

/// The `CMD` byte: the opcode, plus one in a response.
pub open spec fn wire_command(direction: Pn532Direction, command: Pn532Command) -> u8 {
    match direction {
        Pn532Direction::HostToPn532 => command.opcode(),
        Pn532Direction::Pn532ToHost => (command.opcode() + 1) as u8,
    }
}

/// The command that a `CMD` byte names in a frame of the given direction.
pub open spec fn command_of_wire(direction: Pn532Direction, byte: u8) -> Option<Pn532Command> {
    match direction {
        Pn532Direction::HostToPn532 => Pn532Command::of_opcode(byte),
        Pn532Direction::Pn532ToHost => if byte == 0 {
            None
        } else {
            Pn532Command::of_opcode((byte - 1) as u8)
        },
    }
}

/// The frame that carries `packet`.
pub open spec fn frame_of(packet: PacketView) -> Seq<u8> {
    let len = length_byte(packet.payload.len());
    let tfi = packet.direction.tfi();
    let cmd = wire_command(packet.direction, packet.command);
    let dcs = checksum_of(tfi + cmd + byte_sum(packet.payload));
    seq![0x00u8, 0x00u8, 0xFFu8, len, checksum_of(len as int), tfi, cmd] + packet.payload + seq![
        dcs,
        0x00u8,
    ]
}

/// Index of the data checksum in a frame whose `LEN` byte is `data[3]`.
pub open spec fn dcs_index(data: Seq<u8>) -> int {
    5 + data[3] as int
}

/// What the bytes `data` decode to: the packet, or the first check that
/// fails, in this order: total length, preamble, length checksum, direction,
/// command, announced length, data checksum. Bytes behind the data checksum
/// are not looked at.
pub open spec fn parse_frame(data: Seq<u8>) -> Result<PacketView, FrameError> {
    if data.len() < 9 {
        Err(FrameError::TooShort)
    } else if data[0] != 0x00 || data[1] != 0x00 || data[2] != 0xFF {
        Err(FrameError::Preamble)
    } else if (data[3] + data[4]) % 256 != 0 {
        Err(FrameError::LengthChecksum)
    } else {
        match Pn532Direction::of_tfi(data[5]) {
            None => Err(FrameError::Direction),
            Some(direction) => match command_of_wire(direction, data[6]) {
                None => Err(FrameError::Command),
                Some(command) => {
                    let end = dcs_index(data);
                    let sum = (byte_sum(data.subrange(5, end)) % 256) as u8;
                    if data.len() <= end {
                        Err(FrameError::Truncated)
                    } else if (sum + data[end]) % 256 != 0 {
                        Err(FrameError::DataChecksum { sum, expected: data[end] })
                    } else {
                        Ok(PacketView { direction, command, payload: data.subrange(7, end) })
                    }
                },
            },
        }
    }
}

/// The sum of a concatenation is the sum of the sums.
pub proof fn lemma_byte_sum_concat(a: Seq<u8>, b: Seq<u8>)
    ensures
        byte_sum(a + b) == byte_sum(a) + byte_sum(b),
    decreases b.len(),
{
    if b.len() == 0 {
        assert(a + b =~= a);
    } else {
        assert((a + b).drop_last() =~= a + b.drop_last());
        lemma_byte_sum_concat(a, b.drop_last());
    }
}

/// The sum of a single byte is that byte.
pub proof fn lemma_byte_sum_one(byte: u8)
    ensures
        byte_sum(seq![byte]) == byte,
{
    reveal_with_fuel(byte_sum, 2);
    assert(seq![byte].drop_last() =~= Seq::<u8>::empty());
}

/// A frame that decodes announces at least the two bytes `TFI` and `CMD`:
/// with a smaller `LEN` the data checksum cannot hold for any direction and
/// command.
pub proof fn lemma_accepted_length(data: Seq<u8>)
    requires
        parse_frame(data) is Ok,
    ensures
        data[3] >= 2,
        dcs_index(data) >= 7,
        parse_frame(data)->Ok_0.payload.len() == data[3] - 2,
{
    let direction = Pn532Direction::of_tfi(data[5])->Some_0;
    let command = command_of_wire(direction, data[6])->Some_0;
    lemma_opcode_values(command);
    lemma_opcode_round_trip(command, data[6]);
    if data[6] > 0 {
        lemma_opcode_round_trip(command, (data[6] - 1) as u8);
    }
    if data[3] == 0 {
        assert(data.subrange(5, 5) =~= Seq::<u8>::empty());
    } else if data[3] == 1 {
        assert(data.subrange(5, 6) =~= seq![data[5]]);
        lemma_byte_sum_one(data[5]);
    }
}

impl FrameError {
    /// The two upper-case hexadecimal digits of a byte.
    pub open spec fn hex_pair(byte: u8) -> Seq<char> {
        seq![Self::hex_digit(byte / 16), Self::hex_digit(byte % 16)]
    }

    /// The upper-case hexadecimal digit of a value below sixteen.
    pub open spec fn hex_digit(value: u8) -> char {
        if value == 0 {
            '0'
        } else if value == 1 {
            '1'
        } else if value == 2 {
            '2'
        } else if value == 3 {
            '3'
        } else if value == 4 {
            '4'
        } else if value == 5 {
            '5'
        } else if value == 6 {
            '6'
        } else if value == 7 {
            '7'
        } else if value == 8 {
            '8'
        } else if value == 9 {
            '9'
        } else if value == 10 {
            'A'
        } else if value == 11 {
            'B'
        } else if value == 12 {
            'C'
        } else if value == 13 {
            'D'
        } else if value == 14 {
            'E'
        } else {
            'F'
        }
    }

    /// The message of this error.
    pub open spec fn text(self) -> Seq<char> {
        match self {
            FrameError::TooShort => "Packet too short"@,
            FrameError::Preamble => "Invalid preamble"@,
            FrameError::LengthChecksum => "Invalid length checksum (LCS)"@,
            FrameError::Direction => "Invalid direction"@,
            FrameError::Command => "Invalid command"@,
            FrameError::Truncated => "Packet truncated"@,
            FrameError::DataChecksum { sum, expected } => "Invalid checksum (DCS): sum=0x"@
                + Self::hex_pair(sum) + ", expected=0x"@ + Self::hex_pair(expected),
        }
    }

    pub fn to_string(&self) -> (text: String)
        ensures
            text@ == self.text(),
    {
        match self {
            FrameError::TooShort => "Packet too short".to_string(),
            FrameError::Preamble => "Invalid preamble".to_string(),
            FrameError::LengthChecksum => "Invalid length checksum (LCS)".to_string(),
            FrameError::Direction => "Invalid direction".to_string(),
            FrameError::Command => "Invalid command".to_string(),
            FrameError::Truncated => "Packet truncated".to_string(),
            FrameError::DataChecksum { sum, expected } => {
                let mut text = "Invalid checksum (DCS): sum=0x".to_string();
                let sum_hex = hex_byte(*sum);
                text.append(sum_hex.as_str());
                text.append(", expected=0x");
                let expected_hex = hex_byte(*expected);
                text.append(expected_hex.as_str());
                text
            },
        }
    }
}

/// `format!` with `{:02X}` on a byte: its value in hexadecimal, upper case,
/// padded with a zero to two digits. Two digits always hold a byte.
#[verifier::external_body]
fn hex_byte(byte: u8) -> (text: String)
    ensures
        text@ == FrameError::hex_pair(byte),
{
    format!("{:02X}", byte)
}

impl Pn532Packet {
    pub fn new(direction: Pn532Direction, command: Pn532Command, payload: Vec<u8>) -> (packet: Self)
        ensures
            packet@ == (PacketView { direction, command, payload: payload@ }),
    {
        Self { direction, command, payload }
    }

    /// Decodes one frame, or says which check failed first.
    pub fn decode(data: &[u8]) -> (decoded: Result<Pn532Packet, FrameError>)
        ensures
            match decoded {
                Ok(packet) => parse_frame(data@) == Ok::<PacketView, FrameError>(packet@),
                Err(error) => parse_frame(data@) == Err::<PacketView, FrameError>(error),
            },
    {
        if data.len() < 9 {
            return Err(FrameError::TooShort);
        }
        if data[0] != 0x00 || data[1] != 0x00 || data[2] != 0xFF {
            return Err(FrameError::Preamble);
        }
        let payload_len: u8 = data[3];
        let lcs: u8 = data[4];
        if payload_len.wrapping_add(lcs) != 0 {
            return Err(FrameError::LengthChecksum);
        }
        let direction = match Pn532Direction::from_u8(data[5]) {
            Some(direction) => direction,
            None => {
                return Err(FrameError::Direction);
            },
        };
        let opcode: Option<u8> = match direction {
            Pn532Direction::HostToPn532 => Some(data[6]),
            Pn532Direction::Pn532ToHost => data[6].checked_sub(1),
        };
        let command = match opcode {
            Some(byte) => match Pn532Command::from_u8(byte) {
                Some(command) => command,
                None => {
                    return Err(FrameError::Command);
                },
            },
            None => {
                return Err(FrameError::Command);
            },
        };
        let dcs_index: usize = 5 + payload_len as usize;
        if data.len() <= dcs_index {
            return Err(FrameError::Truncated);
        }
        let mut checksum_sum: u8 = 0;
        let mut i: usize = 5;
        assert(data@.subrange(5, 5) =~= Seq::<u8>::empty());
        while i < dcs_index
            invariant
                5 <= i <= dcs_index < data@.len(),
                checksum_sum as int == byte_sum(data@.subrange(5, i as int)) % 256,
            decreases dcs_index - i,
        {
            assert(data@.subrange(5, i + 1).drop_last() =~= data@.subrange(5, i as int));
            checksum_sum = checksum_sum.wrapping_add(data[i]);
            i += 1;
        }
        let expected_dcs: u8 = data[dcs_index];
        if checksum_sum.wrapping_add(expected_dcs) != 0 {
            return Err(FrameError::DataChecksum { sum: checksum_sum, expected: expected_dcs });
        }
        proof {
            lemma_accepted_length(data@);
        }
        let payload = slice_to_vec(slice_subrange(data, 7, dcs_index));
        Ok(Pn532Packet { direction, command, payload })
    }

    /// Decodes one frame. On failure the error is the message of the first
    /// check that failed.
    pub fn from_bytes(data: &[u8]) -> (decoded: Result<Pn532Packet, String>)
        ensures
            match decoded {
                Ok(packet) => parse_frame(data@) == Ok::<PacketView, FrameError>(packet@),
                Err(message) => parse_frame(data@) is Err && message@ == parse_frame(
                    data@,
                )->Err_0.text(),
            },
    {
        match Self::decode(data) {
            Ok(packet) => Ok(packet),
            Err(error) => Err(error.to_string()),
        }
    }

    /// Encodes this packet as one frame. The `LEN` byte holds the payload
    /// length plus two modulo 256, so the frame decodes again only while the
    /// payload has at most [`MAX_PAYLOAD`] bytes.
    pub fn to_bytes(&self) -> (bytes: Vec<u8>)
        ensures
            bytes@ == frame_of(self@),
            bytes@.len() == self@.payload.len() + 9,
            self@.payload.len() <= MAX_PAYLOAD ==> parse_frame(bytes@) == Ok::<
                PacketView,
                FrameError,
            >(self@),
    {
        let mut buffer: Vec<u8> = Vec::new();
        let len: u8 = ((self.payload.len() % 256) as u8).wrapping_add(2);
        let lcs: u8 = 0u8.wrapping_sub(len);
        buffer.push(0x00);
        buffer.push(0x00);
        buffer.push(0xFF);
        buffer.push(len);
        buffer.push(lcs);
        let tfi: u8 = self.direction.to_u8();
        let opcode: u8 = self.command.to_u8();
        proof {
            lemma_opcode_values(self.command);
        }
        let cmd: u8 = match self.direction {
            Pn532Direction::HostToPn532 => opcode,
            Pn532Direction::Pn532ToHost => opcode + 1,
        };
        buffer.push(tfi);
        buffer.push(cmd);
        let mut dcs_sum: u8 = tfi.wrapping_add(cmd);
        let mut i: usize = 0;
        assert(self.payload@.take(0) =~= Seq::<u8>::empty());
        while i < self.payload.len()
            invariant
                i <= self.payload.len(),
                dcs_sum as int == (tfi + cmd + byte_sum(self.payload@.take(i as int))) % 256,
                buffer@ == seq![0x00u8, 0x00u8, 0xFFu8, len, lcs, tfi, cmd] + self.payload@.take(
                    i as int,
                ),
            decreases self.payload.len() - i,
        {
            assert(self.payload@.take(i + 1).drop_last() =~= self.payload@.take(i as int));
            let byte: u8 = self.payload[i];
            buffer.push(byte);
            dcs_sum = dcs_sum.wrapping_add(byte);
            i += 1;
            assert(buffer@ =~= seq![0x00u8, 0x00u8, 0xFFu8, len, lcs, tfi, cmd]
                + self.payload@.take(i as int));
        }
        assert(self.payload@.take(i as int) =~= self.payload@);
        let dcs: u8 = 0u8.wrapping_sub(dcs_sum);
        buffer.push(dcs);
        buffer.push(0x00);
        assert(buffer@ =~= frame_of(self@));
        proof {
            if self@.payload.len() <= MAX_PAYLOAD {
                lemma_round_trip(self@);
            }
        }
        buffer
    }
}

/// Encoding then decoding gives the packet back, for every direction, every
/// command and every payload of at most [`MAX_PAYLOAD`] bytes.
pub proof fn lemma_round_trip(packet: PacketView)
    requires
        packet.payload.len() <= MAX_PAYLOAD,
    ensures
        parse_frame(frame_of(packet)) == Ok::<PacketView, FrameError>(packet),
{
    let frame = frame_of(packet);
    let head = seq![
        0x00u8,
        0x00u8,
        0xFFu8,
        length_byte(packet.payload.len()),
        checksum_of(length_byte(packet.payload.len()) as int),
        packet.direction.tfi(),
        wire_command(packet.direction, packet.command),
    ];
    let tfi = packet.direction.tfi();
    let cmd = wire_command(packet.direction, packet.command);
    let end = 7 + packet.payload.len() as int;
    lemma_opcode_values(packet.command);
    lemma_opcode_round_trip(packet.command, packet.command.opcode());
    assert(frame.len() == end + 2);
    assert(frame[3] == packet.payload.len() + 2);
    assert(dcs_index(frame) == end);
    let data = frame.subrange(5, end);
    assert(data =~= seq![tfi, cmd] + packet.payload);
    lemma_byte_sum_concat(seq![tfi, cmd], packet.payload);
    assert(seq![tfi, cmd] =~= seq![tfi] + seq![cmd]);
    lemma_byte_sum_concat(seq![tfi], seq![cmd]);
    lemma_byte_sum_one(tfi);
    lemma_byte_sum_one(cmd);
    assert(frame.subrange(7, end) =~= packet.payload);
}

/// A frame that decodes stops decoding when its length checksum is replaced
/// by any other byte: the length checksum is then reported.
pub proof fn lemma_corrupt_lcs_rejected(frame: Seq<u8>, corrupt: u8)
    requires
        parse_frame(frame) is Ok,
        corrupt != frame[4],
    ensures
        parse_frame(frame.update(4, corrupt)) == Err::<PacketView, FrameError>(
            FrameError::LengthChecksum,
        ),
{
}

/// A frame that decodes stops decoding when its data checksum is replaced by
/// any other byte: the data checksum is then reported, with the byte found.
pub proof fn lemma_corrupt_dcs_rejected(frame: Seq<u8>, corrupt: u8)
    requires
        parse_frame(frame) is Ok,
        corrupt != frame[dcs_index(frame)],
    ensures
        parse_frame(frame.update(dcs_index(frame), corrupt)) == Err::<PacketView, FrameError>(
            FrameError::DataChecksum {
                sum: (byte_sum(frame.subrange(5, dcs_index(frame))) % 256) as u8,
                expected: corrupt,
            },
        ),
{
    lemma_accepted_length(frame);
    let end = dcs_index(frame);
    let changed = frame.update(end, corrupt);
    assert(changed.subrange(5, end) =~= frame.subrange(5, end));
}

} // verus!
