//! The commands of the PN532, over a port that carries one command to the
//! chip and brings its response payload back.
//!
//! Each command is three steps: the payload is built, the port carries it,
//! and the response is interpreted. The first and the last step are
//! functions of their own, with exact contracts; the port decides what
//! comes back in between.

use vstd::prelude::*;
use vstd::slice::{slice_subrange, slice_to_vec};
use crate::card::PassiveTarget;
use crate::error::{Error, ErrorView, HinataResult};
use crate::pn532::codes::{FelicaCommand, MifareCommand, Pn532Command, Pn532Error};
use crate::pn532::targets::{
    fault_error, parse_in_list_passive_target, parse_target_list, target_views,
    PassiveTargetList, TargetFault,
};

verus! {

/// A way to the chip: sends one command with its payload and returns the
/// payload of the response, or why there is none. The port alone decides
/// what comes back.
pub trait Pn532Port {
    fn request(&mut self, pn532_cmd: Pn532Command, payload: &[u8]) -> HinataResult<Vec<u8>>;
}

/// One command that was put through a port, with what came back.
pub struct Exchange {
    pub command: Pn532Command,
    pub payload: Seq<u8>,
    pub reply: Result<Seq<u8>, ErrorView>,
}

/// The PN532 behind a port. It keeps the record of what it put through the
/// port, so that each command can say what it sent and what it made of the
/// reply.
pub struct Pn532<'a, P: Pn532Port> {
    port: &'a mut P,
    carried: Ghost<Seq<Exchange>>,
}

/// Mathematical content of what a port returns.
pub open spec fn reply_view(reply: HinataResult<Vec<u8>>) -> Result<Seq<u8>, ErrorView> {
    match reply {
        Ok(data) => Ok(data@),
        Err(error) => Err(error@),
    }
}

/// Mathematical content of the result of a command that returns nothing.
pub open spec fn unit_view(result: HinataResult<()>) -> Result<(), ErrorView> {
    match result {
        Ok(_) => Ok(()),
        Err(error) => Err(error@),
    }
}

/// Mathematical content of the result of a command that returns targets.
pub open spec fn targets_view(result: HinataResult<Vec<PassiveTarget>>) -> Result<
    PassiveTargetList,
    ErrorView,
> {
    match result {
        Ok(targets) => Ok(target_views(targets@)),
        Err(error) => Err(error@),
    }
}

/// Mathematical content of the result of a command that returns a block.
pub open spec fn block_view(result: HinataResult<[u8; 16]>) -> Result<Seq<u8>, ErrorView> {
    match result {
        Ok(block) => Ok(block@),
        Err(error) => Err(error@),
    }
}

/// Mathematical content of built command data.
pub open spec fn input_view(result: HinataResult<Vec<u8>>) -> Result<Seq<u8>, ErrorView> {
    reply_view(result)
}

/// The decimal digit of a value below ten.
pub open spec fn decimal_digit(value: u8) -> char {
    if value == 0 {
        '0'
    } else if value == 1 {
        '1'
    } else if value == 2 {
        '2'
    } else if value == 3 {
        '3'
    } else if value == 4 {
        '4'
    } else if value == 5 {
        '5'
    } else if value == 6 {
        '6'
    } else if value == 7 {
        '7'
    } else if value == 8 {
        '8'
    } else {
        '9'
    }
}

/// A byte in decimal, without leading zeros.
pub open spec fn decimal_text(byte: u8) -> Seq<char> {
    if byte < 10 {
        seq![decimal_digit(byte)]
    } else if byte < 100 {
        seq![decimal_digit(byte / 10), decimal_digit(byte % 10)]
    } else {
        seq![decimal_digit(byte / 100), decimal_digit(byte / 10 % 10), decimal_digit(byte % 10)]
    }
}

/// `format!` with `{}` on a byte: its value in decimal, without sign,
/// padding or leading zeros.
#[verifier::external_body]
fn decimal(byte: u8) -> (text: String)
    ensures
        text@ == decimal_text(byte),
{
    format!("{}", byte)
}

/// What the status byte at the head of a response says: nothing, when it
/// is zero; else the error that it names, or that it names none.
pub open spec fn status_of(data: Seq<u8>) -> StatusView {
    if data.len() == 0 {
        StatusView::Empty
    } else {
        match Pn532Error::of_code(data[0]) {
            None => StatusView::Unknown(data[0]),
            Some(Pn532Error::NoError) => StatusView::Good,
            Some(status) => StatusView::Failed(status),
        }
    }
}

/// The meanings of the head of a response.
pub enum StatusView {
    /// The response has no bytes.
    Empty,
    /// The status byte names no status.
    Unknown(u8),
    /// The status byte is zero.
    Good,
    /// The status byte names an error.
    Failed(Pn532Error),
}

/// The error that reports a status other than `Good`.
pub open spec fn status_error(status: StatusView) -> ErrorView {
    match status {
        StatusView::Empty => ErrorView::Protocol("Empty response from InDataExchange"@),
        StatusView::Unknown(byte) => ErrorView::Protocol(
            "Unknown status code from PN532: "@ + decimal_text(byte),
        ),
        StatusView::Good => ErrorView::Pn532(Pn532Error::NoError),
        StatusView::Failed(status) => ErrorView::Pn532(status),
    }
}

/// Checks the status byte at the head of a response.
pub fn get_error_code(data: &[u8]) -> (result: HinataResult<()>)
    ensures
        result is Ok <==> status_of(data@) is Good,
        result matches Err(error) ==> error@ == status_error(status_of(data@)),
{
    if data.len() == 0 {
        return Err(Error::Protocol("Empty response from InDataExchange".to_string()));
    }
    let status_byte: u8 = data[0];
    match Pn532Error::from_u8(status_byte) {
        None => {
            let mut message = "Unknown status code from PN532: ".to_string();
            let number = decimal(status_byte);
            message.append(number.as_str());
            Err(Error::Protocol(message))
        },
        Some(error) => {
            if error == Pn532Error::NoError {
                Ok(())
            } else {
                Err(Error::Pn532(error))
            }
        },
    }
}

/// The two bytes `first` and `second` in front of `rest`.
pub fn with_header(first: u8, second: u8, rest: &[u8]) -> (bytes: Vec<u8>)
    ensures
        bytes@ == seq![first, second] + rest@,
{
    let mut bytes: Vec<u8> = Vec::new();
    bytes.push(first);
    bytes.push(second);
    bytes.extend_from_slice(rest);
    assert(bytes@ =~= seq![first, second] + rest@);
    bytes
}

/// The payload of a list-passive-target command: the largest number of
/// targets wanted, the baud rate and modulation type, the initial data.
pub fn list_passive_target_payload(brty: u8, max_tg: u8, initial_data: &[u8]) -> (payload: Vec<u8>)
    ensures
        payload@ == seq![max_tg, brty] + initial_data@,
{
    with_header(max_tg, brty, initial_data)
}

/// The payload of a data exchange: the target, the command for the card,
/// its data.
pub fn data_exchange_payload(tg: u8, cmd: u8, data: &[u8]) -> (payload: Vec<u8>)
    ensures
        payload@ == seq![tg, cmd] + data@,
{
    with_header(tg, cmd, data)
}

/// What a status byte at the head of a response makes of the response.
pub open spec fn status_outcome(reply: Result<Seq<u8>, ErrorView>) -> Result<(), ErrorView> {
    match reply {
        Err(error) => Err(error),
        Ok(res) => if status_of(res) is Good {
            Ok(())
        } else {
            Err(status_error(status_of(res)))
        },
    }
}

/// What a data exchange returns: the response itself when its status byte
/// is zero, else the error that the status byte stands for.
pub open spec fn data_exchange_outcome(reply: Result<Seq<u8>, ErrorView>) -> Result<
    Seq<u8>,
    ErrorView,
> {
    match reply {
        Err(error) => Err(error),
        Ok(res) => match status_outcome(reply) {
            Err(error) => Err(error),
            Ok(_) => Ok(res),
        },
    }
}

/// What a list-passive-target command of the type `brty` returns.
pub open spec fn list_outcome(reply: Result<Seq<u8>, ErrorView>, brty: u8) -> Result<
    PassiveTargetList,
    ErrorView,
> {
    match reply {
        Err(error) => Err(error),
        Ok(res) => match parse_target_list(res, brty) {
            Ok(targets) => Ok(targets),
            Err(fault) => Err(fault_error(fault)),
        },
    }
}

/// The block in a response to a MIFARE Classic read: the sixteen bytes
/// behind the status byte.
pub open spec fn block_in(res: Seq<u8>) -> Result<Seq<u8>, ErrorView> {
    if res.len() >= 17 {
        Ok(res.subrange(1, 17))
    } else {
        Err(ErrorView::Protocol("Invalid data length in Mifare read response"@))
    }
}

/// What a MIFARE Classic read returns.
pub open spec fn block_read_outcome(reply: Result<Seq<u8>, ErrorView>) -> Result<
    Seq<u8>,
    ErrorView,
> {
    match data_exchange_outcome(reply) {
        Err(error) => Err(error),
        Ok(res) => block_in(res),
    }
}

/// What a command returns that hands back only whether its data exchange
/// went well.
pub open spec fn done_outcome(reply: Result<Seq<u8>, ErrorView>) -> Result<(), ErrorView> {
    match data_exchange_outcome(reply) {
        Err(error) => Err(error),
        Ok(_) => Ok(()),
    }
}

/// Takes the response of a data exchange.
pub fn data_exchange_reply(reply: HinataResult<Vec<u8>>) -> (result: HinataResult<Vec<u8>>)
    ensures
        reply_view(result) == data_exchange_outcome(reply_view(reply)),
{
    match reply {
        Err(error) => Err(error),
        Ok(res) => match get_error_code(res.as_slice()) {
            Ok(()) => Ok(res),
            Err(error) => Err(error),
        },
    }
}

/// Takes the response of a command that returns a status only.
pub fn status_reply(reply: HinataResult<Vec<u8>>) -> (result: HinataResult<()>)
    ensures
        unit_view(result) == status_outcome(reply_view(reply)),
{
    match reply {
        Err(error) => Err(error),
        Ok(res) => get_error_code(res.as_slice()),
    }
}

/// Takes the response of a list-passive-target command that was sent with
/// the type `brty`.
pub fn list_passive_target_reply(reply: HinataResult<Vec<u8>>, brty: u8) -> (result: HinataResult<
    Vec<PassiveTarget>,
>)
    ensures
        targets_view(result) == list_outcome(reply_view(reply), brty),
{
    match reply {
        Err(error) => Err(error),
        Ok(res) => parse_in_list_passive_target(res.as_slice(), brty),
    }
}

/// Length of a MIFARE Classic key.
pub const MIFARE_KEY_LEN: usize = 6;

/// Length of the part of the UID that takes part in an authentication.
pub const MIFARE_AUTH_UID_LEN: usize = 4;

/// Length of a MIFARE Classic block.
pub const MIFARE_BLOCK_LEN: usize = 16;

/// Length of a FeliCa IDm.
pub const FELICA_IDM_LEN: usize = 8;

/// The data of a MIFARE Classic authentication: the block, the first six
/// bytes of the key, the first four bytes of the UID. A shorter key is
/// refused, then a shorter UID.
pub open spec fn mifare_auth_data(uid: Seq<u8>, block_num: u8, key: Seq<u8>) -> Result<
    Seq<u8>,
    ErrorView,
> {
    if key.len() < 6 {
        Err(ErrorView::Protocol("Mifare key must be 6 bytes"@))
    } else if uid.len() < 4 {
        Err(ErrorView::Protocol("Mifare UID must be at least 4 bytes for auth"@))
    } else {
        Ok(seq![block_num] + key.subrange(0, 6) + uid.subrange(0, 4))
    }
}

/// The data of a MIFARE Classic block write: the block, then the first
/// sixteen bytes of `data`. Fewer bytes are refused.
pub open spec fn mifare_write_data(block_num: u8, data: Seq<u8>) -> Result<Seq<u8>, ErrorView> {
    if data.len() < 16 {
        Err(ErrorView::Protocol("Mifare block data must be 16 bytes"@))
    } else {
        Ok(seq![block_num] + data.subrange(0, 16))
    }
}

pub fn mifare_auth_input(uid: &[u8], block_num: u8, key: &[u8]) -> (result: HinataResult<Vec<u8>>)
    ensures
        input_view(result) == mifare_auth_data(uid@, block_num, key@),
{
    if key.len() < MIFARE_KEY_LEN {
        return Err(Error::Protocol("Mifare key must be 6 bytes".to_string()));
    }
    if uid.len() < MIFARE_AUTH_UID_LEN {
        return Err(Error::Protocol("Mifare UID must be at least 4 bytes for auth".to_string()));
    }
    let mut input: Vec<u8> = Vec::new();
    input.push(block_num);
    input.extend_from_slice(slice_subrange(key, 0, MIFARE_KEY_LEN));
    input.extend_from_slice(slice_subrange(uid, 0, MIFARE_AUTH_UID_LEN));
    assert(input@ =~= seq![block_num] + key@.subrange(0, 6) + uid@.subrange(0, 4));
    Ok(input)
}

pub fn mifare_write_input(block_num: u8, data: &[u8]) -> (result: HinataResult<Vec<u8>>)
    ensures
        input_view(result) == mifare_write_data(block_num, data@),
{
    if data.len() < MIFARE_BLOCK_LEN {
        return Err(Error::Protocol("Mifare block data must be 16 bytes".to_string()));
    }
    let mut input: Vec<u8> = Vec::new();
    input.push(block_num);
    input.extend_from_slice(slice_subrange(data, 0, MIFARE_BLOCK_LEN));
    assert(input@ =~= seq![block_num] + data@.subrange(0, 16));
    Ok(input)
}

/// Takes the block out of the response to a MIFARE Classic read. A
/// response that is too short is refused.
pub fn mifare_block_of(res: &[u8]) -> (result: HinataResult<[u8; 16]>)
    ensures
        block_view(result) == block_in(res@),
{
    if res.len() < 1 + MIFARE_BLOCK_LEN {
        return Err(Error::Protocol("Invalid data length in Mifare read response".to_string()));
    }
    let block: [u8; 16] = [
        res[1],
        res[2],
        res[3],
        res[4],
        res[5],
        res[6],
        res[7],
        res[8],
        res[9],
        res[10],
        res[11],
        res[12],
        res[13],
        res[14],
        res[15],
        res[16],
    ];
    assert(block@ =~= res@.subrange(1, 17));
    Ok(block)
}

/// Takes the response of a MIFARE Classic read.
pub fn mifare_read_reply(reply: HinataResult<Vec<u8>>) -> (result: HinataResult<[u8; 16]>)
    ensures
        block_view(result) == block_read_outcome(reply_view(reply)),
{
    match data_exchange_reply(reply) {
        Err(error) => Err(error),
        Ok(res) => mifare_block_of(res.as_slice()),
    }
}

/// Takes the response of a command that hands back only whether its data
/// exchange went well.
pub fn done_reply(reply: HinataResult<Vec<u8>>) -> (result: HinataResult<()>)
    ensures
        unit_view(result) == done_outcome(reply_view(reply)),
{
    match data_exchange_reply(reply) {
        Err(error) => Err(error),
        Ok(_) => Ok(()),
    }
}

/// The two bytes of each value of `values`, the high one first.
pub open spec fn be_bytes(values: Seq<u16>) -> Seq<u8>
    decreases values.len(),
{
    if values.len() == 0 {
        Seq::empty()
    } else {
        be_bytes(values.drop_last()) + seq![
            (values.last() / 256) as u8,
            (values.last() % 256) as u8,
        ]
    }
}

/// The data of a FeliCa read without encryption: the command, the IDm, the
/// number of services and the services, the number of blocks and the
/// blocks. Each number is taken modulo 256.
pub open spec fn felica_read_data(idm: Seq<u8>, services: Seq<u16>, blocks: Seq<u16>) -> Seq<u8> {
    seq![FelicaCommand::ReadWithoutEncryption.code()] + idm.subrange(0, 8) + seq![
        (services.len() % 256) as u8,
    ] + be_bytes(services) + seq![(blocks.len() % 256) as u8] + be_bytes(blocks)
}

/// The length byte and the data of a FeliCa read without encryption. An
/// IDm of fewer than eight bytes is refused.
pub open spec fn felica_read_request(idm: Seq<u8>, services: Seq<u16>, blocks: Seq<u16>) -> Result<
    (u8, Seq<u8>),
    ErrorView,
> {
    if idm.len() < 8 {
        Err(ErrorView::Protocol("Felica IDM must be 8 bytes"@))
    } else {
        let data = felica_read_data(idm, services, blocks);
        Ok((felica_length_byte(data.len()), data))
    }
}

/// The length byte in front of FeliCa data of `len` bytes: it counts
/// itself, modulo 256.
pub open spec fn felica_length_byte(len: nat) -> u8 {
    ((len + 1) % 256) as u8
}

/// Appends the two bytes of each value of `values`, the high one first.
fn push_be(out: &mut Vec<u8>, values: &[u16])
    ensures
        final(out)@ == old(out)@ + be_bytes(values@),
{
    let mut i: usize = 0;
    assert(values@.take(0) =~= Seq::<u16>::empty());
    assert(out@ + Seq::<u8>::empty() =~= out@);
    while i < values.len()
        invariant
            i <= values.len(),
            out@ == old(out)@ + be_bytes(values@.take(i as int)),
        decreases values.len() - i,
    {
        let value: u16 = values[i];
        let ghost so_far = be_bytes(values@.take(i as int));
        assert(values@.take(i + 1).drop_last() =~= values@.take(i as int));
        out.push((value / 256) as u8);
        out.push((value % 256) as u8);
        i += 1;
        assert(out@ =~= old(out)@ + (so_far + seq![(value / 256) as u8, (value % 256) as u8]));
    }
    assert(values@.take(i as int) =~= values@);
}

/// Builds the data of a FeliCa read without encryption and the length byte
/// that goes in front of it. An IDm of fewer than eight bytes is refused.
pub fn felica_read_input(idm: &[u8], services: &[u16], blocks: &[u16]) -> (result: HinataResult<
    (u8, Vec<u8>),
>)
    ensures
        match result {
            Ok((length, input)) => felica_read_request(idm@, services@, blocks@) == Ok::<
                (u8, Seq<u8>),
                ErrorView,
            >((length, input@)),
            Err(error) => felica_read_request(idm@, services@, blocks@) == Err::<
                (u8, Seq<u8>),
                ErrorView,
            >(error@),
        },
{
    if idm.len() < FELICA_IDM_LEN {
        return Err(Error::Protocol("Felica IDM must be 8 bytes".to_string()));
    }
    let mut input: Vec<u8> = Vec::new();
    input.push(FelicaCommand::ReadWithoutEncryption.to_u8());
    input.extend_from_slice(slice_subrange(idm, 0, FELICA_IDM_LEN));
    input.push((services.len() % 256) as u8);
    assert(input@ =~= seq![FelicaCommand::ReadWithoutEncryption.code()] + idm@.subrange(0, 8)
        + seq![(services@.len() % 256) as u8]);
    push_be(&mut input, services);
    input.push((blocks.len() % 256) as u8);
    push_be(&mut input, blocks);
    assert(input@ =~= felica_read_data(idm@, services@, blocks@));
    let length: u8 = ((input.len() % 256) as u8).wrapping_add(1);
    Ok((length, input))
}

/// The record `after` is the record `before` with one exchange more: the
/// command `command` with the payload `payload`.
pub open spec fn one_more(
    before: Seq<Exchange>,
    after: Seq<Exchange>,
    command: Pn532Command,
    payload: Seq<u8>,
) -> bool {
    &&& after.len() == before.len() + 1
    &&& after.drop_last() == before
    &&& after.last().command == command
    &&& after.last().payload == payload
}

impl<'a, P: Pn532Port> Pn532<'a, P> {
    /// The port that the commands go through.
    pub closed spec fn port(&self) -> P {
        *self.port
    }

    /// What was put through the port since this value was made, the oldest
    /// exchange first.
    pub closed spec fn carried(&self) -> Seq<Exchange> {
        self.carried@
    }

    pub fn new(port: &'a mut P) -> (chip: Self)
        ensures
            chip.port() == *old(port),
            chip.carried() == Seq::<Exchange>::empty(),
    {
        Self { port, carried: Ghost(Seq::empty()) }
    }

    /// Puts one command through the port and records it.
    fn carry(&mut self, command: Pn532Command, payload: &[u8]) -> (reply: HinataResult<Vec<u8>>)
        ensures
            one_more(old(self).carried(), final(self).carried(), command, payload@),
            final(self).carried().last().reply == reply_view(reply),
    {
        let reply = self.port.request(command, payload);
        proof {
            self.carried@ = self.carried@.push(
                Exchange { command, payload: payload@, reply: reply_view(reply) },
            );
            assert(self.carried@.drop_last() =~= old(self).carried());
        }
        reply
    }

    /// Lists up to `max_tg` passive targets of the type `brty`.
    pub fn in_list_passive_target(&mut self, brty: u8, max_tg: u8, initial_data: &[u8]) -> (result:
        HinataResult<Vec<PassiveTarget>>)
        ensures
            one_more(
                old(self).carried(),
                final(self).carried(),
                Pn532Command::InListPassiveTarget,
                seq![max_tg, brty] + initial_data@,
            ),
            targets_view(result) == list_outcome(final(self).carried().last().reply, brty),
    {
        let payload = list_passive_target_payload(brty, max_tg, initial_data);
        let reply = self.carry(Pn532Command::InListPassiveTarget, payload.as_slice());
        list_passive_target_reply(reply, brty)
    }

    /// Exchanges data with the target `tg`. On success the response starts
    /// with a zero status byte.
    pub fn in_data_exchange(&mut self, tg: u8, cmd: u8, data: &[u8]) -> (result: HinataResult<
        Vec<u8>,
    >)
        ensures
            one_more(
                old(self).carried(),
                final(self).carried(),
                Pn532Command::InDataExchange,
                seq![tg, cmd] + data@,
            ),
            reply_view(result) == data_exchange_outcome(final(self).carried().last().reply),
    {
        let payload = data_exchange_payload(tg, cmd, data);
        let reply = self.carry(Pn532Command::InDataExchange, payload.as_slice());
        data_exchange_reply(reply)
    }

    /// Authenticates the block `block_num` of the card `uid` with `key`,
    /// as key A or key B after `key_num`. A key or UID that is too short is
    /// refused before anything is sent.
    pub fn mifare_classic_auth(
        &mut self,
        tg: u8,
        uid: &[u8],
        block_num: u8,
        key_num: MifareCommand,
        key: &[u8],
    ) -> (result: HinataResult<()>)
        ensures
            match mifare_auth_data(uid@, block_num, key@) {
                Err(error) => unit_view(result) == Err::<(), ErrorView>(error) && final(self).carried() == old(self).carried(),
                Ok(input) => one_more(
                    old(self).carried(),
                    final(self).carried(),
                    Pn532Command::InDataExchange,
                    seq![tg, key_num.code()] + input,
                ) && unit_view(result) == done_outcome(final(self).carried().last().reply),
            },
    {
        let input = match mifare_auth_input(uid, block_num, key) {
            Ok(input) => input,
            Err(error) => {
                return Err(error);
            },
        };
        let reply = self.in_data_exchange(tg, key_num.to_u8(), input.as_slice());
        match reply {
            Ok(_) => Ok(()),
            Err(error) => Err(error),
        }
    }

    /// Writes the first sixteen bytes of `data` to the block `block_num`.
    /// Fewer bytes are refused before anything is sent.
    pub fn mifare_classic_write_block(&mut self, tg: u8, block_num: u8, data: &[u8]) -> (result:
        HinataResult<()>)
        ensures
            match mifare_write_data(block_num, data@) {
                Err(error) => unit_view(result) == Err::<(), ErrorView>(error) && final(self).carried() == old(self).carried(),
                Ok(input) => one_more(
                    old(self).carried(),
                    final(self).carried(),
                    Pn532Command::InDataExchange,
                    seq![tg, MifareCommand::Write.code()] + input,
                ) && unit_view(result) == done_outcome(final(self).carried().last().reply),
            },
    {
        let input = match mifare_write_input(block_num, data) {
            Ok(input) => input,
            Err(error) => {
                return Err(error);
            },
        };
        let reply = self.in_data_exchange(tg, MifareCommand::Write.to_u8(), input.as_slice());
        match reply {
            Ok(_) => Ok(()),
            Err(error) => Err(error),
        }
    }

    /// Reads the block `block_num`.
    pub fn mifare_classic_read_block(&mut self, tg: u8, block_num: u8) -> (result: HinataResult<
        [u8; 16],
    >)
        ensures
            one_more(
                old(self).carried(),
                final(self).carried(),
                Pn532Command::InDataExchange,
                seq![tg, MifareCommand::Read.code(), block_num],
            ),
            block_view(result) == block_read_outcome(final(self).carried().last().reply),
    {
        let input: [u8; 1] = [block_num];
        assert(seq![tg, MifareCommand::Read.code()] + input@ =~= seq![
            tg,
            MifareCommand::Read.code(),
            block_num,
        ]);
        let reply = self.in_data_exchange(tg, MifareCommand::Read.to_u8(), input.as_slice());
        match reply {
            Err(error) => Err(error),
            Ok(res) => mifare_block_of(res.as_slice()),
        }
    }

    /// Releases the target `tg`.
    pub fn in_release(&mut self, tg: u8) -> (result: HinataResult<()>)
        ensures
            one_more(
                old(self).carried(),
                final(self).carried(),
                Pn532Command::InRelease,
                seq![tg],
            ),
            unit_view(result) == status_outcome(final(self).carried().last().reply),
    {
        let payload: [u8; 1] = [tg];
        assert(payload@ =~= seq![tg]);
        let reply = self.carry(Pn532Command::InRelease, payload.as_slice());
        status_reply(reply)
    }

    /// Selects the target `tg`.
    pub fn in_select(&mut self, tg: u8) -> (result: HinataResult<()>)
        ensures
            one_more(old(self).carried(), final(self).carried(), Pn532Command::InSelect, seq![tg]),
            unit_view(result) == status_outcome(final(self).carried().last().reply),
    {
        let payload: [u8; 1] = [tg];
        assert(payload@ =~= seq![tg]);
        let reply = self.carry(Pn532Command::InSelect, payload.as_slice());
        status_reply(reply)
    }

    /// Reads the given blocks of the given services of the FeliCa card
    /// `idm` without encryption. An IDm that is too short is refused before
    /// anything is sent.
    pub fn felica_read_without_encryption(
        &mut self,
        tg: u8,
        idm: &[u8],
        services: &[u16],
        blocks: &[u16],
    ) -> (result: HinataResult<Vec<u8>>)
        ensures
            match felica_read_request(idm@, services@, blocks@) {
                Err(error) => reply_view(result) == Err::<Seq<u8>, ErrorView>(error) && final(self).carried() == old(self).carried(),
                Ok((length, input)) => one_more(
                    old(self).carried(),
                    final(self).carried(),
                    Pn532Command::InDataExchange,
                    seq![tg, length] + input,
                ) && reply_view(result) == data_exchange_outcome(
                    final(self).carried().last().reply,
                ),
            },
    {
        let (length, input) = match felica_read_input(idm, services, blocks) {
            Ok(pair) => pair,
            Err(error) => {
                return Err(error);
            },
        };
        self.in_data_exchange(tg, length, input.as_slice())
    }
}

} // verus!
