//! The decisions of a logical request to the device.
//!
//! A caller frames its request, hands it to the worker together with a
//! subscription, and waits for the correlated replies under a deadline. A
//! simple request takes one reply. A request to the PN532 is wrapped into a
//! passthrough frame and takes two: the acknowledgement of the chip, then
//! its response. The waiting itself is the caller's; what to send and what
//! to make of each reply is decided here.

use vstd::prelude::*;
use vstd::slice::{slice_subrange, slice_to_vec};
use tokio::sync::mpsc::Receiver;
use crate::error::{Error, ErrorView, HinataResult};
use crate::message::{
    InMessage, InMessageView, OutMessage, OutMessageView, Subscription, SubscriptionView,
    UnSubscribePolicy,
};
use crate::pn532::codes::{Pn532Command, Pn532Direction};
use crate::pn532::frame::{frame_of, parse_frame, PacketView, Pn532Packet};
use crate::transport::serviceable;

verus! {

/// The logical channel of every outbound frame.
pub const CHANNEL: u8 = 1;

/// The sub-command that tunnels one PN532 frame.
pub const PASSTHROUGH: u8 = 0xE2;

/// How long a caller waits for each reply, in milliseconds.
pub const REQUEST_TIMEOUT_MS: u64 = 1000;

/// Offset, in a reply to a passthrough, of the length byte of the PN532
/// frame: zero in the acknowledgement, not zero in a response.
pub const CHIP_LENGTH_OFFSET: usize = 4;

/// The sub-command that asks for the build time of the firmware.
pub const GET_FIRMWARE_TIMESTAMP: u8 = 0x01;

/// The sub-command that sets the colour of the LED.
pub const SET_LED: u8 = 0x07;

/// The sub-command that gives the LED back to the firmware.
pub const RESET_LED: u8 = 0xEA;

/// The sub-command that restarts the device into its bootloader.
pub const ENTER_BOOTLOADER: u8 = 0xF0;

/// The sub-command that asks for the identifier of the chip.
pub const GET_CHIP_ID: u8 = 0xE6;

/// The sub-command that asks for the commit that the firmware was built
/// from.
pub const GET_FIRMWARE_COMMIT_HASH: u8 = 0xE5;

/// The first firmware that knows its chip identifier and its commit.
pub const MIN_FIRMWARE_WITH_IDS: u32 = 2025051301;

/// The outbound frame of the sub-command `cmd` with its arguments.
pub open spec fn simple_frame_of(cmd: u8, payload: Seq<u8>) -> Seq<u8> {
    seq![CHANNEL, cmd] + payload
}

/// The outbound frame that tunnels the PN532 command `command` with its
/// payload.
pub open spec fn chip_frame_of(command: Pn532Command, payload: Seq<u8>) -> Seq<u8> {
    seq![CHANNEL, PASSTHROUGH] + frame_of(
        PacketView { direction: Pn532Direction::HostToPn532, command, payload },
    )
}

pub fn simple_frame(cmd: u8, payload: &[u8]) -> (frame: Vec<u8>)
    ensures
        frame@ == simple_frame_of(cmd, payload@),
{
    let mut frame: Vec<u8> = Vec::new();
    frame.push(CHANNEL);
    frame.push(cmd);
    frame.extend_from_slice(payload);
    assert(frame@ =~= simple_frame_of(cmd, payload@));
    frame
}

pub fn chip_frame(command: Pn532Command, payload: &[u8]) -> (frame: Vec<u8>)
    ensures
        frame@ == chip_frame_of(command, payload@),
{
    let packet = Pn532Packet::new(Pn532Direction::HostToPn532, command, slice_to_vec(payload));
    let encoded = packet.to_bytes();
    let mut frame: Vec<u8> = Vec::new();
    frame.push(CHANNEL);
    frame.push(PASSTHROUGH);
    frame.extend_from_slice(encoded.as_slice());
    assert(frame@ =~= chip_frame_of(command, payload@));
    frame
}

/// A request that expects no reply: the frame is written and forgotten.
pub fn request_without_response(cmd: u8, payload: &[u8]) -> (msg: InMessage)
    ensures
        msg@ == InMessageView::SendPacket(simple_frame_of(cmd, payload@)),
{
    InMessage::SendPacket(simple_frame(cmd, payload))
}

/// A simple request: the frame, with a subscription for one reply, and the
/// end of the channel on which that reply arrives.
pub fn request(cmd: u8, payload: &[u8]) -> (pair: (InMessage, Receiver<OutMessage>))
    ensures
        pair.0@ == InMessageView::SendPacketAndSubscribe(
            simple_frame_of(cmd, payload@),
            SubscriptionView::fresh(UnSubscribePolicy::Count(1)),
        ),
        serviceable(pair.0@),
{
    let frame = simple_frame(cmd, payload);
    let (subscription, receiver) = Subscription::new(UnSubscribePolicy::Count(1));
    (InMessage::SendPacketAndSubscribe(frame, subscription), receiver)
}

/// A request to the PN532: the passthrough frame, with a subscription that
/// lives through the acknowledgement and ends with the response, and the
/// end of the channel on which both arrive.
pub fn chip_request(command: Pn532Command, payload: &[u8]) -> (pair: (
    InMessage,
    Receiver<OutMessage>,
))
    ensures
        pair.0@ == InMessageView::SendPacketAndSubscribe(
            chip_frame_of(command, payload@),
            SubscriptionView::fresh(UnSubscribePolicy::SpecificNotOn(CHIP_LENGTH_OFFSET, 0)),
        ),
        serviceable(pair.0@),
{
    let frame = chip_frame(command, payload);
    let (subscription, receiver) = Subscription::new(
        UnSubscribePolicy::SpecificNotOn(CHIP_LENGTH_OFFSET, 0),
    );
    (InMessage::SendPacketAndSubscribe(frame, subscription), receiver)
}

/// The request that sets the LED to a colour.
pub fn set_led_request(r: u8, g: u8, b: u8) -> (msg: InMessage)
    ensures
        msg@ == InMessageView::SendPacket(simple_frame_of(SET_LED, seq![r, g, b])),
{
    let colour: [u8; 3] = [r, g, b];
    assert(colour@ =~= seq![r, g, b]);
    request_without_response(SET_LED, colour.as_slice())
}

/// The request that gives the LED back to the firmware.
pub fn reset_led_request() -> (msg: InMessage)
    ensures
        msg@ == InMessageView::SendPacket(simple_frame_of(RESET_LED, Seq::empty())),
{
    let nothing: [u8; 0] = [];
    assert(nothing@ =~= Seq::<u8>::empty());
    request_without_response(RESET_LED, nothing.as_slice())
}

/// The request that restarts the device into its bootloader.
pub fn enter_bootloader_request() -> (msg: InMessage)
    ensures
        msg@ == InMessageView::SendPacket(simple_frame_of(ENTER_BOOTLOADER, Seq::empty())),
{
    let nothing: [u8; 0] = [];
    assert(nothing@ =~= Seq::<u8>::empty());
    request_without_response(ENTER_BOOTLOADER, nothing.as_slice())
}

/// What a caller's wait for a reply ended with.
#[derive(Debug)]
pub enum ReplyEvent {
    /// The worker delivered this.
    Message(OutMessage),
    /// The reply channel is closed: the subscription was dropped.
    Closed,
    /// The deadline passed.
    TimedOut,
}

/// Mathematical content of a [`ReplyEvent`].
pub enum ReplyEventView {
    Message(OutMessageView),
    Closed,
    TimedOut,
}

impl View for ReplyEvent {
    type V = ReplyEventView;

    open spec fn view(&self) -> ReplyEventView {
        match self {
            ReplyEvent::Message(msg) => ReplyEventView::Message(msg@),
            ReplyEvent::Closed => ReplyEventView::Closed,
            ReplyEvent::TimedOut => ReplyEventView::TimedOut,
        }
    }
}

/// Mathematical content of the result of a request.
pub open spec fn outcome_view(result: HinataResult<Vec<u8>>) -> Result<Seq<u8>, ErrorView> {
    match result {
        Ok(data) => Ok(data@),
        Err(error) => Err(error@),
    }
}

/// The payload that a wait ended with, or why there is none: a disconnect
/// notice and a closed channel are disconnects, a passed deadline is a
/// timeout.
pub open spec fn reply_of(event: ReplyEventView) -> Result<Seq<u8>, ErrorView> {
    match event {
        ReplyEventView::Message(OutMessageView::Response(data)) => Ok(data),
        ReplyEventView::Message(OutMessageView::DeviceDisconnect) => Err(
            ErrorView::Disconnected("Device disconnected"@),
        ),
        ReplyEventView::Closed => Err(ErrorView::Disconnected("Subscribe channel disconnected"@)),
        ReplyEventView::TimedOut => Err(ErrorView::Timeout("Wait response timeout"@)),
    }
}

/// Turns the end of a wait into the payload received, or the error. This
/// is the whole of a simple request once its frame is sent.
pub fn receive_packet(event: ReplyEvent) -> (result: HinataResult<Vec<u8>>)
    ensures
        outcome_view(result) == reply_of(event@),
{
    match event {
        ReplyEvent::Message(OutMessage::Response(data)) => Ok(data),
        ReplyEvent::Message(OutMessage::DeviceDisconnect) => Err(
            Error::Disconnected("Device disconnected".to_string()),
        ),
        ReplyEvent::Closed => Err(Error::Disconnected("Subscribe channel disconnected".to_string())),
        ReplyEvent::TimedOut => Err(Error::Timeout("Wait response timeout".to_string())),
    }
}

/// The acknowledgement frame of the PN532.
pub open spec fn standard_ack() -> Seq<u8> {
    seq![0x00u8, 0x00u8, 0xFFu8, 0x00u8, 0xFFu8, 0x00u8]
}

/// Whether a reply to a passthrough is the acknowledgement: behind the key
/// byte stand exactly the six bytes of the acknowledgement frame.
pub open spec fn is_ack(reply: Seq<u8>) -> bool {
    reply.len() >= 7 && reply.subrange(1, 7) == standard_ack()
}

/// The first reply to a passthrough must be the acknowledgement.
pub open spec fn ack_check(reply: Seq<u8>) -> Result<(), ErrorView> {
    if is_ack(reply) {
        Ok(())
    } else {
        Err(ErrorView::Protocol("ack error"@))
    }
}

pub fn check_ack(reply: &[u8]) -> (result: HinataResult<()>)
    ensures
        result is Ok <==> is_ack(reply@),
        result matches Err(error) ==> error@ == ErrorView::Protocol("ack error"@),
{
    let good: bool = reply.len() >= 7 && reply[1] == 0x00 && reply[2] == 0x00 && reply[3] == 0xFF
        && reply[4] == 0x00 && reply[5] == 0xFF && reply[6] == 0x00;
    proof {
        if reply@.len() >= 7 {
            let found = reply@.subrange(1, 7);
            if good {
                assert(found =~= standard_ack());
            } else {
                assert(found[0] == reply@[1] && found[1] == reply@[2] && found[2] == reply@[3]
                    && found[3] == reply@[4] && found[4] == reply@[5] && found[5] == reply@[6]);
            }
        }
    }
    if good {
        Ok(())
    } else {
        Err(Error::Protocol("ack error".to_string()))
    }
}

/// The PN532 frame in a reply to a passthrough: all behind the key byte.
pub open spec fn chip_frame_in(reply: Seq<u8>) -> Seq<u8> {
    if reply.len() >= 1 {
        reply.subrange(1, reply.len() as int)
    } else {
        Seq::empty()
    }
}

/// The second reply to a passthrough must hold a frame that decodes, comes
/// from the chip and answers the command that was sent; its payload is the
/// result.
pub open spec fn response_check(command: Pn532Command, reply: Seq<u8>) -> Result<Seq<u8>, ErrorView> {
    match parse_frame(chip_frame_in(reply)) {
        Err(error) => Err(ErrorView::Protocol(error.text())),
        Ok(packet) => if packet.direction != Pn532Direction::Pn532ToHost {
            Err(ErrorView::Protocol("Direction mismatch"@))
        } else if packet.command != command {
            Err(ErrorView::Protocol("Command mismatch"@))
        } else {
            Ok(packet.payload)
        },
    }
}

pub fn check_response(command: Pn532Command, reply: &[u8]) -> (result: HinataResult<Vec<u8>>)
    ensures
        outcome_view(result) == response_check(command, reply@),
{
    let start: usize = if reply.len() >= 1 {
        1
    } else {
        0
    };
    let frame = slice_subrange(reply, start, reply.len());
    assert(frame@ =~= chip_frame_in(reply@));
    match Pn532Packet::from_bytes(frame) {
        Err(message) => Err(Error::Protocol(message)),
        Ok(packet) => {
            if packet.direction != Pn532Direction::Pn532ToHost {
                Err(Error::Protocol("Direction mismatch".to_string()))
            } else if packet.command != command {
                Err(Error::Protocol("Command mismatch".to_string()))
            } else {
                Ok(packet.payload)
            }
        },
    }
}

/// Where a request to the PN532 stands.
#[derive(Copy, Clone, Debug, PartialEq, Eq, Structural)]
pub enum ChipExchange {
    /// The frame is sent; the acknowledgement is awaited.
    AwaitingAck(Pn532Command),
    /// The acknowledgement is in; the response is awaited.
    AwaitingResponse(Pn532Command),
}

/// What a reply makes of a request to the PN532.
#[derive(Debug)]
pub enum Progress {
    /// Wait for the next reply, under a fresh deadline.
    Await(ChipExchange),
    /// The request is over, with this result.
    Done(HinataResult<Vec<u8>>),
}

/// Mathematical content of a [`Progress`].
pub enum ProgressView {
    Await(ChipExchange),
    Done(Result<Seq<u8>, ErrorView>),
}

impl View for Progress {
    type V = ProgressView;

    open spec fn view(&self) -> ProgressView {
        match self {
            Progress::Await(state) => ProgressView::Await(*state),
            Progress::Done(result) => ProgressView::Done(outcome_view(*result)),
        }
    }
}

/// What the end of a wait makes of a request in the state `state`. Any
/// failure ends the request; there is no second try.
pub open spec fn progress_after(state: ChipExchange, event: ReplyEventView) -> ProgressView {
    match reply_of(event) {
        Err(error) => ProgressView::Done(Err(error)),
        Ok(reply) => match state {
            ChipExchange::AwaitingAck(command) => match ack_check(reply) {
                Err(error) => ProgressView::Done(Err(error)),
                Ok(_) => ProgressView::Await(ChipExchange::AwaitingResponse(command)),
            },
            ChipExchange::AwaitingResponse(command) => ProgressView::Done(
                response_check(command, reply),
            ),
        },
    }
}

/// The result of a request that starts in `state` and sees the waits of
/// `events` end in this order; nothing while it still waits.
pub open spec fn exchange_result(state: ChipExchange, events: Seq<ReplyEventView>) -> Option<
    Result<Seq<u8>, ErrorView>,
>
    decreases events.len(),
{
    if events.len() == 0 {
        None
    } else {
        match progress_after(state, events.first()) {
            ProgressView::Done(result) => Some(result),
            ProgressView::Await(next) => exchange_result(next, events.drop_first()),
        }
    }
}

impl ChipExchange {
    /// The state of a request whose frame was just sent.
    pub fn start(command: Pn532Command) -> (state: ChipExchange)
        ensures
            state == ChipExchange::AwaitingAck(command),
    {
        ChipExchange::AwaitingAck(command)
    }

    /// Takes the end of one wait.
    pub fn on_reply(self, event: ReplyEvent) -> (progress: Progress)
        ensures
            progress@ == progress_after(self, event@),
            self is AwaitingAck && (event@ matches ReplyEventView::Message(
                OutMessageView::Response(first),
            ) && !is_ack(first)) ==> progress@ == ProgressView::Done(
                Err(ErrorView::Protocol("ack error"@)),
            ),
    {
        let reply = match receive_packet(event) {
            Ok(reply) => reply,
            Err(error) => {
                return Progress::Done(Err(error));
            },
        };
        match self {
            ChipExchange::AwaitingAck(command) => match check_ack(reply.as_slice()) {
                Ok(_) => Progress::Await(ChipExchange::AwaitingResponse(command)),
                Err(error) => Progress::Done(Err(error)),
            },
            ChipExchange::AwaitingResponse(command) => Progress::Done(
                check_response(command, reply.as_slice()),
            ),
        }
    }
}

/// The acknowledgement comes first: when the first reply is a frame other
/// than the acknowledgement, the request fails with the protocol error
/// `ack error`, whatever follows it, a well-formed response included.
pub proof fn lemma_ack_comes_first(
    command: Pn532Command,
    first: Seq<u8>,
    later: Seq<ReplyEventView>,
)
    requires
        !is_ack(first),
    ensures
        exchange_result(
            ChipExchange::AwaitingAck(command),
            seq![ReplyEventView::Message(OutMessageView::Response(first))] + later,
        ) == Some(Err::<Seq<u8>, ErrorView>(ErrorView::Protocol("ack error"@))),
{
    let events = seq![ReplyEventView::Message(OutMessageView::Response(first))] + later;
    assert(events.first() == ReplyEventView::Message(OutMessageView::Response(first)));
}

/// A request succeeds exactly on an acknowledgement followed by a response
/// that passes [`response_check`]; its result is then the payload of that
/// response.
pub proof fn lemma_ack_then_response(command: Pn532Command, ack: Seq<u8>, response: Seq<u8>)
    requires
        is_ack(ack),
    ensures
        exchange_result(
            ChipExchange::AwaitingAck(command),
            seq![
                ReplyEventView::Message(OutMessageView::Response(ack)),
                ReplyEventView::Message(OutMessageView::Response(response)),
            ],
        ) == Some(response_check(command, response)),
{
    let events = seq![
        ReplyEventView::Message(OutMessageView::Response(ack)),
        ReplyEventView::Message(OutMessageView::Response(response)),
    ];
    reveal_with_fuel(exchange_result, 3);
    assert(events.drop_first().first() == ReplyEventView::Message(
        OutMessageView::Response(response),
    ));
}

/// The paths of the interfaces of one device.
#[derive(Debug)]
pub struct HidDevicePath {
    /// The interface that is read from.
    pub read: String,
    /// The interface that is written to.
    pub write: String,
    /// The instance of the serial port of the same device, once known.
    pub com: Option<String>,
}

/// What is known of one device. What the device itself tells is asked for
/// once and kept.
#[derive(Debug)]
pub struct Info {
    /// Build time of the firmware, as a number; zero while unknown.
    pub firmware_timestamp: u32,
    pub firmware_commit_hash: Option<[u8; 4]>,
    pub chip_id: Option<[u8; 4]>,
    pub instance_id: String,
    pub path: HidDevicePath,
    pub device_name: String,
    pub pid: u16,
}

/// Whether a byte is a decimal digit in ASCII.
pub open spec fn is_digit(byte: u8) -> bool {
    0x30 <= byte <= 0x39
}

/// The number that a string of decimal digits stands for.
pub open spec fn digits_value(digits: Seq<u8>) -> nat
    decreases digits.len(),
{
    if digits.len() == 0 {
        0
    } else {
        digits_value(digits.drop_last()) * 10 + (digits.last() - 0x30) as nat
    }
}

/// The digits of a number that may carry a plus sign.
pub open spec fn unsigned_digits(text: Seq<u8>) -> Seq<u8> {
    if text.len() > 0 && text[0] == 0x2B {
        text.drop_first()
    } else {
        text
    }
}

/// How many bytes at the head of the reply hold the build time.
pub const TIMESTAMP_LEN: usize = 10;

/// The build time in the reply `raw`: its first ten bytes, read as a
/// decimal number that may carry a plus sign.
pub open spec fn timestamp_of(raw: Seq<u8>) -> Result<u32, ErrorView> {
    if raw.len() < TIMESTAMP_LEN {
        Err(ErrorView::Protocol("buffer size error"@))
    } else {
        let digits = unsigned_digits(raw.subrange(0, TIMESTAMP_LEN as int));
        if exists|i: int| 0 <= i < digits.len() && !is_digit(digits[i]) {
            Err(ErrorView::Parse("invalid digit found in string"@))
        } else if digits_value(digits) > u32::MAX {
            Err(ErrorView::Parse("number too large to fit in target type"@))
        } else {
            Ok(digits_value(digits) as u32)
        }
    }
}

/// Reads the build time of the firmware from the reply to
/// [`GET_FIRMWARE_TIMESTAMP`].
pub fn parse_firmware_timestamp(raw: &[u8]) -> (result: HinataResult<u32>)
    ensures
        match result {
            Ok(timestamp) => timestamp_of(raw@) == Ok::<u32, ErrorView>(timestamp),
            Err(error) => timestamp_of(raw@) == Err::<u32, ErrorView>(error@),
        },
{
    if raw.len() < TIMESTAMP_LEN {
        return Err(Error::Protocol("buffer size error".to_string()));
    }
    let start: usize = if raw[0] == 0x2B {
        1
    } else {
        0
    };
    let ghost text = raw@.subrange(0, TIMESTAMP_LEN as int);
    let ghost digits = unsigned_digits(text);
    assert(digits =~= raw@.subrange(start as int, TIMESTAMP_LEN as int));
    let mut value: u64 = 0;
    let mut i: usize = start;
    assert(digits.take(0) =~= Seq::<u8>::empty());
    while i < TIMESTAMP_LEN
        invariant
            start <= i <= TIMESTAMP_LEN <= raw@.len(),
            digits == raw@.subrange(start as int, TIMESTAMP_LEN as int),
            digits == unsigned_digits(raw@.subrange(0, TIMESTAMP_LEN as int)),
            forall|j: int| 0 <= j < i - start ==> is_digit(digits[j]),
            value == digits_value(digits.take(i - start)),
            value < pow10(i - start),
        decreases TIMESTAMP_LEN - i,
    {
        let byte: u8 = raw[i];
        if byte < 0x30 || byte > 0x39 {
            assert(!is_digit(digits[i - start]));
            return Err(Error::Parse("invalid digit found in string".to_string()));
        }
        assert(digits.take(i - start + 1).drop_last() =~= digits.take(i - start));
        assert(pow10(i - start + 1) == 10 * pow10(i - start)) by {
            reveal_with_fuel(pow10, 2);
        }
        assert(pow10(i - start) <= 1_000_000_000) by {
            lemma_pow10_bound(i - start);
        }
        value = value * 10 + (byte - 0x30) as u64;
        i += 1;
    }
    assert(digits.take(i - start) =~= digits);
    if value > 0xFFFF_FFFF {
        return Err(Error::Parse("number too large to fit in target type".to_string()));
    }
    Ok(value as u32)
}

/// Ten to the power of `exponent`.
pub open spec fn pow10(exponent: int) -> nat
    decreases exponent,
{
    if exponent <= 0 {
        1
    } else {
        10 * pow10(exponent - 1)
    }
}

proof fn lemma_pow10_bound(exponent: int)
    requires
        0 <= exponent <= 9,
    ensures
        pow10(exponent) <= 1_000_000_000,
{
    reveal_with_fuel(pow10, 11);
}

/// The first four bytes of `data`.
pub fn get_four_bytes(data: &[u8]) -> (result: HinataResult<[u8; 4]>)
    ensures
        match result {
            Ok(bytes) => data@.len() >= 4 && bytes@ == data@.subrange(0, 4),
            Err(error) => data@.len() < 4 && error@ == ErrorView::Protocol("buffer size error"@),
        },
{
    if data.len() < 4 {
        return Err(Error::Protocol("buffer size error".to_string()));
    }
    let bytes: [u8; 4] = [data[0], data[1], data[2], data[3]];
    assert(bytes@ =~= data@.subrange(0, 4));
    Ok(bytes)
}

/// The identifier in a reply: the four bytes behind the key byte.
pub fn identifier_in(reply: &[u8]) -> (result: HinataResult<[u8; 4]>)
    ensures
        match result {
            Ok(bytes) => reply@.len() >= 5 && bytes@ == reply@.subrange(1, 5),
            Err(error) => reply@.len() < 5 && error@ == ErrorView::Protocol("buffer size error"@),
        },
{
    if reply.len() < 1 {
        return Err(Error::Protocol("buffer size error".to_string()));
    }
    let behind = slice_subrange(reply, 1, reply.len());
    let result = get_four_bytes(behind);
    proof {
        if result is Ok {
            assert(behind@.subrange(0, 4) =~= reply@.subrange(1, 5));
        }
    }
    result
}

/// Whether a firmware built at `timestamp` knows its chip identifier and
/// its commit.
pub fn check_firmware_with_ids(timestamp: u32) -> (result: HinataResult<()>)
    ensures
        result is Ok <==> timestamp >= MIN_FIRMWARE_WITH_IDS,
        result matches Err(error) ==> error@ == ErrorView::NotSupport("Firmware version too old"@),
{
    if timestamp < MIN_FIRMWARE_WITH_IDS {
        Err(Error::NotSupport("Firmware version too old".to_string()))
    } else {
        Ok(())
    }
}

impl Info {
    /// What is known of a device before it was asked anything.
    pub fn new(instance_id: String, path: HidDevicePath, device_name: String, pid: u16) -> (info:
        Info)
        ensures
            info == (Info {
                firmware_timestamp: 0,
                firmware_commit_hash: None,
                chip_id: None,
                instance_id,
                path,
                device_name,
                pid,
            }),
    {
        Info {
            firmware_timestamp: 0,
            firmware_commit_hash: None,
            chip_id: None,
            instance_id,
            path,
            device_name,
            pid,
        }
    }

    /// The build time of the firmware, if the device was asked before.
    pub fn get_firmware_timestamp(&self) -> (known: Option<u32>)
        ensures
            known == if self.firmware_timestamp > 0 {
                Some(self.firmware_timestamp)
            } else {
                None
            },
    {
        if self.firmware_timestamp > 0 {
            Some(self.firmware_timestamp)
        } else {
            None
        }
    }

    /// Takes the reply to [`GET_FIRMWARE_TIMESTAMP`] and keeps the build
    /// time that it holds. A reply that holds none changes nothing.
    pub fn store_firmware_timestamp(&mut self, raw: &[u8]) -> (result: HinataResult<u32>)
        ensures
            match result {
                Ok(timestamp) => timestamp_of(raw@) == Ok::<u32, ErrorView>(timestamp)
                    && *final(self) == (Info { firmware_timestamp: timestamp, ..*old(self) }),
                Err(error) => timestamp_of(raw@) == Err::<u32, ErrorView>(error@) && *final(self)
                    == *old(self),
            },
    {
        match parse_firmware_timestamp(raw) {
            Ok(timestamp) => {
                self.firmware_timestamp = timestamp;
                Ok(timestamp)
            },
            Err(error) => Err(error),
        }
    }

    /// The chip identifier of a device whose firmware was built at
    /// `timestamp`: refused for a firmware that is too old, then the
    /// identifier kept from before, or nothing when the device is still to
    /// be asked with [`GET_CHIP_ID`].
    pub fn get_chip_id(&self, timestamp: u32) -> (result: HinataResult<Option<[u8; 4]>>)
        ensures
            match result {
                Ok(known) => timestamp >= MIN_FIRMWARE_WITH_IDS && known == self.chip_id,
                Err(error) => timestamp < MIN_FIRMWARE_WITH_IDS && error@ == ErrorView::NotSupport(
                    "Firmware version too old"@,
                ),
            },
    {
        match check_firmware_with_ids(timestamp) {
            Ok(_) => Ok(self.chip_id),
            Err(error) => Err(error),
        }
    }

    /// Takes the reply to [`GET_CHIP_ID`] and keeps the identifier that it
    /// holds. A reply that is too short changes nothing.
    pub fn store_chip_id(&mut self, reply: &[u8]) -> (result: HinataResult<[u8; 4]>)
        ensures
            match result {
                Ok(id) => reply@.len() >= 5 && id@ == reply@.subrange(1, 5) && *final(self) == (Info {
                    chip_id: Some(id),
                    ..*old(self)
                }),
                Err(error) => reply@.len() < 5 && error@ == ErrorView::Protocol(
                    "buffer size error"@,
                ) && *final(self) == *old(self),
            },
    {
        match identifier_in(reply) {
            Ok(id) => {
                self.chip_id = Some(id);
                Ok(id)
            },
            Err(error) => Err(error),
        }
    }

    /// The commit of the firmware of a device whose firmware was built at
    /// `timestamp`: refused for a firmware that is too old, then the commit
    /// kept from before, or nothing when the device is still to be asked
    /// with [`GET_FIRMWARE_COMMIT_HASH`].
    pub fn get_firmware_commit_hash(&self, timestamp: u32) -> (result: HinataResult<
        Option<[u8; 4]>,
    >)
        ensures
            match result {
                Ok(known) => timestamp >= MIN_FIRMWARE_WITH_IDS && known
                    == self.firmware_commit_hash,
                Err(error) => timestamp < MIN_FIRMWARE_WITH_IDS && error@ == ErrorView::NotSupport(
                    "Firmware version too old"@,
                ),
            },
    {
        match check_firmware_with_ids(timestamp) {
            Ok(_) => Ok(self.firmware_commit_hash),
            Err(error) => Err(error),
        }
    }

    /// Takes the reply to [`GET_FIRMWARE_COMMIT_HASH`] and keeps the commit
    /// that it holds. A reply that is too short changes nothing.
    pub fn store_firmware_commit_hash(&mut self, reply: &[u8]) -> (result: HinataResult<[u8; 4]>)
        ensures
            match result {
                Ok(hash) => reply@.len() >= 5 && hash@ == reply@.subrange(1, 5) && *final(self)
                    == (Info { firmware_commit_hash: Some(hash), ..*old(self) }),
                Err(error) => reply@.len() < 5 && error@ == ErrorView::Protocol(
                    "buffer size error"@,
                ) && *final(self) == *old(self),
            },
    {
        match identifier_in(reply) {
            Ok(hash) => {
                self.firmware_commit_hash = Some(hash);
                Ok(hash)
            },
            Err(error) => Err(error),
        }
    }

    pub fn get_instance_id(&self) -> (id: String)
        ensures
            id@ == self.instance_id@,
    {
        self.instance_id.clone()
    }

    pub fn get_device_name(&self) -> (name: String)
        ensures
            name@ == self.device_name@,
    {
        self.device_name.clone()
    }

    pub fn get_product_id(&self) -> (pid: u16)
        ensures
            pid == self.pid,
    {
        self.pid
    }

    pub fn get_path_read(&self) -> (path: String)
        ensures
            path@ == self.path.read@,
    {
        self.path.read.clone()
    }

    pub fn get_path_write(&self) -> (path: String)
        ensures
            path@ == self.path.write@,
    {
        self.path.write.clone()
    }

    /// The instance of the serial port of the device, if it was resolved
    /// before.
    pub fn get_com_instance_id(&self) -> (id: Option<String>)
        ensures
            match id {
                Some(found) => self.path.com matches Some(kept) && found@ == kept@,
                None => self.path.com is None,
            },
    {
        match &self.path.com {
            Some(kept) => Some(kept.clone()),
            None => None,
        }
    }

    /// Keeps the instance of the serial port of the device.
    pub fn store_com_instance_id(&mut self, id: String)
        ensures
            final(self).path.com == Some(id),
            final(self).path.read == old(self).path.read,
            final(self).path.write == old(self).path.write,
            final(self).firmware_timestamp == old(self).firmware_timestamp,
            final(self).firmware_commit_hash == old(self).firmware_commit_hash,
            final(self).chip_id == old(self).chip_id,
            final(self).instance_id == old(self).instance_id,
            final(self).device_name == old(self).device_name,
            final(self).pid == old(self).pid,
    {
        self.path.com = Some(id);
    }
}


} // verus!
