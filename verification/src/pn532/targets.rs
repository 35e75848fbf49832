//! The decoder of the list of passive targets that the PN532 returns.
//!
//! The payload starts with the number of targets. Each target starts with
//! its logical number, which is skipped; what follows depends on the baud
//! rate and modulation type that the list was asked for:
//!
//! - type 0 (ISO/IEC 14443 Type A): `ATQA` in two bytes, big-endian, `SAK`,
//!   the length of the UID, the UID;
//! - types 1 and 2 (FeliCa): the length of the target data, which is at
//!   least 18, the response code, which is skipped, eight bytes of IDm,
//!   eight bytes of PMm, and system codes in two bytes each, big-endian, as
//!   many as fit into the length beyond 18.

use vstd::prelude::*;
use vstd::slice::{slice_subrange, slice_to_vec};
use byteorder::{BigEndian, ByteOrder};
use crate::card::{Felica, FelicaView, Iso14443a, Iso14443aView, PassiveTarget, PassiveTargetView};
use crate::error::{Error, ErrorView, HinataResult};
use crate::pn532::codes::FelicaCommand;

verus! {

/// Why a payload is no list of passive targets.
#[derive(Copy, Clone, Debug, PartialEq, Eq, Structural)]
pub enum TargetFault {
    /// The payload ends before a field does.
    Truncated,
    /// A FeliCa target announces fewer than 18 bytes.
    ShortFelica,
    /// The type is neither Type A nor FeliCa.
    Unsupported,
}

/// The smallest length that a FeliCa target announces: the length byte, the
/// response code, IDm and PMm.
pub const FELICA_MIN_LEN: u8 = 18;

/// The 16-bit value of two bytes, the high one first.
pub open spec fn be_u16(high: u8, low: u8) -> u16 {
    (high as int * 256 + low as int) as u16
}

/// A Type A target whose `ATQA` starts at `pos`, and the position behind
/// it.
pub open spec fn parse_type_a(data: Seq<u8>, pos: int) -> Result<(PassiveTargetView, int), TargetFault> {
    if pos + 4 > data.len() {
        Err(TargetFault::Truncated)
    } else if pos + 4 + data[pos + 3] > data.len() {
        Err(TargetFault::Truncated)
    } else {
        let end = pos + 4 + data[pos + 3];
        Ok(
            (
                PassiveTargetView::Iso14443a(
                    Iso14443aView {
                        uid: data.subrange(pos + 4, end),
                        sak: data[pos + 2],
                        atqa: be_u16(data[pos], data[pos + 1]),
                    },
                ),
                end,
            ),
        )
    }
}

/// The number of system codes of a FeliCa target that announces `len`
/// bytes.
pub open spec fn system_code_count(len: u8) -> int {
    (len - FELICA_MIN_LEN) / 2
}

/// A FeliCa target whose length byte is at `pos`, and the position behind
/// it.
pub open spec fn parse_felica(data: Seq<u8>, pos: int) -> Result<(PassiveTargetView, int), TargetFault> {
    if pos + 1 > data.len() {
        Err(TargetFault::Truncated)
    } else if data[pos] < FELICA_MIN_LEN {
        Err(TargetFault::ShortFelica)
    } else if pos + 18 + 2 * system_code_count(data[pos]) > data.len() {
        Err(TargetFault::Truncated)
    } else {
        let count = system_code_count(data[pos]);
        Ok(
            (
                PassiveTargetView::Felica(
                    FelicaView {
                        idm: data.subrange(pos + 2, pos + 10),
                        pmm: data.subrange(pos + 10, pos + 18),
                        system_codes: Seq::new(
                            count as nat,
                            |i: int| be_u16(data[pos + 18 + 2 * i], data[pos + 19 + 2 * i]),
                        ),
                    },
                ),
                pos + 18 + 2 * count,
            ),
        )
    }
}

/// The target whose logical number is at `pos`, and the position behind
/// it.
pub open spec fn parse_target(data: Seq<u8>, pos: int, brty: u8) -> Result<(PassiveTargetView, int), TargetFault> {
    if pos + 1 > data.len() {
        Err(TargetFault::Truncated)
    } else if brty == 0 {
        parse_type_a(data, pos + 1)
    } else if brty == 1 || brty == 2 {
        parse_felica(data, pos + 1)
    } else {
        Err(TargetFault::Unsupported)
    }
}

/// The next `count` targets from `pos` on, or the first fault met.
pub open spec fn parse_targets(data: Seq<u8>, pos: int, count: nat, brty: u8) -> Result<Seq<PassiveTargetView>, TargetFault>
    decreases count,
{
    if count == 0 {
        Ok(Seq::empty())
    } else {
        match parse_target(data, pos, brty) {
            Err(fault) => Err(fault),
            Ok((target, next)) => match parse_targets(data, next, (count - 1) as nat, brty) {
                Err(fault) => Err(fault),
                Ok(rest) => Ok(seq![target] + rest),
            },
        }
    }
}

/// The targets that the payload `data` lists, or the first fault met.
/// Bytes behind the last target are not looked at.
pub open spec fn parse_target_list(data: Seq<u8>, brty: u8) -> Result<Seq<PassiveTargetView>, TargetFault> {
    if data.len() == 0 {
        Err(TargetFault::Truncated)
    } else {
        parse_targets(data, 1, data[0] as nat, brty)
    }
}

/// A list of decoded targets.
pub type PassiveTargetList = Seq<PassiveTargetView>;

/// The contents of a list of targets.
pub open spec fn target_views(targets: Seq<PassiveTarget>) -> Seq<PassiveTargetView> {
    Seq::new(targets.len(), |i: int| targets[i]@)
}

/// The error that reports a fault of the target list.
pub open spec fn fault_error(fault: TargetFault) -> ErrorView {
    match fault {
        TargetFault::Truncated => ErrorView::Protocol("failed to fill whole buffer"@),
        TargetFault::ShortFelica => ErrorView::Other("Len error"@),
        TargetFault::Unsupported => ErrorView::Protocol("Not Supported"@),
    }
}

/// `targets` in front of what the rest of the list decodes to.
pub open spec fn prepend(targets: Seq<PassiveTargetView>, rest: Result<Seq<PassiveTargetView>, TargetFault>) -> Result<Seq<PassiveTargetView>, TargetFault> {
    match rest {
        Ok(more) => Ok(targets + more),
        Err(fault) => Err(fault),
    }
}

/// `byteorder::BigEndian::read_u16`: the 16-bit value of the first two
/// bytes of `buf`, the high one first. byteorder panics on fewer than two
/// bytes.
#[verifier::external_body]
fn read_u16_be(buf: &[u8]) -> (value: u16)
    requires
        buf@.len() >= 2,
    ensures
        value == be_u16(buf@[0], buf@[1]),
{
    BigEndian::read_u16(buf)
}

/// The eight bytes of `data` from `pos` on.
fn read_eight(data: &[u8], pos: usize) -> (bytes: [u8; 8])
    requires
        pos + 8 <= data@.len(),
    ensures
        bytes@ == data@.subrange(pos as int, pos + 8),
{
    let bytes: [u8; 8] = [
        data[pos],
        data[pos + 1],
        data[pos + 2],
        data[pos + 3],
        data[pos + 4],
        data[pos + 5],
        data[pos + 6],
        data[pos + 7],
    ];
    assert(bytes@ =~= data@.subrange(pos as int, pos + 8));
    bytes
}

fn truncated<T>() -> (result: HinataResult<T>)
    ensures
        result matches Err(error) && error@ == fault_error(TargetFault::Truncated),
{
    Err(Error::Protocol("failed to fill whole buffer".to_string()))
}

/// Decodes one Type A target whose `ATQA` starts at `pos`.
fn read_type_a(data: &[u8], pos: usize) -> (result: HinataResult<(PassiveTarget, usize)>)
    requires
        pos <= data@.len(),
    ensures
        match result {
            Ok((target, next)) => parse_type_a(data@, pos as int) == Ok::<
                (PassiveTargetView, int),
                TargetFault,
            >((target@, next as int)) && next <= data@.len(),
            Err(error) => parse_type_a(data@, pos as int) matches Err(fault) && error@ == fault_error(fault),
        },
{
    if data.len() - pos < 4 {
        return truncated();
    }
    let atqa: u16 = read_u16_be(slice_subrange(data, pos, pos + 2));
    let sak: u8 = data[pos + 2];
    let len: usize = data[pos + 3] as usize;
    if data.len() - pos - 4 < len {
        return truncated();
    }
    let uid = slice_to_vec(slice_subrange(data, pos + 4, pos + 4 + len));
    Ok((PassiveTarget::Iso14443a(Iso14443a::new(uid, sak, atqa)), pos + 4 + len))
}

/// Decodes one FeliCa target whose length byte is at `pos`.
fn read_felica(data: &[u8], pos: usize) -> (result: HinataResult<(PassiveTarget, usize)>)
    requires
        pos <= data@.len(),
    ensures
        match result {
            Ok((target, next)) => parse_felica(data@, pos as int) == Ok::<
                (PassiveTargetView, int),
                TargetFault,
            >((target@, next as int)) && next <= data@.len(),
            Err(error) => parse_felica(data@, pos as int) matches Err(fault) && error@ == fault_error(fault),
        },
{
    if data.len() - pos < 1 {
        return truncated();
    }
    let len: u8 = data[pos];
    if len < FELICA_MIN_LEN {
        return Err(Error::Other("Len error".to_string()));
    }
    let count: usize = ((len - FELICA_MIN_LEN) / 2) as usize;
    if data.len() - pos < 18 + 2 * count {
        return truncated();
    }
    let idm = read_eight(data, pos + 2);
    let pmm = read_eight(data, pos + 10);
    let mut system_codes: Vec<u16> = Vec::new();
    let mut i: usize = 0;
    while i < count
        invariant
            i <= count <= 127,
            pos + 18 + 2 * count <= data.len(),
            system_codes@.len() == i,
            forall|j: int|
                0 <= j < i ==> system_codes@[j] == be_u16(
                    data@[pos + 18 + 2 * j],
                    data@[pos + 19 + 2 * j],
                ),
        decreases count - i,
    {
        let at: usize = pos + 18 + 2 * i;
        system_codes.push(read_u16_be(slice_subrange(data, at, at + 2)));
        i += 1;
    }
    let card = Felica::new(idm, pmm, system_codes);
    proof {
        let expected = parse_felica(data@, pos as int)->Ok_0.0->Felica_0;
        assert(card@.system_codes =~= expected.system_codes);
    }
    Ok((PassiveTarget::Felica(card), pos + 18 + 2 * count))
}

/// Decodes the payload of a list-passive-target response that was asked
/// for with the baud rate and modulation type `brty`.
///
/// A payload that ends too early is a protocol error, as is a type other
/// than 0, 1 or 2 as soon as a target is to be decoded; a FeliCa target
/// that announces fewer than 18 bytes is reported as `Other`.
pub fn parse_in_list_passive_target(data: &[u8], brty: u8) -> (result: HinataResult<
    Vec<PassiveTarget>,
>)
    ensures
        match result {
            Ok(targets) => parse_target_list(data@, brty) == Ok::<
                Seq<PassiveTargetView>,
                TargetFault,
            >(target_views(targets@)),
            Err(error) => parse_target_list(data@, brty) matches Err(fault) && error@ == fault_error(fault),
        },
{
    if data.len() < 1 {
        return truncated();
    }
    let tag_num: u8 = data[0];
    let mut tags: Vec<PassiveTarget> = Vec::new();
    let mut pos: usize = 1;
    let mut done: u8 = 0;
    assert(target_views(tags@) + Seq::<PassiveTargetView>::empty() =~= Seq::<
        PassiveTargetView,
    >::empty());
    assert(prepend(target_views(tags@), parse_targets(data@, 1, tag_num as nat, brty))
        == parse_target_list(data@, brty)) by {
        let rest = parse_targets(data@, 1, tag_num as nat, brty);
        if rest is Ok {
            assert(target_views(tags@) + rest->Ok_0 =~= rest->Ok_0);
        }
    }
    while done < tag_num
        invariant
            done <= tag_num,
            1 <= pos <= data@.len(),
            prepend(
                target_views(tags@),
                parse_targets(data@, pos as int, (tag_num - done) as nat, brty),
            ) == parse_target_list(data@, brty),
        decreases tag_num - done,
    {
        let ghost before = target_views(tags@);
        let ghost remaining = (tag_num - done) as nat;
        if data.len() - pos < 1 {
            return truncated();
        }
        let parsed = if brty == 0 {
            read_type_a(data, pos + 1)
        } else if brty == 1 || brty == 2 {
            read_felica(data, pos + 1)
        } else {
            Err(Error::Protocol("Not Supported".to_string()))
        };
        match parsed {
            Err(error) => {
                return Err(error);
            },
            Ok((target, next)) => {
                proof {
                    let rest = parse_targets(data@, next as int, (remaining - 1) as nat, brty);
                    if rest is Ok {
                        assert(before + (seq![target@] + rest->Ok_0) =~= before.push(target@)
                            + rest->Ok_0);
                    }
                    assert(target_views(tags@.push(target)) =~= before.push(target@));
                }
                tags.push(target);
                pos = next;
                done += 1;
            },
        }
    }
    proof {
        assert(target_views(tags@) + Seq::<PassiveTargetView>::empty() =~= target_views(tags@));
    }
    Ok(tags)
}

/// The initial data of a FeliCa poll: the polling command, the system code
/// with its high byte first, the low byte of the request code, and the time
/// slot 0.
pub open spec fn felica_poll_initial_data(system_code: u16, request_code: u16) -> Seq<u8> {
    seq![
        FelicaCommand::Polling.code(),
        (system_code / 256) as u8,
        (system_code % 256) as u8,
        (request_code % 256) as u8,
        0u8,
    ]
}

pub fn gen_felica_poll_initial_data(system_code: u16, request_code: u16) -> (data: Vec<u8>)
    ensures
        data@ == felica_poll_initial_data(system_code, request_code),
{
    let mut data: Vec<u8> = Vec::new();
    data.push(FelicaCommand::Polling.to_u8());
    data.push((system_code / 256) as u8);
    data.push((system_code % 256) as u8);
    data.push((request_code % 256) as u8);
    data.push(0);
    assert(data@ =~= felica_poll_initial_data(system_code, request_code));
    data
}

} // verus!
