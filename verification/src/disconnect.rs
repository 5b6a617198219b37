//! The messages that end a session: why it ends, that it is no longer active,
//! and that the connection closes.

use ironrdp_core::{encode_vec, EncodeError};
use ironrdp_pdu::mcs;
use ironrdp_pdu::rdp::client_info::CompressionType;
use ironrdp_pdu::rdp::headers::{
    CompressionFlags, ServerDeactivateAll, ShareControlHeader, ShareControlPdu, ShareDataHeader,
    ShareDataPdu, StreamPriority,
};
use ironrdp_pdu::rdp::server_error_info::{
    ErrorInfo, ProtocolIndependentCode, ServerSetErrorInfoPdu,
};
use ironrdp_pdu::x224::X224;
use vstd::prelude::*;

use crate::display_control;
use crate::errors::ServerError;

verus! {

/// The lowest number of a user's channel.
pub const BASE_CHANNEL_ID: u16 = 1001;

/// Why the server ends a session.
#[derive(Clone, Copy, Debug, PartialEq, Eq, Structural)]
pub enum ErrorCode {
    /// The server was told to quit.
    RpcInitiatedDisconnect,
    /// Another client took over.
    DisconnectedByOtherConnection,
    /// The server may not capture the screen.
    ServerInsufficientPrivileges,
}

/// The number that stands for a reason.
pub open spec fn code_number(code: ErrorCode) -> u32 {
    match code {
        ErrorCode::RpcInitiatedDisconnect => 1,
        ErrorCode::DisconnectedByOtherConnection => 5,
        ErrorCode::ServerInsufficientPrivileges => 9,
    }
}

/// The two bytes of a number, the lower first.
pub open spec fn le16(n: int) -> Seq<u8> {
    seq![(n % 256) as u8, (n / 256) as u8]
}

/// The two bytes of a number, the higher first.
pub open spec fn be16(n: int) -> Seq<u8> {
    seq![(n / 256) as u8, (n % 256) as u8]
}

/// A share control header: the length of the message, its type, who sends it
/// and the share.
pub open spec fn share_control(len: int, kind: u8, source: u16) -> Seq<u8> {
    le16(len) + seq![kind, 0u8] + le16(source as int) + seq![0u8, 0, 0, 0]
}

/// The body of the message that says why a session ends.
pub open spec fn error_info_body(io_channel: u16, code: ErrorCode) -> Seq<u8> {
    share_control(22, 0x17, io_channel) + seq![0u8, 1, 8, 0, 0x2F, 0, 0, 0] + display_control::le32(
        code_number(code),
    )
}

/// The body of the message that deactivates a session.
pub open spec fn deactivate_body(io_channel: u16) -> Seq<u8> {
    share_control(13, 0x16, io_channel) + seq![1u8, 0, 0]
}

/// A message that carries at most 127 bytes of `data` from the server to a
/// channel.
pub open spec fn indication(user_channel: u16, channel: u16, data: Seq<u8>) -> Seq<u8> {
    seq![3u8, 0] + be16((14 + data.len()) as int) + seq![2u8, 0xF0, 0x80, 0x68] + be16(
        user_channel - BASE_CHANNEL_ID,
    ) + be16(channel as int) + seq![0x70u8, data.len() as u8] + data
}

/// The message that says why a session ends.
pub open spec fn error_info_pdu(io_channel: u16, user_channel: u16, code: ErrorCode) -> Seq<u8> {
    indication(user_channel, io_channel, error_info_body(io_channel, code))
}

/// The message that deactivates a session.
pub open spec fn deactivate_pdu(io_channel: u16, user_channel: u16) -> Seq<u8> {
    indication(user_channel, io_channel, deactivate_body(io_channel))
}

/// The message that announces the end of the connection.
pub open spec fn ultimatum_pdu() -> Seq<u8> {
    seq![3u8, 0, 0, 9, 2, 0xF0, 0x80, 0x20, 0x80]
}

/// What the server sends to end a session: the three messages, in order. A user
/// channel below the lowest number has no use for the first two.
pub open spec fn goodbye(io_channel: u16, user_channel: u16, code: ErrorCode) -> Seq<Seq<u8>> {
    if user_channel >= BASE_CHANNEL_ID {
        seq![
            error_info_pdu(io_channel, user_channel, code),
            deactivate_pdu(io_channel, user_channel),
            ultimatum_pdu(),
        ]
    } else {
        seq![ultimatum_pdu()]
    }
}

/// An outside code for a reason why a session ends.
#[verifier::external_type_specification]
#[verifier::external_body]
pub struct ExErrorInfo(ironrdp_pdu::rdp::server_error_info::ErrorInfo);

/// The number of an outside code.
pub uninterp spec fn info_number(info: ErrorInfo) -> u32;

/// `ProtocolIndependentCode`, one of three of its codes: each stands for its
/// number.
#[verifier::external_body]
fn error_info(code: ErrorCode) -> (info: ErrorInfo)
    ensures
        info_number(info) == code_number(code),
{
    ErrorInfo::ProtocolIndependentCode(match code {
        ErrorCode::RpcInitiatedDisconnect => ProtocolIndependentCode::RpcInitiatedDisconnect,
        ErrorCode::DisconnectedByOtherConnection => {
            ProtocolIndependentCode::DisconnectedByOtherconnection
        },
        ErrorCode::ServerInsufficientPrivileges => {
            ProtocolIndependentCode::ServerInsufficientPrivileges
        },
    })
}

/// `ironrdp_core::encode_vec` of an error info message: always succeeds, with
/// the header's fields and the code's number.
#[verifier::external_body]
fn encode_error_info(io_channel: u16, info: ErrorInfo) -> (body: Result<Vec<u8>, EncodeError>)
    ensures
        body is Ok,
        body->Ok_0@ == share_control(22, 0x17, io_channel) + seq![
            0u8,
            1,
            8,
            0,
            0x2F,
            0,
            0,
            0,
        ] + display_control::le32(info_number(info)),
{
    encode_vec(&ShareControlHeader {
        share_id: 0,
        pdu_source: io_channel,
        share_control_pdu: ShareControlPdu::Data(ShareDataHeader {
            share_data_pdu: ShareDataPdu::ServerSetErrorInfo(ServerSetErrorInfoPdu(info)),
            stream_priority: StreamPriority::Low,
            compression_flags: CompressionFlags::empty(),
            compression_type: CompressionType::K8,
        }),
    })
}

/// `ironrdp_core::encode_vec` of a deactivate message: always succeeds, with
/// the header's fields and an empty source descriptor.
#[verifier::external_body]
fn encode_deactivate(io_channel: u16) -> (body: Result<Vec<u8>, EncodeError>)
    ensures
        body is Ok,
        body->Ok_0@ == deactivate_body(io_channel),
{
    encode_vec(&ShareControlHeader {
        share_id: 0,
        pdu_source: io_channel,
        share_control_pdu: ShareControlPdu::ServerDeactivateAll(ServerDeactivateAll),
    })
}

/// `ironrdp_core::encode_vec` of a message that carries data to a channel:
/// fails just where the user channel is below the lowest number.
#[verifier::external_body]
fn encode_indication(user_channel: u16, channel: u16, data: Vec<u8>) -> (message: Result<
    Vec<u8>,
    EncodeError,
>)
    requires
        data@.len() <= 127,
    ensures
        match message {
            Ok(bytes) => user_channel >= BASE_CHANNEL_ID && bytes@ == indication(
                user_channel,
                channel,
                data@,
            ),
            Err(_) => user_channel < BASE_CHANNEL_ID,
        },
{
    encode_vec(&X224(mcs::SendDataIndication {
        initiator_id: user_channel,
        channel_id: channel,
        user_data: data.into(),
    }))
}

/// `ironrdp_core::encode_vec` of a disconnect message: always succeeds.
#[verifier::external_body]
fn encode_ultimatum() -> (message: Result<Vec<u8>, EncodeError>)
    ensures
        message is Ok,
        message->Ok_0@ == ultimatum_pdu(),
{
    let reason = mcs::DisconnectReason::ProviderInitiated;
    let disconnect = mcs::DisconnectProviderUltimatum::from_reason(reason);
    encode_vec(&X224(mcs::McsMessage::DisconnectProviderUltimatum(disconnect)))
}

/// The message that says why a session ends.
pub fn send_error_info(io_channel_id: u16, user_channel_id: u16, code: ErrorCode) -> (message:
    Result<Vec<u8>, ServerError>)
    ensures
        match message {
            Ok(bytes) => user_channel_id >= BASE_CHANNEL_ID && bytes@ == error_info_pdu(
                io_channel_id,
                user_channel_id,
                code,
            ),
            Err(error) => user_channel_id < BASE_CHANNEL_ID && error == ServerError::Encode,
        },
{
    match encode_error_info(io_channel_id, error_info(code)) {
        Ok(body) => {
            assert(body@ =~= error_info_body(io_channel_id, code));
            match encode_indication(user_channel_id, io_channel_id, body) {
                Ok(bytes) => Ok(bytes),
                Err(_) => Err(ServerError::Encode),
            }
        },
        Err(_) => Err(ServerError::Encode),
    }
}

/// The message that deactivates a session.
pub fn deactivate_all(io_channel_id: u16, user_channel_id: u16) -> (message: Result<
    Vec<u8>,
    ServerError,
>)
    ensures
        match message {
            Ok(bytes) => user_channel_id >= BASE_CHANNEL_ID && bytes@ == deactivate_pdu(
                io_channel_id,
                user_channel_id,
            ),
            Err(error) => user_channel_id < BASE_CHANNEL_ID && error == ServerError::Encode,
        },
{
    match encode_deactivate(io_channel_id) {
        Ok(body) => match encode_indication(user_channel_id, io_channel_id, body) {
            Ok(bytes) => Ok(bytes),
            Err(_) => Err(ServerError::Encode),
        },
        Err(_) => Err(ServerError::Encode),
    }
}

/// The message that announces the end of the connection.
pub fn send_disconnect_ultimatum() -> (message: Result<Vec<u8>, ServerError>)
    ensures
        message matches Ok(bytes) && bytes@ == ultimatum_pdu(),
{
    match encode_ultimatum() {
        Ok(bytes) => Ok(bytes),
        Err(_) => Err(ServerError::Encode),
    }
}

/// The messages that end a session, in the order in which they are sent. One
/// that cannot be written is left out.
pub fn send_graceful_disconnect(io_channel_id: u16, user_channel_id: u16, code: ErrorCode) -> (
    messages: Vec<Vec<u8>>)
    ensures
        messages@.len() == goodbye(io_channel_id, user_channel_id, code).len(),
        forall|i: int|
            0 <= i < messages@.len() ==> (#[trigger] messages@[i])@ == goodbye(
                io_channel_id,
                user_channel_id,
                code,
            )[i],
{
    let mut messages: Vec<Vec<u8>> = Vec::new();
    if let Ok(message) = send_error_info(io_channel_id, user_channel_id, code) {
        messages.push(message);
    }
    if let Ok(message) = deactivate_all(io_channel_id, user_channel_id) {
        messages.push(message);
    }
    if let Ok(message) = send_disconnect_ultimatum() {
        messages.push(message);
    }
    messages
}

/// Ending a session takes three messages; the first carries the reason, and the
/// last is the ultimatum that also stands alone.
pub proof fn goodbye_gives_the_reason_first(io_channel: u16, user_channel: u16, code: ErrorCode)
    requires
        user_channel >= BASE_CHANNEL_ID,
    ensures
        goodbye(io_channel, user_channel, code).len() == 3,
        goodbye(io_channel, user_channel, code)[0].len() == 36,
        goodbye(io_channel, user_channel, code)[0].subrange(32, 36) == display_control::le32(
            code_number(code),
        ),
        goodbye(io_channel, user_channel, code)[2] == ultimatum_pdu(),
{
    let first = goodbye(io_channel, user_channel, code)[0];
    assert(first.subrange(32, 36) =~= display_control::le32(code_number(code)));
}

/// What ends a session, byte by byte where it matters: first a message on the
/// session's channel with the number of the reason, 1 where the server was told to
/// quit, 5 where another client took over and 9 where the screen may not be
/// captured; then one that deactivates the session; then the ultimatum, which says
/// that the server ended it. Without a channel for the first two only the last is
/// sent.
pub proof fn goodbyes_say_why(io_channel: u16, user_channel: u16, code: ErrorCode)
    ensures
        ({
            let messages = goodbye(io_channel, user_channel, code);
            let n = messages.len() as int;
            &&& n == if user_channel >= 1001 {
                3int
            } else {
                1
            }
            &&& messages[n - 1] == seq![3u8, 0, 0, 9, 2, 0xF0, 0x80, 0x20, 0x80]
            &&& n == 3 ==> {
                let (why, off) = (messages[0], messages[1]);
                &&& why[32] == 1 <==> code is RpcInitiatedDisconnect
                &&& why[32] == 5 <==> code is DisconnectedByOtherConnection
                &&& why[32] == 9 <==> code is ServerInsufficientPrivileges
                &&& why[33] == 0 && why[34] == 0 && why[35] == 0
                &&& why.len() == 36 && 256 * why[2] + why[3] == 36
                &&& off.len() == 27 && 256 * off[2] + off[3] == 27
                &&& why[16] == 0x17 && why[28] == 0x2F
                &&& off[16] == 0x16
                &&& 1001 + 256 * why[8] + why[9] == user_channel
                &&& 1001 + 256 * off[8] + off[9] == user_channel
                &&& 256 * why[10] + why[11] == io_channel
                &&& 256 * off[10] + off[11] == io_channel
            }
        }),
{
}

/// Two bytes hold a number, the lower or the higher first.
pub proof fn two_bytes_hold_a_number(n: u16)
    ensures
        le16(n as int).len() == 2,
        le16(n as int)[0] + 256 * le16(n as int)[1] == n,
        be16(n as int).len() == 2,
        256 * be16(n as int)[0] + be16(n as int)[1] == n,
{
}

} // verus!
