//! The static channels of a session: sound, clipboard, and the one that carries
//! all dynamic channels.

use std::any::TypeId;

use ironrdp_cliprdr::pdu::{
    ClipboardFormat, ClipboardFormatId, ClipboardPdu, FileContentsFlags, OwnedFileContentsResponse,
    OwnedFormatDataResponse,
};
use ironrdp_cliprdr::CliprdrServer;
use ironrdp_core::EncodeError;
use ironrdp_dvc::DrdynvcServer;
use ironrdp_pdu::PduError;
use ironrdp_rdpsnd::pdu::Version;
use ironrdp_rdpsnd::server::RdpsndServer;
use ironrdp_svc::{server_encode_svc_messages, ChannelFlags, StaticChannelSet, SvcMessage};
use vstd::prelude::*;

use crate::disconnect;
use crate::display_control;
use crate::errors::ServerError;

verus! {

/// The flag of a message that shows the channel protocol.
pub const SHOW_PROTOCOL: u32 = 0x10;

/// The kinds of static channels.
#[derive(Clone, Copy, Debug, PartialEq, Eq, Structural)]
pub enum ChannelKind {
    Sound,
    Clipboard,
    Dynamic,
}

/// The static channels of a session.
#[verifier::external_type_specification]
#[verifier::external_body]
pub struct ExStaticChannelSet(ironrdp_svc::StaticChannelSet);

/// What tells the channels of a set apart: no two of them are of one type.
#[verifier::external_type_specification]
#[verifier::external_body]
pub struct ExTypeId(std::any::TypeId);

/// A message for a static channel.
#[verifier::external_type_specification]
#[verifier::external_body]
pub struct ExSvcMessage(ironrdp_svc::SvcMessage);

/// A format that the clipboard offers.
#[verifier::external_type_specification]
#[verifier::external_body]
pub struct ExClipboardFormat(ironrdp_cliprdr::pdu::ClipboardFormat);

/// Clipboard data in some format.
#[verifier::external_type_specification]
#[verifier::external_body]
pub struct ExFormatDataResponse<'a>(ironrdp_cliprdr::pdu::FormatDataResponse<'a>);

/// The contents of a file on the clipboard.
#[verifier::external_type_specification]
#[verifier::external_body]
pub struct ExFileContentsResponse<'a>(ironrdp_cliprdr::pdu::FileContentsResponse<'a>);

/// A request for the contents of a file on the client's clipboard.
#[derive(Clone, Copy, Debug, PartialEq, Eq, Structural)]
pub struct FileContentsRequest {
    pub stream_id: u32,
    pub index: u32,
    /// 1 asks for the size, 2 for data.
    pub flags: u32,
    pub position: u64,
    pub requested_size: u32,
    pub data_id: Option<u32>,
}

/// What a message for a static channel says: its bytes, where they can be
/// written, and its flags.
pub struct MessageView {
    pub payload: Option<Seq<u8>>,
    pub flags: u32,
}

/// The kinds of channels that a set holds.
pub uninterp spec fn held(channels: StaticChannelSet) -> Set<ChannelKind>;

/// The numbers of the channels of each kind.
pub uninterp spec fn numbers(channels: StaticChannelSet) -> Map<ChannelKind, u16>;

/// The numbers under which a set holds a channel, of whatever kind.
pub uninterp spec fn joined(channels: StaticChannelSet) -> Set<u16>;

/// The channels that a set holds, of whatever kind, each with its number where
/// it has one.
pub uninterp spec fn attached(channels: StaticChannelSet) -> Map<TypeId, Option<u16>>;

/// What a message says.
pub uninterp spec fn said(message: SvcMessage) -> MessageView;

/// Whether writing a message comes to an end, with its bytes or with an error.
/// A message can be made for which it panics.
pub uninterp spec fn encodable(message: SvcMessage) -> bool;

/// Whether writing each of some messages comes to an end.
pub open spec fn all_encodable(messages: Seq<SvcMessage>) -> bool {
    forall|i: int| 0 <= i < messages.len() ==> encodable(#[trigger] messages[i])
}

/// What messages say, in order.
pub open spec fn all_said(messages: Seq<SvcMessage>) -> Seq<MessageView> {
    Seq::new(messages.len(), |i: int| said(messages[i]))
}

/// Whether all of some messages can be written.
pub open spec fn can_be_written(messages: Seq<MessageView>) -> bool {
    forall|i: int| 0 <= i < messages.len() ==> (#[trigger] messages[i]).payload is Some
}

/// Whether two sets hold the same channels under the same numbers.
pub open spec fn same_channels(a: StaticChannelSet, b: StaticChannelSet) -> bool {
    held(a) == held(b) && numbers(a) == numbers(b) && joined(a) == joined(b) && attached(a)
        == attached(b)
}

/// Whether a set holds no channel.
pub open spec fn is_bare(channels: StaticChannelSet) -> bool {
    &&& held(channels) == Set::<ChannelKind>::empty()
    &&& numbers(channels) == Map::<ChannelKind, u16>::empty()
    &&& joined(channels) == Set::<u16>::empty()
    &&& attached(channels) == Map::<TypeId, Option<u16>>::empty()
}

/// One where a set holds a channel of a kind, else zero.
pub open spec fn count_of(channels: StaticChannelSet, kind: ChannelKind) -> nat {
    if held(channels).contains(kind) {
        1
    } else {
        0
    }
}

/// Whether a set holds no other channels than those for sound, for the
/// clipboard, and for the dynamic channels.
pub open spec fn only_known(channels: StaticChannelSet) -> bool {
    attached(channels).len() == count_of(channels, ChannelKind::Sound) + count_of(
        channels,
        ChannelKind::Clipboard,
    ) + count_of(channels, ChannelKind::Dynamic)
}

/// The bytes that carry messages from the server to a channel, cut into pieces
/// and framed; none where a message cannot be written.
pub uninterp spec fn framed(messages: Seq<MessageView>, channel: u16, user_channel: u16) -> Option<
    Seq<u8>,
>;

/// The version that the client of the sound channel has announced.
pub uninterp spec fn sound_version(channels: StaticChannelSet) -> Option<u16>;

/// The sound format that was agreed on.
pub uninterp spec fn sound_format(channels: StaticChannelSet) -> Option<u16>;

/// The number of the next piece of sound.
pub uninterp spec fn sound_block(channels: StaticChannelSet) -> u8;

/// Whether the client of the sound channel has announced that it takes volumes.
pub uninterp spec fn takes_volume(channels: StaticChannelSet) -> bool;

/// Whether the clipboard channel is ready: the client has said what is on its
/// clipboard.
pub uninterp spec fn clipboard_ready(channels: StaticChannelSet) -> bool;

/// Whether two sets agree on what the sound channel has been told.
pub open spec fn same_sound(a: StaticChannelSet, b: StaticChannelSet) -> bool {
    sound_version(a) == sound_version(b) && sound_format(a) == sound_format(b) && takes_volume(a)
        == takes_volume(b)
}

/// Whether two sets agree on what the clipboard channel has been told.
pub open spec fn same_clipboard(a: StaticChannelSet, b: StaticChannelSet) -> bool {
    clipboard_ready(a) == clipboard_ready(b) && forall|formats: Seq<ClipboardFormat>| #[trigger]
        copy_messages(a, formats) == copy_messages(b, formats)
}

/// Whether the message for a piece of sound can be written. For clients before
/// version 8 its first four bytes travel apart from the rest, so it must have
/// as many.
pub open spec fn can_send_wave(channels: StaticChannelSet, data: Seq<u8>) -> bool {
    data.len() >= 4 || sound_version(channels) is None || sound_version(channels) == Some(8u16)
}

/// Whether the sound channel takes sound: the client has announced its version,
/// and a format is agreed on.
pub open spec fn takes_wave(channels: StaticChannelSet) -> bool {
    sound_version(channels) is Some && sound_format(channels) is Some
}

/// Whether `after` is what a piece of sound that the sound channel takes makes
/// of a set: the next piece has the next number, and all else stays.
pub open spec fn after_wave(before: StaticChannelSet, after: StaticChannelSet) -> bool {
    &&& sound_block(after) == ((sound_block(before) + 1) % 256) as u8
    &&& same_sound(before, after)
    &&& same_clipboard(before, after)
    &&& same_channels(before, after)
}

/// The head of a message of the sound channel; none where the body is too long.
pub open spec fn sound_head(kind: u8, body: nat) -> Option<Seq<u8>> {
    if body <= u16::MAX {
        Some(seq![kind, 0u8] + disconnect::le16(body as int))
    } else {
        None
    }
}

/// The bytes that carry a piece of sound.
pub open spec fn wave_bytes(
    version: u16,
    format: u16,
    block: u8,
    data: Seq<u8>,
    time: u32,
) -> Option<Seq<u8>> {
    let about = disconnect::le16(0) + disconnect::le16(format as int) + seq![block, 0u8, 0, 0];
    if version >= 8 {
        match sound_head(13, 12 + data.len()) {
            Some(head) => Some(head + about + display_control::le32(time) + data),
            None => None,
        }
    } else {
        match sound_head(2, 8 + data.len()) {
            Some(head) => Some(head + about + data.take(4) + seq![0u8, 0, 0, 0] + data.skip(4)),
            None => None,
        }
    }
}

/// The messages that the sound channel sends for a piece of sound: one, once
/// the client has announced its version and a format is agreed on.
pub open spec fn wave_messages(
    version: Option<u16>,
    format: Option<u16>,
    block: u8,
    data: Seq<u8>,
    time: u32,
) -> Option<Seq<MessageView>> {
    match (version, format) {
        (Some(version), Some(format)) => Some(
            seq![MessageView { payload: wave_bytes(version, format, block, data, time), flags: 0 }],
        ),
        _ => None,
    }
}

/// The messages that the sound channel sends for a volume: one, where the client
/// takes volumes.
pub open spec fn volume_messages(takes_volume: bool, left: u16, right: u16) -> Option<
    Seq<MessageView>,
> {
    if takes_volume {
        Some(
            seq![
                MessageView {
                    payload: Some(
                        seq![3u8, 0, 4, 0] + disconnect::le16(left as int) + disconnect::le16(
                            right as int,
                        ),
                    ),
                    flags: 0,
                },
            ],
        )
    } else {
        None
    }
}

/// The messages that the sound channel sends when it closes.
pub open spec fn close_messages() -> Seq<MessageView> {
    seq![MessageView { payload: Some(seq![1u8, 0, 0, 0]), flags: 0 }]
}

/// The messages that the clipboard channel sends when formats are offered.
pub uninterp spec fn copy_messages(
    channels: StaticChannelSet,
    formats: Seq<ClipboardFormat>,
) -> Option<Seq<MessageView>>;

/// The bytes that carry clipboard data, where they can be written.
pub uninterp spec fn data_bytes(response: OwnedFormatDataResponse) -> Option<Seq<u8>>;

/// The bytes that carry the contents of a file, where they can be written.
pub uninterp spec fn file_bytes(response: OwnedFileContentsResponse) -> Option<Seq<u8>>;

/// The bytes that ask for a format.
pub open spec fn paste_bytes(format: u32) -> Seq<u8> {
    seq![4u8, 0, 0, 0, 4, 0, 0, 0] + display_control::le32(format)
}

/// The messages that the clipboard channel sends where it is ready: one with
/// these bytes. Before, it sends none.
pub open spec fn when_ready(ready: bool, payload: Option<Seq<u8>>) -> Seq<MessageView> {
    if ready {
        seq![MessageView { payload, flags: SHOW_PROTOCOL }]
    } else {
        Seq::empty()
    }
}

/// Whether the outcome of a call on a channel is the expected one. Messages that
/// it gives can be written, or fail to be.
pub open spec fn is_outcome(
    outcome: Result<Vec<SvcMessage>, PduError>,
    expected: Option<Seq<MessageView>>,
) -> bool {
    match outcome {
        Ok(messages) => expected == Some(all_said(messages@)) && all_encodable(messages@),
        Err(_) => expected is None,
    }
}

/// What a channel answered: what its messages say, or none where it failed.
pub open spec fn answer_view(answer: Result<Vec<SvcMessage>, PduError>) -> Option<
    Seq<MessageView>,
> {
    match answer {
        Ok(messages) => Some(all_said(messages@)),
        Err(_) => None,
    }
}

/// Whether the channel with a number, in the set `before`, can give this answer
/// to data and leave the set as `after`. Its backend decides among several.
pub uninterp spec fn answers(
    before: StaticChannelSet,
    number: u16,
    data: Seq<u8>,
    answer: Option<Seq<MessageView>>,
    after: StaticChannelSet,
) -> bool;

/// Whether a channel of the set `before` can give this greeting when it starts
/// and leave the set as `after`. Its backend decides among several.
pub uninterp spec fn greets(
    before: StaticChannelSet,
    channel: TypeId,
    greeting: Option<Seq<MessageView>>,
    after: StaticChannelSet,
) -> bool;

/// The bytes to send for what a channel answered.
pub open spec fn replied(
    answer: Option<Seq<MessageView>>,
    channel: u16,
    user_channel: u16,
) -> Result<Seq<u8>, ServerError> {
    match answer {
        None => Err(ServerError::Channel),
        Some(messages) => match framed(messages, channel, user_channel) {
            Some(bytes) => Ok(bytes),
            None => Err(ServerError::Encode),
        },
    }
}

/// Whether writing what a channel answered comes to an end.
pub open spec fn can_reply(answer: Result<Vec<SvcMessage>, PduError>) -> bool {
    answer matches Ok(messages) ==> all_encodable(messages@)
}

/// The bytes of a request for the contents of a file.
pub open spec fn file_request_bytes(request: FileContentsRequest) -> Seq<u8> {
    let id = match request.data_id {
        Some(id) => display_control::le32(id),
        None => Seq::empty(),
    };
    disconnect::le16(8) + seq![0u8, 0] + display_control::le32((24 + id.len()) as u32)
        + display_control::le32(request.stream_id) + display_control::le32(request.index)
        + display_control::le32(request.flags) + display_control::le32(
        (request.position as int % 0x1_0000_0000) as u32,
    ) + display_control::le32((request.position as int / 0x1_0000_0000) as u32)
        + display_control::le32(request.requested_size) + id
}

/// Whether a list has each of these channels once, with its number, and no
/// others.
pub open spec fn lists_channels(
    list: Seq<(TypeId, Option<u16>)>,
    all: Map<TypeId, Option<u16>>,
) -> bool {
    &&& list.len() == all.len()
    &&& forall|i: int, j: int| 0 <= i < j < list.len() ==> list[i].0 != list[j].0
    &&& forall|channel: TypeId, number: Option<u16>| #[trigger]
        list.contains((channel, number)) <==> all.contains_key(channel) && all[channel] == number
}

/// Whether the channels of all the kinds that are held are on a list, as far as
/// they have a number.
pub open spec fn lists_kinds(
    list: Seq<(TypeId, Option<u16>)>,
    kinds: Set<ChannelKind>,
    of_kinds: Map<ChannelKind, u16>,
) -> bool {
    forall|kind: ChannelKind|
        kinds.contains(kind) && #[trigger] of_kinds.contains_key(kind) ==> exists|channel: TypeId|
            list.contains((channel, Some(of_kinds[kind])))
}

/// `StaticChannelSet::new`: a set without channels.
#[verifier::external_body]
pub(crate) fn no_channels() -> (channels: StaticChannelSet)
    ensures
        is_bare(channels),
{
    StaticChannelSet::new()
}

/// `StaticChannelSet::get_by_type`: whether the set holds a channel of a kind.
#[verifier::external_body]
pub(crate) fn holds(channels: &StaticChannelSet, kind: ChannelKind) -> (yes: bool)
    ensures
        yes == held(*channels).contains(kind),
{
    match kind {
        ChannelKind::Sound => channels.get_by_type::<RdpsndServer>().is_some(),
        ChannelKind::Clipboard => channels.get_by_type::<CliprdrServer>().is_some(),
        ChannelKind::Dynamic => channels.get_by_type::<DrdynvcServer>().is_some(),
    }
}

/// `StaticChannelSet::get_channel_id_by_type`: the number of a kind's channel,
/// where it has one.
#[verifier::external_body]
pub(crate) fn number_of(channels: &StaticChannelSet, kind: ChannelKind) -> (number: Option<u16>)
    ensures
        number == if numbers(*channels).contains_key(kind) {
            Some(numbers(*channels)[kind])
        } else {
            None
        },
{
    match kind {
        ChannelKind::Sound => channels.get_channel_id_by_type::<RdpsndServer>(),
        ChannelKind::Clipboard => channels.get_channel_id_by_type::<CliprdrServer>(),
        ChannelKind::Dynamic => channels.get_channel_id_by_type::<DrdynvcServer>(),
    }
}

/// `StaticChannelSet::iter_mut`: each channel of the set once, of whatever kind,
/// with its number where it has one. The order is that of the channels' types,
/// which is left open.
#[verifier::external_body]
pub(crate) fn all_channels(channels: &mut StaticChannelSet) -> (list: Vec<(TypeId, Option<u16>)>)
    ensures
        lists_channels(list@, attached(*old(channels))),
        lists_kinds(list@, held(*old(channels)), numbers(*old(channels))),
        *final(channels) == *old(channels),
{
    channels.iter_mut().map(|(channel, _, number)| (channel, number)).collect()
}

/// `RdpsndServer::version`: the version that the client has announced, which
/// is 2, 5, 6 or 8.
#[verifier::external_body]
pub(crate) fn version_of_sound(channels: &StaticChannelSet) -> (version: Option<u16>)
    requires
        held(*channels).contains(ChannelKind::Sound),
    ensures
        version == sound_version(*channels),
{
    let channel = channels.get_by_type::<RdpsndServer>().unwrap();
    let sound: &RdpsndServer = channel.channel_processor_downcast_ref().unwrap();
    match sound.version() {
        Ok(Version::V2) => Some(2),
        Ok(Version::V5) => Some(5),
        Ok(Version::V6) => Some(6),
        Ok(Version::V8) => Some(8),
        Err(_) => None,
    }
}

/// `RdpsndServer::wave`: one message with the sound, numbered in turn, once the
/// client has announced its version and a format is agreed on; else an error, and
/// nothing changes. Of the message for sound that travels in two parts and is
/// shorter than the first, nothing is said: writing it panics. But for the next
/// number nothing changes.
#[verifier::external_body]
pub(crate) fn wave(channels: &mut StaticChannelSet, data: Vec<u8>, time: u32) -> (outcome: Result<
    Vec<SvcMessage>,
    PduError,
>)
    requires
        held(*old(channels)).contains(ChannelKind::Sound),
    ensures
        outcome is Ok <==> takes_wave(*old(channels)),
        outcome is Ok && can_send_wave(*old(channels), data@) ==> is_outcome(
            outcome,
            wave_messages(
                sound_version(*old(channels)),
                sound_format(*old(channels)),
                sound_block(*old(channels)),
                data@,
                time,
            ),
        ),
        outcome is Ok ==> after_wave(*old(channels), *final(channels)),
        outcome is Err ==> *final(channels) == *old(channels),
{
    let channel = channels.get_by_type_mut::<RdpsndServer>().unwrap();
    let sound: &mut RdpsndServer = channel.channel_processor_downcast_mut().unwrap();
    sound.wave(data, time).map(Vec::from)
}

/// `RdpsndServer::set_volume`: one message with the volume, where the client has
/// announced that it takes volumes; else an error. Nothing changes.
#[verifier::external_body]
pub(crate) fn set_volume(channels: &mut StaticChannelSet, left: u16, right: u16) -> (outcome:
    Result<Vec<SvcMessage>, PduError>)
    requires
        held(*old(channels)).contains(ChannelKind::Sound),
    ensures
        is_outcome(outcome, volume_messages(takes_volume(*old(channels)), left, right)),
        *final(channels) == *old(channels),
{
    let channel = channels.get_by_type_mut::<RdpsndServer>().unwrap();
    let sound: &mut RdpsndServer = channel.channel_processor_downcast_mut().unwrap();
    sound.set_volume(left, right).map(Vec::from)
}

/// `RdpsndServer::close`: one message that says so. Nothing changes.
#[verifier::external_body]
pub(crate) fn close_sound(channels: &mut StaticChannelSet) -> (outcome: Result<
    Vec<SvcMessage>,
    PduError,
>)
    requires
        held(*old(channels)).contains(ChannelKind::Sound),
    ensures
        is_outcome(outcome, Some(close_messages())),
        *final(channels) == *old(channels),
{
    let channel = channels.get_by_type_mut::<RdpsndServer>().unwrap();
    let sound: &mut RdpsndServer = channel.channel_processor_downcast_mut().unwrap();
    sound.close().map(Vec::from)
}

/// `Cliprdr::initiate_copy`: what comes of it follows from the channel's state
/// and the formats. Where it works, it is one message, which shows the
/// protocol.
#[verifier::external_body]
pub(crate) fn offer_formats(channels: &StaticChannelSet, formats: Vec<ClipboardFormat>) -> (outcome:
    Result<Vec<SvcMessage>, PduError>)
    requires
        held(*channels).contains(ChannelKind::Clipboard),
    ensures
        is_outcome(outcome, copy_messages(*channels, formats@)),
        match outcome {
            Ok(list) => list@.len() == 1 && said(list@[0]).flags == SHOW_PROTOCOL,
            Err(_) => true,
        },
{
    let channel = channels.get_by_type::<CliprdrServer>().unwrap();
    let clipboard: &CliprdrServer = channel.channel_processor_downcast_ref().unwrap();
    clipboard.initiate_copy(&formats).map(Vec::from)
}

/// `Cliprdr::submit_format_data`: one message with the data where the channel is
/// ready, else none.
#[verifier::external_body]
pub(crate) fn submit_data(channels: &StaticChannelSet, response: OwnedFormatDataResponse) -> (
    outcome: Result<Vec<SvcMessage>, PduError>)
    requires
        held(*channels).contains(ChannelKind::Clipboard),
    ensures
        is_outcome(outcome, Some(when_ready(clipboard_ready(*channels), data_bytes(response)))),
{
    let channel = channels.get_by_type::<CliprdrServer>().unwrap();
    let clipboard: &CliprdrServer = channel.channel_processor_downcast_ref().unwrap();
    clipboard.submit_format_data(response).map(Vec::from)
}

/// `Cliprdr::initiate_paste`: one message with the format where the channel is
/// ready, else none.
#[verifier::external_body]
pub(crate) fn ask_for_format(channels: &StaticChannelSet, format: u32) -> (outcome: Result<
    Vec<SvcMessage>,
    PduError,
>)
    requires
        held(*channels).contains(ChannelKind::Clipboard),
    ensures
        is_outcome(
            outcome,
            Some(when_ready(clipboard_ready(*channels), Some(paste_bytes(format)))),
        ),
{
    let channel = channels.get_by_type::<CliprdrServer>().unwrap();
    let clipboard: &CliprdrServer = channel.channel_processor_downcast_ref().unwrap();
    clipboard.initiate_paste(ClipboardFormatId(format)).map(Vec::from)
}

/// `Cliprdr::submit_file_contents`: one message with the contents where the channel is
/// ready, else none.
#[verifier::external_body]
pub(crate) fn submit_file(channels: &StaticChannelSet, response: OwnedFileContentsResponse) -> (
    outcome: Result<Vec<SvcMessage>, PduError>)
    requires
        held(*channels).contains(ChannelKind::Clipboard),
    ensures
        is_outcome(outcome, Some(when_ready(clipboard_ready(*channels), file_bytes(response)))),
{
    let channel = channels.get_by_type::<CliprdrServer>().unwrap();
    let clipboard: &CliprdrServer = channel.channel_processor_downcast_ref().unwrap();
    clipboard.submit_file_contents(response).map(Vec::from)
}

/// `SvcMessage::from` of a request for the contents of a file, and
/// `with_flags`: the message says the request's bytes and shows the protocol.
#[verifier::external_body]
fn file_request(request: FileContentsRequest) -> (message: SvcMessage)
    ensures
        encodable(message),
        said(message) == (MessageView {
            payload: Some(file_request_bytes(request)),
            flags: SHOW_PROTOCOL,
        }),
{
    let pdu = ironrdp_cliprdr::pdu::FileContentsRequest {
        stream_id: request.stream_id,
        index: request.index,
        flags: FileContentsFlags::from_bits_retain(request.flags),
        position: request.position,
        requested_size: request.requested_size,
        data_id: request.data_id,
    };
    let message = SvcMessage::from(ClipboardPdu::FileContentsRequest(pdu));
    message.with_flags(ChannelFlags::SHOW_PROTOCOL)
}

/// `server_encode_svc_messages`: what comes out depends on what the messages
/// say and on the two channels alone. It fails where one of the messages cannot
/// be written, and of no messages it makes no bytes. It writes each message, and
/// panics where that does.
#[verifier::external_body]
fn frame_messages(messages: Vec<SvcMessage>, channel: u16, user_channel: u16) -> (bytes: Result<
    Vec<u8>,
    EncodeError,
>)
    requires
        all_encodable(messages@),
    ensures
        match bytes {
            Ok(data) => framed(all_said(messages@), channel, user_channel) == Some(data@)
                && can_be_written(all_said(messages@)) && (messages@.len() == 0 ==> data@.len()
                == 0),
            Err(_) => framed(all_said(messages@), channel, user_channel) is None && messages@.len()
                > 0,
        },
{
    server_encode_svc_messages(messages, channel, user_channel)
}

/// The bytes that carry messages to a channel: none where there are no messages,
/// and an error where one of them cannot be written.
pub fn encode_messages(messages: Vec<SvcMessage>, channel_id: u16, user_channel_id: u16) -> (bytes:
    Result<Vec<u8>, ServerError>)
    requires
        all_encodable(messages@),
    ensures
        match bytes {
            Ok(data) => framed(all_said(messages@), channel_id, user_channel_id) == Some(data@),
            Err(error) => framed(all_said(messages@), channel_id, user_channel_id) is None && error
                == ServerError::Encode,
        },
        !can_be_written(all_said(messages@)) ==> bytes is Err,
        messages@.len() == 0 ==> bytes is Ok && bytes->Ok_0@.len() == 0,
{
    match frame_messages(messages, channel_id, user_channel_id) {
        Ok(data) => Ok(data),
        Err(_) => Err(ServerError::Encode),
    }
}

/// The message that asks the client for the contents of a file.
pub fn encode_cliprdr_pdu(request: FileContentsRequest) -> (message: SvcMessage)
    ensures
        encodable(message),
        said(message) == (MessageView {
            payload: Some(file_request_bytes(request)),
            flags: SHOW_PROTOCOL,
        }),
{
    file_request(request)
}

/// `StaticVirtualChannel::process` on the channel with a number, where the set
/// holds one. What the channel answers is one of the answers that it can give to
/// the data, as its backend decides; the set keeps its channels. Writing what the sound, clipboard and dynamic channels answer
/// does not panic; of other channels nothing is said.
#[verifier::external_body]
pub(crate) fn receive(channels: &mut StaticChannelSet, number: u16, payload: &[u8]) -> (answer:
    Option<Result<Vec<SvcMessage>, PduError>>)
    ensures
        answer is Some == joined(*old(channels)).contains(number),
        answer is Some && only_known(*old(channels)) ==> can_reply(answer->Some_0),
        answer is Some ==> answers(
            *old(channels),
            number,
            payload@,
            answer_view(answer->Some_0),
            *final(channels),
        ),
        answer is None ==> *final(channels) == *old(channels),
        same_channels(*old(channels), *final(channels)),
{
    match channels.get_by_channel_id_mut(number) {
        Some(channel) => Some(channel.process(payload)),
        None => None,
    }
}

/// `StaticVirtualChannel::start` of a channel, where the set holds it. What the
/// channel sends is one of the greetings that it can give, as its backend
/// decides; the set keeps its channels. Writing what the sound, clipboard and
/// dynamic channels send does not panic; of other channels nothing is said.
#[verifier::external_body]
pub(crate) fn open(channels: &mut StaticChannelSet, channel: TypeId) -> (greeting: Option<
    Result<Vec<SvcMessage>, PduError>,
>)
    ensures
        greeting is Some == attached(*old(channels)).contains_key(channel),
        greeting is Some && only_known(*old(channels)) ==> can_reply(greeting->Some_0),
        greeting is Some ==> greets(
            *old(channels),
            channel,
            answer_view(greeting->Some_0),
            *final(channels),
        ),
        greeting is None ==> *final(channels) == *old(channels),
        same_channels(*old(channels), *final(channels)),
{
    match channels.get_by_type_id_mut(channel) {
        Some(channel) => Some(channel.start()),
        None => None,
    }
}

/// The bytes to send for what a channel answered.
pub fn channel_reply(
    answer: Result<Vec<SvcMessage>, PduError>,
    channel_id: u16,
    user_channel_id: u16,
) -> (reply: Result<Vec<u8>, ServerError>)
    requires
        can_reply(answer),
    ensures
        match reply {
            Ok(data) => replied(answer_view(answer), channel_id, user_channel_id) == Ok::<
                Seq<u8>,
                ServerError,
            >(data@),
            Err(error) => replied(answer_view(answer), channel_id, user_channel_id) == Err::<
                Seq<u8>,
                ServerError,
            >(error),
        },
{
    match answer {
        Ok(messages) => encode_messages(messages, channel_id, user_channel_id),
        Err(_) => Err(ServerError::Channel),
    }
}

/// A channel that failed, messages that cannot be written, and messages that can
/// are told apart, and what can be written is sent as it was framed for the
/// channel.
pub proof fn replies_are_told_apart(
    answer: Option<Seq<MessageView>>,
    channel: u16,
    user_channel: u16,
    bytes: Seq<u8>,
)
    ensures
        replied(answer, channel, user_channel) == Err::<Seq<u8>, ServerError>(ServerError::Channel)
            <==> answer is None,
        replied(answer, channel, user_channel) == Err::<Seq<u8>, ServerError>(ServerError::Encode)
            <==> (answer matches Some(messages) && framed(messages, channel, user_channel) is None),
        replied(answer, channel, user_channel) == Ok::<Seq<u8>, ServerError>(bytes) <==> (
        answer matches Some(messages) && framed(messages, channel, user_channel) == Some(bytes)),
        replied(answer, channel, user_channel) matches Err(error) ==> error == ServerError::Channel
            || error == ServerError::Encode,
{
}

/// Sound is taken just once the client has announced its version and a format is
/// agreed on. Its message can be written where it has at least four bytes, and
/// where the client is of version 8.
pub proof fn sound_needs_version_and_format(channels: StaticChannelSet, data: Seq<u8>)
    ensures
        takes_wave(channels) <==> sound_version(channels) is Some && sound_format(channels)
            is Some,
        data.len() >= 4 ==> can_send_wave(channels, data),
        sound_version(channels) == Some(8u16) ==> can_send_wave(channels, data),
        data.len() < 4 && sound_version(channels) is Some && sound_version(channels) != Some(8u16)
            ==> !can_send_wave(channels, data),
{
}

/// A set with more channels than there are kinds, or with channels but none of a
/// known kind, holds others.
pub proof fn other_channels_are_not_known(channels: StaticChannelSet)
    ensures
        attached(channels).len() > 3 ==> !only_known(channels),
        attached(channels).len() > 0 && (forall|kind: ChannelKind|
            !#[trigger] held(channels).contains(kind)) ==> !only_known(channels),
        attached(channels).len() == 3 && (forall|kind: ChannelKind| #[trigger]
            held(channels).contains(kind)) ==> only_known(channels),
        is_bare(channels) ==> only_known(channels),
{
}

} // verus!
