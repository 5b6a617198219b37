//! The server between its connections: its settings, its channels, and what it
//! makes of what clients send and of its own events.

use std::any::TypeId;
use std::collections::VecDeque;

use ironrdp_cliprdr::pdu::{ClipboardFormat, OwnedFileContentsResponse, OwnedFormatDataResponse};
use ironrdp_pdu::rdp::client_info::Credentials;
use ironrdp_svc::{StaticChannelSet, SvcMessage};
use vstd::prelude::*;

use crate::channels;
use crate::channels::{ChannelKind, FileContentsRequest, MessageView};
use crate::client_input;
use crate::client_input::{LeaveReason, McsEvent, McsView, Received, ReceivedView};
use crate::disconnect;
use crate::disconnect::ErrorCode;
use crate::errors::ServerError;
use crate::negotiation::{RdpServerOptions, ServerAddr};
use crate::update::DesktopSize;

verus! {

/// How many pieces of sound are sent for one batch of events.
pub const WAVE_LIMIT: u32 = 4;

/// The name and password of a user.
#[verifier::external_type_specification]
#[verifier::external_body]
pub struct ExCredentials(ironrdp_pdu::rdp::client_info::Credentials);

/// Where an answer goes.
#[verifier::external_type_specification]
#[verifier::external_body]
#[verifier::reject_recursive_types(T)]
pub struct ExSender<T>(tokio::sync::oneshot::Sender<T>);

/// How a session goes on.
#[derive(Clone, Copy, Debug, PartialEq, Eq, Structural)]
pub enum RunState {
    Continue,
    Disconnect,
    /// The client has to start over with another desktop size.
    DeactivationReactivation { desktop_size: DesktopSize },
}

/// A message from the sound backend.
#[derive(Debug)]
pub enum SoundMessage {
    /// A piece of sound, with its time.
    Wave(Vec<u8>, u32),
    SetVolume { left: u16, right: u16 },
    Close,
    /// The backend failed.
    Error(String),
}

/// A message from the clipboard backend.
#[derive(Debug)]
pub enum ClipboardMessage {
    /// These formats are on offer.
    SendInitiateCopy(Vec<ClipboardFormat>),
    /// Data that the client asked for.
    SendFormatData(OwnedFormatDataResponse),
    /// The client's data is wanted in this format.
    SendInitiatePaste(u32),
    /// The backend failed.
    Error(String),
}

/// What a server is told from outside the connection.
#[derive(Debug)]
pub enum ServerEvent {
    /// Stop, for this reason.
    Quit(String),
    /// Another client takes over.
    Takeover,
    Clipboard(ClipboardMessage),
    ClipboardFileContents(OwnedFileContentsResponse),
    ClipboardFileContentsRequest(FileContentsRequest),
    Rdpsnd(SoundMessage),
    SetCredentials(Credentials),
    /// Say which address the server listens on.
    GetLocalAddr(tokio::sync::oneshot::Sender<Option<ServerAddr>>),
}

/// A dynamic channel that a session offers.
#[derive(Clone, Copy, Debug, PartialEq, Eq, Structural)]
pub enum DynamicChannel {
    AdvancedInput,
    DisplayControl { max_monitors: u32 },
    Graphics,
}

/// The channels that a session offers, in order.
#[derive(Debug)]
pub struct ChannelPlan {
    pub clipboard: bool,
    pub sound: bool,
    pub dynamic: Vec<DynamicChannel>,
}

/// A channel to start, and the number that the client knows it by.
#[derive(Clone, Copy, Debug, PartialEq, Eq)]
pub struct StartChannel {
    pub channel: TypeId,
    pub number: u16,
}

/// The server.
pub struct RdpServer {
    pub opts: RdpServerOptions,
    pub static_channels: StaticChannelSet,
    /// Whether there is a sound backend.
    pub has_sound: bool,
    /// Whether there is a clipboard backend.
    pub has_clipboard: bool,
    pub creds: Option<Credentials>,
    pub local_addr: Option<ServerAddr>,
    pub gfx_enabled: bool,
    pub max_monitors: u32,
}

/// The dynamic channels that a session offers.
pub open spec fn dynamic_channels(gfx_enabled: bool, max_monitors: u32) -> Seq<DynamicChannel> {
    let always = seq![
        DynamicChannel::AdvancedInput,
        DynamicChannel::DisplayControl { max_monitors },
    ];
    if gfx_enabled {
        always.push(DynamicChannel::Graphics)
    } else {
        always
    }
}

/// Whether `start` has each of the channels that have a number once, with that
/// number, and no others.
pub open spec fn starts_each(start: Seq<StartChannel>, all: Map<TypeId, Option<u16>>) -> bool {
    &&& forall|i: int, j: int| 0 <= i < j < start.len() ==> start[i].channel != start[j].channel
    &&& forall|channel: TypeId, number: u16|
        #[trigger] start.contains((StartChannel { channel, number })) <==> all.contains_key(channel)
            && all[channel] == Some(number)
}

impl RdpServer {
    /// The server holds only channels that it offers itself.
    pub open spec fn wf(self) -> bool {
        channels::only_known(self.static_channels)
    }

    /// A server that has served nobody yet.
    pub fn new(opts: RdpServerOptions, has_sound: bool, has_clipboard: bool) -> (server: Self)
        ensures
            server.opts == opts,
            server.wf(),
            channels::is_bare(server.static_channels),
            server.has_sound == has_sound,
            server.has_clipboard == has_clipboard,
            server.creds is None,
            server.local_addr is None,
            server.gfx_enabled,
            server.max_monitors == 1,
    {
        RdpServer {
            opts,
            static_channels: channels::no_channels(),
            has_sound,
            has_clipboard,
            creds: None,
            local_addr: None,
            gfx_enabled: true,
            max_monitors: 1,
        }
    }

    /// Offers the graphics channel, or does not.
    pub fn set_gfx_enabled(&mut self, enabled: bool)
        ensures
            *final(self) == (RdpServer { gfx_enabled: enabled, ..*old(self) }),
    {
        self.gfx_enabled = enabled;
    }

    /// Sets how many monitors are announced.
    pub fn set_max_monitors(&mut self, max: u32)
        ensures
            *final(self) == (RdpServer { max_monitors: max, ..*old(self) }),
    {
        self.max_monitors = max;
    }

    /// Sets who may log in.
    pub fn set_credentials(&mut self, creds: Option<Credentials>)
        ensures
            *final(self) == (RdpServer { creds, ..*old(self) }),
    {
        self.creds = creds;
    }

    /// Forgets the channels of the last session.
    pub fn reset_channels(&mut self)
        ensures
            final(self).wf(),
            channels::is_bare(final(self).static_channels),
            *final(self) == (RdpServer {
                static_channels: final(self).static_channels,
                ..*old(self)
            }),
    {
        self.static_channels = channels::no_channels();
    }

    /// The channels that a session offers.
    pub fn attach_channels(&self) -> (plan: ChannelPlan)
        ensures
            plan.clipboard == self.has_clipboard,
            plan.sound == self.has_sound,
            plan.dynamic@ == dynamic_channels(self.gfx_enabled, self.max_monitors),
    {
        let mut dynamic: Vec<DynamicChannel> = Vec::new();
        dynamic.push(DynamicChannel::AdvancedInput);
        dynamic.push(DynamicChannel::DisplayControl { max_monitors: self.max_monitors });
        if self.gfx_enabled {
            dynamic.push(DynamicChannel::Graphics);
        }
        assert(dynamic@ =~= dynamic_channels(self.gfx_enabled, self.max_monitors));
        ChannelPlan { clipboard: self.has_clipboard, sound: self.has_sound, dynamic }
    }

    /// The number of a kind's channel, where the session has one.
    pub fn get_channel_id_by_type(&self, kind: ChannelKind) -> (number: Option<u16>)
        ensures
            number == channel_number(self.static_channels, kind),
    {
        channels::number_of(&self.static_channels, kind)
    }

    /// Whether the server holds only channels that it offers itself.
    pub fn has_known_channels(&mut self) -> (yes: bool)
        ensures
            yes == old(self).wf(),
            *final(self) == *old(self),
    {
        let all: usize = channels::all_channels(&mut self.static_channels).len();
        let mut known: usize = 0;
        if channels::holds(&self.static_channels, ChannelKind::Sound) {
            known += 1;
        }
        if channels::holds(&self.static_channels, ChannelKind::Clipboard) {
            known += 1;
        }
        if channels::holds(&self.static_channels, ChannelKind::Dynamic) {
            known += 1;
        }
        all == known
    }

    /// Takes the channels of a session, and says which to start: each that has a
    /// number, once. Where the session starts over, its channels have been started
    /// already, and are left as they are.
    pub fn take_channels(&mut self, set: StaticChannelSet, reactivation: bool) -> (start: Vec<
        StartChannel,
    >)
        ensures
            *final(self) == (RdpServer { static_channels: set, ..*old(self) }),
            reactivation ==> start@.len() == 0,
            !reactivation ==> starts_each(start@, channels::attached(set)),
            !reactivation ==> forall|kind: ChannelKind|
                channels::held(set).contains(kind) && (#[trigger] channel_number(set, kind)) is Some
                    ==> exists|i: int|
                    0 <= i < start@.len() && (#[trigger] start@[i]).number == channel_number(
                        set,
                        kind,
                    )->Some_0,
    {
        self.static_channels = set;
        let mut start: Vec<StartChannel> = Vec::new();
        if reactivation {
            return start;
        }
        let list: Vec<(TypeId, Option<u16>)> = channels::all_channels(&mut self.static_channels);
        let mut i: usize = 0;
        while i < list.len()
            invariant
                i <= list@.len(),
                numbered_of(list@.take(i as int)) == start@,
            decreases list@.len() - i,
        {
            let (channel, number) = list[i];
            proof {
                assert(list@.take(i + 1).drop_last() =~= list@.take(i as int));
            }
            if let Some(number) = number {
                start.push(StartChannel { channel, number });
            }
            i += 1;
        }
        proof {
            assert(list@.take(i as int) =~= list@);
            lemma_numbered_of(list@);
            assert(starts_each(start@, channels::attached(set)));
            assert forall|kind: ChannelKind|
                channels::held(set).contains(kind) && (#[trigger] channel_number(set, kind))
                    is Some implies exists|i: int|
                0 <= i < start@.len() && (#[trigger] start@[i]).number == channel_number(
                    set,
                    kind,
                )->Some_0 by {
                let number = channels::numbers(set)[kind];
                assert(channels::numbers(set).contains_key(kind));
                let channel = choose|channel: TypeId| list@.contains((channel, Some(number)));
                assert(start@.contains(StartChannel { channel, number }));
            }
        }
        start
    }

    /// Starts a channel: the bytes to send, where the session has it. What the
    /// channel has to say depends on its backend.
    pub fn start_channel(&mut self, start: StartChannel, user_channel_id: u16) -> (greeting: Result<
        Option<Vec<u8>>,
        ServerError,
    >)
        requires
            old(self).wf(),
        ensures
            final(self).wf(),
            channels::same_channels(old(self).static_channels, final(self).static_channels),
            *final(self) == (RdpServer {
                static_channels: final(self).static_channels,
                ..*old(self)
            }),
            from_start(
                old(self).static_channels,
                start,
                user_channel_id,
                greeting,
                final(self).static_channels,
            ),
    {
        match channels::open(&mut self.static_channels, start.channel) {
            Some(answer) => {
                match channels::channel_reply(answer, start.number, user_channel_id) {
                    Ok(bytes) => Ok(Some(bytes)),
                    Err(error) => Err(error),
                }
            },
            None => Ok(None),
        }
    }

    /// Starts a channel as `start_channel` does; none where the server holds a
    /// channel that it does not offer, and then nothing changes.
    pub fn try_start_channel(&mut self, start: StartChannel, user_channel_id: u16) -> (greeting:
        Option<Result<Option<Vec<u8>>, ServerError>>)
        ensures
            greeting is Some == old(self).wf(),
            match greeting {
                Some(greeting) => {
                    &&& final(self).wf()
                    &&& channels::same_channels(
                        old(self).static_channels,
                        final(self).static_channels,
                    )
                    &&& *final(self) == (RdpServer {
                        static_channels: final(self).static_channels,
                        ..*old(self)
                    })
                    &&& from_start(
                        old(self).static_channels,
                        start,
                        user_channel_id,
                        greeting,
                        final(self).static_channels,
                    )
                },
                None => *final(self) == *old(self),
            },
    {
        if self.has_known_channels() {
            Some(self.start_channel(start, user_channel_id))
        } else {
            None
        }
    }
}

/// Whether `greeting` can come of starting a channel, and the set `after` be left:
/// what the channel has to say, where the set holds it, framed for its number.
pub open spec fn from_start(
    set: StaticChannelSet,
    start: StartChannel,
    user_channel: u16,
    greeting: Result<Option<Vec<u8>>, ServerError>,
    after: StaticChannelSet,
) -> bool {
    if channels::attached(set).contains_key(start.channel) {
        exists|said: Option<Seq<MessageView>>| #[trigger]
            channels::greets(set, start.channel, said, after) && match greeting {
                Ok(Some(bytes)) => channels::replied(said, start.number, user_channel) == Ok::<
                    Seq<u8>,
                    ServerError,
                >(bytes@),
                Ok(None) => false,
                Err(error) => channels::replied(said, start.number, user_channel) == Err::<
                    Seq<u8>,
                    ServerError,
                >(error),
            }
    } else {
        greeting == Ok::<Option<Vec<u8>>, ServerError>(None) && after == set
    }
}

/// The channels on a list that have a number, in order.
spec fn numbered_of(list: Seq<(TypeId, Option<u16>)>) -> Seq<StartChannel>
    decreases list.len(),
{
    if list.len() == 0 {
        Seq::empty()
    } else {
        let before = numbered_of(list.drop_last());
        match list.last() {
            (channel, Some(number)) => before.push(StartChannel { channel, number }),
            (_, None) => before,
        }
    }
}

/// Each channel on the list that has a number is there once.
proof fn lemma_numbered_of(list: Seq<(TypeId, Option<u16>)>)
    requires
        forall|i: int, j: int| 0 <= i < j < list.len() ==> list[i].0 != list[j].0,
    ensures
        forall|i: int, j: int|
            0 <= i < j < numbered_of(list).len() ==> numbered_of(list)[i].channel
                != numbered_of(list)[j].channel,
        forall|channel: TypeId, number: u16|
            #[trigger] numbered_of(list).contains((StartChannel { channel, number }))
                <==> list.contains((channel, Some(number))),
    decreases list.len(),
{
    if list.len() > 0 {
        let (rest, last) = (list.drop_last(), list.last());
        let before = numbered_of(rest);
        lemma_numbered_of(rest);
        assert(rest.push(last) =~= list);
        assert forall|channel: TypeId, number: u16|
            #[trigger] numbered_of(list).contains((StartChannel { channel, number }))
                <==> list.contains((channel, Some(number))) by {
            lemma_push_contains(rest, last, (channel, Some(number)));
            if let Some(new) = last.1 {
                lemma_push_contains(
                    before,
                    StartChannel { channel: last.0, number: new },
                    StartChannel { channel, number },
                );
            }
        }
        assert forall|i: int, j: int|
            0 <= i < j < numbered_of(list).len() implies numbered_of(list)[i].channel
                != numbered_of(list)[j].channel by {
            if j == before.len() {
                let StartChannel { channel, number } = before[i];
                assert(before.contains(StartChannel { channel, number }));
                assert(rest.contains((channel, Some(number))));
                let k = choose|k: int|
                    0 <= k < rest.len() && rest[k] == (channel, Some(number));
                assert(list[k].0 == channel);
            }
        }
    }
}

/// A longer sequence has what it had before, and the new element.
proof fn lemma_push_contains<T>(s: Seq<T>, new: T, x: T)
    ensures
        s.push(new).contains(x) <==> s.contains(x) || x == new,
{
    if s.contains(x) {
        let i = choose|i: int| 0 <= i < s.len() && s[i] == x;
        assert(s.push(new)[i] == x);
    }
    assert(s.push(new)[s.len() as int] == new);
}

/// The number of a kind's channel, where there is one.
pub open spec fn channel_number(set: StaticChannelSet, kind: ChannelKind) -> Option<u16> {
    if channels::numbers(set).contains_key(kind) {
        Some(channels::numbers(set)[kind])
    } else {
        None
    }
}

/// What a result says.
pub open spec fn outcome_view(outcome: Result<Received, ServerError>) -> Result<
    ReceivedView,
    ServerError,
> {
    match outcome {
        Ok(received) => Ok(received@),
        Err(error) => Err(error),
    }
}

/// What comes of bytes on the session's channel.
pub open spec fn from_io_channel(data: Seq<u8>) -> Result<ReceivedView, ServerError> {
    match client_input::share_message(data) {
        Some(message) => Ok(client_input::shared(message)),
        None => Err(ServerError::Decode),
    }
}

/// What comes of what a channel answered to data: the reply, and nothing else.
pub open spec fn answered(
    answer: Option<Seq<MessageView>>,
    channel: u16,
    user_channel: u16,
) -> Result<ReceivedView, ServerError> {
    match channels::replied(answer, channel, user_channel) {
        Ok(bytes) => Ok(ReceivedView { reply: Some(bytes), ..client_input::nothing() }),
        Err(error) => Err(error),
    }
}

/// Whether `outcome` can come of data for a channel other than the session's, and
/// the set `after` be left: what the channel answers to the data, where there is
/// such a channel, framed for it.
pub open spec fn from_channel(
    set: StaticChannelSet,
    channel: u16,
    user_channel: u16,
    data: Seq<u8>,
    outcome: Result<ReceivedView, ServerError>,
    after: StaticChannelSet,
) -> bool {
    if channels::joined(set).contains(channel) {
        exists|answer: Option<Seq<MessageView>>| #[trigger]
            channels::answers(set, channel, data, answer, after) && outcome == answered(
                answer,
                channel,
                user_channel,
            )
    } else {
        outcome == Ok::<ReceivedView, ServerError>(client_input::nothing()) && after == set
    }
}

/// Whether `outcome` can come of a message of the multipoint layer, and the set
/// `after` be left.
pub open spec fn from_x224(
    set: StaticChannelSet,
    io_channel: u16,
    user_channel: u16,
    frame: Seq<u8>,
    outcome: Result<ReceivedView, ServerError>,
    after: StaticChannelSet,
) -> bool {
    match client_input::mcs_message(frame) {
        None => outcome == Err::<ReceivedView, ServerError>(ServerError::Decode) && after == set,
        Some(McsView::SendData { channel_id, user_data }) => if channel_id == io_channel {
            outcome == from_io_channel(user_data) && after == set
        } else {
            from_channel(set, channel_id, user_channel, user_data, outcome, after)
        },
        Some(McsView::Disconnect(reason)) => outcome == Ok::<ReceivedView, ServerError>(
            if client_input::leave_reason(reason) == LeaveReason::UserRequested {
                client_input::leaving()
            } else {
                client_input::nothing()
            },
        ) && after == set,
        Some(_) => outcome == Ok::<ReceivedView, ServerError>(client_input::nothing()) && after
            == set,
    }
}

/// What comes of what a channel answered to data.
pub fn channel_outcome(
    answer: Result<Vec<SvcMessage>, ironrdp_pdu::PduError>,
    channel_id: u16,
    user_channel_id: u16,
) -> (outcome: Result<Received, ServerError>)
    requires
        channels::can_reply(answer),
    ensures
        outcome_view(outcome) == answered(
            channels::answer_view(answer),
            channel_id,
            user_channel_id,
        ),
{
    match channels::channel_reply(answer, channel_id, user_channel_id) {
        Ok(bytes) => {
            let received = Received { calls: Vec::new(), reply: Some(bytes), leaves: false };
            assert(received@.calls =~= Seq::empty());
            Ok(received)
        },
        Err(error) => Err(error),
    }
}

/// Nothing comes of a message.
fn ignored() -> (received: Received)
    ensures
        received@ == client_input::nothing(),
{
    let received = Received { calls: Vec::new(), reply: None, leaves: false };
    assert(received@.calls =~= Seq::empty());
    received
}

/// The two forms of messages that clients send.
#[derive(Clone, Copy, Debug, PartialEq, Eq, Structural)]
pub enum Action {
    FastPath,
    X224,
}

/// The form of a message that starts with a byte.
pub open spec fn action_of(header: u8) -> Option<Action> {
    if header % 4 == 0 {
        Some(Action::FastPath)
    } else if header % 4 == 3 {
        Some(Action::X224)
    } else {
        None
    }
}

/// `Action::from_fp_output_header`: the form of a message, by the lowest two
/// bits of its first byte.
#[verifier::external_body]
fn read_action(header: u8) -> (action: Result<Action, u8>)
    ensures
        match action {
            Ok(form) => action_of(header) == Some(form),
            Err(bits) => action_of(header) is None && bits == header % 4,
        },
{
    match ironrdp_pdu::Action::from_fp_output_header(header) {
        Ok(ironrdp_pdu::Action::FastPath) => Ok(Action::FastPath),
        Ok(ironrdp_pdu::Action::X224) => Ok(Action::X224),
        Err(bits) => Err(bits),
    }
}

/// What comes of fast-path bytes.
pub open spec fn from_fast_path(bytes: Seq<u8>) -> Result<ReceivedView, ServerError> {
    match client_input::fast_path_input(bytes) {
        Some(events) => Ok(client_input::told(client_input::fast_path_calls(events))),
        None => Err(ServerError::Decode),
    }
}

/// Whether `outcome` can come of a message of the given form, and the set `after`
/// be left.
pub open spec fn from_client(
    set: StaticChannelSet,
    action: Action,
    io_channel: u16,
    user_channel: u16,
    bytes: Seq<u8>,
    outcome: Result<ReceivedView, ServerError>,
    after: StaticChannelSet,
) -> bool {
    match action {
        Action::FastPath => outcome == from_fast_path(bytes) && after == set,
        Action::X224 => from_x224(set, io_channel, user_channel, bytes, outcome, after),
    }
}

/// Whether a message that came before the session began has a header, of a form
/// that is known, that fits.
pub open spec fn backlog_fits(frame: Seq<u8>) -> bool {
    &&& frame.len() > 0
    &&& action_of(frame[0]) is Some
    &&& action_of(frame[0]) == Some(Action::FastPath) ==> client_input::header_fits(frame)
}

/// Whether `outcome` can come of a message that came before the session began,
/// and the set `after` be left: of one in the slow form, failures and the wish to
/// leave are passed over.
pub open spec fn from_backlog(
    set: StaticChannelSet,
    io_channel: u16,
    user_channel: u16,
    frame: Seq<u8>,
    outcome: Result<ReceivedView, ServerError>,
    after: StaticChannelSet,
) -> bool {
    match action_of(frame[0]) {
        Some(Action::FastPath) => outcome == from_fast_path(frame) && after == set,
        _ => exists|inner: Result<ReceivedView, ServerError>| #[trigger]
            from_x224(set, io_channel, user_channel, frame, inner, after) && outcome == Ok::<
                ReceivedView,
                ServerError,
            >(
                match inner {
                    Ok(received) => ReceivedView { leaves: false, ..received },
                    Err(_) => client_input::nothing(),
                },
            ),
    }
}

/// How a session goes on after a message.
pub fn state_after(received: &Received) -> (state: RunState)
    ensures
        state == if received.leaves {
            RunState::Disconnect
        } else {
            RunState::Continue
        },
        state == state_of(received@),
{
    if received.leaves {
        RunState::Disconnect
    } else {
        RunState::Continue
    }
}

impl RdpServer {
    /// Takes a message of the multipoint layer.
    pub fn handle_x224(&mut self, io_channel_id: u16, user_channel_id: u16, frame: &[u8]) -> (
        outcome: Result<Received, ServerError>)
        requires
            old(self).wf(),
        ensures
            final(self).wf(),
            from_x224(
                old(self).static_channels,
                io_channel_id,
                user_channel_id,
                frame@,
                outcome_view(outcome),
                final(self).static_channels,
            ),
            channels::same_channels(old(self).static_channels, final(self).static_channels),
            *final(self) == (RdpServer {
                static_channels: final(self).static_channels,
                ..*old(self)
            }),
    {
        match client_input::read_mcs(frame) {
            Ok(McsEvent::SendData { channel_id, user_data }) => {
                if channel_id == io_channel_id {
                    return client_input::handle_io_channel_data(&user_data);
                }
                match channels::receive(&mut self.static_channels, channel_id, &user_data) {
                    Some(answer) => {
                        channel_outcome(answer, channel_id, user_channel_id)
                    },
                    None => Ok(ignored()),
                }
            },
            Ok(McsEvent::Disconnect(reason)) => {
                if client_input::kind_of_reason(reason) == LeaveReason::UserRequested {
                    let received = Received { calls: Vec::new(), reply: None, leaves: true };
                    assert(received@.calls =~= Seq::empty());
                    return Ok(received);
                }
                Ok(ignored())
            },
            Ok(_) => Ok(ignored()),
            Err(error) => Err(error),
        }
    }

    /// Takes a message from the client.
    pub fn dispatch_pdu(
        &mut self,
        action: Action,
        bytes: &[u8],
        io_channel_id: u16,
        user_channel_id: u16,
    ) -> (outcome: Result<Received, ServerError>)
        requires
            old(self).wf(),
            action == Action::FastPath ==> client_input::header_fits(bytes@),
        ensures
            final(self).wf(),
            from_client(
                old(self).static_channels,
                action,
                io_channel_id,
                user_channel_id,
                bytes@,
                outcome_view(outcome),
                final(self).static_channels,
            ),
            channels::same_channels(old(self).static_channels, final(self).static_channels),
            *final(self) == (RdpServer {
                static_channels: final(self).static_channels,
                ..*old(self)
            }),
    {
        match action {
            Action::FastPath => match client_input::handle_fastpath(bytes) {
                Ok(calls) => Ok(Received { calls, reply: None, leaves: false }),
                Err(error) => Err(error),
            },
            Action::X224 => self.handle_x224(io_channel_id, user_channel_id, bytes),
        }
    }

    /// Takes a message that came before the session began.
    pub fn handle_input_backlog(
        &mut self,
        frame: &[u8],
        io_channel_id: u16,
        user_channel_id: u16,
    ) -> (outcome: Result<Received, ServerError>)
        requires
            old(self).wf(),
            backlog_fits(frame@),
        ensures
            final(self).wf(),
            from_backlog(
                old(self).static_channels,
                io_channel_id,
                user_channel_id,
                frame@,
                outcome_view(outcome),
                final(self).static_channels,
            ),
            channels::same_channels(old(self).static_channels, final(self).static_channels),
            *final(self) == (RdpServer {
                static_channels: final(self).static_channels,
                ..*old(self)
            }),
    {
        match read_action(frame[0]) {
            Ok(Action::FastPath) => self.dispatch_pdu(
                Action::FastPath,
                frame,
                io_channel_id,
                user_channel_id,
            ),
            _ => {
                let inner = self.handle_x224(io_channel_id, user_channel_id, frame);
                let ghost seen = outcome_view(inner);
                assert(from_x224(
                    old(self).static_channels,
                    io_channel_id,
                    user_channel_id,
                    frame@,
                    seen,
                    self.static_channels,
                ));
                match inner {
                    Ok(received) => {
                        let kept = Received {
                            calls: received.calls,
                            reply: received.reply,
                            leaves: false,
                        };
                        Ok(kept)
                    },
                    Err(_) => Ok(ignored()),
                }
            },
        }
    }

    /// Takes a message from the client as `dispatch_pdu` does; none where its
    /// header does not fit or the server holds a channel that it does not offer,
    /// and then nothing changes.
    pub fn try_dispatch_pdu(
        &mut self,
        action: Action,
        bytes: &[u8],
        io_channel_id: u16,
        user_channel_id: u16,
    ) -> (outcome: Option<Result<Received, ServerError>>)
        ensures
            outcome is Some == (old(self).wf() && (action == Action::FastPath
                ==> client_input::header_fits(bytes@))),
            match outcome {
                Some(outcome) => {
                    &&& final(self).wf()
                    &&& from_client(
                        old(self).static_channels,
                        action,
                        io_channel_id,
                        user_channel_id,
                        bytes@,
                        outcome_view(outcome),
                        final(self).static_channels,
                    )
                    &&& channels::same_channels(
                        old(self).static_channels,
                        final(self).static_channels,
                    )
                    &&& *final(self) == (RdpServer {
                        static_channels: final(self).static_channels,
                        ..*old(self)
                    })
                },
                None => *final(self) == *old(self),
            },
    {
        if action == Action::FastPath && !client_input::fast_path_header_fits(bytes) {
            return None;
        }
        if self.has_known_channels() {
            Some(self.dispatch_pdu(action, bytes, io_channel_id, user_channel_id))
        } else {
            None
        }
    }

    /// Takes a message that came before the session began as
    /// `handle_input_backlog` does; none where it has no header that fits or the
    /// server holds a channel that it does not offer, and then nothing changes.
    pub fn try_handle_input_backlog(
        &mut self,
        frame: &[u8],
        io_channel_id: u16,
        user_channel_id: u16,
    ) -> (outcome: Option<Result<Received, ServerError>>)
        ensures
            outcome is Some == (old(self).wf() && backlog_fits(frame@)),
            match outcome {
                Some(outcome) => {
                    &&& final(self).wf()
                    &&& from_backlog(
                        old(self).static_channels,
                        io_channel_id,
                        user_channel_id,
                        frame@,
                        outcome_view(outcome),
                        final(self).static_channels,
                    )
                    &&& channels::same_channels(
                        old(self).static_channels,
                        final(self).static_channels,
                    )
                    &&& *final(self) == (RdpServer {
                        static_channels: final(self).static_channels,
                        ..*old(self)
                    })
                },
                None => *final(self) == *old(self),
            },
    {
        if frame.len() == 0 {
            return None;
        }
        let fits: bool = match read_action(frame[0]) {
            Ok(Action::FastPath) => client_input::fast_path_header_fits(frame),
            Ok(Action::X224) => true,
            Err(_) => false,
        };
        if fits && self.has_known_channels() {
            Some(self.handle_input_backlog(frame, io_channel_id, user_channel_id))
        } else {
            None
        }
    }
}

/// What to do about a server event.
#[derive(Debug)]
pub enum EventOutcome {
    /// Nothing.
    Nothing,
    /// Send these bytes.
    Write(Vec<u8>),
    /// Send these messages, whether or not that works, and end the session.
    Goodbye(Vec<Vec<u8>>),
    /// Answer with the address.
    Reply(tokio::sync::oneshot::Sender<Option<ServerAddr>>, Option<ServerAddr>),
}

/// What to do about a server event.
pub enum EventView {
    Nothing,
    Write(Seq<u8>),
    Goodbye(Seq<Seq<u8>>),
    Reply(tokio::sync::oneshot::Sender<Option<ServerAddr>>, Option<ServerAddr>),
}

/// The bytes of each of some messages.
pub open spec fn each(messages: Seq<Vec<u8>>) -> Seq<Seq<u8>> {
    Seq::new(messages.len(), |i: int| messages[i]@)
}

impl View for EventOutcome {
    type V = EventView;

    open spec fn view(&self) -> EventView {
        match *self {
            EventOutcome::Nothing => EventView::Nothing,
            EventOutcome::Write(bytes) => EventView::Write(bytes@),
            EventOutcome::Goodbye(messages) => EventView::Goodbye(each(messages@)),
            EventOutcome::Reply(sender, addr) => EventView::Reply(sender, addr),
        }
    }
}

/// What a result says.
pub open spec fn event_view(outcome: Result<EventOutcome, ServerError>) -> Result<
    EventView,
    ServerError,
> {
    match outcome {
        Ok(outcome) => Ok(outcome@),
        Err(error) => Err(error),
    }
}

/// Messages for a kind's channel, as the bytes to send.
pub open spec fn carried(
    set: StaticChannelSet,
    kind: ChannelKind,
    messages: Seq<MessageView>,
    user_channel: u16,
) -> Result<EventView, ServerError> {
    match channel_number(set, kind) {
        None => Err(ServerError::ChannelNotFound),
        Some(number) => match channels::framed(messages, number, user_channel) {
            Some(bytes) => Ok(EventView::Write(bytes)),
            None => Err(ServerError::Encode),
        },
    }
}

/// The same where the channel gave messages, else the given error.
pub open spec fn carried_or(
    set: StaticChannelSet,
    kind: ChannelKind,
    messages: Option<Seq<MessageView>>,
    user_channel: u16,
    error: ServerError,
) -> Result<EventView, ServerError> {
    match messages {
        Some(messages) => carried(set, kind, messages, user_channel),
        None => Err(error),
    }
}

/// What to do about a message from the sound backend, while `waves` more pieces
/// of sound may be sent. Sound that the channel does not take is dropped.
pub open spec fn sound_outcome(
    set: StaticChannelSet,
    waves: nat,
    message: SoundMessage,
    user_channel: u16,
) -> Result<EventView, ServerError> {
    if !channels::held(set).contains(ChannelKind::Sound) {
        Ok(EventView::Nothing)
    } else {
        match message {
            SoundMessage::Wave(data, time) => match channels::wave_messages(
                channels::sound_version(set),
                channels::sound_format(set),
                channels::sound_block(set),
                data@,
                time,
            ) {
                Some(messages) if waves > 0 => carried(
                    set,
                    ChannelKind::Sound,
                    messages,
                    user_channel,
                ),
                _ => Ok(EventView::Nothing),
            },
            SoundMessage::SetVolume { left, right } => carried_or(
                set,
                ChannelKind::Sound,
                channels::volume_messages(channels::takes_volume(set), left, right),
                user_channel,
                ServerError::SoundEvent,
            ),
            SoundMessage::Close => carried(
                set,
                ChannelKind::Sound,
                channels::close_messages(),
                user_channel,
            ),
            SoundMessage::Error(_) => Ok(EventView::Nothing),
        }
    }
}

/// Whether an event is a piece of sound that the sound channel takes, while
/// `waves` more may be sent.
pub open spec fn hands_over_wave(set: StaticChannelSet, waves: nat, event: ServerEvent) -> bool {
    event matches ServerEvent::Rdpsnd(SoundMessage::Wave(..)) && waves > 0 && channels::held(
        set,
    ).contains(ChannelKind::Sound) && channels::takes_wave(set)
}

/// Whether the channels can take an event: a piece of sound whose message is to be
/// written is one that can be.
pub open spec fn can_take(set: StaticChannelSet, waves: nat, event: ServerEvent) -> bool {
    match event {
        ServerEvent::Rdpsnd(SoundMessage::Wave(data, _)) => {
            hands_over_wave(set, waves, event) && channel_number(set, ChannelKind::Sound) is Some
                ==> channels::can_send_wave(set, data@)
        },
        _ => true,
    }
}

/// Whether `after` is what an event makes of the channels: a piece of sound that
/// the sound channel takes moves it on to the next number, and nothing else
/// changes them.
pub open spec fn channels_after(
    set: StaticChannelSet,
    waves: nat,
    event: ServerEvent,
    after: StaticChannelSet,
) -> bool {
    if hands_over_wave(set, waves, event) {
        channels::after_wave(set, after)
    } else {
        after == set
    }
}

/// What to do about a message from the clipboard backend.
pub open spec fn clipboard_outcome(
    set: StaticChannelSet,
    message: ClipboardMessage,
    user_channel: u16,
) -> Result<EventView, ServerError> {
    let kind = ChannelKind::Clipboard;
    if !channels::held(set).contains(kind) {
        Ok(EventView::Nothing)
    } else {
        match message {
            ClipboardMessage::SendInitiateCopy(formats) => carried_or(
                set,
                kind,
                channels::copy_messages(set, formats@),
                user_channel,
                ServerError::ClipboardEvent,
            ),
            ClipboardMessage::SendFormatData(data) => carried(
                set,
                kind,
                channels::when_ready(channels::clipboard_ready(set), channels::data_bytes(data)),
                user_channel,
            ),
            ClipboardMessage::SendInitiatePaste(format) => carried(
                set,
                kind,
                channels::when_ready(
                    channels::clipboard_ready(set),
                    Some(channels::paste_bytes(format)),
                ),
                user_channel,
            ),
            ClipboardMessage::Error(_) => Ok(EventView::Nothing),
        }
    }
}

/// What to do about a server event while a session is under way.
pub open spec fn event_outcome(
    server: RdpServer,
    waves: nat,
    event: ServerEvent,
    io_channel: u16,
    user_channel: u16,
) -> Result<EventView, ServerError> {
    let set = server.static_channels;
    match event {
        ServerEvent::Quit(_) => Ok(
            EventView::Goodbye(
                disconnect::goodbye(io_channel, user_channel, ErrorCode::RpcInitiatedDisconnect),
            ),
        ),
        ServerEvent::Takeover => Ok(
            EventView::Goodbye(
                disconnect::goodbye(
                    io_channel,
                    user_channel,
                    ErrorCode::DisconnectedByOtherConnection,
                ),
            ),
        ),
        ServerEvent::GetLocalAddr(sender) => Ok(EventView::Reply(sender, server.local_addr)),
        ServerEvent::SetCredentials(_) => Ok(EventView::Nothing),
        ServerEvent::Rdpsnd(message) => sound_outcome(set, waves, message, user_channel),
        ServerEvent::Clipboard(message) => clipboard_outcome(set, message, user_channel),
        ServerEvent::ClipboardFileContents(response) => if channels::held(set).contains(
            ChannelKind::Clipboard,
        ) {
            carried(
                set,
                ChannelKind::Clipboard,
                channels::when_ready(
                    channels::clipboard_ready(set),
                    channels::file_bytes(response),
                ),
                user_channel,
            )
        } else {
            Ok(EventView::Nothing)
        },
        ServerEvent::ClipboardFileContentsRequest(request) => carried(
            set,
            ChannelKind::Clipboard,
            seq![
                MessageView {
                    payload: Some(channels::file_request_bytes(request)),
                    flags: channels::SHOW_PROTOCOL,
                },
            ],
            user_channel,
        ),
    }
}

/// How many more pieces of sound may be sent after an event.
pub open spec fn waves_after(server: RdpServer, waves: nat, event: ServerEvent) -> nat {
    match event {
        ServerEvent::Rdpsnd(SoundMessage::Wave(..)) => if waves > 0 && channels::held(
            server.static_channels,
        ).contains(ChannelKind::Sound) {
            (waves - 1) as nat
        } else {
            waves
        },
        _ => waves,
    }
}

/// Who may log in after an event.
pub open spec fn creds_after(server: RdpServer, event: ServerEvent) -> Option<Credentials> {
    match event {
        ServerEvent::SetCredentials(creds) => Some(creds),
        _ => server.creds,
    }
}

impl RdpServer {
    /// Messages for a kind's channel, as the bytes to send.
    fn carry(&self, kind: ChannelKind, messages: Vec<SvcMessage>, user_channel_id: u16) -> (outcome:
        Result<EventOutcome, ServerError>)
        requires
            channel_number(self.static_channels, kind) is Some ==> channels::all_encodable(
                messages@,
            ),
        ensures
            event_view(outcome) == carried(
                self.static_channels,
                kind,
                channels::all_said(messages@),
                user_channel_id,
            ),
    {
        match self.get_channel_id_by_type(kind) {
            Some(number) => match channels::encode_messages(messages, number, user_channel_id) {
                Ok(bytes) => Ok(EventOutcome::Write(bytes)),
                Err(error) => Err(error),
            },
            None => Err(ServerError::ChannelNotFound),
        }
    }

    /// What a channel gave for an event, as the bytes to send; where it gave
    /// nothing, the given error.
    fn carry_or(
        &self,
        kind: ChannelKind,
        messages: Result<Vec<SvcMessage>, ironrdp_pdu::PduError>,
        user_channel_id: u16,
        error: ServerError,
    ) -> (outcome: Result<EventOutcome, ServerError>)
        requires
            channels::can_reply(messages),
        ensures
            event_view(outcome) == match messages {
                Ok(messages) => carried(
                    self.static_channels,
                    kind,
                    channels::all_said(messages@),
                    user_channel_id,
                ),
                Err(_) => Err(error),
            },
    {
        match messages {
            Ok(messages) => self.carry(kind, messages, user_channel_id),
            Err(_) => Err(error),
        }
    }

    /// Takes a message from the sound backend. `waves` is how many more pieces
    /// of sound may be sent. None where the message for a piece of sound cannot
    /// be written.
    fn dispatch_sound(&mut self, message: SoundMessage, waves: &mut u32, user_channel_id: u16) -> (
        outcome: Option<Result<EventOutcome, ServerError>>)
        ensures
            outcome is Some == can_take(
                old(self).static_channels,
                *old(waves) as nat,
                ServerEvent::Rdpsnd(message),
            ),
            outcome is Some ==> event_view(outcome->Some_0) == sound_outcome(
                old(self).static_channels,
                *old(waves) as nat,
                message,
                user_channel_id,
            ),
            *final(waves) as nat == waves_after(
                *old(self),
                *old(waves) as nat,
                ServerEvent::Rdpsnd(message),
            ),
            channels_after(
                old(self).static_channels,
                *old(waves) as nat,
                ServerEvent::Rdpsnd(message),
                final(self).static_channels,
            ),
            *final(self) == (RdpServer {
                static_channels: final(self).static_channels,
                ..*old(self)
            }),
    {
        let kind = ChannelKind::Sound;
        let error = ServerError::SoundEvent;
        if !channels::holds(&self.static_channels, kind) {
            return Some(Ok(EventOutcome::Nothing));
        }
        match message {
            SoundMessage::Wave(data, time) => {
                if *waves == 0 {
                    return Some(Ok(EventOutcome::Nothing));
                }
                *waves = *waves - 1;
                let short: bool = data.len() < 4 && match channels::version_of_sound(
                    &self.static_channels,
                ) {
                    Some(version) => version != 8,
                    None => false,
                };
                match channels::wave(&mut self.static_channels, data, time) {
                    Ok(messages) => {
                        if short && self.get_channel_id_by_type(kind).is_some() {
                            return None;
                        }
                        Some(self.carry(kind, messages, user_channel_id))
                    },
                    Err(_) => Some(Ok(EventOutcome::Nothing)),
                }
            },
            SoundMessage::SetVolume { left, right } => {
                let messages = channels::set_volume(&mut self.static_channels, left, right);
                Some(self.carry_or(kind, messages, user_channel_id, error))
            },
            SoundMessage::Close => {
                let messages = channels::close_sound(&mut self.static_channels);
                Some(self.carry_or(kind, messages, user_channel_id, error))
            },
            SoundMessage::Error(_) => Some(Ok(EventOutcome::Nothing)),
        }
    }

    /// Takes a message from the clipboard backend.
    fn dispatch_clipboard(&self, message: ClipboardMessage, user_channel_id: u16) -> (outcome:
        Result<EventOutcome, ServerError>)
        ensures
            event_view(outcome) == clipboard_outcome(
                self.static_channels,
                message,
                user_channel_id,
            ),
    {
        let kind = ChannelKind::Clipboard;
        let error = ServerError::ClipboardEvent;
        if !channels::holds(&self.static_channels, kind) {
            return Ok(EventOutcome::Nothing);
        }
        match message {
            ClipboardMessage::SendInitiateCopy(formats) => {
                let messages = channels::offer_formats(&self.static_channels, formats);
                self.carry_or(kind, messages, user_channel_id, error)
            },
            ClipboardMessage::SendFormatData(data) => {
                let messages = channels::submit_data(&self.static_channels, data);
                self.carry_or(kind, messages, user_channel_id, error)
            },
            ClipboardMessage::SendInitiatePaste(format) => {
                let messages = channels::ask_for_format(&self.static_channels, format);
                self.carry_or(kind, messages, user_channel_id, error)
            },
            ClipboardMessage::Error(_) => Ok(EventOutcome::Nothing),
        }
    }

    /// Takes a server event while a session is under way. `waves` is how many
    /// more pieces of sound may be sent; it starts with `WAVE_LIMIT` for each
    /// batch of events. None where the event is a piece of sound that the sound
    /// channel took, and whose message cannot be written.
    pub fn try_dispatch_server_event(
        &mut self,
        event: ServerEvent,
        waves: &mut u32,
        io_channel_id: u16,
        user_channel_id: u16,
    ) -> (outcome: Option<Result<EventOutcome, ServerError>>)
        ensures
            outcome is Some == can_take(old(self).static_channels, *old(waves) as nat, event),
            outcome is Some ==> event_view(outcome->Some_0) == event_outcome(
                *old(self),
                *old(waves) as nat,
                event,
                io_channel_id,
                user_channel_id,
            ),
            *final(waves) as nat == waves_after(*old(self), *old(waves) as nat, event),
            channels_after(
                old(self).static_channels,
                *old(waves) as nat,
                event,
                final(self).static_channels,
            ),
            *final(self) == (RdpServer {
                static_channels: final(self).static_channels,
                creds: creds_after(*old(self), event),
                ..*old(self)
            }),
    {
        match event {
            ServerEvent::Quit(_) => {
                let messages = disconnect::send_graceful_disconnect(
                    io_channel_id,
                    user_channel_id,
                    ErrorCode::RpcInitiatedDisconnect,
                );
                assert(each(messages@) =~= disconnect::goodbye(
                    io_channel_id,
                    user_channel_id,
                    ErrorCode::RpcInitiatedDisconnect,
                ));
                Some(Ok(EventOutcome::Goodbye(messages)))
            },
            ServerEvent::Takeover => {
                let messages = disconnect::send_graceful_disconnect(
                    io_channel_id,
                    user_channel_id,
                    ErrorCode::DisconnectedByOtherConnection,
                );
                assert(each(messages@) =~= disconnect::goodbye(
                    io_channel_id,
                    user_channel_id,
                    ErrorCode::DisconnectedByOtherConnection,
                ));
                Some(Ok(EventOutcome::Goodbye(messages)))
            },
            ServerEvent::GetLocalAddr(sender) => Some(
                Ok(EventOutcome::Reply(sender, self.local_addr)),
            ),
            ServerEvent::SetCredentials(creds) => {
                self.set_credentials(Some(creds));
                Some(Ok(EventOutcome::Nothing))
            },
            ServerEvent::Rdpsnd(message) => self.dispatch_sound(message, waves, user_channel_id),
            ServerEvent::Clipboard(message) => Some(
                self.dispatch_clipboard(message, user_channel_id),
            ),
            ServerEvent::ClipboardFileContents(response) => {
                let kind = ChannelKind::Clipboard;
                if !channels::holds(&self.static_channels, kind) {
                    return Some(Ok(EventOutcome::Nothing));
                }
                let messages = channels::submit_file(&self.static_channels, response);
                Some(self.carry_or(kind, messages, user_channel_id, ServerError::FileContents))
            },
            ServerEvent::ClipboardFileContentsRequest(request) => {
                let mut messages: Vec<SvcMessage> = Vec::new();
                messages.push(channels::encode_cliprdr_pdu(request));
                assert(channels::all_said(messages@) =~= seq![
                    MessageView {
                        payload: Some(channels::file_request_bytes(request)),
                        flags: channels::SHOW_PROTOCOL,
                    },
                ]);
                Some(self.carry(ChannelKind::Clipboard, messages, user_channel_id))
            },
        }
    }
}

/// Server events that came together, as far as they are still to be taken, and
/// how many more pieces of sound may be sent for them.
#[derive(Debug)]
pub struct EventBatch {
    pub events: VecDeque<ServerEvent>,
    pub waves: u32,
}

/// What to do about a batch of server events.
#[derive(Debug)]
pub enum BatchStep {
    /// The batch is done, and the session goes on.
    Done,
    /// Do this, and go on with the batch.
    Next(EventOutcome),
    /// Send these messages, whether or not that works. The session ends.
    Goodbye(Vec<Vec<u8>>),
    /// The session fails.
    Fail(ServerError),
    /// The sound channel took a piece of sound whose message cannot be written.
    /// The rest of the batch is dropped.
    Unfit,
}

/// What to do about a batch of server events.
pub enum StepView {
    Done,
    Next(EventView),
    Goodbye(Seq<Seq<u8>>),
    Fail(ServerError),
    Unfit,
}

impl View for BatchStep {
    type V = StepView;

    open spec fn view(&self) -> StepView {
        match *self {
            BatchStep::Done => StepView::Done,
            BatchStep::Next(outcome) => StepView::Next(outcome@),
            BatchStep::Goodbye(messages) => StepView::Goodbye(each(messages@)),
            BatchStep::Fail(error) => StepView::Fail(error),
            BatchStep::Unfit => StepView::Unfit,
        }
    }
}

/// What to do about the first of some events.
pub open spec fn batch_step(
    server: RdpServer,
    waves: nat,
    events: Seq<ServerEvent>,
    io_channel: u16,
    user_channel: u16,
) -> StepView {
    if events.len() == 0 {
        StepView::Done
    } else if !can_take(server.static_channels, waves, events[0]) {
        StepView::Unfit
    } else {
        match event_outcome(server, waves, events[0], io_channel, user_channel) {
            Ok(EventView::Goodbye(messages)) => StepView::Goodbye(messages),
            Ok(outcome) => StepView::Next(outcome),
            Err(error) => StepView::Fail(error),
        }
    }
}

impl EventBatch {
    /// A batch of events of which none has been taken.
    pub fn new(events: VecDeque<ServerEvent>) -> (batch: Self)
        ensures
            batch.events@ == events@,
            batch.waves == WAVE_LIMIT,
    {
        EventBatch { events, waves: WAVE_LIMIT }
    }
}

impl RdpServer {
    /// Takes the first event of a batch while a session is under way. Where the
    /// session ends or fails, or a message cannot be written, the rest of the
    /// batch is dropped.
    pub fn dispatch_server_events(
        &mut self,
        batch: &mut EventBatch,
        io_channel_id: u16,
        user_channel_id: u16,
    ) -> (step: BatchStep)
        ensures
            step@ == batch_step(
                *old(self),
                old(batch).waves as nat,
                old(batch).events@,
                io_channel_id,
                user_channel_id,
            ),
            final(batch).events@ == if step is Next {
                old(batch).events@.skip(1)
            } else {
                Seq::empty()
            },
            step is Done ==> *final(self) == *old(self) && final(batch).waves
                == old(batch).waves,
            !(step is Done) ==> {
                &&& final(batch).waves as nat == waves_after(
                    *old(self),
                    old(batch).waves as nat,
                    old(batch).events@[0],
                )
                &&& channels_after(
                    old(self).static_channels,
                    old(batch).waves as nat,
                    old(batch).events@[0],
                    final(self).static_channels,
                )
                &&& *final(self) == (RdpServer {
                    static_channels: final(self).static_channels,
                    creds: creds_after(*old(self), old(batch).events@[0]),
                    ..*old(self)
                })
            },
    {
        let ghost events = batch.events@;
        match batch.events.pop_front() {
            None => BatchStep::Done,
            Some(event) => {
                assert(batch.events@ =~= events.skip(1));
                let outcome = self.try_dispatch_server_event(
                    event,
                    &mut batch.waves,
                    io_channel_id,
                    user_channel_id,
                );
                match outcome {
                    None => {
                        batch.events.clear();
                        BatchStep::Unfit
                    },
                    Some(Ok(EventOutcome::Goodbye(messages))) => {
                        batch.events.clear();
                        BatchStep::Goodbye(messages)
                    },
                    Some(Ok(outcome)) => BatchStep::Next(outcome),
                    Some(Err(error)) => {
                        batch.events.clear();
                        BatchStep::Fail(error)
                    },
                }
            },
        }
    }
}

/// For how many of some events a piece of sound was handed to the sound channel,
/// where `servers` are the states of the server before each of them.
pub open spec fn waves_sent(servers: Seq<RdpServer>, waves: nat, events: Seq<ServerEvent>) -> nat
    decreases events.len(),
{
    if events.len() == 0 {
        0
    } else {
        let left = waves_left(servers, waves, events.drop_last());
        waves_sent(servers, waves, events.drop_last()) + (if waves_after(
            servers[events.len() - 1],
            left,
            events.last(),
        ) < left {
            1nat
        } else {
            0
        })
    }
}

/// How many more pieces of sound may be sent after some events.
pub open spec fn waves_left(servers: Seq<RdpServer>, waves: nat, events: Seq<ServerEvent>) -> nat
    decreases events.len(),
{
    if events.len() == 0 {
        waves
    } else {
        waves_after(
            servers[events.len() - 1],
            waves_left(servers, waves, events.drop_last()),
            events.last(),
        )
    }
}

/// For one batch of events no more than `WAVE_LIMIT` pieces of sound are handed
/// to the sound channel, however many there are.
pub proof fn sound_does_not_queue_up(servers: Seq<RdpServer>, events: Seq<ServerEvent>)
    requires
        servers.len() == events.len(),
    ensures
        waves_sent(servers, WAVE_LIMIT as nat, events) <= WAVE_LIMIT,
{
    lemma_waves(servers, WAVE_LIMIT as nat, events);
}

/// What is sent and what is left make what there was.
proof fn lemma_waves(servers: Seq<RdpServer>, waves: nat, events: Seq<ServerEvent>)
    ensures
        waves_sent(servers, waves, events) + waves_left(servers, waves, events) == waves,
    decreases events.len(),
{
    if events.len() > 0 {
        lemma_waves(servers, waves, events.drop_last());
    }
}

/// Without a piece of sound left to send, sound is dropped, however short, and
/// the batch goes on.
pub proof fn sound_beyond_the_limit_is_dropped(
    server: RdpServer,
    events: Seq<ServerEvent>,
    io_channel: u16,
    user_channel: u16,
)
    requires
        events.len() > 0,
        events[0] matches ServerEvent::Rdpsnd(SoundMessage::Wave(..)),
    ensures
        batch_step(server, 0, events, io_channel, user_channel) == StepView::Next(
            EventView::Nothing,
        ),
        waves_after(server, 0, events[0]) == 0,
        channels_after(server.static_channels, 0, events[0], server.static_channels),
{
}

/// Before the client has announced its version and a sound format is agreed on,
/// sound is dropped, however short. That is no failure, and the batch goes on. It
/// counts among the pieces that may be sent.
pub proof fn sound_waits_for_the_client(
    server: RdpServer,
    waves: nat,
    events: Seq<ServerEvent>,
    io_channel: u16,
    user_channel: u16,
)
    requires
        events.len() > 0,
        events[0] matches ServerEvent::Rdpsnd(SoundMessage::Wave(..)),
        !channels::takes_wave(server.static_channels),
    ensures
        batch_step(server, waves, events, io_channel, user_channel) == StepView::Next(
            EventView::Nothing,
        ),
        waves > 0 && channels::held(server.static_channels).contains(ChannelKind::Sound)
            ==> waves_after(server, waves, events[0]) == waves - 1,
        forall|after: StaticChannelSet|
            channels_after(server.static_channels, waves, events[0], after) <==> after
                == server.static_channels,
{
}

/// No event but a piece of sound shorter than four bytes, which the channel has
/// taken for a client before version 8, is unfit. A batch goes on after any other
/// event that neither ends the session nor fails.
pub proof fn only_short_sound_is_unfit(
    server: RdpServer,
    waves: nat,
    events: Seq<ServerEvent>,
    io_channel: u16,
    user_channel: u16,
)
    requires
        events.len() > 0,
    ensures
        ({
            let set = server.static_channels;
            batch_step(server, waves, events, io_channel, user_channel) is Unfit <==> {
                &&& events[0] matches ServerEvent::Rdpsnd(SoundMessage::Wave(data, _)) && data@.len()
                    < 4
                &&& waves > 0
                &&& channels::held(set).contains(ChannelKind::Sound)
                &&& channel_number(set, ChannelKind::Sound) is Some
                &&& channels::sound_format(set) is Some
                &&& channels::sound_version(set) is Some
                &&& channels::sound_version(set) != Some(8u16)
            }
        }),
{
}

/// A session ends for a server event just where the server quits or another
/// client takes over, and then the client is told which.
pub proof fn events_that_end_a_session(
    server: RdpServer,
    waves: nat,
    event: ServerEvent,
    io_channel: u16,
    user_channel: u16,
)
    ensures
        event_outcome(server, waves, event, io_channel, user_channel) matches Ok(
            EventView::Goodbye(_),
        ) <==> event is Quit || event is Takeover,
        event is Takeover && user_channel >= disconnect::BASE_CHANNEL_ID ==> (event_outcome(
            server,
            waves,
            event,
            io_channel,
            user_channel,
        ) matches Ok(EventView::Goodbye(messages)) && messages.len() == 3 && messages[0]
            == disconnect::error_info_pdu(
            io_channel,
            user_channel,
            ErrorCode::DisconnectedByOtherConnection,
        )),
{
}

/// Every session offers advanced input, then display control for the number of
/// monitors that is set, and last the graphics channel where it is switched on.
pub proof fn sessions_offer_their_channels(gfx_enabled: bool, max_monitors: u32)
    ensures
        ({
            let offered = dynamic_channels(gfx_enabled, max_monitors);
            &&& offered.len() == if gfx_enabled {
                3int
            } else {
                2
            }
            &&& offered[0] is AdvancedInput
            &&& offered[1] == (DynamicChannel::DisplayControl { max_monitors })
            &&& gfx_enabled ==> offered[2] is Graphics
        }),
{
}

/// Of the channels to start, each that has a number is there exactly once, under
/// that number, and one without a number is not.
pub proof fn channels_are_started_once(
    start: Seq<StartChannel>,
    all: Map<TypeId, Option<u16>>,
    channel: TypeId,
)
    requires
        starts_each(start, all),
    ensures
        all.contains_key(channel) && all[channel] is Some ==> exists|i: int|
            0 <= i < start.len() && (#[trigger] start[i]).channel == channel && start[i].number
                == all[channel]->Some_0,
        forall|i: int, j: int|
            0 <= i < start.len() && 0 <= j < start.len() && (#[trigger] start[i]).channel
                == channel && (#[trigger] start[j]).channel == channel ==> i == j,
        forall|i: int|
            0 <= i < start.len() && (#[trigger] start[i]).channel == channel ==> all.contains_key(
                channel,
            ) && all[channel] == Some(start[i].number),
{
    if all.contains_key(channel) && all[channel] is Some {
        let number = all[channel]->Some_0;
        assert(start.contains(StartChannel { channel, number }));
    }
    assert forall|i: int|
        0 <= i < start.len() && (#[trigger] start[i]).channel == channel implies all.contains_key(
        channel,
    ) && all[channel] == Some(start[i].number) by {
        let number = start[i].number;
        assert(start.contains(StartChannel { channel, number }));
    }
}

/// The lowest two bits of its first byte tell what form a message has.
pub proof fn two_bits_tell_the_form(header: u8)
    ensures
        action_of(header) == Some(Action::FastPath) <==> header & 3 == 0,
        action_of(header) == Some(Action::X224) <==> header & 3 == 3,
        action_of(header) is None <==> header & 3 == 1 || header & 3 == 2,
{
    assert(header & 3 == header % 4) by (bit_vector);
}

/// What comes of data for a channel: where the set has such a channel, it is one of
/// the answers of that channel to that data, sent back framed for it, or a failure
/// of either; where it has none, nothing. The handler hears of none of it, and the
/// client does not leave by it.
pub proof fn data_goes_to_its_channel(
    set: StaticChannelSet,
    channel: u16,
    user_channel: u16,
    data: Seq<u8>,
    outcome: Result<ReceivedView, ServerError>,
    after: StaticChannelSet,
)
    requires
        from_channel(set, channel, user_channel, data, outcome, after),
    ensures
        outcome matches Ok(received) ==> received.calls.len() == 0 && !received.leaves,
        !channels::joined(set).contains(channel) ==> after == set && outcome is Ok
            && outcome->Ok_0.reply is None,
        channels::joined(set).contains(channel) ==> exists|answer: Option<Seq<MessageView>>|
            {
                &&& #[trigger] channels::answers(set, channel, data, answer, after)
                &&& answer is None <==> outcome == Err::<ReceivedView, ServerError>(
                    ServerError::Channel,
                )
                &&& outcome matches Ok(received) ==> received.reply is Some && answer is Some
                    && received.reply == channels::framed(answer->Some_0, channel, user_channel)
                &&& outcome is Err && answer is Some ==> outcome == Err::<
                    ReceivedView,
                    ServerError,
                >(ServerError::Encode) && channels::framed(answer->Some_0, channel, user_channel)
                    is None
            },
{
    if channels::joined(set).contains(channel) {
        let answer = choose|answer: Option<Seq<MessageView>>| #[trigger]
            channels::answers(set, channel, data, answer, after) && outcome == answered(
                answer,
                channel,
                user_channel,
            );
        assert(channels::answers(set, channel, data, answer, after));
    }
}

/// What comes of a message of the multipoint layer. One that cannot be read fails.
/// Data on the session's channel is input or the wish to leave; other data goes to
/// its channel. The client leaves by a disconnect of its own, and by no other
/// message; and of no other message anything comes.
pub proof fn messages_are_told_apart(
    set: StaticChannelSet,
    io_channel: u16,
    user_channel: u16,
    frame: Seq<u8>,
    outcome: Result<ReceivedView, ServerError>,
    after: StaticChannelSet,
)
    requires
        from_x224(set, io_channel, user_channel, frame, outcome, after),
    ensures
        ({
            let message = client_input::mcs_message(frame);
            let quiet = outcome matches Ok(received) && received.calls.len() == 0 && received.reply
                is None;
            &&& message is None ==> outcome == Err::<ReceivedView, ServerError>(
                ServerError::Decode,
            )
            &&& message matches Some(McsView::SendData { channel_id, user_data }) ==> {
                &&& channel_id != io_channel ==> from_channel(
                    set,
                    channel_id,
                    user_channel,
                    user_data,
                    outcome,
                    after,
                )
                &&& channel_id == io_channel ==> match client_input::share_message(user_data) {
                    None => outcome == Err::<ReceivedView, ServerError>(ServerError::Decode),
                    Some(said) => outcome == Ok::<ReceivedView, ServerError>(
                        client_input::shared(said),
                    ),
                }
            }
            &&& message matches Some(McsView::Disconnect(reason)) ==> quiet && (
            outcome->Ok_0.leaves <==> client_input::leave_reason(reason) is UserRequested)
            &&& message matches Some(other) ==> (!(other is SendData || other is Disconnect)
                ==> quiet && !outcome->Ok_0.leaves)
            &&& !(message matches Some(McsView::SendData { channel_id, .. }) && channel_id
                != io_channel) ==> after == set
        }),
{
}

/// What comes of a message in either form. In the short form it is input, of which
/// the handler is told in order, and nothing else.
pub proof fn both_forms_are_taken(
    set: StaticChannelSet,
    action: Action,
    io_channel: u16,
    user_channel: u16,
    bytes: Seq<u8>,
    outcome: Result<ReceivedView, ServerError>,
    after: StaticChannelSet,
)
    requires
        from_client(set, action, io_channel, user_channel, bytes, outcome, after),
    ensures
        action is X224 ==> from_x224(set, io_channel, user_channel, bytes, outcome, after),
        action is FastPath ==> after == set && match client_input::fast_path_input(bytes) {
            None => outcome == Err::<ReceivedView, ServerError>(ServerError::Decode),
            Some(events) => outcome matches Ok(received) && received.calls
                == client_input::fast_path_calls(events) && received.reply is None
                && !received.leaves,
        },
{
}

/// What comes of a message from before the session: what would come of it later,
/// but a message in the long form neither fails nor makes the client leave.
pub proof fn early_messages_do_no_harm(
    set: StaticChannelSet,
    io_channel: u16,
    user_channel: u16,
    frame: Seq<u8>,
    outcome: Result<ReceivedView, ServerError>,
    after: StaticChannelSet,
)
    requires
        backlog_fits(frame),
        from_backlog(set, io_channel, user_channel, frame, outcome, after),
    ensures
        frame[0] % 4 == 0 ==> from_client(
            set,
            Action::FastPath,
            io_channel,
            user_channel,
            frame,
            outcome,
            after,
        ),
        frame[0] % 4 == 3 ==> {
            &&& outcome matches Ok(received) && !received.leaves
            &&& exists|later: Result<ReceivedView, ServerError>|
                {
                    &&& #[trigger] from_client(
                        set,
                        Action::X224,
                        io_channel,
                        user_channel,
                        frame,
                        later,
                        after,
                    )
                    &&& later matches Ok(received) ==> outcome->Ok_0.calls == received.calls
                        && outcome->Ok_0.reply == received.reply
                    &&& later is Err ==> outcome->Ok_0.calls.len() == 0 && outcome->Ok_0.reply
                        is None
                }
        },
        frame[0] % 4 == 0 || frame[0] % 4 == 3,
{
    if frame[0] % 4 == 3 {
        let inner = choose|inner: Result<ReceivedView, ServerError>| #[trigger]
            from_x224(set, io_channel, user_channel, frame, inner, after) && outcome == Ok::<
                ReceivedView,
                ServerError,
            >(
                match inner {
                    Ok(received) => ReceivedView { leaves: false, ..received },
                    Err(_) => client_input::nothing(),
                },
            );
        assert(from_client(
            set,
            Action::X224,
            io_channel,
            user_channel,
            frame,
            inner,
            after,
        ));
    }
}

/// What comes of starting a channel that the session has: one of its greetings,
/// framed for its number, or a failure of either. Of another nothing comes.
pub proof fn greetings_come_from_their_channel(
    set: StaticChannelSet,
    start: StartChannel,
    user_channel: u16,
    greeting: Result<Option<Vec<u8>>, ServerError>,
    after: StaticChannelSet,
)
    requires
        from_start(set, start, user_channel, greeting, after),
    ensures
        !channels::attached(set).contains_key(start.channel) ==> after == set && greeting
            matches Ok(None),
        channels::attached(set).contains_key(start.channel) ==> exists|
            said: Option<Seq<MessageView>>,
        |
            {
                &&& #[trigger] channels::greets(set, start.channel, said, after)
                &&& said is None ==> greeting == Err::<Option<Vec<u8>>, ServerError>(
                    ServerError::Channel,
                )
                &&& said matches Some(messages) ==> match channels::framed(
                    messages,
                    start.number,
                    user_channel,
                ) {
                    Some(bytes) => greeting matches Ok(Some(sent)) && sent@ == bytes,
                    None => greeting == Err::<Option<Vec<u8>>, ServerError>(ServerError::Encode),
                }
            },
{
    if channels::attached(set).contains_key(start.channel) {
        let said = choose|said: Option<Seq<MessageView>>| #[trigger]
            channels::greets(set, start.channel, said, after) && match greeting {
                Ok(Some(bytes)) => channels::replied(said, start.number, user_channel) == Ok::<
                    Seq<u8>,
                    ServerError,
                >(bytes@),
                Ok(None) => false,
                Err(error) => channels::replied(said, start.number, user_channel) == Err::<
                    Seq<u8>,
                    ServerError,
                >(error),
            };
        assert(channels::greets(set, start.channel, said, after));
    }
}

/// Messages on their way to a channel with a number: sent as they were framed for
/// it, or a failure.
pub open spec fn on_the_way(
    messages: Seq<MessageView>,
    number: u16,
    user_channel: u16,
    outcome: Result<EventView, ServerError>,
) -> bool {
    match channels::framed(messages, number, user_channel) {
        Some(bytes) => outcome == Ok::<EventView, ServerError>(EventView::Write(bytes)),
        None => outcome == Err::<EventView, ServerError>(ServerError::Encode),
    }
}

/// Events of the sound backend reach the sound channel: the sound itself with its
/// time, in the agreed format and with its number, the volume of each side where
/// the client takes one, and the end.
pub proof fn sound_reaches_its_channel(
    server: RdpServer,
    waves: nat,
    message: SoundMessage,
    number: u16,
    io_channel: u16,
    user_channel: u16,
)
    requires
        channels::held(server.static_channels).contains(ChannelKind::Sound),
        channels::numbers(server.static_channels).contains_key(ChannelKind::Sound),
        channels::numbers(server.static_channels)[ChannelKind::Sound] == number,
    ensures
        ({
            let set = server.static_channels;
            let outcome = event_outcome(
                server,
                waves,
                ServerEvent::Rdpsnd(message),
                io_channel,
                user_channel,
            );
            &&& message matches SoundMessage::Wave(data, time) ==> {
                let taken = waves > 0 && channels::takes_wave(set);
                &&& taken ==> on_the_way(
                    seq![
                        MessageView {
                            payload: channels::wave_bytes(
                                channels::sound_version(set)->Some_0,
                                channels::sound_format(set)->Some_0,
                                channels::sound_block(set),
                                data@,
                                time,
                            ),
                            flags: 0,
                        },
                    ],
                    number,
                    user_channel,
                    outcome,
                )
                &&& !taken ==> outcome == Ok::<EventView, ServerError>(EventView::Nothing)
            }
            &&& message matches SoundMessage::SetVolume { left, right } ==> {
                &&& channels::takes_volume(set) ==> on_the_way(
                    seq![
                        MessageView {
                            payload: Some(
                                seq![3u8, 0, 4, 0] + disconnect::le16(left as int)
                                    + disconnect::le16(right as int),
                            ),
                            flags: 0,
                        },
                    ],
                    number,
                    user_channel,
                    outcome,
                )
                &&& !channels::takes_volume(set) ==> outcome == Err::<EventView, ServerError>(
                    ServerError::SoundEvent,
                )
            }
            &&& message is Close ==> on_the_way(
                seq![MessageView { payload: Some(seq![1u8, 0, 0, 0]), flags: 0 }],
                number,
                user_channel,
                outcome,
            )
            &&& message is Error ==> outcome == Ok::<EventView, ServerError>(EventView::Nothing)
        }),
{
}

/// Events of the clipboard reach the clipboard channel: the formats on offer, the
/// wish for a format, data, the contents of files and the wish for them. But for
/// the formats and the wish for contents, the channel has to be ready; before,
/// nothing is sent.
pub proof fn clipboard_reaches_its_channel(
    server: RdpServer,
    waves: nat,
    event: ServerEvent,
    number: u16,
    io_channel: u16,
    user_channel: u16,
)
    requires
        channels::held(server.static_channels).contains(ChannelKind::Clipboard),
        channels::numbers(server.static_channels).contains_key(ChannelKind::Clipboard),
        channels::numbers(server.static_channels)[ChannelKind::Clipboard] == number,
    ensures
        ({
            let set = server.static_channels;
            let ready = channels::clipboard_ready(set);
            let outcome = event_outcome(server, waves, event, io_channel, user_channel);
            let one = |payload: Option<Seq<u8>>| seq![MessageView { payload, flags: 0x10 }];
            &&& event matches ServerEvent::Clipboard(ClipboardMessage::SendInitiateCopy(formats))
                ==> match channels::copy_messages(set, formats@) {
                Some(messages) => on_the_way(messages, number, user_channel, outcome),
                None => outcome == Err::<EventView, ServerError>(ServerError::ClipboardEvent),
            }
            &&& event matches ServerEvent::Clipboard(ClipboardMessage::SendFormatData(data)) ==> (
            ready ==> on_the_way(one(channels::data_bytes(data)), number, user_channel, outcome))
            &&& event matches ServerEvent::Clipboard(ClipboardMessage::SendInitiatePaste(format))
                ==> (ready ==> on_the_way(
                one(
                    Some(
                        seq![4u8, 0, 0, 0, 4, 0, 0, 0] + crate::display_control::le32(format),
                    ),
                ),
                number,
                user_channel,
                outcome,
            ))
            &&& event matches ServerEvent::ClipboardFileContents(response) ==> (ready
                ==> on_the_way(one(channels::file_bytes(response)), number, user_channel, outcome))
            &&& event matches ServerEvent::ClipboardFileContentsRequest(request) ==> on_the_way(
                one(Some(channels::file_request_bytes(request))),
                number,
                user_channel,
                outcome,
            )
            &&& !ready && (event is ClipboardFileContents || (event
                matches ServerEvent::Clipboard(ClipboardMessage::SendFormatData(_))) || (event
                matches ServerEvent::Clipboard(ClipboardMessage::SendInitiatePaste(_)))) ==> on_the_way(Seq::empty(), number, user_channel, outcome)
            &&& event matches ServerEvent::Clipboard(ClipboardMessage::Error(_)) ==> outcome == Ok::<
                EventView,
                ServerError,
            >(EventView::Nothing)
        }),
{
}

/// Events for a channel that the session does not have are dropped, but for the
/// wish for the contents of a file; events for one without a number fail where
/// there is something to send.
pub proof fn missing_channels_are_noticed(
    server: RdpServer,
    waves: nat,
    event: ServerEvent,
    io_channel: u16,
    user_channel: u16,
)
    ensures
        ({
            let set = server.static_channels;
            let outcome = event_outcome(server, waves, event, io_channel, user_channel);
            let nothing = Ok::<EventView, ServerError>(EventView::Nothing);
            let missing = Err::<EventView, ServerError>(ServerError::ChannelNotFound);
            &&& event is Rdpsnd && !channels::held(set).contains(ChannelKind::Sound) ==> outcome
                == nothing
            &&& (event is Clipboard || event is ClipboardFileContents) && !channels::held(
                set,
            ).contains(ChannelKind::Clipboard) ==> outcome == nothing
            &&& event is Rdpsnd && !channels::numbers(set).contains_key(ChannelKind::Sound)
                ==> !(outcome matches Ok(EventView::Write(_)))
            &&& (event is Clipboard || event is ClipboardFileContents || event
                is ClipboardFileContentsRequest) && !channels::numbers(set).contains_key(
                ChannelKind::Clipboard,
            ) ==> !(outcome matches Ok(EventView::Write(_)))
            &&& event is ClipboardFileContentsRequest && !channels::numbers(set).contains_key(
                ChannelKind::Clipboard,
            ) ==> outcome == missing
            &&& (event matches ServerEvent::Rdpsnd(SoundMessage::Close)) && channels::held(
                set,
            ).contains(ChannelKind::Sound) && !channels::numbers(set).contains_key(
                ChannelKind::Sound,
            ) ==> outcome == missing
            &&& event is ClipboardFileContents && channels::held(set).contains(
                ChannelKind::Clipboard,
            ) && !channels::numbers(set).contains_key(ChannelKind::Clipboard) ==> outcome == missing
        }),
{
}

/// An asker is answered with the server's address. New credentials replace the old
/// at once, and nothing else does. A client that has to go is told why: 1 where the
/// server quits, 5 where another client takes over.
pub proof fn events_of_the_server_itself(
    server: RdpServer,
    waves: nat,
    event: ServerEvent,
    io_channel: u16,
    user_channel: u16,
)
    ensures
        ({
            let outcome = event_outcome(server, waves, event, io_channel, user_channel);
            &&& event matches ServerEvent::GetLocalAddr(sender) ==> outcome == Ok::<
                EventView,
                ServerError,
            >(EventView::Reply(sender, server.local_addr))
            &&& event is SetCredentials ==> outcome == Ok::<EventView, ServerError>(
                EventView::Nothing,
            )
            &&& event matches ServerEvent::SetCredentials(creds) ==> creds_after(server, event)
                == Some(creds)
            &&& !(event is SetCredentials) ==> creds_after(server, event) == server.creds
            &&& user_channel >= 1001 && (event is Quit || event is Takeover) ==> (outcome
                matches Ok(EventView::Goodbye(messages)) && messages.len() == 3
                && messages[0].len() == 36 && messages[0][32] == if event is Quit {
                1u8
            } else {
                5u8
            })
        }),
{
    disconnect::goodbyes_say_why(io_channel, user_channel, ErrorCode::RpcInitiatedDisconnect);
    disconnect::goodbyes_say_why(
        io_channel,
        user_channel,
        ErrorCode::DisconnectedByOtherConnection,
    );
}

/// Each piece of sound for a session that has the sound channel takes one from
/// those that may be sent, down to none; nothing else does.
pub proof fn sound_is_counted(server: RdpServer, waves: nat, event: ServerEvent)
    ensures
        ({
            let counts = (event matches ServerEvent::Rdpsnd(SoundMessage::Wave(..)))
                && channels::held(server.static_channels).contains(ChannelKind::Sound);
            &&& counts && waves > 0 ==> waves_after(server, waves, event) == waves - 1
            &&& !counts || waves == 0 ==> waves_after(server, waves, event) == waves
        }),
        WAVE_LIMIT == 4,
{
}

/// A batch is done where it is empty. Else its first event decides: a goodbye ends
/// it, a failure fails it, and after anything else it goes on.
pub proof fn batches_go_on_event_by_event(
    server: RdpServer,
    waves: nat,
    events: Seq<ServerEvent>,
    io_channel: u16,
    user_channel: u16,
)
    ensures
        ({
            let step = batch_step(server, waves, events, io_channel, user_channel);
            let outcome = event_outcome(server, waves, events[0], io_channel, user_channel);
            &&& step is Done <==> events.len() == 0
            &&& events.len() > 0 && can_take(server.static_channels, waves, events[0]) ==> {
                &&& step is Goodbye <==> events[0] is Quit || events[0] is Takeover
                &&& step matches StepView::Goodbye(messages) ==> outcome == Ok::<
                    EventView,
                    ServerError,
                >(EventView::Goodbye(messages))
                &&& outcome matches Err(error) ==> step == StepView::Fail(error)
                &&& step is Fail ==> outcome is Err
                &&& step matches StepView::Next(next) ==> outcome == Ok::<EventView, ServerError>(
                    next,
                )
                &&& step is Next || step is Goodbye || step is Fail
            }
        }),
{
}

/// What a channel without a number has to send, fails for that.
pub proof fn channels_need_a_number(
    server: RdpServer,
    waves: nat,
    event: ServerEvent,
    io_channel: u16,
    user_channel: u16,
)
    requires
        channels::numbers(server.static_channels) == Map::<ChannelKind, u16>::empty(),
        forall|kind: ChannelKind| #[trigger]
            channels::held(server.static_channels).contains(kind),
    ensures
        ({
            let set = server.static_channels;
            let sends = match event {
                ServerEvent::Rdpsnd(SoundMessage::Wave(..)) => waves > 0 && channels::takes_wave(
                    set,
                ),
                ServerEvent::Rdpsnd(SoundMessage::SetVolume { .. }) => channels::takes_volume(set),
                ServerEvent::Rdpsnd(SoundMessage::Close) => true,
                ServerEvent::Clipboard(ClipboardMessage::SendInitiateCopy(formats)) =>
                    channels::copy_messages(set, formats@) is Some,
                ServerEvent::Clipboard(ClipboardMessage::SendFormatData(_)) => true,
                ServerEvent::Clipboard(ClipboardMessage::SendInitiatePaste(_)) => true,
                ServerEvent::ClipboardFileContents(_) => true,
                ServerEvent::ClipboardFileContentsRequest(_) => true,
                _ => false,
            };
            event_outcome(server, waves, event, io_channel, user_channel) == Err::<
                EventView,
                ServerError,
            >(ServerError::ChannelNotFound) <==> sends
        }),
{
    assert(channels::held(server.static_channels).contains(ChannelKind::Sound));
    assert(channels::held(server.static_channels).contains(ChannelKind::Clipboard));
}

/// How a session goes on after what came of a message.
pub open spec fn state_of(received: ReceivedView) -> RunState {
    if received.leaves {
        RunState::Disconnect
    } else {
        RunState::Continue
    }
}

/// A session ends with a message just where the client leaves by it.
pub proof fn leaving_ends_the_session(received: ReceivedView)
    ensures
        received.leaves <==> state_of(received) == RunState::Disconnect,
        !received.leaves <==> state_of(received) == RunState::Continue,
{
}

/// Outcomes say what they hold: bytes and messages as they are, in order, and
/// failures with their errors.
pub proof fn event_outcomes_say_what_they_hold(
    outcome: EventOutcome,
    step: BatchStep,
    received: Received,
    error: ServerError,
    i: int,
)
    ensures
        outcome is Nothing ==> outcome@ is Nothing,
        outcome matches EventOutcome::Write(bytes) ==> outcome@ == EventView::Write(bytes@),
        outcome matches EventOutcome::Goodbye(messages) ==> (outcome@ matches EventView::Goodbye(
            said,
        ) && said.len() == messages@.len() && (0 <= i < said.len() ==> said[i] == messages@[i]@)),
        outcome matches EventOutcome::Reply(sender, addr) ==> outcome@ == EventView::Reply(
            sender,
            addr,
        ),
        step is Done ==> step@ is Done,
        step matches BatchStep::Next(outcome) ==> step@ == StepView::Next(outcome@),
        step matches BatchStep::Goodbye(messages) ==> (step@ matches StepView::Goodbye(said)
            && said.len() == messages@.len() && (0 <= i < said.len() ==> said[i]
            == messages@[i]@)),
        step matches BatchStep::Fail(error) ==> step@ == StepView::Fail(error),
        step is Unfit ==> step@ is Unfit,
        event_view(Ok(outcome)) == Ok::<EventView, ServerError>(outcome@),
        event_view(Err(error)) == Err::<EventView, ServerError>(error),
        outcome_view(Ok(received)) == Ok::<ReceivedView, ServerError>(received@),
        outcome_view(Err(error)) == Err::<ReceivedView, ServerError>(error),
{
}

} // verus!
