//! What clients send: keyboard and mouse input, channel data, and the wish to
//! leave.

use ironrdp_ainput::{ClientPdu, ServerPdu, VersionPdu};
use ironrdp_core::{decode, DecodeError};
use ironrdp_pdu::input::fast_path::{FastPathInput, FastPathInputEvent};
use ironrdp_pdu::input::{InputEvent, MousePdu, MouseRelPdu, MouseXPdu};
use ironrdp_pdu::input::{ScanCodePdu, SyncPdu, UnicodePdu};
use ironrdp_pdu::mcs::{DisconnectReason, McsMessage};
use ironrdp_pdu::rdp::headers::{
    ShareControlHeader, ShareControlPdu, ShareDataHeader, ShareDataPdu,
};
use ironrdp_pdu::x224::X224;
use vstd::prelude::*;

use crate::errors::ServerError;

verus! {

/// Input on the fast path.
#[verifier::external_type_specification]
#[verifier::external_body]
pub struct ExFastPathInputEvent(ironrdp_pdu::input::fast_path::FastPathInputEvent);

/// Input on the slow path.
#[verifier::external_type_specification]
#[verifier::external_body]
pub struct ExInputEvent(ironrdp_pdu::input::InputEvent);

/// The flags of a key on the fast path.
#[verifier::external_type_specification]
#[verifier::external_body]
pub struct ExKeyboardFlags(ironrdp_pdu::input::fast_path::KeyboardFlags);

/// The state of the toggle keys on the fast path.
#[verifier::external_type_specification]
#[verifier::external_body]
pub struct ExSynchronizeFlags(ironrdp_pdu::input::fast_path::SynchronizeFlags);

/// A key by its scan code.
#[verifier::external_type_specification]
#[verifier::external_body]
pub struct ExScanCodePdu(ironrdp_pdu::input::ScanCodePdu);

/// A key by its character.
#[verifier::external_type_specification]
#[verifier::external_body]
pub struct ExUnicodePdu(ironrdp_pdu::input::UnicodePdu);

/// The state of the toggle keys.
#[verifier::external_type_specification]
#[verifier::external_body]
pub struct ExSyncPdu(ironrdp_pdu::input::SyncPdu);

/// A mouse move, click or turn of the wheel.
#[verifier::external_type_specification]
#[verifier::external_body]
pub struct ExMousePdu(ironrdp_pdu::input::MousePdu);

/// A click with a further button.
#[verifier::external_type_specification]
#[verifier::external_body]
pub struct ExMouseXPdu(ironrdp_pdu::input::MouseXPdu);

/// A relative mouse move.
#[verifier::external_type_specification]
#[verifier::external_body]
pub struct ExMouseRelPdu(ironrdp_pdu::input::MouseRelPdu);

/// A mouse event of the advanced input channel.
#[verifier::external_type_specification]
#[verifier::external_body]
pub struct ExAdvancedMousePdu(ironrdp_ainput::MousePdu);

/// What the server sends on the advanced input channel.
#[verifier::external_type_specification]
#[verifier::external_body]
pub struct ExServerPdu(ironrdp_ainput::ServerPdu);

/// Why a connection closes.
#[verifier::external_type_specification]
#[verifier::external_body]
pub struct ExDisconnectReason(ironrdp_pdu::mcs::DisconnectReason);

/// Input on the fast path, by its kind.
#[derive(Debug)]
pub enum FastPathEvent {
    Keyboard(ironrdp_pdu::input::fast_path::KeyboardFlags, u8),
    UnicodeKeyboard(ironrdp_pdu::input::fast_path::KeyboardFlags, u16),
    Sync(ironrdp_pdu::input::fast_path::SynchronizeFlags),
    Mouse(MousePdu),
    MouseX(MouseXPdu),
    MouseRel(MouseRelPdu),
    /// How well the client keeps up.
    Qoe(u32),
}

/// Input on the slow path, by its kind.
#[derive(Debug)]
pub enum SlowPathEvent {
    ScanCode(ScanCodePdu),
    Unicode(UnicodePdu),
    Sync(SyncPdu),
    Mouse(MousePdu),
    MouseX(MouseXPdu),
    MouseRel(MouseRelPdu),
    Unused,
}

/// What the input handler is told.
#[derive(Debug)]
pub enum InputCall {
    Keyboard(KeyboardInput),
    Mouse(MouseInput),
}

/// A keyboard event, in the form in which it came.
#[derive(Debug)]
pub enum KeyboardInput {
    FastPath(u8, ironrdp_pdu::input::fast_path::KeyboardFlags),
    FastPathUnicode(u16, ironrdp_pdu::input::fast_path::KeyboardFlags),
    FastPathSync(ironrdp_pdu::input::fast_path::SynchronizeFlags),
    ScanCode(ScanCodePdu),
    Unicode(UnicodePdu),
    Sync(SyncPdu),
}

/// A mouse event, in the form in which it came.
#[derive(Debug)]
pub enum MouseInput {
    Mouse(MousePdu),
    MouseX(MouseXPdu),
    MouseRel(MouseRelPdu),
    Advanced(ironrdp_ainput::MousePdu),
}

/// Why a connection closes.
#[derive(Clone, Copy, Debug, PartialEq, Eq, Structural)]
pub enum LeaveReason {
    DomainDisconnected,
    ProviderInitiated,
    TokenPurged,
    UserRequested,
    ChannelPurged,
}

/// A message of the multipoint layer.
#[derive(Debug)]
pub enum McsEvent {
    ErectDomainRequest,
    AttachUserRequest,
    AttachUserConfirm,
    ChannelJoinRequest,
    ChannelJoinConfirm,
    /// Data for a channel.
    SendData { channel_id: u16, user_data: Vec<u8> },
    SendDataIndication,
    /// The connection closes.
    Disconnect(DisconnectReason),
}

/// What a message of the multipoint layer says.
pub enum McsView {
    ErectDomainRequest,
    AttachUserRequest,
    AttachUserConfirm,
    ChannelJoinRequest,
    ChannelJoinConfirm,
    SendData { channel_id: u16, user_data: Seq<u8> },
    SendDataIndication,
    Disconnect(DisconnectReason),
}

impl View for McsEvent {
    type V = McsView;

    open spec fn view(&self) -> McsView {
        match *self {
            McsEvent::ErectDomainRequest => McsView::ErectDomainRequest,
            McsEvent::AttachUserRequest => McsView::AttachUserRequest,
            McsEvent::AttachUserConfirm => McsView::AttachUserConfirm,
            McsEvent::ChannelJoinRequest => McsView::ChannelJoinRequest,
            McsEvent::ChannelJoinConfirm => McsView::ChannelJoinConfirm,
            McsEvent::SendData { channel_id, user_data } => McsView::SendData {
                channel_id,
                user_data: user_data@,
            },
            McsEvent::SendDataIndication => McsView::SendDataIndication,
            McsEvent::Disconnect(reason) => McsView::Disconnect(reason),
        }
    }
}

/// A message on the channel of the session itself.
#[derive(Debug)]
pub enum ShareEvent {
    /// Input.
    Input(Vec<InputEvent>),
    /// The client wants to leave.
    ShutdownRequest,
    /// Anything else.
    Other,
}

/// What a message on the channel of the session says.
pub enum ShareView {
    Input(Seq<InputEvent>),
    ShutdownRequest,
    Other,
}

impl View for ShareEvent {
    type V = ShareView;

    open spec fn view(&self) -> ShareView {
        match *self {
            ShareEvent::Input(events) => ShareView::Input(events@),
            ShareEvent::ShutdownRequest => ShareView::ShutdownRequest,
            ShareEvent::Other => ShareView::Other,
        }
    }
}

/// The input that fast-path bytes hold.
pub uninterp spec fn fast_path_input(bytes: Seq<u8>) -> Option<Seq<FastPathInputEvent>>;

/// The kind of fast-path input.
pub uninterp spec fn fast_path_event(event: FastPathInputEvent) -> FastPathEvent;

/// The kind of slow-path input.
pub uninterp spec fn slow_path_event(event: InputEvent) -> SlowPathEvent;

/// The message of the multipoint layer that bytes hold.
pub uninterp spec fn mcs_message(bytes: Seq<u8>) -> Option<McsView>;

/// Why a connection closes.
pub uninterp spec fn leave_reason(reason: DisconnectReason) -> LeaveReason;

/// The message of the session's channel that bytes hold.
pub uninterp spec fn share_message(bytes: Seq<u8>) -> Option<ShareView>;

/// The mouse event that bytes of the advanced input channel hold.
pub uninterp spec fn advanced_mouse(bytes: Seq<u8>) -> Option<ironrdp_ainput::MousePdu>;

/// Whether the length in a fast-path header covers at least the header itself,
/// as far as the header is there and not encrypted.
pub open spec fn header_fits(bytes: Seq<u8>) -> bool {
    bytes.len() >= 2 && bytes[0] < 64 ==> {
        let long = bytes[1] >= 128;
        let many = bytes[0] < 4;
        let header = (if long { 3int } else { 2 }) + (if many { 1int } else { 0 });
        let length = if long { (bytes[1] - 128) * 256 + bytes[2] } else { bytes[1] as int };
        bytes.len() < header || length >= header
    }
}

/// `ironrdp_core::decode` of fast-path input: what comes out depends on the
/// bytes alone.
#[verifier::external_body]
fn decode_fast_path(bytes: &[u8]) -> (events: Result<Vec<FastPathInputEvent>, DecodeError>)
    requires
        header_fits(bytes@),
    ensures
        match events {
            Ok(list) => fast_path_input(bytes@) == Some(list@),
            Err(_) => fast_path_input(bytes@) is None,
        },
{
    decode::<FastPathInput>(bytes).map(|input| input.input_events().to_vec())
}

/// Tells the variants of `FastPathInputEvent` apart.
#[verifier::external_body]
fn kind_of_fast_path(event: FastPathInputEvent) -> (kind: FastPathEvent)
    ensures
        kind == fast_path_event(event),
{
    match event {
        FastPathInputEvent::KeyboardEvent(flags, key) => FastPathEvent::Keyboard(flags, key),
        FastPathInputEvent::UnicodeKeyboardEvent(flags, key) => {
            FastPathEvent::UnicodeKeyboard(flags, key)
        },
        FastPathInputEvent::SyncEvent(flags) => FastPathEvent::Sync(flags),
        FastPathInputEvent::MouseEvent(mouse) => FastPathEvent::Mouse(mouse),
        FastPathInputEvent::MouseEventEx(mouse) => FastPathEvent::MouseX(mouse),
        FastPathInputEvent::MouseEventRel(mouse) => FastPathEvent::MouseRel(mouse),
        FastPathInputEvent::QoeEvent(quality) => FastPathEvent::Qoe(quality),
    }
}

/// Tells the variants of `InputEvent` apart.
#[verifier::external_body]
fn kind_of_slow_path(event: InputEvent) -> (kind: SlowPathEvent)
    ensures
        kind == slow_path_event(event),
{
    match event {
        InputEvent::ScanCode(key) => SlowPathEvent::ScanCode(key),
        InputEvent::Unicode(key) => SlowPathEvent::Unicode(key),
        InputEvent::Sync(sync) => SlowPathEvent::Sync(sync),
        InputEvent::Mouse(mouse) => SlowPathEvent::Mouse(mouse),
        InputEvent::MouseX(mouse) => SlowPathEvent::MouseX(mouse),
        InputEvent::MouseRel(mouse) => SlowPathEvent::MouseRel(mouse),
        InputEvent::Unused(_) => SlowPathEvent::Unused,
    }
}

/// `ironrdp_core::decode` of a message of the multipoint layer: what comes out
/// depends on the bytes alone.
#[verifier::external_body]
fn decode_mcs(bytes: &[u8]) -> (message: Result<McsEvent, DecodeError>)
    ensures
        match message {
            Ok(event) => mcs_message(bytes@) == Some(event@),
            Err(_) => mcs_message(bytes@) is None,
        },
{
    decode::<X224<McsMessage<'_>>>(bytes).map(|message| match message.0 {
        McsMessage::ErectDomainRequest(_) => McsEvent::ErectDomainRequest,
        McsMessage::AttachUserRequest(_) => McsEvent::AttachUserRequest,
        McsMessage::AttachUserConfirm(_) => McsEvent::AttachUserConfirm,
        McsMessage::ChannelJoinRequest(_) => McsEvent::ChannelJoinRequest,
        McsMessage::ChannelJoinConfirm(_) => McsEvent::ChannelJoinConfirm,
        McsMessage::SendDataRequest(data) => McsEvent::SendData {
            channel_id: data.channel_id,
            user_data: data.user_data.into_owned(),
        },
        McsMessage::SendDataIndication(_) => McsEvent::SendDataIndication,
        McsMessage::DisconnectProviderUltimatum(end) => McsEvent::Disconnect(end.reason),
    })
}

/// Tells the variants of `DisconnectReason` apart.
#[verifier::external_body]
pub(crate) fn kind_of_reason(reason: DisconnectReason) -> (kind: LeaveReason)
    ensures
        kind == leave_reason(reason),
{
    match reason {
        DisconnectReason::DomainDisconnected => LeaveReason::DomainDisconnected,
        DisconnectReason::ProviderInitiated => LeaveReason::ProviderInitiated,
        DisconnectReason::TokenPurged => LeaveReason::TokenPurged,
        DisconnectReason::UserRequested => LeaveReason::UserRequested,
        DisconnectReason::ChannelPurged => LeaveReason::ChannelPurged,
    }
}

/// `ironrdp_core::decode` of a message on the session's channel: what comes out
/// depends on the bytes alone.
#[verifier::external_body]
fn decode_share(bytes: &[u8]) -> (message: Result<ShareEvent, DecodeError>)
    ensures
        match message {
            Ok(event) => share_message(bytes@) == Some(event@),
            Err(_) => share_message(bytes@) is None,
        },
{
    decode::<ShareControlHeader>(bytes).map(|header| match header.share_control_pdu {
        ShareControlPdu::Data(ShareDataHeader { share_data_pdu: ShareDataPdu::Input(pdu), .. }) => {
            ShareEvent::Input(pdu.0)
        },
        ShareControlPdu::Data(ShareDataHeader {
            share_data_pdu: ShareDataPdu::ShutdownRequest, ..
        }) => ShareEvent::ShutdownRequest,
        _ => ShareEvent::Other,
    })
}

/// `ironrdp_core::decode` of a message of the advanced input channel: what comes
/// out depends on the bytes alone.
#[verifier::external_body]
fn decode_advanced(bytes: &[u8]) -> (mouse: Result<ironrdp_ainput::MousePdu, DecodeError>)
    ensures
        match mouse {
            Ok(event) => advanced_mouse(bytes@) == Some(event),
            Err(_) => advanced_mouse(bytes@) is None,
        },
{
    decode::<ClientPdu>(bytes).map(|ClientPdu::Mouse(mouse)| mouse)
}

/// What the input handler is told of fast-path input: nothing of how well the
/// client keeps up.
pub open spec fn fast_path_call(event: FastPathEvent) -> Option<InputCall> {
    match event {
        FastPathEvent::Keyboard(flags, key) => Some(
            InputCall::Keyboard(KeyboardInput::FastPath(key, flags)),
        ),
        FastPathEvent::UnicodeKeyboard(flags, key) => Some(
            InputCall::Keyboard(KeyboardInput::FastPathUnicode(key, flags)),
        ),
        FastPathEvent::Sync(flags) => Some(InputCall::Keyboard(KeyboardInput::FastPathSync(flags))),
        FastPathEvent::Mouse(mouse) => Some(InputCall::Mouse(MouseInput::Mouse(mouse))),
        FastPathEvent::MouseX(mouse) => Some(InputCall::Mouse(MouseInput::MouseX(mouse))),
        FastPathEvent::MouseRel(mouse) => Some(InputCall::Mouse(MouseInput::MouseRel(mouse))),
        FastPathEvent::Qoe(_) => None,
    }
}

/// What the input handler is told of slow-path input.
pub open spec fn slow_path_call(event: SlowPathEvent) -> Option<InputCall> {
    match event {
        SlowPathEvent::ScanCode(key) => Some(InputCall::Keyboard(KeyboardInput::ScanCode(key))),
        SlowPathEvent::Unicode(key) => Some(InputCall::Keyboard(KeyboardInput::Unicode(key))),
        SlowPathEvent::Sync(sync) => Some(InputCall::Keyboard(KeyboardInput::Sync(sync))),
        SlowPathEvent::Mouse(mouse) => Some(InputCall::Mouse(MouseInput::Mouse(mouse))),
        SlowPathEvent::MouseX(mouse) => Some(InputCall::Mouse(MouseInput::MouseX(mouse))),
        SlowPathEvent::MouseRel(mouse) => Some(InputCall::Mouse(MouseInput::MouseRel(mouse))),
        SlowPathEvent::Unused => None,
    }
}

/// What the input handler is told of fast-path events, in order.
pub open spec fn fast_path_calls(events: Seq<FastPathInputEvent>) -> Seq<InputCall>
    decreases events.len(),
{
    if events.len() == 0 {
        Seq::empty()
    } else {
        let before = fast_path_calls(events.drop_last());
        match fast_path_call(fast_path_event(events.last())) {
            Some(call) => before.push(call),
            None => before,
        }
    }
}

/// What the input handler is told of slow-path events, in order.
pub open spec fn slow_path_calls(events: Seq<InputEvent>) -> Seq<InputCall>
    decreases events.len(),
{
    if events.len() == 0 {
        Seq::empty()
    } else {
        let before = slow_path_calls(events.drop_last());
        match slow_path_call(slow_path_event(events.last())) {
            Some(call) => before.push(call),
            None => before,
        }
    }
}

/// What the input handler is told of one fast-path event.
pub fn fast_path_to_call(event: FastPathEvent) -> (call: Option<InputCall>)
    ensures
        call == fast_path_call(event),
{
    match event {
        FastPathEvent::Keyboard(flags, key) => Some(
            InputCall::Keyboard(KeyboardInput::FastPath(key, flags)),
        ),
        FastPathEvent::UnicodeKeyboard(flags, key) => Some(
            InputCall::Keyboard(KeyboardInput::FastPathUnicode(key, flags)),
        ),
        FastPathEvent::Sync(flags) => Some(InputCall::Keyboard(KeyboardInput::FastPathSync(flags))),
        FastPathEvent::Mouse(mouse) => Some(InputCall::Mouse(MouseInput::Mouse(mouse))),
        FastPathEvent::MouseX(mouse) => Some(InputCall::Mouse(MouseInput::MouseX(mouse))),
        FastPathEvent::MouseRel(mouse) => Some(InputCall::Mouse(MouseInput::MouseRel(mouse))),
        FastPathEvent::Qoe(_) => None,
    }
}

/// What the input handler is told of one slow-path event.
pub fn slow_path_to_call(event: SlowPathEvent) -> (call: Option<InputCall>)
    ensures
        call == slow_path_call(event),
{
    match event {
        SlowPathEvent::ScanCode(key) => Some(InputCall::Keyboard(KeyboardInput::ScanCode(key))),
        SlowPathEvent::Unicode(key) => Some(InputCall::Keyboard(KeyboardInput::Unicode(key))),
        SlowPathEvent::Sync(sync) => Some(InputCall::Keyboard(KeyboardInput::Sync(sync))),
        SlowPathEvent::Mouse(mouse) => Some(InputCall::Mouse(MouseInput::Mouse(mouse))),
        SlowPathEvent::MouseX(mouse) => Some(InputCall::Mouse(MouseInput::MouseX(mouse))),
        SlowPathEvent::MouseRel(mouse) => Some(InputCall::Mouse(MouseInput::MouseRel(mouse))),
        SlowPathEvent::Unused => None,
    }
}

/// What the input handler is told of fast-path bytes.
pub fn handle_fastpath(bytes: &[u8]) -> (calls: Result<Vec<InputCall>, ServerError>)
    requires
        header_fits(bytes@),
    ensures
        match calls {
            Ok(calls) => fast_path_input(bytes@) matches Some(events) && calls@ == fast_path_calls(
                events,
            ),
            Err(error) => fast_path_input(bytes@) is None && error == ServerError::Decode,
        },
{
    let events: Vec<FastPathInputEvent> = match decode_fast_path(bytes) {
        Ok(events) => events,
        Err(_) => return Err(ServerError::Decode),
    };
    let ghost all = events@;
    let mut calls: Vec<InputCall> = Vec::new();
    let ghost mut n: int = 0;
    assert(all.take(0) =~= Seq::empty());
    for event in it: events
        invariant
            it.seq() == all,
            n == it.index(),
            calls@ == fast_path_calls(all.take(n)),
    {
        assert(all.take(n + 1).drop_last() =~= all.take(n));
        if let Some(call) = fast_path_to_call(kind_of_fast_path(event)) {
            calls.push(call);
        }
        proof {
            n = n + 1;
        }
    }
    assert(all.take(n) =~= all);
    Ok(calls)
}

/// What the input handler is told of slow-path events.
pub fn handle_input_event(events: Vec<InputEvent>) -> (calls: Vec<InputCall>)
    ensures
        calls@ == slow_path_calls(events@),
{
    let ghost all = events@;
    let mut calls: Vec<InputCall> = Vec::new();
    let ghost mut n: int = 0;
    assert(all.take(0) =~= Seq::empty());
    for event in it: events
        invariant
            it.seq() == all,
            n == it.index(),
            calls@ == slow_path_calls(all.take(n)),
    {
        assert(all.take(n + 1).drop_last() =~= all.take(n));
        if let Some(call) = slow_path_to_call(kind_of_slow_path(event)) {
            calls.push(call);
        }
        proof {
            n = n + 1;
        }
    }
    assert(all.take(n) =~= all);
    calls
}

/// What comes of a message: what the input handler is told, what is sent in
/// return, and whether the client leaves.
#[derive(Debug)]
pub struct Received {
    pub calls: Vec<InputCall>,
    pub reply: Option<Vec<u8>>,
    pub leaves: bool,
}

/// What comes of a message.
pub struct ReceivedView {
    pub calls: Seq<InputCall>,
    pub reply: Option<Seq<u8>>,
    pub leaves: bool,
}

impl View for Received {
    type V = ReceivedView;

    open spec fn view(&self) -> ReceivedView {
        ReceivedView {
            calls: self.calls@,
            reply: match self.reply {
                Some(bytes) => Some(bytes@),
                None => None,
            },
            leaves: self.leaves,
        }
    }
}

/// Nothing comes of a message but input.
pub open spec fn told(calls: Seq<InputCall>) -> ReceivedView {
    ReceivedView { calls, reply: None, leaves: false }
}

/// Nothing comes of a message.
pub open spec fn nothing() -> ReceivedView {
    told(Seq::empty())
}

/// The client leaves.
pub open spec fn leaving() -> ReceivedView {
    ReceivedView { calls: Seq::empty(), reply: None, leaves: true }
}

/// What comes of a message on the session's channel.
pub open spec fn shared(message: ShareView) -> ReceivedView {
    match message {
        ShareView::Input(events) => told(slow_path_calls(events)),
        ShareView::ShutdownRequest => leaving(),
        ShareView::Other => nothing(),
    }
}

/// What comes of a message that says `message`.
pub fn share_outcome(message: ShareEvent) -> (received: Received)
    ensures
        received@ == shared(message@),
{
    let received = match message {
        ShareEvent::Input(events) => Received {
            calls: handle_input_event(events),
            reply: None,
            leaves: false,
        },
        ShareEvent::ShutdownRequest => Received { calls: Vec::new(), reply: None, leaves: true },
        ShareEvent::Other => Received { calls: Vec::new(), reply: None, leaves: false },
    };
    assert(received@.calls =~= shared(message@).calls);
    received
}

/// What comes of bytes on the session's channel.
pub fn handle_io_channel_data(data: &[u8]) -> (outcome: Result<Received, ServerError>)
    ensures
        match outcome {
            Ok(received) => share_message(data@) matches Some(message) && received@ == shared(
                message,
            ),
            Err(error) => share_message(data@) is None && error == ServerError::Decode,
        },
{
    match decode_share(data) {
        Ok(message) => Ok(share_outcome(message)),
        Err(_) => Err(ServerError::Decode),
    }
}

/// The message of the multipoint layer that bytes hold.
pub(crate) fn read_mcs(frame: &[u8]) -> (message: Result<McsEvent, ServerError>)
    ensures
        match message {
            Ok(event) => mcs_message(frame@) == Some(event@),
            Err(error) => mcs_message(frame@) is None && error == ServerError::Decode,
        },
{
    match decode_mcs(frame) {
        Ok(event) => Ok(event),
        Err(_) => Err(ServerError::Decode),
    }
}

/// Whether the length in a fast-path header covers at least the header itself.
pub fn fast_path_header_fits(bytes: &[u8]) -> (fits: bool)
    ensures
        fits == header_fits(bytes@),
{
    if bytes.len() < 2 || bytes[0] >= 64 {
        return true;
    }
    let long: bool = bytes[1] >= 128;
    let header: usize = (if long {
        3
    } else {
        2
    }) + (if bytes[0] < 4 {
        1
    } else {
        0
    });
    if bytes.len() < header {
        return true;
    }
    let length: usize = if long {
        (bytes[1] - 128) as usize * 256 + bytes[2] as usize
    } else {
        bytes[1] as usize
    };
    length >= header
}

/// `ironrdp_ainput::CHANNEL_NAME`: the name of the channel.
#[verifier::external_body]
fn advanced_channel_name() -> (name: &'static str)
    ensures
        name@ == "FreeRDP::Advanced::Input"@,
{
    ironrdp_ainput::CHANNEL_NAME
}

/// The bytes that a message of the advanced input channel is sent as.
pub uninterp spec fn advanced_bytes(pdu: ServerPdu) -> Seq<u8>;

/// `VersionPdu::default`, as a message: version 1.0.
#[verifier::external_body]
fn advanced_version() -> (pdu: ServerPdu)
    ensures
        advanced_bytes(pdu) == seq![1u8, 0, 1, 0, 0, 0, 0, 0, 0, 0],
{
    ServerPdu::Version(VersionPdu::default())
}

/// The server's end of the advanced input channel.
#[derive(Debug)]
pub struct AInputHandler {}

impl AInputHandler {
    /// The name of the channel.
    pub fn channel_name(&self) -> (name: &'static str)
        ensures
            name@ == "FreeRDP::Advanced::Input"@,
    {
        advanced_channel_name()
    }

    /// What to send when the channel opens: the version.
    pub fn start(&mut self, channel_id: u32) -> (messages: Vec<ServerPdu>)
        ensures
            messages@.len() == 1,
            advanced_bytes(messages@[0]) == seq![1u8, 0, 1, 0, 0, 0, 0, 0, 0, 0],
    {
        let mut messages: Vec<ServerPdu> = Vec::new();
        messages.push(advanced_version());
        messages
    }

    /// What the input handler is told of received bytes. There is nothing to
    /// send in return.
    pub fn process(&mut self, channel_id: u32, payload: &[u8]) -> (call: Result<
        InputCall,
        ServerError,
    >)
        ensures
            call == match advanced_mouse(payload@) {
                Some(mouse) => Ok(InputCall::Mouse(MouseInput::Advanced(mouse))),
                None => Err(ServerError::Decode),
            },
    {
        match decode_advanced(payload) {
            Ok(mouse) => Ok(InputCall::Mouse(MouseInput::Advanced(mouse))),
            Err(_) => Err(ServerError::Decode),
        }
    }
}

/// The input handler is told of events one by one: of a list cut in two, first
/// of the one part and then of the other.
pub proof fn input_keeps_its_order(a: Seq<FastPathInputEvent>, b: Seq<FastPathInputEvent>)
    ensures
        fast_path_calls(a + b) == fast_path_calls(a) + fast_path_calls(b),
    decreases b.len(),
{
    if b.len() == 0 {
        assert(a + b =~= a);
        assert(fast_path_calls(a) + fast_path_calls(b) =~= fast_path_calls(a));
    } else {
        input_keeps_its_order(a, b.drop_last());
        assert((a + b).drop_last() =~= a + b.drop_last());
        assert(fast_path_calls(a + b) =~= fast_path_calls(a) + fast_path_calls(b));
    }
}

/// What the handler is told of a fast-path event is the event itself: the key with
/// its flags, the toggle keys or the mouse event, as they came. It is told of all
/// events but those that only say how well the client keeps up.
pub proof fn fast_path_input_is_told_as_it_came(
    event: FastPathEvent,
    key: u8,
    unit: u16,
    flags: ironrdp_pdu::input::fast_path::KeyboardFlags,
    toggles: ironrdp_pdu::input::fast_path::SynchronizeFlags,
    mouse: MousePdu,
    x: MouseXPdu,
    rel: MouseRelPdu,
)
    ensures
        ({
            let call = fast_path_call(event);
            &&& call is None <==> event is Qoe
            &&& call == Some(InputCall::Keyboard(KeyboardInput::FastPath(key, flags))) <==> event
                == FastPathEvent::Keyboard(flags, key)
            &&& call == Some(InputCall::Keyboard(KeyboardInput::FastPathUnicode(unit, flags)))
                <==> event == FastPathEvent::UnicodeKeyboard(flags, unit)
            &&& call == Some(InputCall::Keyboard(KeyboardInput::FastPathSync(toggles))) <==> event
                == FastPathEvent::Sync(toggles)
            &&& call == Some(InputCall::Mouse(MouseInput::Mouse(mouse))) <==> event
                == FastPathEvent::Mouse(mouse)
            &&& call == Some(InputCall::Mouse(MouseInput::MouseX(x))) <==> event
                == FastPathEvent::MouseX(x)
            &&& call == Some(InputCall::Mouse(MouseInput::MouseRel(rel))) <==> event
                == FastPathEvent::MouseRel(rel)
        }),
{
}

/// The same of slow-path events.
pub proof fn slow_path_input_is_told_as_it_came(
    event: SlowPathEvent,
    key: ScanCodePdu,
    unit: UnicodePdu,
    toggles: SyncPdu,
    mouse: MousePdu,
    x: MouseXPdu,
    rel: MouseRelPdu,
)
    ensures
        ({
            let call = slow_path_call(event);
            &&& call is None <==> event is Unused
            &&& call == Some(InputCall::Keyboard(KeyboardInput::ScanCode(key))) <==> event
                == SlowPathEvent::ScanCode(key)
            &&& call == Some(InputCall::Keyboard(KeyboardInput::Unicode(unit))) <==> event
                == SlowPathEvent::Unicode(unit)
            &&& call == Some(InputCall::Keyboard(KeyboardInput::Sync(toggles))) <==> event
                == SlowPathEvent::Sync(toggles)
            &&& call == Some(InputCall::Mouse(MouseInput::Mouse(mouse))) <==> event
                == SlowPathEvent::Mouse(mouse)
            &&& call == Some(InputCall::Mouse(MouseInput::MouseX(x))) <==> event
                == SlowPathEvent::MouseX(x)
            &&& call == Some(InputCall::Mouse(MouseInput::MouseRel(rel))) <==> event
                == SlowPathEvent::MouseRel(rel)
        }),
{
}

/// Of slow-path events too the handler is told one by one, in order.
pub proof fn slow_input_keeps_its_order(a: Seq<InputEvent>, b: Seq<InputEvent>)
    ensures
        slow_path_calls(a + b) == slow_path_calls(a) + slow_path_calls(b),
    decreases b.len(),
{
    if b.len() == 0 {
        assert(a + b =~= a);
        assert(slow_path_calls(a) + slow_path_calls(b) =~= slow_path_calls(a));
    } else {
        slow_input_keeps_its_order(a, b.drop_last());
        assert((a + b).drop_last() =~= a + b.drop_last());
        assert(slow_path_calls(a + b) =~= slow_path_calls(a) + slow_path_calls(b));
    }
}

/// Of each single event the handler is told once, where it is told of such events.
pub proof fn each_event_is_told_once(fast: FastPathInputEvent, slow: InputEvent)
    ensures
        fast_path_calls(seq![fast]) == match fast_path_call(fast_path_event(fast)) {
            Some(call) => seq![call],
            None => Seq::empty(),
        },
        slow_path_calls(seq![slow]) == match slow_path_call(slow_path_event(slow)) {
            Some(call) => seq![call],
            None => Seq::empty(),
        },
{
    assert(seq![fast].drop_last() =~= Seq::empty());
    assert(seq![slow].drop_last() =~= Seq::empty());
    reveal_with_fuel(fast_path_calls, 2);
    reveal_with_fuel(slow_path_calls, 2);
    assert(fast_path_calls(seq![fast]) =~= match fast_path_call(fast_path_event(fast)) {
        Some(call) => seq![call],
        None => Seq::empty(),
    });
    assert(slow_path_calls(seq![slow]) =~= match slow_path_call(slow_path_event(slow)) {
        Some(call) => seq![call],
        None => Seq::empty(),
    });
}

/// On the session's channel a client leaves just by asking for it, and is heard
/// just by its input. Nothing is sent in return.
pub proof fn session_messages_do_one_thing(message: ShareView)
    ensures
        shared(message).leaves <==> message is ShutdownRequest,
        shared(message).reply is None,
        message matches ShareView::Input(events) ==> shared(message).calls == slow_path_calls(
            events,
        ),
        !(message is Input) ==> shared(message).calls.len() == 0,
{
}

/// A fast-path header with a length in one byte covers itself with two bytes, or
/// three where it counts its events apart; with a length in two bytes, with one
/// byte more.
pub proof fn headers_cover_themselves(bytes: Seq<u8>)
    requires
        bytes.len() >= 4,
        bytes[0] < 64,
    ensures
        bytes[1] < 128 && bytes[0] >= 4 ==> (header_fits(bytes) <==> bytes[1] >= 2),
        bytes[1] < 128 && bytes[0] < 4 ==> (header_fits(bytes) <==> bytes[1] >= 3),
        bytes[1] > 128 ==> header_fits(bytes),
        bytes[1] == 128 && bytes[0] >= 4 ==> (header_fits(bytes) <==> bytes[2] >= 3),
        bytes[1] == 128 && bytes[0] < 4 ==> (header_fits(bytes) <==> bytes[2] >= 4),
{
}

/// What came of a message says what its fields hold.
pub proof fn outcomes_say_what_they_hold(received: Received)
    ensures
        received@.calls == received.calls@,
        received@.leaves == received.leaves,
        received@.reply is Some <==> received.reply is Some,
        received.reply matches Some(bytes) ==> received@.reply == Some(bytes@),
{
}

} // verus!
