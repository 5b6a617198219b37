use std::any::{Any, TypeId};
use std::collections::VecDeque;

use ironrdp_ainput::{ClientPdu, MouseEventFlags};
use ironrdp_cliprdr::backend::CliprdrBackend;
use ironrdp_cliprdr::pdu::{
    ClipboardFormat, ClipboardFormatId, ClipboardFormatName, ClipboardGeneralCapabilityFlags,
    ClipboardPdu, FileContentsResponse, FormatDataRequest, FormatDataResponse, FormatList,
    LockDataId,
};
use ironrdp_cliprdr::CliprdrServer;
use ironrdp_core::{decode, encode_vec, AsAny, Encode};
use ironrdp_dvc::DrdynvcServer;
use ironrdp_pdu::gcc::ChannelName;
use ironrdp_pdu::input::fast_path::{
    FastPathInput, FastPathInputEvent, KeyboardFlags, SynchronizeFlags,
};
use ironrdp_pdu::input::mouse::PointerFlags;
use ironrdp_pdu::input::mouse_rel::PointerRelFlags;
use ironrdp_pdu::input::mouse_x::PointerXFlags;
use ironrdp_pdu::input::sync::SyncToggleFlags;
use ironrdp_pdu::input::{
    InputEvent, InputEventPdu, MousePdu, MouseRelPdu, MouseXPdu, ScanCodePdu, SyncPdu, UnicodePdu,
};
use ironrdp_pdu::mcs::{
    DisconnectProviderUltimatum, DisconnectReason, McsMessage, SendDataIndication, SendDataRequest,
};
use ironrdp_pdu::rdp::client_info::{CompressionType, Credentials};
use ironrdp_pdu::rdp::headers::{
    CompressionFlags, ShareControlHeader, ShareControlPdu, ShareDataHeader, ShareDataPdu,
    StreamPriority,
};
use ironrdp_pdu::x224::X224;
use ironrdp_pdu::PduResult;
use ironrdp_rdpsnd::pdu::{
    AudioFormat, AudioFormatFlags, ClientAudioFormatPdu, ClientAudioOutputPdu, QualityMode,
    QualityModePdu, TrainingConfirmPdu, Version, WaveFormat,
};
use ironrdp_rdpsnd::server::{RdpsndServer, RdpsndServerHandler};
use ironrdp_svc::{StaticChannelSet, SvcMessage, SvcProcessor};
use macrdp::channels::{encode_cliprdr_pdu, encode_messages, ChannelKind, FileContentsRequest};
use macrdp::client_input::{
    fast_path_header_fits, handle_fastpath, handle_input_event, handle_io_channel_data,
    AInputHandler, InputCall, KeyboardInput, MouseInput,
};
use macrdp::disconnect::{send_graceful_disconnect, ErrorCode};
use macrdp::errors::ServerError;
use macrdp::negotiation::{RdpServerOptions, RdpServerSecurity, ServerAddr};
use macrdp::server::{
    state_after, Action, BatchStep, ClipboardMessage, DynamicChannel, EventBatch, EventOutcome,
    RdpServer, RunState, ServerEvent, SoundMessage, StartChannel, WAVE_LIMIT,
};

const IO: u16 = 1003;
const USER: u16 = 1002;
const SOUND: u16 = 1004;
const CLIPBOARD: u16 = 1005;
const DYNAMIC: u16 = 1006;

#[derive(Debug)]
struct Sound {
    formats: Vec<AudioFormat>,
    agreed: Option<u16>,
}

impl RdpsndServerHandler for Sound {
    fn get_formats(&self) -> &[AudioFormat] {
        &self.formats
    }

    fn start(&mut self, _client_format: &ClientAudioFormatPdu) -> Option<u16> {
        self.agreed
    }

    fn stop(&mut self) {}
}

#[derive(Debug)]
struct Clipboard;

impl AsAny for Clipboard {
    fn as_any(&self) -> &dyn Any {
        self
    }

    fn as_any_mut(&mut self) -> &mut dyn Any {
        self
    }
}

impl CliprdrBackend for Clipboard {
    fn temporary_directory(&self) -> &str {
        "/"
    }

    fn client_capabilities(&self) -> ClipboardGeneralCapabilityFlags {
        ClipboardGeneralCapabilityFlags::empty()
    }

    fn on_ready(&mut self) {}

    fn on_request_format_list(&mut self) {}

    fn on_process_negotiated_capabilities(&mut self, _: ClipboardGeneralCapabilityFlags) {}

    fn on_remote_copy(&mut self, _: &[ClipboardFormat]) {}

    fn on_format_data_request(&mut self, _: FormatDataRequest) {}

    fn on_format_data_response(&mut self, _: FormatDataResponse<'_>) {}

    fn on_file_contents_request(&mut self, _: ironrdp_cliprdr::pdu::FileContentsRequest) {}

    fn on_file_contents_response(&mut self, _: FileContentsResponse<'_>) {}

    fn on_lock(&mut self, _: LockDataId) {}

    fn on_unlock(&mut self, _: LockDataId) {}
}

fn options() -> RdpServerOptions {
    RdpServerOptions {
        addr: ServerAddr::V4 { ip: 0x7F00_0001, port: 0 },
        security: RdpServerSecurity::Unsecured,
        codecs: vec![],
    }
}

fn format() -> AudioFormat {
    AudioFormat {
        format: WaveFormat::PCM,
        n_channels: 2,
        n_samples_per_sec: 44100,
        n_avg_bytes_per_sec: 176400,
        n_block_align: 4,
        bits_per_sample: 16,
        data: None,
    }
}

/// A channel that the server does not offer.
#[derive(Debug)]
struct Other;

impl AsAny for Other {
    fn as_any(&self) -> &dyn Any {
        self
    }

    fn as_any_mut(&mut self) -> &mut dyn Any {
        self
    }
}

impl SvcProcessor for Other {
    fn channel_name(&self) -> ChannelName {
        ChannelName::from_static(b"other\0\0\0")
    }

    fn process(&mut self, _payload: &[u8]) -> PduResult<Vec<SvcMessage>> {
        Ok(Vec::new())
    }
}

fn bare_server() -> RdpServer {
    RdpServer::new(options(), false, false)
}

/// A server whose sound backend agrees on format 7, with all channels.
fn server() -> RdpServer {
    let mut server = RdpServer::new(options(), true, true);
    let mut set = StaticChannelSet::new();
    let sound = Sound { formats: vec![format()], agreed: Some(7) };
    set.insert(RdpsndServer::new(Box::new(sound)));
    set.attach_channel_id(TypeId::of::<RdpsndServer>(), SOUND);
    set.insert(CliprdrServer::new(Box::new(Clipboard)));
    set.attach_channel_id(TypeId::of::<CliprdrServer>(), CLIPBOARD);
    set.insert(DrdynvcServer::new());
    set.attach_channel_id(TypeId::of::<DrdynvcServer>(), DYNAMIC);
    server.static_channels = set;
    server
}

/// A message from the client for a channel.
fn request(channel_id: u16, user_data: Vec<u8>) -> Vec<u8> {
    encode_vec(&X224(SendDataRequest {
        initiator_id: USER,
        channel_id,
        user_data: user_data.into(),
    }))
    .unwrap()
}

/// A message in one piece from the client for a static channel.
fn piece(channel_id: u16, payload: Vec<u8>) -> Vec<u8> {
    let mut data = (payload.len() as u32).to_le_bytes().to_vec();
    data.extend([3, 0, 0, 0]);
    data.extend(payload);
    request(channel_id, data)
}

/// The channel, flags and payload of a message from the server.
fn unframed(bytes: &[u8]) -> (u16, u32, Vec<u8>) {
    let message: X224<SendDataIndication<'_>> = decode(bytes).unwrap();
    let data = message.0.user_data.to_vec();
    assert_eq!(message.0.initiator_id, USER);
    let length = u32::from_le_bytes(data[..4].try_into().unwrap());
    let flags = u32::from_le_bytes(data[4..8].try_into().unwrap());
    assert_eq!(length as usize, data.len() - 8);
    (message.0.channel_id, flags, data[8..].to_vec())
}

fn reply(server: &mut RdpServer, frame: &[u8]) -> Vec<u8> {
    let received = server.handle_x224(IO, USER, frame).unwrap();
    assert!(received.calls.is_empty() && !received.leaves);
    received.reply.unwrap()
}

/// Lets a client of some version come up to the point where it takes sound.
fn shake_hands(server: &mut RdpServer, version: Version, flags: AudioFormatFlags) {
    announce(server, version, flags);
    let confirm = ClientAudioOutputPdu::TrainingConfirm(TrainingConfirmPdu {
        timestamp: 4231,
        pack_size: 0,
    });
    assert!(reply(server, &piece(SOUND, encode_vec(&confirm).unwrap())).is_empty());
}

/// Lets a client announce its version. No sound format is agreed on yet.
fn announce(server: &mut RdpServer, version: Version, flags: AudioFormatFlags) {
    let sound = StartChannel { channel: TypeId::of::<RdpsndServer>(), number: SOUND };
    let greeting = server.start_channel(sound, USER).unwrap().unwrap();
    assert_eq!(unframed(&greeting).2[0], 7);
    let formats = ClientAudioOutputPdu::AudioFormat(ClientAudioFormatPdu {
        version,
        flags,
        formats: vec![format()],
        volume_left: 0,
        volume_right: 0,
        pitch: 0,
        dgram_port: 0,
    });
    let mut training = reply(server, &piece(SOUND, encode_vec(&formats).unwrap()));
    if version >= Version::V6 {
        assert!(training.is_empty());
        let quality = ClientAudioOutputPdu::QualityMode(QualityModePdu {
            quality_mode: QualityMode::High,
        });
        training = reply(server, &piece(SOUND, encode_vec(&quality).unwrap()));
    }
    assert_eq!(unframed(&training).2, vec![6, 0, 4, 0, 0x87, 0x10, 0, 0]);
}

/// Lets the client say what is on its clipboard.
fn open_clipboard(server: &mut RdpServer) {
    let list = FormatList::new_unicode(&[ClipboardFormat::new(ClipboardFormatId(1))], true);
    let pdu = ClipboardPdu::FormatList(list.unwrap());
    let answer = reply(server, &piece(CLIPBOARD, encode_vec(&pdu).unwrap()));
    assert_eq!(unframed(&answer), (CLIPBOARD, 0x13, vec![3, 0, 1, 0, 0, 0, 0, 0]));
}

fn take(server: &mut RdpServer, event: ServerEvent) -> Result<EventOutcome, ServerError> {
    let mut waves: u32 = WAVE_LIMIT;
    server.try_dispatch_server_event(event, &mut waves, IO, USER).unwrap()
}

fn written(server: &mut RdpServer, event: ServerEvent) -> (u16, u32, Vec<u8>) {
    match take(server, event).unwrap() {
        EventOutcome::Write(bytes) => unframed(&bytes),
        other => panic!("{:?}", other),
    }
}

fn wave(data: &[u8], time: u32) -> ServerEvent {
    ServerEvent::Rdpsnd(SoundMessage::Wave(data.to_vec(), time))
}

fn mouse() -> MousePdu {
    MousePdu {
        flags: PointerFlags::MOVE,
        number_of_wheel_rotation_units: 0,
        x_position: 10,
        y_position: 20,
    }
}

fn share_data(pdu: ShareDataPdu) -> Vec<u8> {
    encode_vec(&ShareControlHeader {
        share_id: 1,
        pdu_source: USER,
        share_control_pdu: ShareControlPdu::Data(ShareDataHeader {
            share_data_pdu: pdu,
            stream_priority: StreamPriority::Medium,
            compression_flags: CompressionFlags::empty(),
            compression_type: CompressionType::K8,
        }),
    })
    .unwrap()
}

fn ultimatum(reason: DisconnectReason) -> Vec<u8> {
    encode_vec(&X224(McsMessage::DisconnectProviderUltimatum(
        DisconnectProviderUltimatum::from_reason(reason),
    )))
    .unwrap()
}

#[test]
fn takeover_event_is_distinct_variant() {
    let event = ServerEvent::Takeover;
    assert!(matches!(event, ServerEvent::Takeover));
    let debug = format!("{:?}", event);
    assert!(debug.contains("Takeover"));
}

#[test]
fn takeover_event_delivered_via_channel() {
    let (tx, mut rx) = tokio::sync::mpsc::unbounded_channel();
    tx.send(ServerEvent::Takeover).unwrap();
    let event = rx.blocking_recv().unwrap();
    assert!(matches!(event, ServerEvent::Takeover));
}

#[test]
fn new_servers_offer_graphics_for_one_monitor() {
    let mut server = RdpServer::new(options(), true, false);
    assert!(server.creds.is_none() && server.local_addr.is_none());
    let plan = server.attach_channels();
    assert!(plan.sound && !plan.clipboard);
    assert_eq!(
        plan.dynamic,
        vec![
            DynamicChannel::AdvancedInput,
            DynamicChannel::DisplayControl { max_monitors: 1 },
            DynamicChannel::Graphics,
        ]
    );
    server.set_gfx_enabled(false);
    server.set_max_monitors(3);
    assert_eq!(
        server.attach_channels().dynamic,
        vec![DynamicChannel::AdvancedInput, DynamicChannel::DisplayControl { max_monitors: 3 }]
    );
}

#[test]
fn channels_have_numbers_until_they_are_reset() {
    let mut server = server();
    assert_eq!(server.get_channel_id_by_type(ChannelKind::Sound), Some(SOUND));
    assert_eq!(server.get_channel_id_by_type(ChannelKind::Clipboard), Some(CLIPBOARD));
    assert_eq!(server.get_channel_id_by_type(ChannelKind::Dynamic), Some(DYNAMIC));
    server.reset_channels();
    assert_eq!(server.get_channel_id_by_type(ChannelKind::Sound), None);
    assert_eq!(server.get_channel_id_by_type(ChannelKind::Dynamic), None);
}

#[test]
fn channels_start_once() {
    let set = server().static_channels;
    let mut server = bare_server();
    let mut start = server.take_channels(set, false);
    start.sort_by_key(|start| start.number);
    assert_eq!(
        start,
        vec![
            StartChannel { channel: TypeId::of::<RdpsndServer>(), number: SOUND },
            StartChannel { channel: TypeId::of::<CliprdrServer>(), number: CLIPBOARD },
            StartChannel { channel: TypeId::of::<DrdynvcServer>(), number: DYNAMIC },
        ]
    );
    let set = std::mem::take(&mut server.static_channels);
    assert!(server.take_channels(set, true).is_empty());
    assert_eq!(server.get_channel_id_by_type(ChannelKind::Sound), Some(SOUND));

    let mut set = StaticChannelSet::new();
    set.insert(DrdynvcServer::new());
    assert!(server.take_channels(set, false).is_empty());
}

#[test]
fn channels_with_one_number_start_each() {
    let mut set = server().static_channels;
    set.attach_channel_id(TypeId::of::<CliprdrServer>(), DYNAMIC);
    set.attach_channel_id(TypeId::of::<DrdynvcServer>(), DYNAMIC);
    let mut server = bare_server();
    let mut first = Vec::new();
    for start in server.take_channels(set, false) {
        let greeting = server.start_channel(start, USER).unwrap().unwrap();
        let length = u16::from_be_bytes([greeting[2], greeting[3]]) as usize;
        let (channel, _, payload) = unframed(&greeting[..length]);
        assert_eq!(channel, start.number);
        first.push((channel, payload[0]));
    }
    first.sort();
    assert_eq!(first, vec![(SOUND, 7), (DYNAMIC, 7), (DYNAMIC, 0x50)]);
}

#[test]
fn other_channels_are_noticed() {
    let mut server = server();
    assert!(server.has_known_channels());
    let dynamic = StartChannel { channel: TypeId::of::<DrdynvcServer>(), number: DYNAMIC };
    let leave = ultimatum(DisconnectReason::UserRequested);
    assert!(server.try_start_channel(dynamic, USER).unwrap().unwrap().is_some());
    assert!(server.try_dispatch_pdu(Action::X224, &leave, IO, USER).unwrap().unwrap().leaves);
    assert!(server.try_handle_input_backlog(&leave, IO, USER).unwrap().is_ok());
    assert!(server.try_handle_input_backlog(&[], IO, USER).is_none());
    assert!(server.try_handle_input_backlog(&[1], IO, USER).is_none());
    assert!(server.try_handle_input_backlog(&[0, 0, 0], IO, USER).is_none());
    assert!(server.try_dispatch_pdu(Action::FastPath, &[0, 0, 0], IO, USER).is_none());

    server.static_channels.insert(Other);
    assert!(!server.has_known_channels());
    assert!(server.try_start_channel(dynamic, USER).is_none());
    assert!(server.try_dispatch_pdu(Action::X224, &leave, IO, USER).is_none());
    assert!(server.try_handle_input_backlog(&leave, IO, USER).is_none());
    server.reset_channels();
    assert!(server.has_known_channels());
}

#[test]
fn graphics_messages_write_their_bytes() {
    let pdu = macrdp::gfx_channel::RawGfxPdu { data: vec![4, 5, 6] };
    assert_eq!((pdu.size(), pdu.name()), (3, "RawGfxPdu"));
    let mut bytes = [0u8; 5];
    let mut cursor = ironrdp_core::WriteCursor::new(&mut bytes);
    assert!(pdu.encode(&mut cursor).is_ok());
    assert_eq!(cursor.len(), 2);
    assert!(pdu.encode(&mut cursor).is_err());
    assert_eq!(cursor.len(), 2);
    assert_eq!(bytes, [4, 5, 6, 0, 0]);
}

#[test]
fn channels_greet_when_they_start() {
    let mut server = server();
    let other = StartChannel { channel: TypeId::of::<Other>(), number: DYNAMIC };
    assert_eq!(server.start_channel(other, USER), Ok(None));
    let dynamic = StartChannel { channel: TypeId::of::<DrdynvcServer>(), number: DYNAMIC };
    let greeting = server.start_channel(dynamic, USER).unwrap().unwrap();
    assert_eq!(unframed(&greeting), (DYNAMIC, 0x13, vec![0x50, 0, 1, 0]));
    assert_eq!(server.start_channel(dynamic, 1000), Err(ServerError::Encode));
}

#[test]
fn sound_waits_for_the_client() {
    let mut server = server();
    assert!(matches!(take(&mut server, wave(&[1, 2], 5)), Ok(EventOutcome::Nothing)));
    assert_eq!(
        take(&mut server, ServerEvent::Rdpsnd(SoundMessage::SetVolume { left: 1, right: 2 }))
            .unwrap_err(),
        ServerError::SoundEvent
    );
    assert_eq!(
        written(&mut server, ServerEvent::Rdpsnd(SoundMessage::Close)),
        (SOUND, 3, vec![1, 0, 0, 0])
    );
}

#[test]
fn sound_is_numbered_in_turn() {
    let mut server = server();
    shake_hands(&mut server, Version::V8, AudioFormatFlags::ALIVE);
    for block in 0..300u32 {
        let expected =
            vec![13, 0, 14, 0, 0, 0, 7, 0, block as u8, 0, 0, 0, 0x44, 0x33, 0x22, 0x11, 8, 9];
        assert_eq!(
            written(&mut server, wave(&[8, 9], 0x1122_3344)),
            (SOUND, 3, expected)
        );
    }
}

#[test]
fn sound_for_old_clients_is_cut_after_four_bytes() {
    let mut server = server();
    shake_hands(&mut server, Version::V5, AudioFormatFlags::ALIVE | AudioFormatFlags::VOLUME);
    assert_eq!(
        written(&mut server, wave(&[1, 2, 3, 4, 5], 9)),
        (SOUND, 3, vec![2, 0, 13, 0, 0, 0, 7, 0, 0, 0, 0, 0, 1, 2, 3, 4, 0, 0, 0, 0, 5])
    );
    let mut waves: u32 = 0;
    let event = wave(&[1, 2, 3], 9);
    let outcome = server.try_dispatch_server_event(event, &mut waves, IO, USER);
    assert!(matches!(outcome, Some(Ok(EventOutcome::Nothing))));
    let mut waves: u32 = 2;
    let event = wave(&[1, 2, 3], 9);
    assert!(server.try_dispatch_server_event(event, &mut waves, IO, USER).is_none());
    assert_eq!(waves, 1);
    let event = wave(&[1, 2, 3, 4], 9);
    match server.try_dispatch_server_event(event, &mut waves, IO, USER) {
        // The piece that could not be written has used up a number.
        Some(Ok(EventOutcome::Write(bytes))) => assert_eq!(unframed(&bytes).2[8], 2),
        other => panic!("{:?}", other),
    }
    assert_eq!(waves, 0);
    assert_eq!(
        written(
            &mut server,
            ServerEvent::Rdpsnd(SoundMessage::SetVolume { left: 0x102, right: 0x304 })
        ),
        (SOUND, 3, vec![3, 0, 4, 0, 2, 1, 4, 3])
    );
}

#[test]
fn sound_that_is_too_long_cannot_be_sent() {
    let mut server = server();
    shake_hands(&mut server, Version::V8, AudioFormatFlags::ALIVE);
    let longest = vec![1; 65535 - 12];
    assert!(matches!(take(&mut server, wave(&longest, 0)), Ok(EventOutcome::Write(_))));
    let too_long = vec![1; 65536 - 12];
    assert_eq!(take(&mut server, wave(&too_long, 0)).unwrap_err(), ServerError::Encode);
}

#[test]
fn channels_without_a_number_are_not_found() {
    let mut server = bare_server();
    let sound = Sound { formats: vec![], agreed: None };
    server.static_channels.insert(RdpsndServer::new(Box::new(sound)));
    assert_eq!(
        take(&mut server, ServerEvent::Rdpsnd(SoundMessage::Close)).unwrap_err(),
        ServerError::ChannelNotFound
    );
}

#[test]
fn events_for_missing_channels_are_dropped() {
    let mut server = bare_server();
    let contents = FileContentsResponse::new_data_response(3, vec![1, 2]);
    for event in [
        wave(&[1, 2], 3),
        ServerEvent::Rdpsnd(SoundMessage::Close),
        ServerEvent::Rdpsnd(SoundMessage::Error("lost".to_string())),
        ServerEvent::Clipboard(ClipboardMessage::SendInitiatePaste(1)),
        ServerEvent::ClipboardFileContents(contents),
    ] {
        assert!(matches!(take(&mut server, event), Ok(EventOutcome::Nothing)));
    }
    let request = FileContentsRequest {
        stream_id: 1,
        index: 2,
        flags: 1,
        position: 0,
        requested_size: 8,
        data_id: None,
    };
    assert_eq!(
        take(&mut server, ServerEvent::ClipboardFileContentsRequest(request)).unwrap_err(),
        ServerError::ChannelNotFound
    );
}

#[test]
fn clipboard_offers_formats_at_any_time() {
    let mut server = server();
    let formats = vec![ClipboardFormat::new(ClipboardFormatId(13))];
    let event = ServerEvent::Clipboard(ClipboardMessage::SendInitiateCopy(formats));
    assert_eq!(
        written(&mut server, event),
        (CLIPBOARD, 0x13, vec![2, 0, 0, 0, 6, 0, 0, 0, 13, 0, 0, 0, 0, 0])
    );
}

#[test]
fn clipboard_offers_formats_by_name() {
    let mut server = server();
    let formats = vec![
        ClipboardFormat::new(ClipboardFormatId(0xC001)).with_name(ClipboardFormatName::new("ab")),
        ClipboardFormat::new(ClipboardFormatId(1)),
    ];
    let event = ServerEvent::Clipboard(ClipboardMessage::SendInitiateCopy(formats));
    let payload = vec![
        2, 0, 0, 0, 16, 0, 0, 0, 1, 0xC0, 0, 0, b'a', 0, b'b', 0, 0, 0, 1, 0, 0, 0, 0, 0,
    ];
    assert_eq!(written(&mut server, event), (CLIPBOARD, 0x13, payload));
}

#[test]
fn clipboard_sends_data_once_it_is_ready() {
    let mut server = server();
    let events = || {
        vec![
            ServerEvent::Clipboard(ClipboardMessage::SendFormatData(
                FormatDataResponse::new_data(vec![5, 6]),
            )),
            ServerEvent::Clipboard(ClipboardMessage::SendInitiatePaste(0x0102_0304)),
            ServerEvent::ClipboardFileContents(FileContentsResponse::new_data_response(
                9,
                vec![7],
            )),
        ]
    };
    for event in events() {
        match take(&mut server, event) {
            Ok(EventOutcome::Write(bytes)) => assert!(bytes.is_empty()),
            other => panic!("{:?}", other),
        }
    }
    open_clipboard(&mut server);
    let expected = [
        vec![5, 0, 1, 0, 2, 0, 0, 0, 5, 6],
        vec![4, 0, 0, 0, 4, 0, 0, 0, 4, 3, 2, 1],
        vec![9, 0, 1, 0, 5, 0, 0, 0, 9, 0, 0, 0, 7],
    ];
    for (event, payload) in events().into_iter().zip(expected) {
        assert_eq!(written(&mut server, event), (CLIPBOARD, 0x13, payload));
    }
    let failed = ClipboardMessage::Error("lost".to_string());
    assert!(matches!(
        take(&mut server, ServerEvent::Clipboard(failed)),
        Ok(EventOutcome::Nothing)
    ));
}

#[test]
fn files_are_asked_for() {
    let mut server = server();
    let request = FileContentsRequest {
        stream_id: 1,
        index: 2,
        flags: 2,
        position: 0x1_0000_0003,
        requested_size: 4,
        data_id: Some(5),
    };
    let expected = vec![
        8, 0, 0, 0, 28, 0, 0, 0, 1, 0, 0, 0, 2, 0, 0, 0, 2, 0, 0, 0, 3, 0, 0, 0, 1, 0, 0, 0, 4, 0,
        0, 0, 5, 0, 0, 0,
    ];
    let event = ServerEvent::ClipboardFileContentsRequest(request);
    assert_eq!(written(&mut server, event), (CLIPBOARD, 0x13, expected));
    let bare = FileContentsRequest { data_id: None, ..request };
    let bytes = encode_messages(vec![encode_cliprdr_pdu(bare)], CLIPBOARD, USER).unwrap();
    assert_eq!(unframed(&bytes).2.len(), 32);
}

#[test]
fn sessions_end_where_the_server_quits_or_another_takes_over() {
    let mut server = server();
    match take(&mut server, ServerEvent::Quit("done".to_string())) {
        Ok(EventOutcome::Goodbye(messages)) => assert_eq!(
            messages,
            send_graceful_disconnect(IO, USER, ErrorCode::RpcInitiatedDisconnect)
        ),
        other => panic!("{:?}", other),
    }
    match take(&mut server, ServerEvent::Takeover) {
        Ok(EventOutcome::Goodbye(messages)) => assert_eq!(
            messages,
            send_graceful_disconnect(IO, USER, ErrorCode::DisconnectedByOtherConnection)
        ),
        other => panic!("{:?}", other),
    }
}

#[test]
fn events_set_credentials_and_ask_for_the_address() {
    let mut server = bare_server();
    let creds = Credentials {
        username: "user".to_string(),
        password: "word".to_string(),
        domain: None,
    };
    let event = ServerEvent::SetCredentials(creds.clone());
    assert!(matches!(take(&mut server, event), Ok(EventOutcome::Nothing)));
    assert_eq!(server.creds, Some(creds));

    let addr = ServerAddr::V4 { ip: 1, port: 3389 };
    server.local_addr = Some(addr);
    let (sender, mut receiver) = tokio::sync::oneshot::channel();
    match take(&mut server, ServerEvent::GetLocalAddr(sender)) {
        Ok(EventOutcome::Reply(sender, answer)) => sender.send(answer).unwrap(),
        other => panic!("{:?}", other),
    }
    assert_eq!(receiver.try_recv().unwrap(), Some(addr));
}

#[test]
fn a_batch_sends_four_pieces_of_sound() {
    let mut server = server();
    shake_hands(&mut server, Version::V8, AudioFormatFlags::ALIVE);
    let events: VecDeque<ServerEvent> = (0..6).map(|i| wave(&[i as u8], i)).collect();
    let mut batch = EventBatch::new(events);
    for i in 0..4u8 {
        match server.dispatch_server_events(&mut batch, IO, USER) {
            BatchStep::Next(EventOutcome::Write(bytes)) => {
                assert_eq!(unframed(&bytes).2[16..], [i]);
            }
            other => panic!("{:?}", other),
        }
    }
    for _ in 0..2 {
        let step = server.dispatch_server_events(&mut batch, IO, USER);
        assert!(matches!(step, BatchStep::Next(EventOutcome::Nothing)));
    }
    let step = server.dispatch_server_events(&mut batch, IO, USER);
    assert!(matches!(step, BatchStep::Done));
}

#[test]
fn a_batch_stops_where_the_session_does() {
    let mut server = server();
    let last = || ServerEvent::Rdpsnd(SoundMessage::Close);
    let mut batch = EventBatch::new(VecDeque::from([ServerEvent::Takeover, last()]));
    match server.dispatch_server_events(&mut batch, IO, USER) {
        BatchStep::Goodbye(messages) => assert_eq!(messages.len(), 3),
        other => panic!("{:?}", other),
    }
    assert!(batch.events.is_empty());

    let volume = ServerEvent::Rdpsnd(SoundMessage::SetVolume { left: 1, right: 2 });
    let mut batch = EventBatch::new(VecDeque::from([volume, last()]));
    let step = server.dispatch_server_events(&mut batch, IO, USER);
    assert!(matches!(step, BatchStep::Fail(ServerError::SoundEvent)));
    assert!(batch.events.is_empty());

    shake_hands(&mut server, Version::V5, AudioFormatFlags::ALIVE);
    let mut batch = EventBatch::new(VecDeque::from([wave(&[1], 2), last()]));
    let step = server.dispatch_server_events(&mut batch, IO, USER);
    assert!(matches!(step, BatchStep::Unfit));
    assert!(batch.events.is_empty());
}

#[test]
fn refused_sound_is_dropped_and_the_batch_goes_on() {
    let close = || ServerEvent::Rdpsnd(SoundMessage::Close);
    let mut server = server();
    announce(&mut server, Version::V5, AudioFormatFlags::ALIVE);
    let mut batch = EventBatch::new(VecDeque::from([wave(&[1], 2), close()]));
    let step = server.dispatch_server_events(&mut batch, IO, USER);
    assert!(matches!(step, BatchStep::Next(EventOutcome::Nothing)));
    assert_eq!((batch.waves, batch.events.len()), (WAVE_LIMIT - 1, 1));
    match server.dispatch_server_events(&mut batch, IO, USER) {
        BatchStep::Next(EventOutcome::Write(bytes)) => {
            assert_eq!(unframed(&bytes), (SOUND, 3, vec![1, 0, 0, 0]));
        }
        other => panic!("{:?}", other),
    }
    let step = server.dispatch_server_events(&mut batch, IO, USER);
    assert!(matches!(step, BatchStep::Done));
}

#[test]
fn short_sound_without_a_number_finds_no_channel() {
    let mut server = server();
    shake_hands(&mut server, Version::V5, AudioFormatFlags::ALIVE);
    server.static_channels.detach_channel_id(TypeId::of::<RdpsndServer>());
    let mut batch = EventBatch::new(VecDeque::from([wave(&[1], 2)]));
    let step = server.dispatch_server_events(&mut batch, IO, USER);
    assert!(matches!(step, BatchStep::Fail(ServerError::ChannelNotFound)));
}

#[test]
fn fast_path_input_reaches_the_handler_in_order() {
    let x = MouseXPdu { flags: PointerXFlags::BUTTON1, x_position: 3, y_position: 4 };
    let rel = MouseRelPdu { flags: PointerRelFlags::MOVE, x_delta: -1, y_delta: 1 };
    let bytes = [
        vec![7 << 2, 34],
        vec![1, 0x1E],
        vec![4 << 5, 0xAC, 0x20],
        vec![3 << 5 | 2],
        vec![6 << 5, 5, 0, 0, 0],
        vec![1 << 5, 0, 8, 10, 0, 20, 0],
        vec![2 << 5, 1, 0, 3, 0, 4, 0],
        vec![5 << 5, 0, 8, 0xFF, 0xFF, 1, 0],
    ]
    .concat();
    assert!(fast_path_header_fits(&bytes));
    let mut calls = handle_fastpath(&bytes).unwrap().into_iter();
    match calls.next() {
        Some(InputCall::Keyboard(KeyboardInput::FastPath(key, flags))) => {
            assert_eq!((key, flags), (0x1E, KeyboardFlags::RELEASE));
        }
        other => panic!("{:?}", other),
    }
    match calls.next() {
        Some(InputCall::Keyboard(KeyboardInput::FastPathUnicode(key, flags))) => {
            assert_eq!((key, flags), (0x20AC, KeyboardFlags::empty()));
        }
        other => panic!("{:?}", other),
    }
    match calls.next() {
        Some(InputCall::Keyboard(KeyboardInput::FastPathSync(flags))) => {
            assert_eq!(flags, SynchronizeFlags::NUM_LOCK);
        }
        other => panic!("{:?}", other),
    }
    match calls.next() {
        Some(InputCall::Mouse(MouseInput::Mouse(pdu))) => assert_eq!(pdu, mouse()),
        other => panic!("{:?}", other),
    }
    match calls.next() {
        Some(InputCall::Mouse(MouseInput::MouseX(pdu))) => assert_eq!(pdu, x),
        other => panic!("{:?}", other),
    }
    match calls.next() {
        Some(InputCall::Mouse(MouseInput::MouseRel(pdu))) => assert_eq!(pdu, rel),
        other => panic!("{:?}", other),
    }
    assert!(calls.next().is_none());
}

#[test]
fn fast_path_headers_cover_themselves() {
    assert!(fast_path_header_fits(&[]));
    assert!(fast_path_header_fits(&[4]));
    assert!(fast_path_header_fits(&[4, 2]));
    assert!(!fast_path_header_fits(&[4, 1]));
    assert!(!fast_path_header_fits(&[0, 2, 1]));
    assert!(fast_path_header_fits(&[0, 3, 1]));
    assert!(fast_path_header_fits(&[0, 2]));
    assert!(!fast_path_header_fits(&[4, 0x80, 2]));
    assert!(fast_path_header_fits(&[4, 0x80, 3]));
    assert!(!fast_path_header_fits(&[0, 0x80, 3, 1]));
    assert!(fast_path_header_fits(&[0, 0x80, 4, 1]));
    assert!(fast_path_header_fits(&[0x44, 0]));
    for bytes in [&[][..], &[4], &[4, 2], &[0, 3, 1], &[0x44, 0], &[4, 0x80, 3]] {
        assert_eq!(handle_fastpath(bytes).unwrap_err(), ServerError::Decode);
    }
}

#[test]
fn slow_path_input_reaches_the_handler_in_order() {
    let calls = handle_input_event(vec![
        InputEvent::ScanCode(ScanCodePdu {
            flags: ironrdp_pdu::input::scan_code::KeyboardFlags::DOWN,
            key_code: 0x1E,
        }),
        InputEvent::Unicode(UnicodePdu {
            flags: ironrdp_pdu::input::unicode::KeyboardFlags::RELEASE,
            unicode_code: 0x20AC,
        }),
        InputEvent::Sync(SyncPdu { flags: SyncToggleFlags::CAPS_LOCK }),
        InputEvent::Mouse(mouse()),
        InputEvent::MouseX(MouseXPdu {
            flags: PointerXFlags::BUTTON2,
            x_position: 3,
            y_position: 4,
        }),
        InputEvent::MouseRel(MouseRelPdu {
            flags: PointerRelFlags::MOVE,
            x_delta: -1,
            y_delta: 1,
        }),
    ]);
    assert_eq!(calls.len(), 6);
    assert!(matches!(
        &calls[0],
        InputCall::Keyboard(KeyboardInput::ScanCode(key)) if key.key_code == 0x1E
    ));
    assert!(matches!(
        &calls[1],
        InputCall::Keyboard(KeyboardInput::Unicode(key)) if key.unicode_code == 0x20AC
    ));
    assert!(matches!(
        &calls[2],
        InputCall::Keyboard(KeyboardInput::Sync(s)) if s.flags == SyncToggleFlags::CAPS_LOCK
    ));
    assert!(matches!(
        &calls[3],
        InputCall::Mouse(MouseInput::Mouse(pdu)) if *pdu == mouse()
    ));
    assert!(matches!(&calls[4], InputCall::Mouse(MouseInput::MouseX(pdu)) if pdu.x_position == 3));
    assert!(matches!(&calls[5], InputCall::Mouse(MouseInput::MouseRel(pdu)) if pdu.x_delta == -1));
}

#[test]
fn session_channel_carries_input_and_farewells() {
    let pdu = InputEventPdu(vec![InputEvent::Mouse(mouse())]);
    let received = handle_io_channel_data(&share_data(ShareDataPdu::Input(pdu))).unwrap();
    assert_eq!(received.calls.len(), 1);
    assert!(!received.leaves && received.reply.is_none());
    assert_eq!(state_after(&received), RunState::Continue);

    let received = handle_io_channel_data(&share_data(ShareDataPdu::ShutdownRequest)).unwrap();
    assert!(received.calls.is_empty() && received.leaves);
    assert_eq!(state_after(&received), RunState::Disconnect);

    let received = handle_io_channel_data(&share_data(ShareDataPdu::ShutdownDenied)).unwrap();
    assert!(received.calls.is_empty() && !received.leaves);

    assert_eq!(handle_io_channel_data(&[1, 2]).unwrap_err(), ServerError::Decode);
}

#[test]
fn messages_go_to_the_channel_they_are_for() {
    let mut server = server();
    let pdu = InputEventPdu(vec![InputEvent::Mouse(mouse())]);
    let frame = request(IO, share_data(ShareDataPdu::Input(pdu)));
    let received = server.dispatch_pdu(Action::X224, &frame, IO, USER).unwrap();
    assert_eq!(received.calls.len(), 1);

    let received = server.handle_x224(IO, USER, &request(2000, vec![1])).unwrap();
    assert!(received.calls.is_empty() && received.reply.is_none() && !received.leaves);

    open_clipboard(&mut server);
    assert_eq!(
        server.handle_x224(IO, USER, &piece(CLIPBOARD, vec![99, 0])).unwrap_err(),
        ServerError::Channel
    );
    assert_eq!(
        server.handle_x224(IO, USER, &request(IO, vec![1])).unwrap_err(),
        ServerError::Decode
    );
    assert_eq!(server.handle_x224(IO, USER, &[1, 2]).unwrap_err(), ServerError::Decode);
}

#[test]
fn only_users_end_a_session_by_leaving() {
    let mut server = server();
    let received =
        server.handle_x224(IO, USER, &ultimatum(DisconnectReason::UserRequested)).unwrap();
    assert!(received.leaves);
    for reason in [
        DisconnectReason::DomainDisconnected,
        DisconnectReason::ProviderInitiated,
        DisconnectReason::TokenPurged,
        DisconnectReason::ChannelPurged,
    ] {
        let received = server.handle_x224(IO, USER, &ultimatum(reason)).unwrap();
        assert!(!received.leaves);
    }
}

#[test]
fn backlog_passes_over_failures_of_the_slow_form() {
    let mut server = server();
    let input =
        FastPathInput::new(vec![FastPathInputEvent::MouseEvent(mouse())]).unwrap();
    let frame = encode_vec(&input).unwrap();
    let received = server.handle_input_backlog(&frame, IO, USER).unwrap();
    assert_eq!(received.calls.len(), 1);
    assert_eq!(
        server.handle_input_backlog(&[4, 2], IO, USER).unwrap_err(),
        ServerError::Decode
    );

    let received = server.handle_input_backlog(&[3, 2], IO, USER).unwrap();
    assert!(received.calls.is_empty() && received.reply.is_none() && !received.leaves);
    let frame = ultimatum(DisconnectReason::UserRequested);
    let received = server.handle_input_backlog(&frame, IO, USER).unwrap();
    assert!(!received.leaves);
}

#[test]
fn advanced_input_tells_of_the_mouse() {
    let mut handler = AInputHandler {};
    assert_eq!(handler.channel_name(), ironrdp_ainput::CHANNEL_NAME);
    let messages = handler.start(1);
    assert_eq!(messages.len(), 1);
    let pdu: &dyn Encode = &messages[0];
    assert_eq!(encode_vec(pdu).unwrap(), vec![1, 0, 1, 0, 0, 0, 0, 0, 0, 0]);
    let mouse = ironrdp_ainput::MousePdu { time: 1, flags: MouseEventFlags::MOVE, x: -5, y: 6 };
    let payload = encode_vec(&ClientPdu::Mouse(mouse.clone())).unwrap();
    match handler.process(1, &payload) {
        Ok(InputCall::Mouse(MouseInput::Advanced(pdu))) => assert_eq!(pdu, mouse),
        other => panic!("{:?}", other),
    }
    assert_eq!(handler.process(1, &[1]).unwrap_err(), ServerError::Decode);
}
