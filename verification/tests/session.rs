use std::sync::Arc;

use ironrdp_pdu::nego::SecurityProtocol;
use macrdp::errors::ServerError;
use macrdp::gfx_channel::{
    dispatch_display_update, encode_graphics, grow_buffer, update_kind, Route, UpdateKind,
};
use macrdp::negotiation::{
    requested_size, Capability, Codec, CodecProperty, EntropyBits, Negotiated, RdpServerOptions,
    RdpServerSecurity, RemoteFxContainer, ServerAddr,
};
use macrdp::server::{RdpServer, RunState, ServerEvent};
use macrdp::session::{
    accept_client, accept_finalize, capture_failed, capture_is_denied, client_is_gone, client_loop,
    parse_resolution, watch_for_takeover, AcceptAction, AcceptEvent, FinalizeAction, LoopEvent,
    RunAction, RunEvent, TakeoverAction, TakeoverEvent,
};
use macrdp::update::{DesktopSize, DisplayUpdate};
use tokio::sync::{mpsc, Mutex};
use tokio_rustls::rustls::server::{ClientHello, ResolvesServerCert};
use tokio_rustls::rustls::sign::CertifiedKey;
use tokio_rustls::rustls::ServerConfig;
use tokio_rustls::TlsAcceptor;

fn options(codecs: Vec<Codec>) -> RdpServerOptions {
    RdpServerOptions {
        addr: ServerAddr::V4 { ip: 0x7F00_0001, port: 0 },
        security: RdpServerSecurity::Unsecured,
        codecs,
    }
}

#[derive(Debug)]
struct NoCertificate;

impl ResolvesServerCert for NoCertificate {
    fn resolve(&self, _client_hello: ClientHello<'_>) -> Option<Arc<CertifiedKey>> {
        None
    }
}

fn tls() -> TlsAcceptor {
    let config = ServerConfig::builder()
        .with_no_client_auth()
        .with_cert_resolver(Arc::new(NoCertificate));
    TlsAcceptor::from(Arc::new(config))
}

fn codec(id: u8, property: CodecProperty) -> Codec {
    Codec { id, property }
}

#[test]
fn resolutions_are_width_x_height() {
    let size = |width, height| Some(DesktopSize { width, height });
    assert_eq!(parse_resolution("1920x1080"), size(1920, 1080));
    assert_eq!(parse_resolution("+19x+0010"), size(19, 10));
    assert_eq!(parse_resolution("65535x0"), size(65535, 0));
    for bad in [
        "", "x", "1920", "1920x", "x1080", "65536x1", "1x2x3", "-1x2", "1 x2", "1_0x2", "+x2",
        "++1x2", "99999999999999999999x1", "\u{661}x2", "1X2",
    ] {
        assert_eq!(parse_resolution(bad), None, "{bad}");
    }
    for text in ["00000000000000000065535x7", "7x00000", "12x34"] {
        let expected = text
            .split_once('x')
            .and_then(|(w, h)| Some((w.parse::<u16>().ok()?, h.parse::<u16>().ok()?)));
        assert_eq!(parse_resolution(text).map(|s| (s.width, s.height)), expected);
    }
}

#[test]
fn errors_are_told_apart_by_what_they_say() {
    assert!(client_is_gone("read: Connection reset by peer (os error 54)"));
    assert!(client_is_gone("Broken pipe"));
    assert!(!client_is_gone("broken pipe"));
    assert!(!client_is_gone(""));
    for text in ["no Screen Recording permission", "user declined TCCs", "no shareable content"] {
        assert!(capture_is_denied(text));
        assert_eq!(capture_failed(text, 1004, 1003).len(), 3);
    }
    assert!(!capture_is_denied("Screen  Recording"));
    assert!(capture_failed("out of memory", 1004, 1003).is_empty());
    assert_eq!(capture_failed("Screen Recording", 1004, 1003)[0][32], 9);
}

#[test]
fn server_serves_takeovers_before_others() {
    let mut server = RdpServer::new(options(vec![]), false, false);
    assert!(matches!(server.run(RunEvent::Next), RunAction::TakePending));
    assert!(matches!(server.run(RunEvent::Pending(true)), RunAction::ServeTakeover));
    assert!(matches!(server.run(RunEvent::TakeoverEnded), RunAction::TakePending));
    assert!(matches!(server.run(RunEvent::Pending(false)), RunAction::Wait));
    assert!(matches!(server.run(RunEvent::Connected), RunAction::Serve));
    assert!(matches!(server.run(RunEvent::ConnectionEnded), RunAction::TakePending));
    assert!(matches!(
        server.run(RunEvent::Event(ServerEvent::Takeover)),
        RunAction::TakePending
    ));
    assert!(matches!(
        server.run(RunEvent::Event(ServerEvent::Quit("done".to_string()))),
        RunAction::Stop
    ));
    assert!(matches!(server.run(RunEvent::Closed), RunAction::Stop));
}

#[test]
fn server_answers_events_between_sessions() {
    let mut server = RdpServer::new(options(vec![]), false, false);
    let addr = ServerAddr::V4 { ip: 1, port: 3389 };
    server.local_addr = Some(addr);
    let (sender, mut receiver) = tokio::sync::oneshot::channel();
    match server.run(RunEvent::Event(ServerEvent::GetLocalAddr(sender))) {
        RunAction::Reply(sender, answer) => sender.send(answer).unwrap(),
        other => panic!("{:?}", other),
    }
    assert_eq!(receiver.try_recv().unwrap(), Some(addr));

    let creds = ironrdp_pdu::rdp::client_info::Credentials {
        username: "u".to_string(),
        password: "p".to_string(),
        domain: None,
    };
    assert!(matches!(
        server.run(RunEvent::Event(ServerEvent::SetCredentials(creds.clone()))),
        RunAction::TakePending
    ));
    assert_eq!(server.creds, Some(creds));
}

/// What the server does with the answer of a client that wants to take over.
fn settle(
    authenticated: Option<u32>,
    slot: &Mutex<Option<u32>>,
    sender: &mpsc::UnboundedSender<ServerEvent>,
) -> TakeoverAction {
    let action = watch_for_takeover(TakeoverEvent::Authenticated(authenticated.is_some()));
    if action == TakeoverAction::HandOver {
        *slot.blocking_lock() = authenticated;
        sender.send(ServerEvent::Takeover).unwrap();
    }
    action
}

#[test]
fn takeover_slot_stores_and_takes() {
    let slot: Mutex<Option<String>> = Mutex::new(None);
    assert!(slot.blocking_lock().is_none());

    *slot.blocking_lock() = Some("test-connection".to_string());
    assert!(slot.blocking_lock().is_some());

    let taken = slot.blocking_lock().take();
    assert_eq!(taken.unwrap(), "test-connection");
    assert!(slot.blocking_lock().is_none());
}

#[test]
fn takeover_slot_only_consumed_once() {
    let mut server = RdpServer::new(options(vec![]), false, false);
    let slot = Mutex::new(Some("pending-client".to_string()));

    let first = slot.blocking_lock().take();
    assert!(first.is_some());
    assert!(matches!(
        server.run(RunEvent::Pending(first.is_some())),
        RunAction::ServeTakeover
    ));

    let second = slot.blocking_lock().take();
    assert!(second.is_none());
    assert!(matches!(server.run(RunEvent::Pending(second.is_some())), RunAction::Wait));
}

#[test]
fn takeover_flow_signals_event_sender() {
    let (tx, mut rx) = mpsc::unbounded_channel();
    let slot = Mutex::new(None);

    // The client proves who it is
    assert_eq!(settle(Some(1), &slot, &tx), TakeoverAction::HandOver);

    // Verify the event was sent
    let event = rx.blocking_recv().unwrap();
    assert!(matches!(event, ServerEvent::Takeover));

    // Verify the slot has the pending connection
    assert_eq!(slot.blocking_lock().take(), Some(1));
}

#[test]
fn takeover_event_not_sent_on_auth_failure() {
    let (tx, mut rx) = mpsc::unbounded_channel();
    let slot = Mutex::new(None);

    // The client fails to: no event sent, no slot written
    assert_eq!(settle(None, &slot, &tx), TakeoverAction::Accept);

    // Channel should be empty
    drop(tx);
    let event = rx.blocking_recv();
    assert!(event.is_none());
    assert!(slot.blocking_lock().is_none());
    assert_eq!(watch_for_takeover(TakeoverEvent::AcceptFailed), TakeoverAction::Stop);
}

#[test]
fn multiple_auth_failures_dont_block_eventual_takeover() {
    let (tx, mut rx) = mpsc::unbounded_channel();
    let slot = Mutex::new(None);

    // 3 auth failures followed by 1 success
    let attempts = vec![false, false, false, true];
    assert_eq!(watch_for_takeover(TakeoverEvent::Start), TakeoverAction::Accept);
    for (i, success) in attempts.iter().enumerate() {
        assert_eq!(watch_for_takeover(TakeoverEvent::Connected), TakeoverAction::Authenticate);
        let client = if *success { Some(i as u32) } else { None };
        if settle(client, &slot, &tx) == TakeoverAction::HandOver {
            break;
        }
    }

    let event = rx.blocking_recv().unwrap();
    assert!(matches!(event, ServerEvent::Takeover));
    assert_eq!(slot.blocking_lock().take(), Some(3));
}

#[test]
fn clients_without_tls_cannot_take_over() {
    let plain = RdpServerSecurity::Unsecured;
    let begun = AcceptEvent::Begun { upgrade: false };
    assert_eq!(
        accept_client(&plain, true, begun),
        AcceptAction::Refuse(ServerError::TakeoverWithoutTls)
    );
    assert_eq!(accept_client(&plain, false, begun), AcceptAction::Finalize { tls: false });
    assert_eq!(
        accept_client(&plain, false, AcceptEvent::Ended { tls: false }),
        AcceptAction::Finish
    );
}

#[test]
fn failed_tls_drops_a_client_but_fails_a_takeover() {
    let plain = RdpServerSecurity::Unsecured;
    let failed = AcceptEvent::Tls { accepted: false };
    assert_eq!(accept_client(&plain, false, failed), AcceptAction::Finish);
    assert_eq!(accept_client(&plain, true, failed), AcceptAction::Fail);
    let authenticated = AcceptEvent::Authenticated;
    assert_eq!(
        accept_client(&plain, false, authenticated),
        AcceptAction::Finalize { tls: true }
    );
    assert_eq!(accept_client(&plain, true, authenticated), AcceptAction::Ready);
    assert_eq!(
        accept_client(&plain, false, AcceptEvent::Ended { tls: true }),
        AcceptAction::Shutdown
    );
}

#[test]
fn sessions_end_or_start_over() {
    let size = DesktopSize { width: 8, height: 6 };
    let restart = RunState::DeactivationReactivation { desktop_size: size };
    assert_eq!(accept_finalize(restart), FinalizeAction::Reactivate(size));
    assert_eq!(accept_finalize(RunState::Disconnect), FinalizeAction::Close);
    assert_eq!(client_loop(LoopEvent::Handled(RunState::Continue)), None);
    assert_eq!(client_loop(LoopEvent::Handled(restart)), Some(restart));
    assert_eq!(client_loop(LoopEvent::End), Some(RunState::Disconnect));
    assert_eq!(client_loop(LoopEvent::UpdateFailed), None);
}

#[test]
fn updates_take_the_graphics_channel_where_it_is_ready() {
    let size = DesktopSize { width: 8, height: 6 };
    assert_eq!(
        dispatch_display_update(UpdateKind::Resize(size), true, Some(1005)),
        Route::Restart(size)
    );
    for kind in [UpdateKind::GfxFrame, UpdateKind::GfxUncompressed, UpdateKind::GfxDirtyH264] {
        assert_eq!(dispatch_display_update(kind, true, Some(1005)), Route::Graphics(1005));
        assert_eq!(dispatch_display_update(kind, false, Some(1005)), Route::Encoder);
        assert_eq!(dispatch_display_update(kind, true, None), Route::Encoder);
    }
    assert_eq!(dispatch_display_update(UpdateKind::Plain, true, Some(1005)), Route::Encoder);
    assert_eq!(update_kind(&DisplayUpdate::DefaultPointer), UpdateKind::Plain);
    assert_eq!(update_kind(&DisplayUpdate::Resize(size)), UpdateKind::Resize(size));
}

#[test]
fn graphics_data_is_framed_twice() {
    let bytes = encode_graphics(7, vec![1, 2, 3], 1005, 1003).unwrap();
    let indication: ironrdp_pdu::x224::X224<ironrdp_pdu::mcs::SendDataIndication<'_>> =
        ironrdp_core::decode(&bytes).unwrap();
    assert_eq!((indication.0.initiator_id, indication.0.channel_id), (1003, 1005));
    // Length and flags of the channel, then the data message of channel 7.
    assert_eq!(
        indication.0.user_data.to_vec(),
        vec![5, 0, 0, 0, 0x13, 0, 0, 0, 0x30, 7, 1, 2, 3]
    );
    assert_eq!(encode_graphics(7, vec![1], 1005, 1000).unwrap_err(), ServerError::Encode);
    let long = encode_graphics(7, vec![9; 5000], 1005, 1003).unwrap();
    assert!(long.len() > 5000);
}

#[test]
fn buffers_only_grow() {
    let mut buffer = vec![1u8, 2];
    grow_buffer(&mut buffer, 1);
    assert_eq!(buffer, vec![1, 2]);
    grow_buffer(&mut buffer, 4);
    assert_eq!(buffer, vec![1, 2, 0, 0]);
}

#[test]
fn offered_protocols_follow_the_security() {
    assert_eq!(RdpServerSecurity::Unsecured.flag(), SecurityProtocol::empty());
    assert_eq!(RdpServerSecurity::Tls(tls()).flag(), SecurityProtocol::SSL);
    assert_eq!(
        RdpServerSecurity::Hybrid(tls(), vec![1]).flag(),
        SecurityProtocol::HYBRID | SecurityProtocol::HYBRID_EX | SecurityProtocol::SSL
    );
}

#[test]
fn hybrid_clients_prove_who_they_are() {
    let begun = AcceptEvent::Begun { upgrade: true };
    let upgraded = AcceptEvent::Tls { accepted: true };
    let security = RdpServerSecurity::Tls(tls());
    assert_eq!(accept_client(&security, false, begun), AcceptAction::AcceptTls);
    assert_eq!(accept_client(&security, false, upgraded), AcceptAction::Finalize { tls: true });
    assert_eq!(accept_client(&security, true, upgraded), AcceptAction::Ready);
    let security = RdpServerSecurity::Hybrid(tls(), vec![]);
    for takeover in [false, true] {
        assert_eq!(accept_client(&security, takeover, begun), AcceptAction::AcceptTls);
        assert_eq!(accept_client(&security, takeover, upgraded), AcceptAction::Authenticate);
    }
}

#[test]
fn codecs_are_negotiated_where_both_ends_know_them() {
    let opts = options(vec![
        codec(1, CodecProperty::RemoteFx(RemoteFxContainer::Server)),
        codec(2, CodecProperty::Qoi),
    ]);
    assert!(opts.has_remote_fx() && opts.has_qoi());
    assert!(!opts.has_image_remote_fx() && !opts.has_qoiz());
    let client = RemoteFxContainer::Client;
    let mut s = Negotiated::new();
    let caps = Capability::BitmapCodecs(vec![
        codec(3, CodecProperty::RemoteFx(client(vec![EntropyBits::Rlgr1, EntropyBits::Rlgr3]))),
        codec(4, CodecProperty::ImageRemoteFx(client(vec![EntropyBits::Rlgr1]))),
        codec(5, CodecProperty::RemoteFx(client(vec![]))),
        codec(6, CodecProperty::RemoteFx(RemoteFxContainer::Server)),
        codec(7, CodecProperty::NsCodec),
        codec(8, CodecProperty::Qoi),
        codec(9, CodecProperty::QoiZ),
    ]);
    assert_eq!(s.take_capability(&opts, &caps), Ok(None));
    assert_eq!(s.remotefx, Some((EntropyBits::Rlgr3, 3)));
    assert_eq!((s.qoi, s.qoiz), (Some(8), None));

    let opts = options(vec![
        codec(1, CodecProperty::ImageRemoteFx(RemoteFxContainer::Server)),
        codec(2, CodecProperty::QoiZ),
    ]);
    let mut s = Negotiated::new();
    assert_eq!(s.take_capability(&opts, &caps), Ok(None));
    assert_eq!(s.remotefx, Some((EntropyBits::Rlgr1, 4)));
    assert_eq!((s.qoi, s.qoiz), (None, Some(9)));
}

#[test]
fn clients_need_fast_path_output() {
    let opts = options(vec![]);
    let mut s = Negotiated::new();
    let ok = Capability::General { fastpath_output: true };
    assert_eq!(s.take_capability(&opts, &ok), Ok(None));
    let bad = Capability::General { fastpath_output: false };
    assert_eq!(
        s.take_capability(&opts, &bad),
        Err(ServerError::FastPathOutputUnsupported)
    );
    let surface = Capability::SurfaceCommands { flags: 0x52 };
    assert_eq!(s.take_capability(&opts, &surface), Ok(None));
    assert_eq!(s.surface_flags, 0x52);
    assert_eq!(s.take_capability(&opts, &Capability::Other), Ok(None));
}

#[test]
fn desktop_size_is_requested_where_it_differs() {
    let opts = options(vec![]);
    let mut s = Negotiated::new();
    let bitmap = Capability::Bitmap { width: 800, height: 600 };
    let client = s.take_capability(&opts, &bitmap).unwrap().unwrap();
    assert_eq!(client, DesktopSize { width: 800, height: 600 });
    assert_eq!(requested_size(client, DesktopSize { width: 800, height: 601 }), Some(client));
    assert_eq!(requested_size(client, client), None);
}
