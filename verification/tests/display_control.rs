use std::sync::{Arc, Mutex};

use ironrdp_core::{decode, encode_vec};
use ironrdp_displaycontrol::pdu::{
    DisplayControlCapabilities, DisplayControlMonitorLayout, DisplayControlPdu, MonitorLayoutEntry,
};
use ironrdp_displaycontrol::CHANNEL_NAME;
use macrdp::display_control::{DisplayControlHandler, DisplayControlServer};
use macrdp::errors::ServerError;

struct TestHandler;

impl DisplayControlHandler for TestHandler {}

struct RecordingHandler {
    widths: Arc<Mutex<Vec<u32>>>,
}

impl DisplayControlHandler for RecordingHandler {
    fn monitor_layout(&self, layout: DisplayControlMonitorLayout) {
        let mut widths = self.widths.lock().unwrap();
        for monitor in layout.monitors() {
            widths.push(monitor.dimensions().0);
        }
    }
}

#[test]
fn default_max_monitors_is_one() {
    let mut server = DisplayControlServer::new(Box::new(TestHandler));
    let messages = server.start(1).unwrap();
    assert_eq!(messages.len(), 1);

    let encoded = encode_vec(&messages[0]).unwrap();
    let pdu: DisplayControlPdu = decode(&encoded).unwrap();
    match pdu {
        DisplayControlPdu::Caps(caps) => {
            assert_eq!(caps.max_monitor_area(), 3840 * 2400);
        }
        _ => panic!("expected Caps PDU"),
    }
}

#[test]
fn with_max_monitors_changes_caps() {
    let mut server = DisplayControlServer::new(Box::new(TestHandler)).with_max_monitors(4);
    let messages = server.start(1).unwrap();
    let encoded = encode_vec(&messages[0]).unwrap();
    let pdu: DisplayControlPdu = decode(&encoded).unwrap();
    match pdu {
        DisplayControlPdu::Caps(caps) => {
            assert_eq!(caps.max_monitor_area(), 3840 * 2400 * 4);
        }
        _ => panic!("expected Caps PDU"),
    }
}

#[test]
fn channel_name_is_display_control() {
    let server = DisplayControlServer::new(Box::new(TestHandler));
    assert_eq!(server.channel_name(), CHANNEL_NAME);
}

#[test]
fn process_monitor_layout_calls_handler() {
    let primary = MonitorLayoutEntry::new_primary(1920, 1080).unwrap();
    let layout = DisplayControlMonitorLayout::new(&[primary]).unwrap();
    let pdu = DisplayControlPdu::MonitorLayout(layout);
    let payload = encode_vec(&pdu).unwrap();

    let mut server = DisplayControlServer::new(Box::new(TestHandler));
    let result = server.process(1, &payload);
    assert!(result.is_ok());
    assert!(result.unwrap().is_empty());
}

#[test]
fn handler_gets_the_layout() {
    let primary = MonitorLayoutEntry::new_primary(1920, 1080).unwrap();
    let layout = DisplayControlMonitorLayout::new(&[primary]).unwrap();
    let payload = encode_vec(&DisplayControlPdu::MonitorLayout(layout.clone())).unwrap();
    assert_eq!(DisplayControlServer::received_layout(&payload).unwrap(), Some(layout));

    let widths = Arc::new(Mutex::new(Vec::new()));
    let handler = RecordingHandler { widths: Arc::clone(&widths) };
    let mut server = DisplayControlServer::new(Box::new(handler)).with_max_monitors(2);
    server.process(1, &payload).unwrap();
    assert_eq!(*widths.lock().unwrap(), vec![1920]);
}

#[test]
fn capabilities_from_a_client_are_ignored() {
    let caps = DisplayControlCapabilities::new(1, 100, 100).unwrap();
    let payload = encode_vec(&DisplayControlPdu::Caps(caps)).unwrap();
    assert_eq!(DisplayControlServer::received_layout(&payload).unwrap(), None);
    let mut server = DisplayControlServer::new(Box::new(TestHandler));
    assert!(server.process(1, &payload).unwrap().is_empty());
}

#[test]
fn garbage_on_the_channel_is_an_error() {
    let mut server = DisplayControlServer::new(Box::new(TestHandler));
    assert_eq!(server.process(1, &[1, 2, 3]).unwrap_err(), ServerError::Decode);
    assert!(DisplayControlServer::received_layout(&[9; 16]).is_err());
}

#[test]
fn announcement_has_these_bytes() {
    let mut server = DisplayControlServer::new(Box::new(TestHandler)).with_max_monitors(4);
    let messages = server.start(1).unwrap();
    assert_eq!(
        encode_vec(&messages[0]).unwrap(),
        vec![5, 0, 0, 0, 20, 0, 0, 0, 4, 0, 0, 0, 0x00, 0x0F, 0, 0, 0x60, 0x09, 0, 0]
    );
}

#[test]
fn too_many_monitors_cannot_be_announced() {
    let mut server = DisplayControlServer::new(Box::new(TestHandler)).with_max_monitors(1024);
    assert!(server.start(1).is_ok());
    let mut server = server.with_max_monitors(1025);
    assert_eq!(server.start(1).unwrap_err(), ServerError::TooManyMonitors);
}
