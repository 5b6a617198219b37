//! The display control channel: the server announces how many monitors it
//! takes, and the client sends monitor layouts.

use ironrdp_core::{decode, DecodeError};
use ironrdp_displaycontrol::pdu::{
    DisplayControlCapabilities, DisplayControlMonitorLayout, DisplayControlPdu,
};
use vstd::prelude::*;

use crate::errors::ServerError;

verus! {

/// The widest monitor area that the server announces.
pub const MAX_MONITOR_WIDTH: u32 = 3840;

/// The highest monitor area that the server announces.
pub const MAX_MONITOR_HEIGHT: u32 = 2400;

/// The most monitors that an announcement can name.
pub const MAX_MONITORS: u32 = 1024;

/// A message of the channel.
#[verifier::external_type_specification]
#[verifier::external_body]
pub struct ExDisplayControlPdu(ironrdp_displaycontrol::pdu::DisplayControlPdu);

/// A monitor layout.
#[verifier::external_type_specification]
#[verifier::external_body]
pub struct ExDisplayControlMonitorLayout(ironrdp_displaycontrol::pdu::DisplayControlMonitorLayout);

/// The four bytes of a number, the lowest first.
pub open spec fn le32(n: u32) -> Seq<u8> {
    seq![
        (n as int % 256) as u8,
        (n as int / 256 % 256) as u8,
        (n as int / 65536 % 256) as u8,
        (n as int / 16777216) as u8,
    ]
}

/// The bytes that announce a number of monitors and the two factors of the area
/// of each.
pub open spec fn caps_bytes(monitors: u32, width: u32, height: u32) -> Seq<u8> {
    le32(5) + le32(20) + le32(monitors) + le32(width) + le32(height)
}

/// Whether an announcement can name these numbers.
pub open spec fn can_announce(monitors: u32, width: u32, height: u32) -> bool {
    monitors <= MAX_MONITORS && width <= 16384 && height <= 16384
}

/// The bytes that a message of the channel is sent as.
pub uninterp spec fn control_bytes(pdu: DisplayControlPdu) -> Seq<u8>;

/// A received message.
#[derive(Debug)]
pub enum ControlMessage {
    /// Capabilities, which a server has no use for.
    Caps,
    /// A monitor layout.
    MonitorLayout(DisplayControlMonitorLayout),
}

/// The message that received bytes hold; none where they are no message.
pub uninterp spec fn control_message(payload: Seq<u8>) -> Option<ControlMessage>;

/// `ironrdp_displaycontrol::CHANNEL_NAME`: the name of the channel.
#[verifier::external_body]
fn control_channel_name() -> (name: &'static str)
    ensures
        name@ == "Microsoft::Windows::RDS::DisplayControl"@,
{
    ironrdp_displaycontrol::CHANNEL_NAME
}

/// `DisplayControlCapabilities::new`, as a message: fails just where there are
/// too many monitors or a factor of the area is above 16384. The message is
/// sent as its type and its length, then the three numbers.
#[verifier::external_body]
fn capabilities(monitors: u32, width: u32, height: u32) -> (made: Result<
    DisplayControlPdu,
    DecodeError,
>)
    ensures
        match made {
            Ok(pdu) => can_announce(monitors, width, height) && control_bytes(pdu) == caps_bytes(
                monitors,
                width,
                height,
            ),
            Err(_) => !can_announce(monitors, width, height),
        },
{
    DisplayControlCapabilities::new(monitors, width, height).map(DisplayControlPdu::from)
}

/// `ironrdp_core::decode` of a display control message: what comes out depends
/// on the bytes alone.
#[verifier::external_body]
fn decode_control(payload: &[u8]) -> (message: Result<ControlMessage, DecodeError>)
    ensures
        match message {
            Ok(received) => control_message(payload@) == Some(received),
            Err(_) => control_message(payload@) is None,
        },
{
    match decode::<DisplayControlPdu>(payload) {
        Ok(DisplayControlPdu::Caps(_)) => Ok(ControlMessage::Caps),
        Ok(DisplayControlPdu::MonitorLayout(layout)) => Ok(ControlMessage::MonitorLayout(layout)),
        Err(error) => Err(error),
    }
}

/// Takes the monitor layouts that clients send.
pub trait DisplayControlHandler: Send {
    fn monitor_layout(&self, layout: DisplayControlMonitorLayout) {
    }
}

/// A value that is kept as it was given.
pub struct Kept<T> {
    pub value: T,
}

/// Keeps a value.
fn keep<T>(value: T) -> (kept: Kept<T>)
    ensures
        kept.value == value,
{
    Kept { value }
}

/// The server's end of the display control channel.
pub struct DisplayControlServer {
    handler: Kept<Box<dyn DisplayControlHandler>>,
    max_num_monitors: u32,
}

impl DisplayControlServer {
    /// How many monitors the server announces.
    pub closed spec fn max_monitors(self) -> u32 {
        self.max_num_monitors
    }

    /// Who takes the layouts.
    pub closed spec fn handler(self) -> Kept<Box<dyn DisplayControlHandler>> {
        self.handler
    }

    /// A server that announces one monitor and hands layouts to `handler`.
    pub fn new(handler: Box<dyn DisplayControlHandler>) -> (server: Self)
        ensures
            server.max_monitors() == 1,
            server.handler().value == handler,
    {
        let own = keep(handler);
        DisplayControlServer { handler: own, max_num_monitors: 1 }
    }

    /// Announces `max_num_monitors` monitors.
    pub fn with_max_monitors(self, max_num_monitors: u32) -> (server: Self)
        ensures
            server.max_monitors() == max_num_monitors,
            server.handler() == self.handler(),
    {
        let mut server = self;
        server.max_num_monitors = max_num_monitors;
        server
    }

    /// The name of the channel.
    pub fn channel_name(&self) -> (name: &'static str)
        ensures
            name@ == "Microsoft::Windows::RDS::DisplayControl"@,
    {
        control_channel_name()
    }

    /// What to send when the channel opens: one announcement of the monitors
    /// that the server takes.
    pub fn start(&mut self, channel_id: u32) -> (sent: Result<
        Vec<DisplayControlPdu>,
        ServerError,
    >)
        ensures
            *final(self) == *old(self),
            sent is Ok <==> old(self).max_monitors() <= MAX_MONITORS,
            sent matches Ok(messages) ==> messages@.len() == 1 && control_bytes(messages@[0])
                == caps_bytes(old(self).max_monitors(), MAX_MONITOR_WIDTH, MAX_MONITOR_HEIGHT),
            sent matches Err(error) ==> error == ServerError::TooManyMonitors,
    {
        match capabilities(self.max_num_monitors, MAX_MONITOR_WIDTH, MAX_MONITOR_HEIGHT) {
            Ok(pdu) => {
                let mut messages: Vec<DisplayControlPdu> = Vec::new();
                messages.push(pdu);
                Ok(messages)
            },
            Err(_) => Err(ServerError::TooManyMonitors),
        }
    }

    /// The layout to hand to the handler for received bytes, if they hold one.
    pub fn received_layout(payload: &[u8]) -> (layout: Result<
        Option<DisplayControlMonitorLayout>,
        ServerError,
    >)
        ensures
            layout == match control_message(payload@) {
                None => Err(ServerError::Decode),
                Some(ControlMessage::Caps) => Ok(None),
                Some(ControlMessage::MonitorLayout(layout)) => Ok(Some(layout)),
            },
    {
        match decode_control(payload) {
            Ok(ControlMessage::Caps) => Ok(None),
            Ok(ControlMessage::MonitorLayout(layout)) => Ok(Some(layout)),
            Err(_) => Err(ServerError::Decode),
        }
    }

    /// Takes received bytes: a monitor layout goes to the handler. There is
    /// nothing to send in return.
    pub fn process(&mut self, channel_id: u32, payload: &[u8]) -> (sent: Result<
        Vec<DisplayControlPdu>,
        ServerError,
    >)
        ensures
            *final(self) == *old(self),
            sent is Ok <==> control_message(payload@) is Some,
            sent matches Ok(messages) ==> messages@.len() == 0,
            sent matches Err(error) ==> error == ServerError::Decode,
    {
        match Self::received_layout(payload) {
            Ok(Some(layout)) => {
                self.handler.value.monitor_layout(layout);
                Ok(Vec::new())
            },
            Ok(None) => Ok(Vec::new()),
            Err(error) => Err(error),
        }
    }
}

/// Four bytes hold a number, the lowest first.
pub proof fn four_bytes_hold_a_number(n: u32)
    ensures
        le32(n).len() == 4,
        le32(n)[0] + 256 * le32(n)[1] + 65536 * le32(n)[2] + 16777216 * le32(n)[3] == n,
{
}

} // verus!
