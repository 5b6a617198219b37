//! What can go wrong between server and client.

use vstd::prelude::*;

verus! {

/// An error of the protocol crates, of some kind.
#[verifier::external_type_specification]
#[verifier::external_body]
#[verifier::reject_recursive_types(Kind)]
pub struct ExError<Kind>(ironrdp_error::Error<Kind>);

/// Why bytes could not be read as a message.
#[verifier::external_type_specification]
#[verifier::external_body]
pub struct ExDecodeErrorKind(ironrdp_core::DecodeErrorKind);

/// Why a message could not be written as bytes.
#[verifier::external_type_specification]
#[verifier::external_body]
pub struct ExEncodeErrorKind(ironrdp_core::EncodeErrorKind);

/// Why a channel could not handle a message.
#[verifier::external_type_specification]
#[verifier::external_body]
pub struct ExPduErrorKind(ironrdp_pdu::PduErrorKind);

/// What went wrong with a connection.
#[derive(Clone, Copy, Debug, PartialEq, Eq, Structural)]
pub enum ServerError {
    /// Received bytes are no message.
    Decode,
    /// A message cannot be written.
    Encode,
    /// A channel refused what it received.
    Channel,
    /// A channel that is to carry a message is not there.
    ChannelNotFound,
    /// The sound channel refused a server event.
    SoundEvent,
    /// The clipboard channel refused a server event.
    ClipboardEvent,
    /// The clipboard channel refused the contents of a file.
    FileContents,
    /// The client does not take fast-path output.
    FastPathOutputUnsupported,
    /// A client without TLS cannot take over a session.
    TakeoverWithoutTls,
    /// The display control channel would announce more monitors than it can.
    TooManyMonitors,
}

} // verus!
