//! Where display updates go: over the graphics channel, through the encoder of
//! bitmap updates, or into a new start of the session.

use ironrdp_core::{Encode, EncodeError, EncodeResult, WriteCursor};
use ironrdp_dvc::{encode_dvc_messages, DvcEncode, DvcMessage};
use ironrdp_svc::{ChannelFlags, SvcMessage};
use vstd::prelude::*;

use crate::channels;
use crate::channels::MessageView;
use crate::errors::ServerError;
use crate::update::{DesktopSize, DisplayUpdate};

verus! {

/// Where encoded bytes are written.
#[verifier::external_type_specification]
#[verifier::external_body]
pub struct ExWriteCursor<'a>(ironrdp_core::WriteCursor<'a>);

/// The bytes of a graphics message.
#[derive(Debug)]
pub struct RawGfxPdu {
    pub data: Vec<u8>,
}

/// What has been written so far.
pub uninterp spec fn written(dst: WriteCursor<'_>) -> Seq<u8>;

/// How many more bytes can be written.
pub uninterp spec fn room(dst: WriteCursor<'_>) -> nat;

/// `Encode::encode` of a vector: writes its bytes where there is room for them,
/// and nothing otherwise.
#[verifier::external_body]
fn encode_bytes(data: &Vec<u8>, dst: &mut WriteCursor<'_>) -> (done: EncodeResult<()>)
    ensures
        done is Ok == (data@.len() <= room(*old(dst))),
        written(*final(dst)) == if done is Ok {
            written(*old(dst)) + data@
        } else {
            written(*old(dst))
        },
        room(*final(dst)) == if done is Ok {
            room(*old(dst)) - data@.len()
        } else {
            room(*old(dst)) as int
        },
{
    data.encode(dst)
}

impl Encode for RawGfxPdu {
    fn encode(&self, dst: &mut WriteCursor<'_>) -> (done: EncodeResult<()>)
        ensures
            done is Ok == (self.data@.len() <= room(*old(dst))),
            written(*final(dst)) == if done is Ok {
                written(*old(dst)) + self.data@
            } else {
                written(*old(dst))
            },
            room(*final(dst)) == if done is Ok {
                room(*old(dst)) - self.data@.len()
            } else {
                room(*old(dst)) as int
            },
    {
        encode_bytes(&self.data, dst)
    }

    fn name(&self) -> (name: &'static str)
        ensures
            name@ == "RawGfxPdu"@,
    {
        "RawGfxPdu"
    }

    fn size(&self) -> (size: usize)
        ensures
            size == self.data@.len(),
    {
        self.data.len()
    }
}

impl DvcEncode for RawGfxPdu {

}

/// The messages that carry data over a dynamic channel, each small enough for
/// one; none where the data is too long.
pub uninterp spec fn dynamic_messages(channel: u32, data: Seq<u8>) -> Option<Seq<MessageView>>;

/// `ironrdp_dvc::encode_dvc_messages` for one message: what comes out depends on
/// the channel and the bytes alone. Its messages hold bytes and can be written,
/// or fail to be.
#[verifier::external_body]
fn split_for_channel(channel: u32, pdu: RawGfxPdu) -> (messages: Result<
    Vec<SvcMessage>,
    EncodeError,
>)
    ensures
        match messages {
            Ok(list) => dynamic_messages(channel, pdu.data@) == Some(channels::all_said(list@))
                && channels::all_encodable(list@),
            Err(_) => dynamic_messages(channel, pdu.data@) is None,
        },
{
    let messages: Vec<DvcMessage> = vec![Box::new(pdu)];
    encode_dvc_messages(channel, messages, ChannelFlags::SHOW_PROTOCOL)
}

/// What kind of update it is.
#[derive(Clone, Copy, Debug, PartialEq, Eq, Structural)]
pub enum UpdateKind {
    /// The desktop has a new size.
    Resize(DesktopSize),
    /// A frame for the graphics channel.
    GfxFrame,
    /// Uncompressed pixels for the graphics channel.
    GfxUncompressed,
    /// Parts of a frame for the graphics channel.
    GfxDirtyH264,
    /// An update for the encoder of bitmap updates.
    Plain,
}

/// Where an update goes.
#[derive(Clone, Copy, Debug, PartialEq, Eq, Structural)]
pub enum Route {
    /// The session is deactivated, and starts over with this size.
    Restart(DesktopSize),
    /// Over the graphics channel, inside the static channel with this number.
    Graphics(u16),
    /// Through the encoder of bitmap updates.
    Encoder,
}

/// The kind of an update.
pub open spec fn kind_of(update: DisplayUpdate) -> UpdateKind {
    match update {
        DisplayUpdate::Resize(size) => UpdateKind::Resize(size),
        DisplayUpdate::GfxFrame(_) => UpdateKind::GfxFrame,
        DisplayUpdate::GfxDirtyH264(_) => UpdateKind::GfxDirtyH264,
        _ => UpdateKind::Plain,
    }
}

/// Where an update of a kind goes: updates for the graphics channel take it
/// where it is ready and the channel that carries it has a number.
pub open spec fn route_of(kind: UpdateKind, gfx_ready: bool, drdynvc: Option<u16>) -> Route {
    match kind {
        UpdateKind::Resize(size) => Route::Restart(size),
        UpdateKind::Plain => Route::Encoder,
        _ => match drdynvc {
            Some(number) if gfx_ready => Route::Graphics(number),
            _ => Route::Encoder,
        },
    }
}

/// The kind of an update.
pub fn update_kind(update: &DisplayUpdate) -> (kind: UpdateKind)
    ensures
        kind == kind_of(*update),
{
    match update {
        DisplayUpdate::Resize(size) => UpdateKind::Resize(*size),
        DisplayUpdate::GfxFrame(_) => UpdateKind::GfxFrame,
        DisplayUpdate::GfxDirtyH264(_) => UpdateKind::GfxDirtyH264,
        DisplayUpdate::Bitmap(_) => UpdateKind::Plain,
        DisplayUpdate::PointerPosition { .. } => UpdateKind::Plain,
        DisplayUpdate::DefaultPointer => UpdateKind::Plain,
    }
}

/// Where an update of a kind goes.
pub fn dispatch_display_update(kind: UpdateKind, gfx_ready: bool, drdynvc: Option<u16>) -> (route:
    Route)
    ensures
        route == route_of(kind, gfx_ready, drdynvc),
{
    match kind {
        UpdateKind::Resize(size) => Route::Restart(size),
        UpdateKind::Plain => Route::Encoder,
        UpdateKind::GfxFrame | UpdateKind::GfxUncompressed | UpdateKind::GfxDirtyH264 => {
            match drdynvc {
                Some(number) => if gfx_ready {
                    Route::Graphics(number)
                } else {
                    Route::Encoder
                },
                None => Route::Encoder,
            }
        },
    }
}

/// A graphics message, as the bytes to send.
pub open spec fn graphics_bytes(
    channel: u32,
    data: Seq<u8>,
    drdynvc: u16,
    user_channel: u16,
) -> Option<Seq<u8>> {
    match dynamic_messages(channel, data) {
        Some(messages) => channels::framed(messages, drdynvc, user_channel),
        None => None,
    }
}

/// A graphics message, as the bytes to send: cut up for the dynamic channel
/// `channel_id`, and framed for the static channel that carries it.
pub fn encode_graphics(channel_id: u32, data: Vec<u8>, drdynvc_id: u16, user_channel_id: u16) -> (
    bytes: Result<Vec<u8>, ServerError>)
    ensures
        match bytes {
            Ok(out) => graphics_bytes(channel_id, data@, drdynvc_id, user_channel_id) == Some(out@),
            Err(error) => graphics_bytes(channel_id, data@, drdynvc_id, user_channel_id) is None
                && error == ServerError::Encode,
        },
{
    match split_for_channel(channel_id, RawGfxPdu { data }) {
        Ok(messages) => channels::encode_messages(messages, drdynvc_id, user_channel_id),
        Err(_) => Err(ServerError::Encode),
    }
}

/// Makes a buffer at least `size` bytes long; new bytes are zero.
pub fn grow_buffer(buffer: &mut Vec<u8>, size: usize)
    ensures
        final(buffer)@ == if size > old(buffer)@.len() {
            old(buffer)@ + Seq::new((size - old(buffer)@.len()) as nat, |i: int| 0u8)
        } else {
            old(buffer)@
        },
{
    if size > buffer.len() {
        let ghost before = buffer@;
        buffer.resize(size, 0);
        assert(buffer@ =~= before + Seq::new((size - before.len()) as nat, |i: int| 0u8));
    }
}

/// Every update goes somewhere, and only updates for the graphics channel go
/// over it.
pub proof fn graphics_channel_is_for_graphics(
    kind: UpdateKind,
    gfx_ready: bool,
    drdynvc: Option<u16>,
)
    ensures
        route_of(kind, gfx_ready, drdynvc) is Graphics <==> gfx_ready && drdynvc is Some && (kind
            is GfxFrame || kind is GfxUncompressed || kind is GfxDirtyH264),
        route_of(kind, gfx_ready, drdynvc) is Restart <==> kind is Resize,
{
}

/// With the graphics channel ready, updates that hold H.264 go over it, inside
/// the channel that carries it, and no others do. An update is a new start just
/// where the desktop has a new size, and then with that size. All other updates
/// go through the encoder of bitmap updates, as do all but new sizes where the
/// graphics channel is not ready or has no number.
pub proof fn updates_go_where_they_belong(
    update: DisplayUpdate,
    gfx_ready: bool,
    drdynvc: Option<u16>,
    number: u16,
    size: DesktopSize,
)
    ensures
        ({
            let route = route_of(kind_of(update), gfx_ready, drdynvc);
            let h264 = update is GfxFrame || update is GfxDirtyH264;
            &&& route == Route::Graphics(number) <==> h264 && gfx_ready && drdynvc == Some(number)
            &&& route == Route::Restart(size) <==> update == DisplayUpdate::Resize(size)
            &&& route == Route::Encoder <==> !(update is Resize) && !(h264 && gfx_ready && drdynvc
                is Some)
        }),
{
}

/// What goes over the graphics channel goes inside the channel that carries it,
/// whichever number that has. A new size is the size of the new start.
pub proof fn graphics_take_the_given_channel(kind: UpdateKind, gfx_ready: bool, number: u16)
    ensures
        route_of(kind, gfx_ready, Some(number)) matches Route::Graphics(n) ==> n == number,
        route_of(kind, gfx_ready, None) == route_of(kind, false, Some(number)),
        forall|size: DesktopSize| #[trigger]
            route_of(UpdateKind::Resize(size), gfx_ready, Some(number)) == Route::Restart(size),
{
}

/// A graphics message is cut up for its dynamic channel and then framed for the
/// static channel that carries it, in the name of the user's channel; where either
/// fails, nothing is sent.
pub proof fn graphics_are_cut_and_framed(
    channel: u32,
    data: Seq<u8>,
    drdynvc: u16,
    user_channel: u16,
    bytes: Seq<u8>,
)
    ensures
        graphics_bytes(channel, data, drdynvc, user_channel) == Some(bytes) <==> exists|
            messages: Seq<MessageView>,
        |
            dynamic_messages(channel, data) == Some(messages) && #[trigger] channels::framed(
                messages,
                drdynvc,
                user_channel,
            ) == Some(bytes),
{
    if graphics_bytes(channel, data, drdynvc, user_channel) == Some(bytes) {
        let messages = dynamic_messages(channel, data)->Some_0;
        assert(channels::framed(messages, drdynvc, user_channel) == Some(bytes));
    }
}

} // verus!
