//! What the server offers and what it makes of the client's capabilities.

use ironrdp_pdu::nego::SecurityProtocol;
use tokio_rustls::TlsAcceptor;
use vstd::prelude::*;

use crate::errors::ServerError;
use crate::update::DesktopSize;

verus! {

/// TLS.
pub const PROTOCOL_SSL: u32 = 1;

/// TLS with authentication at the network level.
pub const PROTOCOL_HYBRID: u32 = 2;

/// The same, with an early answer to the authentication.
pub const PROTOCOL_HYBRID_EX: u32 = 8;

/// The server's end of TLS.
#[verifier::external_type_specification]
#[verifier::external_body]
pub struct ExTlsAcceptor(tokio_rustls::TlsAcceptor);

/// A set of security protocols.
#[verifier::external_type_specification]
#[verifier::external_body]
pub struct ExSecurityProtocol(ironrdp_pdu::nego::SecurityProtocol);

/// The bits of a set of security protocols.
pub uninterp spec fn protocol_bits(protocols: SecurityProtocol) -> u32;

/// `SecurityProtocol::from_bits_retain`: the set with these bits.
#[verifier::external_body]
fn protocols(bits: u32) -> (set: SecurityProtocol)
    ensures
        protocol_bits(set) == bits,
{
    SecurityProtocol::from_bits_retain(bits)
}

/// How connections are secured.
pub enum RdpServerSecurity {
    /// Not at all.
    Unsecured,
    /// By TLS.
    Tls(TlsAcceptor),
    /// By TLS with authentication at the network level, for which the server's
    /// public key is needed.
    Hybrid(TlsAcceptor, Vec<u8>),
}

/// The bits of the protocols that the server offers. With authentication at the
/// network level, plain TLS stays on offer for clients that cannot do it.
pub open spec fn offered(security: RdpServerSecurity) -> u32 {
    match security {
        RdpServerSecurity::Unsecured => 0,
        RdpServerSecurity::Tls(_) => PROTOCOL_SSL,
        RdpServerSecurity::Hybrid(..) => (PROTOCOL_HYBRID + PROTOCOL_HYBRID_EX + PROTOCOL_SSL) as u32,
    }
}

impl RdpServerSecurity {
    /// The protocols that the server offers.
    pub fn flag(&self) -> (set: SecurityProtocol)
        ensures
            protocol_bits(set) == offered(*self),
    {
        match self {
            RdpServerSecurity::Unsecured => protocols(0),
            RdpServerSecurity::Tls(_) => protocols(PROTOCOL_SSL),
            RdpServerSecurity::Hybrid(..) => protocols(
                PROTOCOL_HYBRID + PROTOCOL_HYBRID_EX + PROTOCOL_SSL,
            ),
        }
    }
}

/// An address that the server listens on.
#[derive(Clone, Copy, Debug, PartialEq, Eq, Structural)]
pub enum ServerAddr {
    /// An address of four bytes, the first of which is the highest of `ip`.
    V4 { ip: u32, port: u16 },
    /// An address of sixteen bytes, the first of which is the highest of `ip6`.
    V6 { ip6: u128, port: u16, flowinfo: u32, scope_id: u32 },
}

/// How a RemoteFX codec codes its coefficients.
#[derive(Clone, Copy, Debug, PartialEq, Eq, Structural)]
pub enum EntropyBits {
    Rlgr1,
    Rlgr3,
}

/// The parameters of a RemoteFX codec.
#[derive(Debug)]
pub enum RemoteFxContainer {
    /// What a client can do.
    Client(Vec<EntropyBits>),
    /// What a server offers.
    Server,
}

/// What a codec is.
#[derive(Debug)]
pub enum CodecProperty {
    RemoteFx(RemoteFxContainer),
    ImageRemoteFx(RemoteFxContainer),
    NsCodec,
    Qoi,
    QoiZ,
    Other,
}

/// A bitmap codec and its number.
#[derive(Debug)]
pub struct Codec {
    pub id: u8,
    pub property: CodecProperty,
}

/// What a server is set up with.
pub struct RdpServerOptions {
    pub addr: ServerAddr,
    pub security: RdpServerSecurity,
    pub codecs: Vec<Codec>,
}

/// Whether there is a RemoteFX image codec among `codecs`.
pub open spec fn any_image_remote_fx(codecs: Seq<Codec>) -> bool {
    exists|i: int| 0 <= i < codecs.len() && (#[trigger] codecs[i]).property is ImageRemoteFx
}

/// Whether there is a RemoteFX codec among `codecs`.
pub open spec fn any_remote_fx(codecs: Seq<Codec>) -> bool {
    exists|i: int| 0 <= i < codecs.len() && (#[trigger] codecs[i]).property is RemoteFx
}

/// Whether there is a QOI codec among `codecs`.
pub open spec fn any_qoi(codecs: Seq<Codec>) -> bool {
    exists|i: int| 0 <= i < codecs.len() && (#[trigger] codecs[i]).property is Qoi
}

/// Whether there is a compressed QOI codec among `codecs`.
pub open spec fn any_qoiz(codecs: Seq<Codec>) -> bool {
    exists|i: int| 0 <= i < codecs.len() && (#[trigger] codecs[i]).property is QoiZ
}

impl RdpServerOptions {
    /// Whether the server offers RemoteFX in image mode.
    pub fn has_image_remote_fx(&self) -> (yes: bool)
        ensures
            yes == any_image_remote_fx(self.codecs@),
    {
        let codecs: &Vec<Codec> = &self.codecs;
        let mut i: usize = 0;
        while i < codecs.len()
            invariant
                codecs == self.codecs,
                i <= codecs@.len(),
                forall|j: int| 0 <= j < i ==> !((#[trigger] codecs@[j]).property is ImageRemoteFx),
            decreases codecs@.len() - i,
        {
            if let CodecProperty::ImageRemoteFx(_) = &codecs[i].property {
                return true;
            }
            i += 1;
        }
        false
    }

    /// Whether the server offers RemoteFX.
    pub fn has_remote_fx(&self) -> (yes: bool)
        ensures
            yes == any_remote_fx(self.codecs@),
    {
        let codecs: &Vec<Codec> = &self.codecs;
        let mut i: usize = 0;
        while i < codecs.len()
            invariant
                codecs == self.codecs,
                i <= codecs@.len(),
                forall|j: int| 0 <= j < i ==> !((#[trigger] codecs@[j]).property is RemoteFx),
            decreases codecs@.len() - i,
        {
            if let CodecProperty::RemoteFx(_) = &codecs[i].property {
                return true;
            }
            i += 1;
        }
        false
    }

    /// Whether the server offers QOI.
    pub fn has_qoi(&self) -> (yes: bool)
        ensures
            yes == any_qoi(self.codecs@),
    {
        let codecs: &Vec<Codec> = &self.codecs;
        let mut i: usize = 0;
        while i < codecs.len()
            invariant
                codecs == self.codecs,
                i <= codecs@.len(),
                forall|j: int| 0 <= j < i ==> !((#[trigger] codecs@[j]).property is Qoi),
            decreases codecs@.len() - i,
        {
            if let CodecProperty::Qoi = &codecs[i].property {
                return true;
            }
            i += 1;
        }
        false
    }

    /// Whether the server offers compressed QOI.
    pub fn has_qoiz(&self) -> (yes: bool)
        ensures
            yes == any_qoiz(self.codecs@),
    {
        let codecs: &Vec<Codec> = &self.codecs;
        let mut i: usize = 0;
        while i < codecs.len()
            invariant
                codecs == self.codecs,
                i <= codecs@.len(),
                forall|j: int| 0 <= j < i ==> !((#[trigger] codecs@[j]).property is QoiZ),
            decreases codecs@.len() - i,
        {
            if let CodecProperty::QoiZ = &codecs[i].property {
                return true;
            }
            i += 1;
        }
        false
    }
}

/// A capability of a client.
#[derive(Debug)]
pub enum Capability {
    /// Whether it takes fast-path output.
    General { fastpath_output: bool },
    /// The size of its desktop.
    Bitmap { width: u16, height: u16 },
    /// The surface commands that it takes.
    SurfaceCommands { flags: u32 },
    /// The bitmap codecs that it takes.
    BitmapCodecs(Vec<Codec>),
    /// Anything else.
    Other,
}

/// What the encoder of display updates works with: for each codec that both
/// ends know, how the client wants it.
#[derive(Clone, Copy, Debug, PartialEq, Eq)]
pub struct Negotiated {
    /// The RemoteFX coding and the codec's number.
    pub remotefx: Option<(EntropyBits, u8)>,
    /// The number of the QOI codec.
    pub qoi: Option<u8>,
    /// The number of the compressed QOI codec.
    pub qoiz: Option<u8>,
    /// The surface commands that the client takes.
    pub surface_flags: u32,
}

/// The RemoteFX setting after a client's codec: the last of its codings counts.
pub open spec fn with_remote_fx(s: Negotiated, codings: Seq<EntropyBits>, id: u8) -> Negotiated {
    if codings.len() > 0 {
        Negotiated { remotefx: Some((codings.last(), id)), ..s }
    } else {
        s
    }
}

/// What is negotiated after one of the client's codecs; `offers` are the
/// server's.
pub open spec fn with_codec(s: Negotiated, offers: Seq<Codec>, codec: Codec) -> Negotiated {
    match codec.property {
        CodecProperty::RemoteFx(RemoteFxContainer::Client(codings)) => if any_remote_fx(offers) {
            with_remote_fx(s, codings@, codec.id)
        } else {
            s
        },
        CodecProperty::ImageRemoteFx(RemoteFxContainer::Client(codings)) => if any_image_remote_fx(
            offers,
        ) {
            with_remote_fx(s, codings@, codec.id)
        } else {
            s
        },
        CodecProperty::Qoi => if any_qoi(offers) {
            Negotiated { qoi: Some(codec.id), ..s }
        } else {
            s
        },
        CodecProperty::QoiZ => if any_qoiz(offers) {
            Negotiated { qoiz: Some(codec.id), ..s }
        } else {
            s
        },
        _ => s,
    }
}

/// What is negotiated after the client's codecs, in order.
pub open spec fn with_codecs(s: Negotiated, offers: Seq<Codec>, codecs: Seq<Codec>) -> Negotiated
    decreases codecs.len(),
{
    if codecs.len() == 0 {
        s
    } else {
        with_codec(with_codecs(s, offers, codecs.drop_last()), offers, codecs.last())
    }
}

/// What is negotiated after one of the client's capabilities.
pub open spec fn with_capability(
    s: Negotiated,
    offers: Seq<Codec>,
    capability: Capability,
) -> Negotiated {
    match capability {
        Capability::SurfaceCommands { flags } => Negotiated { surface_flags: flags, ..s },
        Capability::BitmapCodecs(codecs) => with_codecs(s, offers, codecs@),
        _ => s,
    }
}

/// What is negotiated after the client's capabilities, in order; none where the
/// client is turned away, because it does not take fast-path output.
pub open spec fn negotiated(offers: Seq<Codec>, capabilities: Seq<Capability>) -> Option<Negotiated>
    decreases capabilities.len(),
{
    if capabilities.len() == 0 {
        Some(nothing_negotiated())
    } else {
        match (negotiated(offers, capabilities.drop_last()), capabilities.last()) {
            (None, _) => None,
            (_, Capability::General { fastpath_output: false }) => None,
            (Some(s), last) => Some(with_capability(s, offers, last)),
        }
    }
}

/// What is negotiated before the first capability.
pub open spec fn nothing_negotiated() -> Negotiated {
    Negotiated { remotefx: None, qoi: None, qoiz: None, surface_flags: 0 }
}

/// The desktop size that a capability names.
pub open spec fn client_size(capability: Capability) -> Option<DesktopSize> {
    match capability {
        Capability::Bitmap { width, height } => Some(DesktopSize { width, height }),
        _ => None,
    }
}

impl Negotiated {
    /// Nothing is negotiated yet.
    pub fn new() -> (s: Self)
        ensures
            s == nothing_negotiated(),
    {
        Negotiated { remotefx: None, qoi: None, qoiz: None, surface_flags: 0 }
    }

    /// Takes a RemoteFX codec of the client.
    fn take_remote_fx(&mut self, codings: &Vec<EntropyBits>, id: u8)
        ensures
            *final(self) == with_remote_fx(*old(self), codings@, id),
    {
        if codings.len() > 0 {
            self.remotefx = Some((codings[codings.len() - 1], id));
        }
    }

    /// Takes one of the client's codecs.
    fn take_codec(&mut self, opts: &RdpServerOptions, codec: &Codec)
        ensures
            *final(self) == with_codec(*old(self), opts.codecs@, *codec),
    {
        match &codec.property {
            CodecProperty::RemoteFx(container) => {
                if let RemoteFxContainer::Client(codings) = container {
                    if opts.has_remote_fx() {
                        self.take_remote_fx(codings, codec.id);
                    }
                }
            },
            CodecProperty::ImageRemoteFx(container) => {
                if let RemoteFxContainer::Client(codings) = container {
                    if opts.has_image_remote_fx() {
                        self.take_remote_fx(codings, codec.id);
                    }
                }
            },
            CodecProperty::Qoi => {
                if opts.has_qoi() {
                    self.qoi = Some(codec.id);
                }
            },
            CodecProperty::QoiZ => {
                if opts.has_qoiz() {
                    self.qoiz = Some(codec.id);
                }
            },
            CodecProperty::NsCodec => {},
            CodecProperty::Other => {},
        }
    }

    /// Takes one of the client's capabilities. Says which desktop size the
    /// client has, where it is told; fails where the client does not take
    /// fast-path output.
    pub fn take_capability(&mut self, opts: &RdpServerOptions, capability: &Capability) -> (size:
        Result<Option<DesktopSize>, ServerError>)
        ensures
            match size {
                Ok(size) => {
                    &&& !(capability matches Capability::General { fastpath_output: false })
                    &&& size == client_size(*capability)
                    &&& *final(self) == with_capability(*old(self), opts.codecs@, *capability)
                },
                Err(error) => {
                    &&& capability matches Capability::General { fastpath_output: false }
                    &&& error == ServerError::FastPathOutputUnsupported
                    &&& *final(self) == *old(self)
                },
            },
    {
        match capability {
            Capability::General { fastpath_output } => {
                if *fastpath_output {
                    Ok(None)
                } else {
                    Err(ServerError::FastPathOutputUnsupported)
                }
            },
            Capability::Bitmap { width, height } => Ok(
                Some(DesktopSize { width: *width, height: *height }),
            ),
            Capability::SurfaceCommands { flags } => {
                self.surface_flags = *flags;
                Ok(None)
            },
            Capability::BitmapCodecs(codecs) => {
                let ghost before = *self;
                let mut i: usize = 0;
                assert(codecs@.take(0) =~= Seq::empty());
                while i < codecs.len()
                    invariant
                        i <= codecs@.len(),
                        *self == with_codecs(before, opts.codecs@, codecs@.take(i as int)),
                    decreases codecs@.len() - i,
                {
                    assert(codecs@.take(i + 1).drop_last() =~= codecs@.take(i as int));
                    self.take_codec(opts, &codecs[i]);
                    i += 1;
                }
                assert(codecs@.take(i as int) =~= codecs@);
                Ok(None)
            },
            Capability::Other => Ok(None),
        }
    }
}

/// The size to ask the display for, where the client's desktop has another size
/// than the display.
pub fn requested_size(client: DesktopSize, display: DesktopSize) -> (size: Option<DesktopSize>)
    ensures
        size == if client == display {
            None
        } else {
            Some(client)
        },
        size == size_to_request(client, display),
{
    if client.width != display.width || client.height != display.height {
        Some(client)
    } else {
        None
    }
}

/// A client that does not take fast-path output is turned away, wherever it
/// says so.
pub proof fn fast_path_is_required(offers: Seq<Codec>, capabilities: Seq<Capability>, i: int)
    requires
        0 <= i < capabilities.len(),
        capabilities[i] matches Capability::General { fastpath_output: false },
    ensures
        negotiated(offers, capabilities) is None,
    decreases capabilities.len(),
{
    if i < capabilities.len() - 1 {
        fast_path_is_required(offers, capabilities.drop_last(), i);
    }
}

/// Whether every negotiated codec is one that the server offers.
pub open spec fn only_offered(s: Negotiated, offers: Seq<Codec>) -> bool {
    &&& s.remotefx is Some ==> any_remote_fx(offers) || any_image_remote_fx(offers)
    &&& s.qoi is Some ==> any_qoi(offers)
    &&& s.qoiz is Some ==> any_qoiz(offers)
}

/// No codec is negotiated that the server does not offer.
pub proof fn negotiation_stays_within_the_offer(offers: Seq<Codec>, capabilities: Seq<Capability>)
    ensures
        negotiated(offers, capabilities) matches Some(s) ==> only_offered(s, offers),
    decreases capabilities.len(),
{
    if capabilities.len() > 0 {
        negotiation_stays_within_the_offer(offers, capabilities.drop_last());
        if let Some(s) = negotiated(offers, capabilities.drop_last()) {
            if let Capability::BitmapCodecs(codecs) = capabilities.last() {
                lemma_codecs_stay_within_the_offer(s, offers, codecs@);
            }
        }
    }
}

/// No codec is taken that the server does not offer.
proof fn lemma_codecs_stay_within_the_offer(
    s: Negotiated,
    offers: Seq<Codec>,
    codecs: Seq<Codec>,
)
    requires
        only_offered(s, offers),
    ensures
        only_offered(with_codecs(s, offers, codecs), offers),
    decreases codecs.len(),
{
    if codecs.len() > 0 {
        lemma_codecs_stay_within_the_offer(s, offers, codecs.drop_last());
    }
}

/// A server without security offers no protocol, one with TLS offers that, and
/// one with authentication at the network level offers it in both forms, and TLS.
/// No server offers anything else.
pub proof fn security_decides_the_offer(security: RdpServerSecurity)
    ensures
        offered(security) == 0 <==> security is Unsecured,
        offered(security) == 1 <==> security is Tls,
        offered(security) == 11 <==> security is Hybrid,
{
}

/// Whether a codec of the client sets the RemoteFX coding.
pub open spec fn sets_remote_fx(offers: Seq<Codec>, codec: Codec) -> bool {
    match codec.property {
        CodecProperty::RemoteFx(RemoteFxContainer::Client(codings)) => codings@.len() > 0 && exists|
            j: int,
        |
            0 <= j < offers.len() && (#[trigger] offers[j]).property is RemoteFx,
        CodecProperty::ImageRemoteFx(RemoteFxContainer::Client(codings)) => codings@.len() > 0
            && exists|j: int|
            0 <= j < offers.len() && (#[trigger] offers[j]).property is ImageRemoteFx,
        _ => false,
    }
}

/// The codings of a RemoteFX codec of the client.
pub open spec fn codings_of(codec: Codec) -> Seq<EntropyBits> {
    match codec.property {
        CodecProperty::RemoteFx(RemoteFxContainer::Client(codings)) => codings@,
        CodecProperty::ImageRemoteFx(RemoteFxContainer::Client(codings)) => codings@,
        _ => Seq::empty(),
    }
}

/// Of the client's codecs that the server offers too, the last of each sort
/// counts: its number is used, and of RemoteFX the last coding in it.
pub proof fn last_codec_counts(s: Negotiated, offers: Seq<Codec>, codecs: Seq<Codec>, i: int)
    requires
        0 <= i < codecs.len(),
    ensures
        ({
            let done = with_codecs(s, offers, codecs);
            let codec = codecs[i];
            &&& codec.property is Qoi && any_qoi(offers) && (forall|j: int|
                i < j < codecs.len() ==> !((#[trigger] codecs[j]).property is Qoi)) ==> done.qoi
                == Some(codec.id)
            &&& codec.property is QoiZ && any_qoiz(offers) && (forall|j: int|
                i < j < codecs.len() ==> !((#[trigger] codecs[j]).property is QoiZ)) ==> done.qoiz
                == Some(codec.id)
            &&& sets_remote_fx(offers, codec) && (forall|j: int|
                i < j < codecs.len() ==> !sets_remote_fx(offers, #[trigger] codecs[j]))
                ==> done.remotefx == Some((codings_of(codec).last(), codec.id))
        }),
    decreases codecs.len(),
{
    if i < codecs.len() - 1 {
        last_codec_counts(s, offers, codecs.drop_last(), i);
        let last = codecs[codecs.len() - 1];
        assert(codecs.drop_last()[i] == codecs[i]);
        assert(codecs.last() == last);
    }
}

/// Codecs of one sort leave what was negotiated of the others, and codecs leave
/// the surface commands. A sort that the server does not offer, or that the client
/// does not name, stays as it was.
pub proof fn codecs_keep_to_their_sort(s: Negotiated, offers: Seq<Codec>, codecs: Seq<Codec>)
    ensures
        ({
            let done = with_codecs(s, offers, codecs);
            &&& done.surface_flags == s.surface_flags
            &&& (!any_qoi(offers) || forall|i: int|
                0 <= i < codecs.len() ==> !((#[trigger] codecs[i]).property is Qoi)) ==> done.qoi
                == s.qoi
            &&& (!any_qoiz(offers) || forall|i: int|
                0 <= i < codecs.len() ==> !((#[trigger] codecs[i]).property is QoiZ)) ==> done.qoiz
                == s.qoiz
            &&& (forall|i: int|
                0 <= i < codecs.len() ==> !sets_remote_fx(offers, #[trigger] codecs[i]))
                ==> done.remotefx == s.remotefx
        }),
    decreases codecs.len(),
{
    if codecs.len() > 0 {
        codecs_keep_to_their_sort(s, offers, codecs.drop_last());
        let last = codecs[codecs.len() - 1];
        assert(codecs.last() == last);
        assert forall|i: int| 0 <= i < codecs.len() - 1 implies #[trigger] codecs.drop_last()[i]
            == codecs[i] by {}
    }
}

/// What the server offers is what is among its codecs.
pub proof fn offers_are_what_is_there(codecs: Seq<Codec>, i: int)
    requires
        0 <= i < codecs.len(),
    ensures
        codecs[i].property is RemoteFx ==> any_remote_fx(codecs),
        codecs[i].property is ImageRemoteFx ==> any_image_remote_fx(codecs),
        codecs[i].property is Qoi ==> any_qoi(codecs),
        codecs[i].property is QoiZ ==> any_qoiz(codecs),
        (forall|j: int|
            0 <= j < codecs.len() ==> (#[trigger] codecs[j]).property == codecs[i].property) ==> {
            &&& any_remote_fx(codecs) <==> codecs[i].property is RemoteFx
            &&& any_image_remote_fx(codecs) <==> codecs[i].property is ImageRemoteFx
            &&& any_qoi(codecs) <==> codecs[i].property is Qoi
            &&& any_qoiz(codecs) <==> codecs[i].property is QoiZ
        },
{
}

/// A client is turned away just where one of its capabilities says that it does
/// not take fast-path output.
pub proof fn only_fast_path_is_required(offers: Seq<Codec>, capabilities: Seq<Capability>)
    ensures
        negotiated(offers, capabilities) is None <==> exists|i: int|
            0 <= i < capabilities.len() && (#[trigger] capabilities[i]
                matches Capability::General { fastpath_output: false }),
    decreases capabilities.len(),
{
    if capabilities.len() > 0 {
        let front = capabilities.drop_last();
        only_fast_path_is_required(offers, front);
        let n = capabilities.len() - 1;
        assert(capabilities.last() == capabilities[n]);
        if exists|i: int|
            0 <= i < front.len() && (#[trigger] front[i]
                matches Capability::General { fastpath_output: false }) {
            let i = choose|i: int|
                0 <= i < front.len() && (#[trigger] front[i]
                    matches Capability::General { fastpath_output: false });
            assert(capabilities[i] == front[i]);
        }
        if exists|i: int|
            0 <= i < capabilities.len() && (#[trigger] capabilities[i]
                matches Capability::General { fastpath_output: false }) {
            let i = choose|i: int|
                0 <= i < capabilities.len() && (#[trigger] capabilities[i]
                    matches Capability::General { fastpath_output: false });
            if i < n {
                assert(front[i] == capabilities[i]);
            }
        }
    }
}

/// What each capability of a client changes: the surface commands or the codecs,
/// and nothing of the other; and of which the size of its desktop can be told.
pub proof fn capabilities_keep_to_themselves(
    s: Negotiated,
    offers: Seq<Codec>,
    capability: Capability,
)
    ensures
        ({
            let after = with_capability(s, offers, capability);
            &&& capability matches Capability::SurfaceCommands { flags } ==> after == (Negotiated {
                surface_flags: flags,
                ..s
            })
            &&& capability matches Capability::BitmapCodecs(codecs) ==> after == with_codecs(
                s,
                offers,
                codecs@,
            )
            &&& !(capability is SurfaceCommands || capability is BitmapCodecs) ==> after == s
            &&& client_size(capability) is Some <==> capability is Bitmap
            &&& capability matches Capability::Bitmap { width, height } ==> client_size(capability)
                == Some(DesktopSize { width, height })
        }),
        nothing_negotiated().remotefx is None,
        nothing_negotiated().qoi is None,
        nothing_negotiated().qoiz is None,
        nothing_negotiated().surface_flags == 0,
{
}

/// The last surface commands that a client names are the ones that count.
pub proof fn last_surface_commands_count(
    offers: Seq<Codec>,
    capabilities: Seq<Capability>,
    i: int,
    flags: u32,
)
    requires
        negotiated(offers, capabilities) is Some,
        0 <= i < capabilities.len(),
        capabilities[i] == (Capability::SurfaceCommands { flags }),
        forall|j: int|
            i < j < capabilities.len() ==> !((#[trigger] capabilities[j]) is SurfaceCommands),
    ensures
        negotiated(offers, capabilities)->Some_0.surface_flags == flags,
    decreases capabilities.len(),
{
    let n = capabilities.len() - 1;
    if i < n {
        let front = capabilities.drop_last();
        assert(front[i] == capabilities[i]);
        assert forall|j: int| i < j < front.len() implies !((#[trigger] front[j])
            is SurfaceCommands) by {
            assert(front[j] == capabilities[j]);
        }
        last_surface_commands_count(offers, front, i, flags);
        assert(capabilities.last() == capabilities[n]);
        if let Capability::BitmapCodecs(codecs) = capabilities[n] {
            codecs_keep_to_their_sort(negotiated(offers, front)->Some_0, offers, codecs@);
        }
    }
}

/// The size to ask the display for.
pub open spec fn size_to_request(client: DesktopSize, display: DesktopSize) -> Option<
    DesktopSize,
> {
    if client == display {
        None
    } else {
        Some(client)
    }
}

/// The display is asked for the client's size just where it differs from the
/// display's, in either extent.
pub proof fn other_sizes_are_requested(client: DesktopSize, display: DesktopSize)
    ensures
        client.width != display.width || client.height != display.height ==> (size_to_request(
            client,
            display,
        ) matches Some(size) && size.width == client.width && size.height == client.height),
        client.width == display.width && client.height == display.height ==> size_to_request(
            client,
            display,
        ) is None,
{
}

} // verus!
