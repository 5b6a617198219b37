//! How connections come and go: what the server does between clients, how a
//! client is accepted, how another one takes over, and how a session ends.
//!
//! Sockets, TLS and the protocol's opening moves are not here. Each function
//! takes what happened and says what to do next.

use vstd::prelude::*;
use vstd::string::*;

use crate::channels;
use crate::disconnect;
use crate::disconnect::ErrorCode;
use crate::errors::ServerError;
use crate::negotiation::{RdpServerSecurity, ServerAddr};
use crate::server;
use crate::server::{RdpServer, RunState, ServerEvent};
use crate::update::DesktopSize;

verus! {

/// Whether `pattern` occurs in `text`.
pub open spec fn occurs(pattern: Seq<char>, text: Seq<char>) -> bool {
    exists|i: int|
        0 <= i <= text.len() - pattern.len() && #[trigger] text.subrange(i, i + pattern.len())
            == pattern
}

/// `str::contains`: whether one string occurs in another.
#[verifier::external_body]
fn contains(text: &str, pattern: &str) -> (found: bool)
    ensures
        found == occurs(pattern@, text@),
{
    text.contains(pattern)
}

/// Whether an error says that the client has gone.
pub open spec fn says_gone(error: Seq<char>) -> bool {
    occurs("reset by peer"@, error) || occurs("Broken pipe"@, error)
}

/// Whether an error says that the screen may not be captured.
pub open spec fn says_denied(error: Seq<char>) -> bool {
    occurs("Screen Recording"@, error) || occurs("declined TCCs"@, error) || occurs(
        "shareable content"@,
        error,
    )
}

/// Whether an error says that the client has gone, which is no failure of the
/// server.
pub fn client_is_gone(error: &str) -> (gone: bool)
    ensures
        gone == says_gone(error@),
{
    contains(error, "reset by peer") || contains(error, "Broken pipe")
}

/// Whether an error says that the screen may not be captured.
pub fn capture_is_denied(error: &str) -> (denied: bool)
    ensures
        denied == says_denied(error@),
{
    contains(error, "Screen Recording") || contains(error, "declined TCCs") || contains(
        error,
        "shareable content",
    )
}

/// What to tell the client when the display has no updates, with this error:
/// where the screen may not be captured, that the server lacks privileges.
pub open spec fn farewell(error: Seq<char>, io_channel: u16, user_channel: u16) -> Seq<Seq<u8>> {
    if says_denied(error) {
        disconnect::goodbye(io_channel, user_channel, ErrorCode::ServerInsufficientPrivileges)
    } else {
        Seq::empty()
    }
}

/// What to tell the client when the display has no updates, with this error.
pub fn capture_failed(error: &str, io_channel_id: u16, user_channel_id: u16) -> (messages: Vec<
    Vec<u8>,
>)
    ensures
        server::each(messages@) == farewell(error@, io_channel_id, user_channel_id),
{
    if capture_is_denied(error) {
        let messages = disconnect::send_graceful_disconnect(
            io_channel_id,
            user_channel_id,
            ErrorCode::ServerInsufficientPrivileges,
        );
        assert(server::each(messages@) =~= farewell(error@, io_channel_id, user_channel_id));
        messages
    } else {
        let messages: Vec<Vec<u8>> = Vec::new();
        assert(server::each(messages@) =~= Seq::empty());
        messages
    }
}

/// Whether a character is a decimal digit.
pub open spec fn is_digit(c: char) -> bool {
    '0' <= c <= '9'
}

/// The number that digits stand for.
pub open spec fn digits_value(digits: Seq<char>) -> nat
    decreases digits.len(),
{
    if digits.len() == 0 {
        0
    } else {
        10 * digits_value(digits.drop_last()) + (digits.last() as int - '0' as int) as nat
    }
}

/// `text` without a leading plus sign.
pub open spec fn unsigned(text: Seq<char>) -> Seq<char> {
    if text.len() > 0 && text[0] == '+' {
        text.skip(1)
    } else {
        text
    }
}

/// The 16-bit number that `text` stands for: digits, after a plus sign or not.
pub open spec fn number(text: Seq<char>) -> Option<u16> {
    let digits = unsigned(text);
    if digits.len() > 0 && (forall|i: int| 0 <= i < digits.len() ==> is_digit(#[trigger] digits[i]))
        && digits_value(digits) <= u16::MAX {
        Some(digits_value(digits) as u16)
    } else {
        None
    }
}

/// Where the first `x` stands; the length where there is none.
pub open spec fn first_x(text: Seq<char>) -> int
    decreases text.len(),
{
    if text.len() == 0 {
        0
    } else if text[0] == 'x' {
        0
    } else {
        1 + first_x(text.skip(1))
    }
}

/// The desktop size that `text` stands for: a width, an `x` and a height.
pub open spec fn resolution(text: Seq<char>) -> Option<DesktopSize> {
    let at = first_x(text);
    if at == text.len() {
        None
    } else {
        match (number(text.take(at)), number(text.skip(at + 1))) {
            (Some(width), Some(height)) => Some(DesktopSize { width, height }),
            _ => None,
        }
    }
}

/// The 16-bit number that the characters from `start` up to `end` stand for.
fn parse_number(text: &str, start: usize, end: usize) -> (n: Option<u16>)
    requires
        start <= end <= text@.len(),
    ensures
        n == number(text@.subrange(start as int, end as int)),
{
    let ghost part = text@.subrange(start as int, end as int);
    let plus: bool = start < end && text.get_char(start) == '+';
    let from: usize = if plus {
        start + 1
    } else {
        start
    };
    let ghost digits = text@.subrange(from as int, end as int);
    assert(digits =~= unsigned(part));
    if from == end {
        return None;
    }
    let mut value: u32 = 0;
    let mut i: usize = from;
    assert(digits.take(0) =~= Seq::empty());
    while i < end
        invariant
            from <= i <= end <= text@.len(),
            start <= end,
            digits == text@.subrange(from as int, end as int),
            digits == unsigned(text@.subrange(start as int, end as int)),
            forall|j: int| 0 <= j < i - from ==> is_digit(#[trigger] digits[j]),
            value == if digits_value(digits.take(i - from)) <= u16::MAX {
                digits_value(digits.take(i - from))
            } else {
                0x1_0000
            },
        decreases end - i,
    {
        let c: char = text.get_char(i);
        assert(c == digits[i - from]);
        if !('0' <= c && c <= '9') {
            return None;
        }
        assert(digits.take(i - from + 1).drop_last() =~= digits.take(i - from));
        let next: u32 = value * 10 + (c as u32 - '0' as u32);
        value = if next > 0xFFFF {
            0x1_0000
        } else {
            next
        };
        i += 1;
    }
    assert(digits.take(i - from) =~= digits);
    if value <= 0xFFFF {
        Some(value as u16)
    } else {
        None
    }
}

/// Where the first `x` stands follows from the characters before it.
proof fn lemma_first_x(text: Seq<char>, n: int)
    requires
        0 <= n <= text.len(),
        forall|i: int| 0 <= i < n ==> #[trigger] text[i] != 'x',
        n == text.len() || text[n] == 'x',
    ensures
        first_x(text) == n,
    decreases n,
{
    if n > 0 {
        assert(text[0] != 'x');
        assert forall|i: int| 0 <= i < n - 1 implies #[trigger] text.skip(1)[i] != 'x' by {
            assert(text[i + 1] != 'x');
        }
        lemma_first_x(text.skip(1), n - 1);
    }
}

/// The desktop size that a setting such as `1920x1080` stands for.
pub fn parse_resolution(text: &str) -> (size: Option<DesktopSize>)
    ensures
        size == resolution(text@),
{
    let len: usize = text.unicode_len();
    let mut at: usize = 0;
    while at < len && text.get_char(at) != 'x'
        invariant
            at <= len == text@.len(),
            forall|i: int| 0 <= i < at ==> #[trigger] text@[i] != 'x',
        decreases len - at,
    {
        at += 1;
    }
    proof {
        lemma_first_x(text@, at as int);
    }
    if at == len {
        return None;
    }
    assert(text@.subrange(0, at as int) =~= text@.take(at as int));
    assert(text@.subrange(at + 1, len as int) =~= text@.skip(at + 1));
    match (parse_number(text, 0, at), parse_number(text, at + 1, len)) {
        (Some(width), Some(height)) => Some(DesktopSize { width, height }),
        _ => None,
    }
}

/// What happened between sessions.
#[derive(Debug)]
pub enum RunEvent {
    /// The server looks for its next client.
    Next,
    /// Whether a client that takes over is waiting.
    Pending(bool),
    /// The session of a client that took over has ended.
    TakeoverEnded,
    /// A server event.
    Event(ServerEvent),
    /// A client has connected.
    Connected,
    /// The session of a client has ended.
    ConnectionEnded,
    /// Neither clients nor events will come.
    Closed,
}

/// What to do between sessions.
#[derive(Debug)]
pub enum RunAction {
    /// Look whether a client that takes over is waiting.
    TakePending,
    /// Serve the client that takes over.
    ServeTakeover,
    /// Wait for a server event or a client.
    Wait,
    /// Answer with the address, then look for the next client.
    Reply(tokio::sync::oneshot::Sender<Option<ServerAddr>>, Option<ServerAddr>),
    /// Serve the client; meanwhile, let others take over.
    Serve,
    /// Stop.
    Stop,
}

/// What to do after an event between sessions.
pub open spec fn run_action(server: RdpServer, event: RunEvent) -> RunAction {
    match event {
        RunEvent::Next => RunAction::TakePending,
        RunEvent::Pending(true) => RunAction::ServeTakeover,
        RunEvent::Pending(false) => RunAction::Wait,
        RunEvent::TakeoverEnded => RunAction::TakePending,
        RunEvent::Event(ServerEvent::Quit(_)) => RunAction::Stop,
        RunEvent::Event(ServerEvent::GetLocalAddr(sender)) => RunAction::Reply(
            sender,
            server.local_addr,
        ),
        RunEvent::Event(_) => RunAction::TakePending,
        RunEvent::Connected => RunAction::Serve,
        RunEvent::ConnectionEnded => RunAction::TakePending,
        RunEvent::Closed => RunAction::Stop,
    }
}

/// Whether `after` is the server `before` after an event between sessions: a
/// session that ended leaves no channels, and credentials can be set.
pub open spec fn run_effect(before: RdpServer, event: RunEvent, after: RdpServer) -> bool {
    match event {
        RunEvent::TakeoverEnded | RunEvent::ConnectionEnded => channels::is_bare(
            after.static_channels,
        ) && after == (RdpServer { static_channels: after.static_channels, ..before }),
        RunEvent::Event(event) => after == (RdpServer {
            creds: server::creds_after(before, event),
            ..before
        }),
        _ => after == before,
    }
}

impl RdpServer {
    /// Takes what happened between sessions, and says what to do.
    pub fn run(&mut self, event: RunEvent) -> (action: RunAction)
        ensures
            action == run_action(*old(self), event),
            run_effect(*old(self), event, *final(self)),
    {
        match event {
            RunEvent::Next => RunAction::TakePending,
            RunEvent::Pending(waiting) => if waiting {
                RunAction::ServeTakeover
            } else {
                RunAction::Wait
            },
            RunEvent::TakeoverEnded => {
                self.reset_channels();
                RunAction::TakePending
            },
            RunEvent::Event(event) => match event {
                ServerEvent::Quit(_) => RunAction::Stop,
                ServerEvent::GetLocalAddr(sender) => RunAction::Reply(sender, self.local_addr),
                ServerEvent::SetCredentials(creds) => {
                    self.set_credentials(Some(creds));
                    RunAction::TakePending
                },
                _ => RunAction::TakePending,
            },
            RunEvent::Connected => RunAction::Serve,
            RunEvent::ConnectionEnded => {
                self.reset_channels();
                RunAction::TakePending
            },
            RunEvent::Closed => RunAction::Stop,
        }
    }
}

/// A client that takes over is served before anybody else: whatever happened,
/// the server looks for one before it waits.
pub proof fn takeover_goes_first(server: RdpServer, event: RunEvent)
    ensures
        run_action(server, event) is Wait <==> event == RunEvent::Pending(false),
        run_action(server, event) is ServeTakeover <==> event == RunEvent::Pending(true),
        event is TakeoverEnded || event is ConnectionEnded ==> run_action(server, event)
            is TakePending,
{
}

/// What happened while others may take over a session.
#[derive(Clone, Copy, Debug, PartialEq, Eq, Structural)]
pub enum TakeoverEvent {
    /// A session has begun.
    Start,
    /// Another client has connected.
    Connected,
    /// No client could be accepted.
    AcceptFailed,
    /// Whether the other client has proved who it is.
    Authenticated(bool),
}

/// What to do while others may take over a session.
#[derive(Clone, Copy, Debug, PartialEq, Eq, Structural)]
pub enum TakeoverAction {
    /// Wait for another client.
    Accept,
    /// Let the other client prove who it is.
    Authenticate,
    /// Keep the other client for the server, tell the session, and stop.
    HandOver,
    /// Stop.
    Stop,
}

/// What to do after an event while others may take over a session.
pub open spec fn takeover_action(event: TakeoverEvent) -> TakeoverAction {
    match event {
        TakeoverEvent::Start => TakeoverAction::Accept,
        TakeoverEvent::Connected => TakeoverAction::Authenticate,
        TakeoverEvent::AcceptFailed => TakeoverAction::Stop,
        TakeoverEvent::Authenticated(true) => TakeoverAction::HandOver,
        TakeoverEvent::Authenticated(false) => TakeoverAction::Accept,
    }
}

/// Takes what happened while others may take over a session, and says what to
/// do.
pub fn watch_for_takeover(event: TakeoverEvent) -> (action: TakeoverAction)
    ensures
        action == takeover_action(event),
{
    match event {
        TakeoverEvent::Start => TakeoverAction::Accept,
        TakeoverEvent::Connected => TakeoverAction::Authenticate,
        TakeoverEvent::AcceptFailed => TakeoverAction::Stop,
        TakeoverEvent::Authenticated(ok) => if ok {
            TakeoverAction::HandOver
        } else {
            TakeoverAction::Accept
        },
    }
}

/// Which of several clients takes over: the first that proves who it is.
pub open spec fn first_authenticated(attempts: Seq<bool>) -> Option<int>
    decreases attempts.len(),
{
    if attempts.len() == 0 {
        None
    } else if takeover_action(TakeoverEvent::Authenticated(attempts[0])) is HandOver {
        Some(0)
    } else {
        match first_authenticated(attempts.skip(1)) {
            Some(i) => Some(i + 1),
            None => None,
        }
    }
}

/// Clients that fail to prove who they are never take over, and do not keep the
/// first that does from taking over.
pub proof fn failed_attempts_do_not_matter(attempts: Seq<bool>, i: int)
    requires
        0 <= i <= attempts.len(),
        forall|j: int| 0 <= j < i ==> !#[trigger] attempts[j],
    ensures
        i < attempts.len() && attempts[i] ==> first_authenticated(attempts) == Some(i),
        i == attempts.len() ==> first_authenticated(attempts) is None,
    decreases i,
{
    if i > 0 {
        assert(!attempts[0]);
        assert forall|j: int| 0 <= j < i - 1 implies !#[trigger] attempts.skip(1)[j] by {
            assert(!attempts[j + 1]);
        }
        failed_attempts_do_not_matter(attempts.skip(1), i - 1);
    }
}

/// What happened while a client is accepted.
#[derive(Clone, Copy, Debug, PartialEq, Eq, Structural)]
pub enum AcceptEvent {
    /// The opening moves are made; whether TLS comes next.
    Begun { upgrade: bool },
    /// Whether TLS was set up.
    Tls { accepted: bool },
    /// The client has proved who it is at the network level.
    Authenticated,
    /// The session has ended; whether it ran over TLS.
    Ended { tls: bool },
}

/// What to do while a client is accepted.
#[derive(Clone, Copy, Debug, PartialEq, Eq, Structural)]
pub enum AcceptAction {
    /// Set up TLS.
    AcceptTls,
    /// Let the client prove who it is at the network level.
    Authenticate,
    /// Begin the session; whether it runs over TLS.
    Finalize { tls: bool },
    /// The client is ready to take over.
    Ready,
    /// Shut TLS down; that ends the connection.
    Shutdown,
    /// The connection has ended, and nothing went wrong with the server.
    Finish,
    /// The connection fails as the last step failed.
    Fail,
    /// The connection fails with this error.
    Refuse(ServerError),
}

/// What to do after an event while a client is accepted, either for a session
/// or to take over one. Where TLS fails, a client for a session is dropped
/// without a word.
pub open spec fn accept_action(
    security: RdpServerSecurity,
    takeover: bool,
    event: AcceptEvent,
) -> AcceptAction {
    let accepted = if takeover {
        AcceptAction::Ready
    } else {
        AcceptAction::Finalize { tls: true }
    };
    match event {
        AcceptEvent::Begun { upgrade: true } => AcceptAction::AcceptTls,
        AcceptEvent::Begun { upgrade: false } => if takeover {
            AcceptAction::Refuse(ServerError::TakeoverWithoutTls)
        } else {
            AcceptAction::Finalize { tls: false }
        },
        AcceptEvent::Tls { accepted: false } => if takeover {
            AcceptAction::Fail
        } else {
            AcceptAction::Finish
        },
        AcceptEvent::Tls { accepted: true } => if security is Hybrid {
            AcceptAction::Authenticate
        } else {
            accepted
        },
        AcceptEvent::Authenticated => accepted,
        AcceptEvent::Ended { tls: true } => AcceptAction::Shutdown,
        AcceptEvent::Ended { tls: false } => AcceptAction::Finish,
    }
}

/// Takes what happened while a client is accepted, and says what to do.
pub fn accept_client(security: &RdpServerSecurity, takeover: bool, event: AcceptEvent) -> (action:
    AcceptAction)
    requires
        event == (AcceptEvent::Begun { upgrade: true }) ==> !(security is Unsecured),
    ensures
        action == accept_action(*security, takeover, event),
{
    let accepted: AcceptAction = if takeover {
        AcceptAction::Ready
    } else {
        AcceptAction::Finalize { tls: true }
    };
    match event {
        AcceptEvent::Begun { upgrade } => if upgrade {
            AcceptAction::AcceptTls
        } else if takeover {
            AcceptAction::Refuse(ServerError::TakeoverWithoutTls)
        } else {
            AcceptAction::Finalize { tls: false }
        },
        AcceptEvent::Tls { accepted: ok } => if ok {
            match security {
                RdpServerSecurity::Hybrid(..) => AcceptAction::Authenticate,
                RdpServerSecurity::Tls(_) => accepted,
                RdpServerSecurity::Unsecured => accepted,
            }
        } else if takeover {
            AcceptAction::Fail
        } else {
            AcceptAction::Finish
        },
        AcceptEvent::Authenticated => accepted,
        AcceptEvent::Ended { tls } => if tls {
            AcceptAction::Shutdown
        } else {
            AcceptAction::Finish
        },
    }
}

/// Only over TLS can a client take over, and with authentication at the network
/// level only once it has proved who it is.
pub proof fn takeover_needs_authentication(security: RdpServerSecurity, event: AcceptEvent)
    ensures
        accept_action(security, true, event) is Ready ==> event == (AcceptEvent::Tls {
            accepted: true,
        }) && !(security is Hybrid) || event is Authenticated,
        !(accept_action(security, true, event) is Finalize),
{
}

/// What to do when a session is over.
#[derive(Clone, Copy, Debug, PartialEq, Eq, Structural)]
pub enum FinalizeAction {
    /// Close the connection.
    Close,
    /// Let the client start over with this size; the channels stay.
    Reactivate(DesktopSize),
}

/// What to do when a session is over.
pub fn accept_finalize(state: RunState) -> (action: FinalizeAction)
    requires
        state != RunState::Continue,
    ensures
        action == match state {
            RunState::DeactivationReactivation { desktop_size } => FinalizeAction::Reactivate(
                desktop_size,
            ),
            _ => FinalizeAction::Close,
        },
        action == finalize_action(state),
{
    match state {
        RunState::DeactivationReactivation { desktop_size } => FinalizeAction::Reactivate(
            desktop_size,
        ),
        RunState::Disconnect => FinalizeAction::Close,
        RunState::Continue => FinalizeAction::Close,
    }
}

/// What happened in one of the three loops of a session.
#[derive(Clone, Copy, Debug, PartialEq, Eq, Structural)]
pub enum LoopEvent {
    /// A message, an update or a batch of events was handled.
    Handled(RunState),
    /// The display has no more updates, or no events will come.
    End,
    /// An update could not be had.
    UpdateFailed,
}

/// How the loop ends, where it does.
pub open spec fn loop_end(event: LoopEvent) -> Option<RunState> {
    match event {
        LoopEvent::Handled(RunState::Continue) => None,
        LoopEvent::Handled(state) => Some(state),
        LoopEvent::End => Some(RunState::Disconnect),
        LoopEvent::UpdateFailed => None,
    }
}

/// How a loop of a session ends after what happened; none where it goes on.
pub fn client_loop(event: LoopEvent) -> (end: Option<RunState>)
    ensures
        end == loop_end(event),
        end != Some(RunState::Continue),
{
    match event {
        LoopEvent::Handled(state) => match state {
            RunState::Continue => None,
            RunState::Disconnect => Some(RunState::Disconnect),
            RunState::DeactivationReactivation { desktop_size } => Some(
                RunState::DeactivationReactivation { desktop_size },
            ),
        },
        LoopEvent::End => Some(RunState::Disconnect),
        LoopEvent::UpdateFailed => None,
    }
}

/// A session never ends with the wish to go on.
pub proof fn sessions_end_for_good(event: LoopEvent)
    ensures
        loop_end(event) != Some(RunState::Continue),
{
}

/// A loop ends after a message, an update or a batch was handled just where the
/// session is not to go on, and then with that very state. Without more updates
/// or events it ends with a disconnect, and an update that could not be had does
/// not end it.
pub proof fn loops_end_as_they_were_told(state: RunState)
    ensures
        state == RunState::Continue ==> loop_end(LoopEvent::Handled(state)) is None,
        state != RunState::Continue ==> loop_end(LoopEvent::Handled(state)) == Some(state),
        loop_end(LoopEvent::End) == Some(RunState::Disconnect),
        loop_end(LoopEvent::UpdateFailed) is None,
{
}

/// The server stops just where it is told to quit or nothing more can come, and
/// serves a client just where one has connected. An asker is answered with the
/// server's address. After anything else it looks for a client that takes over.
pub proof fn server_runs_until_told_to_quit(server: RdpServer, event: RunEvent)
    ensures
        run_action(server, event) is Stop <==> event is Closed || event matches RunEvent::Event(
            ServerEvent::Quit(_),
        ),
        run_action(server, event) is Serve <==> event is Connected,
        run_action(server, event) is Reply <==> event matches RunEvent::Event(
            ServerEvent::GetLocalAddr(_),
        ),
        run_action(server, event) matches RunAction::Reply(sender, addr) ==> event
            == RunEvent::Event(ServerEvent::GetLocalAddr(sender)) && addr == server.local_addr,
        run_action(server, event) is TakePending <==> event is Next || event is TakeoverEnded
            || event is ConnectionEnded || (event matches RunEvent::Event(inner) && !(inner is Quit)
            && !(inner is GetLocalAddr)),
{
}

/// Between sessions only two things change the server: a session that ended
/// leaves it without channels, of whatever kind and number, and new credentials
/// replace the old.
pub proof fn sessions_leave_no_channels(before: RdpServer, event: RunEvent, after: RdpServer)
    requires
        run_effect(before, event, after),
    ensures
        event is TakeoverEnded || event is ConnectionEnded ==> after.wf() && (forall|number: u16|
            !#[trigger] channels::joined(after.static_channels).contains(number)) && (forall|
            kind: channels::ChannelKind,
        |
            !channels::held(after.static_channels).contains(kind) && server::channel_number(
                after.static_channels,
                kind,
            ) is None),
        !(event is TakeoverEnded || event is ConnectionEnded) ==> after.static_channels
            == before.static_channels,
        event matches RunEvent::Event(ServerEvent::SetCredentials(creds)) ==> after.creds == Some(
            creds,
        ),
        !(event matches RunEvent::Event(ServerEvent::SetCredentials(_))) ==> after.creds
            == before.creds,
        after == (RdpServer {
            static_channels: after.static_channels,
            creds: after.creds,
            ..before
        }),
{
}

/// While others may take over, each that connects has to prove who it is. One
/// that does is handed over, one that does not is followed by the next, and only
/// where none can be accepted is the watch given up.
pub proof fn others_are_asked_who_they_are(event: TakeoverEvent)
    ensures
        takeover_action(event) is Authenticate <==> event is Connected,
        takeover_action(event) is HandOver <==> event == TakeoverEvent::Authenticated(true),
        takeover_action(event) is Stop <==> event is AcceptFailed,
        takeover_action(event) is Accept <==> event is Start || event
            == TakeoverEvent::Authenticated(false),
{
}

/// How a client is accepted: over TLS where the opening moves lead there, and
/// with authentication at the network level just where the server asks for it.
/// A session then begins, over TLS or not as it came about, and TLS is shut down
/// after it. A client that wants to take over is refused without TLS, and fails
/// with it; it is ready where a session would begin.
pub proof fn clients_are_accepted(security: RdpServerSecurity, takeover: bool, event: AcceptEvent)
    ensures
        ({
            let action = accept_action(security, takeover, event);
            let secured = event is Authenticated || event == (AcceptEvent::Tls { accepted: true })
                && !(security is Hybrid);
            let plain = event == (AcceptEvent::Begun { upgrade: false });
            let broken = event == (AcceptEvent::Tls { accepted: false });
            &&& action is AcceptTls <==> event == (AcceptEvent::Begun { upgrade: true })
            &&& action is Authenticate <==> event == (AcceptEvent::Tls { accepted: true })
                && security is Hybrid
            &&& action == (AcceptAction::Finalize { tls: true }) <==> secured && !takeover
            &&& action == (AcceptAction::Finalize { tls: false }) <==> plain && !takeover
            &&& action is Ready <==> secured && takeover
            &&& action is Refuse <==> plain && takeover
            &&& action is Refuse ==> action == AcceptAction::Refuse(ServerError::TakeoverWithoutTls)
            &&& action is Fail <==> broken && takeover
            &&& action is Shutdown <==> event == (AcceptEvent::Ended { tls: true })
            &&& action is Finish <==> event == (AcceptEvent::Ended { tls: false }) || broken
                && !takeover
        }),
{
}

/// A text that has a phrase anywhere is recognised by it.
pub proof fn phrases_are_found_anywhere(before: Seq<char>, phrase: Seq<char>, behind: Seq<char>)
    ensures
        occurs(phrase, before + phrase + behind),
        phrase == "reset by peer"@ || phrase == "Broken pipe"@ ==> says_gone(
            before + phrase + behind,
        ),
        phrase == "Screen Recording"@ || phrase == "declined TCCs"@ || phrase
            == "shareable content"@ ==> says_denied(before + phrase + behind),
{
    let text = before + phrase + behind;
    let at = before.len() as int;
    assert(text.subrange(at, at + phrase.len()) =~= phrase);
}

/// A text is recognised by nothing but one of the phrases.
pub proof fn only_phrases_are_found(text: Seq<char>)
    ensures
        says_gone(text) ==> exists|before: Seq<char>, phrase: Seq<char>, behind: Seq<char>|
            text == #[trigger] (before + phrase + behind) && (phrase == "reset by peer"@ || phrase
                == "Broken pipe"@),
        says_denied(text) ==> exists|before: Seq<char>, phrase: Seq<char>, behind: Seq<char>|
            text == #[trigger] (before + phrase + behind) && (phrase == "Screen Recording"@
                || phrase == "declined TCCs"@ || phrase == "shareable content"@),
{
    if says_gone(text) {
        if occurs("reset by peer"@, text) {
            lemma_occurs(text, "reset by peer"@);
        } else {
            lemma_occurs(text, "Broken pipe"@);
        }
    }
    if says_denied(text) {
        if occurs("Screen Recording"@, text) {
            lemma_occurs(text, "Screen Recording"@);
        } else if occurs("declined TCCs"@, text) {
            lemma_occurs(text, "declined TCCs"@);
        } else {
            lemma_occurs(text, "shareable content"@);
        }
    }
}

/// Where a phrase occurs, the text is what stands before it, the phrase, and what
/// stands behind it.
proof fn lemma_occurs(text: Seq<char>, phrase: Seq<char>)
    requires
        occurs(phrase, text),
    ensures
        exists|before: Seq<char>, behind: Seq<char>|
            text == #[trigger] (before + phrase + behind),
{
    let i = choose|i: int|
        0 <= i <= text.len() - phrase.len() && #[trigger] text.subrange(i, i + phrase.len())
            == phrase;
    let before = text.take(i);
    let behind = text.skip(i + phrase.len());
    assert(text =~= before + phrase + behind);
}

/// A client that sees nothing because the screen may not be captured is told so
/// first, and told nothing for any other reason.
pub proof fn denied_clients_are_told(error: Seq<char>, io_channel: u16, user_channel: u16)
    ensures
        !says_denied(error) ==> farewell(error, io_channel, user_channel).len() == 0,
        says_denied(error) ==> farewell(error, io_channel, user_channel).len() > 0,
        says_denied(error) && user_channel >= 1001 ==> farewell(
            error,
            io_channel,
            user_channel,
        )[0].subrange(32, 36) == seq![9u8, 0, 0, 0],
{
    if says_denied(error) && user_channel >= 1001 {
        let first = farewell(error, io_channel, user_channel)[0];
        assert(first.subrange(32, 36) =~= seq![9u8, 0, 0, 0]);
    }
}

/// A decimal digit.
pub open spec fn digit(n: nat) -> char {
    if n == 0 {
        '0'
    } else if n == 1 {
        '1'
    } else if n == 2 {
        '2'
    } else if n == 3 {
        '3'
    } else if n == 4 {
        '4'
    } else if n == 5 {
        '5'
    } else if n == 6 {
        '6'
    } else if n == 7 {
        '7'
    } else if n == 8 {
        '8'
    } else {
        '9'
    }
}

/// The decimal digits of a number.
pub open spec fn decimal(n: nat) -> Seq<char>
    decreases n,
{
    if n < 10 {
        seq![digit(n)]
    } else {
        decimal(n / 10).push(digit(n % 10))
    }
}

/// Digits stand for the number that they were made from.
proof fn lemma_decimal(n: nat)
    ensures
        decimal(n).len() > 0,
        digits_value(decimal(n)) == n,
        forall|i: int|
            0 <= i < decimal(n).len() ==> is_digit(#[trigger] decimal(n)[i]) && decimal(n)[i]
                != 'x' && decimal(n)[i] != '+',
    decreases n,
{
    if n < 10 {
        reveal_with_fuel(digits_value, 2);
        assert(decimal(n).drop_last() =~= Seq::empty());
    } else {
        lemma_decimal(n / 10);
        assert(decimal(n).drop_last() =~= decimal(n / 10));
    }
}

/// A setting that is written as a width, an `x` and a height, each with or without
/// a plus sign, is read back as that size.
pub proof fn resolutions_are_read_back(width: u16, height: u16, plus: bool)
    ensures
        ({
            let sign = if plus {
                seq!['+']
            } else {
                Seq::empty()
            };
            resolution(
                sign + decimal(width as nat) + seq!['x'] + sign + decimal(height as nat),
            ) == Some(DesktopSize { width, height })
        }),
{
    let sign = if plus {
        seq!['+']
    } else {
        Seq::empty()
    };
    let (w, h) = (decimal(width as nat), decimal(height as nat));
    let text = sign + w + seq!['x'] + sign + h;
    lemma_decimal(width as nat);
    lemma_decimal(height as nat);
    let at = sign.len() + w.len();
    assert forall|i: int| 0 <= i < at implies #[trigger] text[i] != 'x' by {
        if i >= sign.len() {
            assert(text[i] == w[i - sign.len()]);
        }
    }
    assert(text[at as int] == 'x');
    lemma_first_x(text, at as int);
    assert(text.take(at as int) =~= sign + w);
    assert(text.skip(at as int + 1) =~= sign + h);
    assert(unsigned(sign + w) =~= w) by {
        if !plus {
            assert(sign + w =~= w);
            assert(w[0] != '+');
        }
    }
    assert(unsigned(sign + h) =~= h) by {
        if !plus {
            assert(sign + h =~= h);
            assert(h[0] != '+');
        }
    }
}

/// A setting is refused where it has no `x`, nothing before or behind the first
/// one, or behind a sign anything but digits there.
pub proof fn other_resolutions_are_refused(before: Seq<char>, behind: Seq<char>, i: int)
    requires
        forall|j: int| 0 <= j < before.len() ==> #[trigger] before[j] != 'x',
    ensures
        resolution(before) is None,
        before.len() == 0 || behind.len() == 0 ==> resolution(before + seq!['x'] + behind) is None,
        1 <= i < before.len() && !('0' <= before[i] <= '9') ==> resolution(
            before + seq!['x'] + behind,
        ) is None,
        1 <= i < behind.len() && !('0' <= behind[i] <= '9') ==> resolution(
            before + seq!['x'] + behind,
        ) is None,
        before.len() > 0 && before[0] != '+' && !('0' <= before[0] <= '9') ==> resolution(
            before + seq!['x'] + behind,
        ) is None,
        behind.len() > 0 && behind[0] != '+' && !('0' <= behind[0] <= '9') ==> resolution(
            before + seq!['x'] + behind,
        ) is None,
{
    let text = before + seq!['x'] + behind;
    lemma_first_x(before, before.len() as int);
    assert forall|j: int| 0 <= j < before.len() implies #[trigger] text[j] != 'x' by {
        assert(text[j] == before[j]);
    }
    lemma_first_x(text, before.len() as int);
    assert(text.take(before.len() as int) =~= before);
    assert(text.skip(before.len() as int + 1) =~= behind);
    lemma_other_number(before, i);
    lemma_other_number(behind, i);
    lemma_other_number(before, 0);
    lemma_other_number(behind, 0);
}

/// A text with anything but digits behind its sign is no number, nor is one
/// without digits.
proof fn lemma_other_number(text: Seq<char>, i: int)
    ensures
        text.len() == 0 ==> number(text) is None,
        0 <= i < text.len() && !('0' <= text[i] <= '9') && (i > 0 || text[0] != '+') ==> number(
            text,
        ) is None,
{
    if 0 <= i < text.len() && !('0' <= text[i] <= '9') && (i > 0 || text[0] != '+') {
        let digits = unsigned(text);
        let k = if text[0] == '+' {
            i - 1
        } else {
            i
        };
        assert(digits[k] == text[i]);
        assert(!is_digit(digits[k]));
    }
}

/// A number of more than sixteen bits is refused.
pub proof fn large_numbers_are_refused(n: nat)
    requires
        n > 65535,
    ensures
        number(decimal(n)) is None,
{
    lemma_decimal(n);
    assert(decimal(n)[0] != '+');
}

/// Leading zeros do not change a number, and a sign alone is none.
pub proof fn leading_zeros_do_not_matter(digits: Seq<char>)
    requires
        digits.len() > 0,
        forall|i: int| 0 <= i < digits.len() ==> is_digit(#[trigger] digits[i]),
    ensures
        number(seq!['0'] + digits) == number(digits),
        number(seq!['+']) is None,
{
    let longer = seq!['0'] + digits;
    lemma_leading_zero(digits);
    assert(is_digit(digits[0]));
    assert forall|i: int| 0 <= i < longer.len() implies is_digit(#[trigger] longer[i]) by {
        if i > 0 {
            assert(longer[i] == digits[i - 1]);
        }
    }
    assert(longer[0] == '0');
    assert(seq!['+'].skip(1) =~= Seq::empty());
}

/// A leading zero does not change what digits stand for.
proof fn lemma_leading_zero(digits: Seq<char>)
    ensures
        digits_value(seq!['0'] + digits) == digits_value(digits),
    decreases digits.len(),
{
    let longer = seq!['0'] + digits;
    if digits.len() == 0 {
        assert(longer.drop_last() =~= Seq::empty());
        reveal_with_fuel(digits_value, 2);
    } else {
        lemma_leading_zero(digits.drop_last());
        assert(longer.drop_last() =~= seq!['0'] + digits.drop_last());
    }
}

/// What to do when a session is over.
pub open spec fn finalize_action(state: RunState) -> FinalizeAction {
    match state {
        RunState::DeactivationReactivation { desktop_size } => FinalizeAction::Reactivate(
            desktop_size,
        ),
        _ => FinalizeAction::Close,
    }
}

/// A session that was deactivated starts over with the size that was asked for, and
/// one that was disconnected is closed.
pub proof fn sessions_start_over_or_close(state: RunState, size: DesktopSize)
    ensures
        finalize_action(state) == FinalizeAction::Reactivate(size) <==> state
            == (RunState::DeactivationReactivation { desktop_size: size }),
        state == RunState::Disconnect ==> finalize_action(state) is Close,
{
}

} // verus!
