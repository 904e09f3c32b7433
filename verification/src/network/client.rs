//! The client's connection loop.
//!
//! A [`ClientLoop`] holds what the loop remembers between attempts and connections. Whoever runs it
//! does the waiting, connecting, polling and sending, hands in what came of it, and does what the
//! returned [`ClientStep`] says. The loop retries forever; only a shutdown, or a main loop that is
//! gone, ends it.
use vstd::prelude::*;

use crate::network::backoff;
use crate::network::types::{
    NetworkCommand, NetworkCommandView, NetworkEvent, NetworkEventView,
};
use crate::protocol::{ClientMessage, ClientMessageView, ServerMessage, ServerMessageView, Team};

verus! {

/// In a browser: the most text frames handled in one tick.
pub const TICK_CAP: u32 = 32;

/// In a browser: how long a connection may take to open, in milliseconds.
pub const OPEN_DEADLINE_MS: u32 = 10_000;

/// In a browser: how long the loop sleeps between looks at a connection that is opening, in
/// milliseconds.
pub const OPEN_POLL_MS: u32 = 5;

// ── From server messages to events ────────────────────────────────────────────

/// The event that a server message becomes; a pong, a rate limit or an error becomes none.
pub open spec fn event_for(msg: ServerMessageView) -> Option<NetworkEventView> {
    match msg {
        ServerMessageView::Welcome { assigned_nick, assigned_team, motd, scrollback } => Some(
            NetworkEventView::Connected { assigned_nick, assigned_team, motd, scrollback },
        ),
        ServerMessageView::Message { data } => Some(NetworkEventView::Message(data)),
        ServerMessageView::JoinedLeft { nickname, team, joined } => Some(
            NetworkEventView::JoinedLeft { nickname, team, joined },
        ),
        ServerMessageView::WhoList { players } => Some(NetworkEventView::WhoList(players)),
        ServerMessageView::RateLimited { .. } => None,
        ServerMessageView::Pong { .. } => None,
        ServerMessageView::Error { .. } => None,
    }
}

/// The view of an optional event.
pub open spec fn event_view(event: Option<NetworkEvent>) -> Option<NetworkEventView> {
    match event {
        Some(e) => Some(e@),
        None => None,
    }
}

/// Translates a server message into an event for the main loop, if it becomes one.
pub fn dispatch(server_msg: ServerMessage) -> (event: Option<NetworkEvent>)
    ensures
        event_view(event) == event_for(server_msg@),
{
    match server_msg {
        ServerMessage::Welcome { assigned_nick, assigned_team, motd, scrollback } => Some(
            NetworkEvent::Connected { assigned_nick, assigned_team, motd, scrollback },
        ),
        ServerMessage::Message { data } => Some(NetworkEvent::Message(data)),
        ServerMessage::JoinedLeft { nickname, team, joined } => Some(
            NetworkEvent::JoinedLeft { nickname, team, joined },
        ),
        ServerMessage::WhoList { players } => Some(NetworkEvent::WhoList(players)),
        ServerMessage::RateLimited { .. } => None,
        ServerMessage::Pong { .. } => None,
        ServerMessage::Error { .. } => None,
    }
}

// ── The loop's state ──────────────────────────────────────────────────────────

/// Where the loop runs.
#[derive(Debug, Clone, Copy, PartialEq, Eq, Structural)]
pub enum Platform {
    Native,
    Browser,
}

/// How far the present attempt has come.
#[derive(Debug, Clone, Copy, PartialEq, Eq, Structural)]
pub enum Phase {
    /// No attempt is under way.
    Apart,
    /// The back-off is over or was none; the socket is being made.
    Connecting,
    /// The socket is there but not open yet. In a browser, `waited_ms` counts towards the deadline.
    Opening { waited_ms: u32 },
    /// The socket is open.
    Live,
}

/// What the connection loop remembers.
pub struct ClientLoop {
    platform: Platform,
    nick: String,
    attempt: u32,
    phase: Phase,
    ping_seq: u32,
    tick_texts: u32,
}

/// The view of a [`ClientLoop`].
#[verifier::ext_equal]
pub struct ClientView {
    pub platform: Platform,
    pub nick: Seq<char>,
    /// Attempts since the count was last reset.
    pub attempt: u32,
    pub phase: Phase,
    /// The number of the next ping.
    pub ping_seq: u32,
    /// Text frames handled in this tick.
    pub tick_texts: u32,
}

impl View for ClientLoop {
    type V = ClientView;

    closed spec fn view(&self) -> ClientView {
        ClientView {
            platform: self.platform,
            nick: self.nick@,
            attempt: self.attempt,
            phase: self.phase,
            ping_seq: self.ping_seq,
            tick_texts: self.tick_texts,
        }
    }
}

/// What a look at the socket shows.
pub enum SocketEvent {
    Opened,
    Closed,
    Failed,
    /// A text frame that holds a server message.
    Message(ServerMessage),
    /// A text frame that holds none.
    Malformed,
    /// A frame of another kind.
    Other,
}

/// The view of a [`SocketEvent`].
#[verifier::ext_equal]
pub enum SocketEventView {
    Opened,
    Closed,
    Failed,
    Message(ServerMessageView),
    Malformed,
    Other,
}

impl View for SocketEvent {
    type V = SocketEventView;

    open spec fn view(&self) -> SocketEventView {
        match *self {
            SocketEvent::Opened => SocketEventView::Opened,
            SocketEvent::Closed => SocketEventView::Closed,
            SocketEvent::Failed => SocketEventView::Failed,
            SocketEvent::Message(m) => SocketEventView::Message(m@),
            SocketEvent::Malformed => SocketEventView::Malformed,
            SocketEvent::Other => SocketEventView::Other,
        }
    }
}

/// What the loop does next.
pub enum ClientStep {
    /// Go on.
    Continue,
    /// Send the message to the server.
    Send(ClientMessage),
    /// Hand the event to the main loop; leave if the main loop is gone.
    Deliver(NetworkEvent),
    /// Give the connection up and begin the next attempt. The event, if any, is handed to the main
    /// loop, whether or not it is still there.
    Retry(Option<NetworkEvent>),
    /// Leave.
    Exit,
}

/// The view of a [`ClientStep`].
#[verifier::ext_equal]
pub enum ClientStepView {
    Continue,
    Send(ClientMessageView),
    Deliver(NetworkEventView),
    Retry(Option<NetworkEventView>),
    Exit,
}

impl View for ClientStep {
    type V = ClientStepView;

    open spec fn view(&self) -> ClientStepView {
        match *self {
            ClientStep::Continue => ClientStepView::Continue,
            ClientStep::Send(m) => ClientStepView::Send(m@),
            ClientStep::Deliver(e) => ClientStepView::Deliver(e@),
            ClientStep::Retry(e) => ClientStepView::Retry(event_view(e)),
            ClientStep::Exit => ClientStepView::Exit,
        }
    }
}

// ── Transitions ───────────────────────────────────────────────────────────────

/// The number of the next attempt.
pub open spec fn next_attempt(attempt: u32) -> u32 {
    if attempt == u32::MAX {
        u32::MAX
    } else {
        (attempt + 1) as u32
    }
}

/// The loop after an attempt has begun.
pub open spec fn begun(c: ClientView) -> ClientView {
    ClientView { attempt: next_attempt(c.attempt), phase: Phase::Connecting, ..c }
}

/// What the main loop is told before a delay; nothing if there is none.
pub open spec fn delay_notice(attempt: u32, delay_ms: u64) -> Option<NetworkEventView> {
    if delay_ms > 0 {
        Some(NetworkEventView::Reconnecting { attempt, delay_ms })
    } else {
        None
    }
}

/// The loop after the socket was made, or could not be.
///
/// A socket is no connection yet: the attempts are forgotten only when a connection that was live
/// ends, so that a server that closes before it opens is not stormed.
pub open spec fn after_connect(c: ClientView, made: bool) -> ClientView {
    if made {
        ClientView { phase: Phase::Opening { waited_ms: 0 }, ..c }
    } else {
        ClientView { phase: Phase::Apart, ..c }
    }
}

/// The loop after the connection was given up.
pub open spec fn given_up(c: ClientView) -> ClientView {
    ClientView {
        phase: Phase::Apart,
        attempt: if c.phase == Phase::Live {
            0
        } else {
            c.attempt
        },
        ..c
    }
}

/// The loop with one more text frame counted in this tick.
pub open spec fn counted(c: ClientView) -> ClientView {
    ClientView {
        tick_texts: if c.tick_texts < TICK_CAP {
            (c.tick_texts + 1) as u32
        } else {
            c.tick_texts
        },
        ..c
    }
}

/// What a look at the socket leads to.
pub open spec fn on_socket_view(c: ClientView, event: SocketEventView) -> (
    ClientView,
    ClientStepView,
) {
    match c.phase {
        Phase::Opening { .. } => match event {
            SocketEventView::Opened => (
                ClientView { phase: Phase::Live, ping_seq: 0, tick_texts: 0, ..c },
                ClientStepView::Send(
                    ClientMessageView::Connect { nickname: c.nick, team: Team::NoTeam },
                ),
            ),
            SocketEventView::Closed | SocketEventView::Failed => (
                given_up(c),
                ClientStepView::Retry(Some(NetworkEventView::Disconnected)),
            ),
            _ => (c, ClientStepView::Continue),
        },
        Phase::Live => match event {
            SocketEventView::Closed | SocketEventView::Failed => (
                given_up(c),
                ClientStepView::Retry(Some(NetworkEventView::Disconnected)),
            ),
            SocketEventView::Message(msg) => (
                counted(c),
                match event_for(msg) {
                    Some(e) => ClientStepView::Deliver(e),
                    None => ClientStepView::Continue,
                },
            ),
            SocketEventView::Malformed => (counted(c), ClientStepView::Continue),
            SocketEventView::Opened | SocketEventView::Other => (c, ClientStepView::Continue),
        },
        _ => (c, ClientStepView::Continue),
    }
}

/// What a look at a socket that shows nothing leads to.
pub open spec fn on_quiet_view(c: ClientView) -> (ClientView, ClientStepView) {
    match c.phase {
        Phase::Opening { waited_ms } => if c.platform == Platform::Native {
            (c, ClientStepView::Continue)
        } else if waited_ms >= OPEN_DEADLINE_MS {
            (given_up(c), ClientStepView::Retry(Some(NetworkEventView::Disconnected)))
        } else {
            (
                ClientView {
                    phase: Phase::Opening { waited_ms: (waited_ms + OPEN_POLL_MS) as u32 },
                    ..c
                },
                ClientStepView::Continue,
            )
        },
        _ => (c, ClientStepView::Continue),
    }
}

/// What a command leads to; `None` stands for a main loop that is gone.
pub open spec fn on_command_view(command: Option<NetworkCommandView>) -> ClientStepView {
    match command {
        Some(NetworkCommandView::Say(text)) => ClientStepView::Send(
            ClientMessageView::Say { text },
        ),
        Some(NetworkCommandView::SayTeam(text)) => ClientStepView::Send(
            ClientMessageView::SayTeam { text },
        ),
        Some(NetworkCommandView::Who) => ClientStepView::Send(ClientMessageView::Who),
        Some(NetworkCommandView::Shutdown) => ClientStepView::Exit,
        None => ClientStepView::Exit,
    }
}

impl ClientLoop {
    /// A loop that has not made any attempt.
    pub fn new(platform: Platform, nick: String) -> (c: Self)
        ensures
            c@ == (ClientView {
                platform,
                nick: nick@,
                attempt: 0,
                phase: Phase::Apart,
                ping_seq: 0,
                tick_texts: 0,
            }),
    {
        ClientLoop {
            platform,
            nick,
            attempt: 0,
            phase: Phase::Apart,
            ping_seq: 0,
            tick_texts: 0,
        }
    }

    /// How far the present attempt has come.
    pub fn phase(&self) -> (r: Phase)
        ensures
            r == self@.phase,
    {
        self.phase
    }

    /// Counts the next attempt and returns its number.
    pub fn next(&mut self) -> (attempt: u32)
        ensures
            final(self)@ == begun(old(self)@),
            attempt == final(self)@.attempt,
    {
        self.attempt = if self.attempt == u32::MAX {
            u32::MAX
        } else {
            self.attempt + 1
        };
        self.phase = Phase::Connecting;
        self.attempt
    }

    /// What the main loop is told before the delay of this attempt.
    pub fn notice(&self, delay_ms: u64) -> (notice: Option<NetworkEvent>)
        ensures
            event_view(notice) == delay_notice(self@.attempt, delay_ms),
    {
        if delay_ms > 0 {
            Some(NetworkEvent::Reconnecting { attempt: self.attempt, delay_ms })
        } else {
            None
        }
    }

    /// Begins the next attempt: returns the delay to wait out first, drawn by chance, and what the
    /// main loop is told of it.
    pub fn begin(&mut self) -> (r: (u64, Option<NetworkEvent>))
        ensures
            final(self)@ == begun(old(self)@),
            r.0 <= backoff::base_ms(final(self)@.attempt as nat),
            event_view(r.1) == delay_notice(final(self)@.attempt, r.0),
    {
        let attempt = self.next();
        let delay_ms = backoff::backoff_delay_ms(attempt);
        (delay_ms, self.notice(delay_ms))
    }

    /// Takes note of whether the socket could be made.
    pub fn connect_result(&mut self, made: bool) -> (step: ClientStep)
        ensures
            final(self)@ == after_connect(old(self)@, made),
            step@ == if made {
                ClientStepView::Continue
            } else {
                ClientStepView::Retry(None)
            },
    {
        if made {
            self.phase = Phase::Opening { waited_ms: 0 };
            ClientStep::Continue
        } else {
            self.phase = Phase::Apart;
            ClientStep::Retry(None)
        }
    }

    fn give_up(&mut self) -> (step: ClientStep)
        ensures
            final(self)@ == given_up(old(self)@),
            step@ == ClientStepView::Retry(Some(NetworkEventView::Disconnected)),
    {
        if self.phase == Phase::Live {
            self.attempt = 0;
        }
        self.phase = Phase::Apart;
        ClientStep::Retry(Some(NetworkEvent::Disconnected))
    }

    fn count_text(&mut self)
        ensures
            final(self)@ == counted(old(self)@),
    {
        if self.tick_texts < TICK_CAP {
            self.tick_texts = self.tick_texts + 1;
        }
    }

    /// Handles what a look at the socket shows.
    pub fn on_socket(&mut self, event: SocketEvent) -> (step: ClientStep)
        ensures
            (final(self)@, step@) == on_socket_view(old(self)@, event@),
    {
        match self.phase {
            Phase::Opening { .. } => match event {
                SocketEvent::Opened => {
                    self.phase = Phase::Live;
                    self.ping_seq = 0;
                    self.tick_texts = 0;
                    ClientStep::Send(
                        ClientMessage::Connect {
                            nickname: self.nick.clone(),
                            team: Team::NoTeam,
                        },
                    )
                },
                SocketEvent::Closed => self.give_up(),
                SocketEvent::Failed => self.give_up(),
                _ => ClientStep::Continue,
            },
            Phase::Live => match event {
                SocketEvent::Closed => self.give_up(),
                SocketEvent::Failed => self.give_up(),
                SocketEvent::Message(msg) => {
                    self.count_text();
                    match dispatch(msg) {
                        Some(e) => ClientStep::Deliver(e),
                        None => ClientStep::Continue,
                    }
                },
                SocketEvent::Malformed => {
                    self.count_text();
                    ClientStep::Continue
                },
                SocketEvent::Opened => ClientStep::Continue,
                SocketEvent::Other => ClientStep::Continue,
            },
            _ => ClientStep::Continue,
        }
    }

    /// Handles a look at the socket that shows nothing.
    pub fn on_quiet(&mut self) -> (step: ClientStep)
        ensures
            (final(self)@, step@) == on_quiet_view(old(self)@),
    {
        match self.phase {
            Phase::Opening { waited_ms } => match self.platform {
                Platform::Native => ClientStep::Continue,
                Platform::Browser => if waited_ms >= OPEN_DEADLINE_MS {
                    self.give_up()
                } else {
                    self.phase = Phase::Opening { waited_ms: waited_ms + OPEN_POLL_MS };
                    ClientStep::Continue
                },
            },
            _ => ClientStep::Continue,
        }
    }

    /// Begins a tick.
    pub fn begin_tick(&mut self)
        ensures
            final(self)@ == (ClientView { tick_texts: 0, ..old(self)@ }),
    {
        self.tick_texts = 0;
    }

    /// Whether the loop may look at the socket again in this tick. A browser stops at its cap.
    pub fn may_poll(&self) -> (r: bool)
        ensures
            r == (self@.platform == Platform::Native || self@.tick_texts < TICK_CAP),
    {
        match self.platform {
            Platform::Native => true,
            Platform::Browser => self.tick_texts < TICK_CAP,
        }
    }

    /// The ping of a heartbeat. Pings are numbered from zero on each connection.
    pub fn on_heartbeat(&mut self) -> (ping: ClientMessage)
        ensures
            ping@ == (ClientMessageView::Ping { seq: old(self)@.ping_seq }),
            final(self)@ == (ClientView {
                ping_seq: if old(self)@.ping_seq == u32::MAX {
                    0
                } else {
                    (old(self)@.ping_seq + 1) as u32
                },
                ..old(self)@
            }),
    {
        let seq: u32 = self.ping_seq;
        self.ping_seq = if seq == u32::MAX {
            0
        } else {
            seq + 1
        };
        ClientMessage::Ping { seq }
    }
}

/// What a command of the main loop leads to; `None` stands for a main loop that is gone.
pub fn on_command(command: Option<NetworkCommand>) -> (step: ClientStep)
    ensures
        step@ == on_command_view(
            match command {
                Some(c) => Some(c@),
                None => None,
            },
        ),
{
    match command {
        Some(NetworkCommand::Say(text)) => ClientStep::Send(ClientMessage::Say { text }),
        Some(NetworkCommand::SayTeam(text)) => ClientStep::Send(ClientMessage::SayTeam { text }),
        Some(NetworkCommand::Who) => ClientStep::Send(ClientMessage::Who),
        Some(NetworkCommand::Shutdown) => ClientStep::Exit,
        None => ClientStep::Exit,
    }
}

// ── What the loop guarantees ──────────────────────────────────────────────────

/// The handshake comes first on every connection: the one message sent because of the socket is the
/// `Connect` when it opens, with the nickname asked for.
pub proof fn lemma_handshake_on_open(c: ClientView, event: SocketEventView)
    ensures
        on_socket_view(c, event).1 is Send <==> c.phase is Opening && event is Opened,
        c.phase is Opening && event is Opened ==> on_socket_view(c, event) == (
            ClientView { phase: Phase::Live, ping_seq: 0, tick_texts: 0, ..c },
            ClientStepView::Send(
                ClientMessageView::Connect { nickname: c.nick, team: Team::NoTeam },
            ),
        ),
{
}

/// The loop retries forever: no failure, close or silence of the socket ends it, and after each of
/// them the next attempt can begin.
pub proof fn lemma_retries_forever(c: ClientView, event: SocketEventView)
    ensures
        !(on_socket_view(c, event).1 is Exit),
        !(on_quiet_view(c).1 is Exit),
        on_socket_view(c, event).1 is Retry ==> on_socket_view(c, event).0.phase == Phase::Apart
            && on_socket_view(c, event).1 == ClientStepView::Retry(
            Some(NetworkEventView::Disconnected),
        ),
        (c.phase is Opening || c.phase is Live) && (event is Closed || event is Failed)
            ==> on_socket_view(c, event).1 is Retry,
{
}

/// After a connection that was live, the next attempt is the first: it is made at once.
pub proof fn lemma_prompt_after_live(c: ClientView, event: SocketEventView)
    requires
        c.phase == Phase::Live,
        event is Closed || event is Failed,
    ensures
        begun(on_socket_view(c, event).0).attempt == 1,
        backoff::base_ms(begun(on_socket_view(c, event).0).attempt as nat) == 0,
{
}

/// How an attempt fails before there is a live connection.
pub enum Failure {
    /// The socket could not be made.
    NoSocket,
    /// The socket was made, but closed before it opened.
    Closed,
    /// The socket was made, but failed before it opened.
    Failed,
    /// The socket was made, but did not open in time. Only a browser gives up for that.
    TimedOut,
}

/// The loop after one more attempt, which fails in the given way, and what it is told to do.
pub open spec fn after_failure(c: ClientView, failure: Failure) -> (ClientView, ClientStepView) {
    let opening = after_connect(begun(c), true);
    match failure {
        Failure::NoSocket => (after_connect(begun(c), false), ClientStepView::Retry(None)),
        Failure::Closed => on_socket_view(opening, SocketEventView::Closed),
        Failure::Failed => on_socket_view(opening, SocketEventView::Failed),
        Failure::TimedOut => on_quiet_view(
            ClientView { phase: Phase::Opening { waited_ms: OPEN_DEADLINE_MS }, ..opening },
        ),
    }
}

/// The loop after one attempt after the other has failed.
pub open spec fn after_failures(c: ClientView, failures: Seq<Failure>) -> ClientView
    decreases failures.len(),
{
    if failures.len() == 0 {
        c
    } else {
        after_failure(after_failures(c, failures.drop_last()), failures.last()).0
    }
}

/// Every attempt that fails before there is a live connection counts, however it fails and wherever
/// the loop runs: after `k` of them in a row the next is attempt `k + 1` since the count was last
/// reset, and the bound of its delay is that of the back-off for this number.
pub proof fn lemma_failures_are_counted(c: ClientView, failures: Seq<Failure>)
    requires
        c.attempt == 0,
        failures.len() < u32::MAX,
        forall|i: int|
            0 <= i < failures.len() && #[trigger] failures[i] is TimedOut ==> c.platform
                == Platform::Browser,
    ensures
        begun(after_failures(c, failures)).attempt == failures.len() + 1,
        backoff::base_ms(begun(after_failures(c, failures)).attempt as nat) == backoff::base_ms(
            failures.len() + 1,
        ),
        failures.len() > 0 ==> after_failures(c, failures).phase == Phase::Apart,
        failures.len() > 0 ==> after_failure(
            after_failures(c, failures.drop_last()),
            failures.last(),
        ).1 is Retry,
        after_failures(c, failures).platform == c.platform,
    decreases failures.len(),
{
    if failures.len() > 0 {
        lemma_failures_are_counted(c, failures.drop_last());
    }
}

/// Every server message but a pong, a rate limit and an error becomes an event, with all that it
/// holds.
pub proof fn lemma_every_message_becomes_an_event(msg: ServerMessageView)
    ensures
        event_for(msg) is None <==> msg is Pong || msg is RateLimited || msg is Error,
        msg matches ServerMessageView::Message { data } ==> event_for(msg) == Some(
            NetworkEventView::Message(data),
        ),
        msg matches ServerMessageView::Welcome {
            assigned_nick,
            assigned_team,
            motd,
            scrollback,
        } ==> event_for(msg) == Some(
            NetworkEventView::Connected { assigned_nick, assigned_team, motd, scrollback },
        ),
        msg matches ServerMessageView::JoinedLeft { nickname, team, joined } ==> event_for(msg)
            == Some(NetworkEventView::JoinedLeft { nickname, team, joined }),
        msg matches ServerMessageView::WhoList { players } ==> event_for(msg) == Some(
            NetworkEventView::WhoList(players),
        ),
{
}

/// What a live client receives is delivered: a chat message, whatever it is, a welcome, an arrival or
/// departure, a player list, each with all that it holds; nothing else is, and the connection stays.
pub proof fn lemma_received_is_delivered(c: ClientView, msg: ServerMessageView)
    requires
        c.phase == Phase::Live,
    ensures
        ({
            let (after, step) = on_socket_view(c, SocketEventView::Message(msg));
            &&& msg matches ServerMessageView::Message { data } ==> step == ClientStepView::Deliver(
                NetworkEventView::Message(data),
            )
            &&& msg matches ServerMessageView::Welcome {
                assigned_nick,
                assigned_team,
                motd,
                scrollback,
            } ==> step == ClientStepView::Deliver(
                NetworkEventView::Connected { assigned_nick, assigned_team, motd, scrollback },
            )
            &&& msg matches ServerMessageView::JoinedLeft { nickname, team, joined } ==> step
                == ClientStepView::Deliver(NetworkEventView::JoinedLeft { nickname, team, joined })
            &&& msg matches ServerMessageView::WhoList { players } ==> step
                == ClientStepView::Deliver(NetworkEventView::WhoList(players))
            &&& msg is Pong || msg is RateLimited || msg is Error ==> step is Continue
            &&& after == ClientView { tick_texts: after.tick_texts, ..c }
        }),
{
}

/// A text frame counts towards the tick's share, which never exceeds 32; frames of other kinds do
/// not count.
pub proof fn lemma_texts_are_counted(c: ClientView, msg: ServerMessageView)
    requires
        c.phase == Phase::Live,
        c.tick_texts < 32,
    ensures
        on_socket_view(c, SocketEventView::Message(msg)).0 == (ClientView {
            tick_texts: (c.tick_texts + 1) as u32,
            ..c
        }),
        on_socket_view(c, SocketEventView::Malformed) == (
            ClientView { tick_texts: (c.tick_texts + 1) as u32, ..c },
            ClientStepView::Continue,
        ),
        on_socket_view(c, SocketEventView::Opened) == (c, ClientStepView::Continue),
        on_socket_view(c, SocketEventView::Other) == (c, ClientStepView::Continue),
{
}

/// A live connection that ends is told of, the count of attempts begins anew, and nothing else of the
/// loop changes; one that ends before it was live is told of too, but the count goes on.
pub proof fn lemma_end_of_connection(c: ClientView, event: SocketEventView)
    requires
        event is Closed || event is Failed,
    ensures
        c.phase == Phase::Live ==> on_socket_view(c, event) == (
            ClientView { phase: Phase::Apart, attempt: 0, ..c },
            ClientStepView::Retry(Some(NetworkEventView::Disconnected)),
        ),
        c.phase is Opening ==> on_socket_view(c, event) == (
            ClientView { phase: Phase::Apart, ..c },
            ClientStepView::Retry(Some(NetworkEventView::Disconnected)),
        ),
{
}

/// Until the socket opens, what else it shows is passed over; outside of a connection everything is.
pub proof fn lemma_passed_over(c: ClientView, event: SocketEventView)
    ensures
        c.phase is Opening && (event is Message || event is Malformed || event is Other)
            ==> on_socket_view(c, event) == (c, ClientStepView::Continue),
        c.phase is Apart || c.phase is Connecting ==> on_socket_view(c, event) == (
            c,
            ClientStepView::Continue,
        ),
{
}

/// A browser waits five milliseconds at a time for the socket to open, ten seconds in all, and then
/// gives up and counts the attempt; a native loop waits on. A quiet live connection is left alone.
pub proof fn lemma_waiting_to_open(c: ClientView)
    ensures
        c.phase matches Phase::Opening { waited_ms } ==> {
            &&& c.platform == Platform::Native ==> on_quiet_view(c) == (c, ClientStepView::Continue)
            &&& c.platform == Platform::Browser && waited_ms < 10_000 ==> on_quiet_view(c) == (
                ClientView { phase: Phase::Opening { waited_ms: (waited_ms + 5) as u32 }, ..c },
                ClientStepView::Continue,
            )
            &&& c.platform == Platform::Browser && waited_ms >= 10_000 ==> on_quiet_view(c) == (
                ClientView { phase: Phase::Apart, ..c },
                ClientStepView::Retry(Some(NetworkEventView::Disconnected)),
            )
        },
        !(c.phase is Opening) ==> on_quiet_view(c) == (c, ClientStepView::Continue),
{
}

/// Beginning an attempt counts it and nothing else; a delay is told of if there is one, with the
/// attempt and the delay as they are; a socket that was made is waited for from zero, with the count
/// as it is.
pub proof fn lemma_attempt(c: ClientView, attempt: u32, delay_ms: u64)
    ensures
        c.attempt < 0xffff_ffff ==> begun(c) == (ClientView {
            attempt: (c.attempt + 1) as u32,
            phase: Phase::Connecting,
            ..c
        }),
        c.attempt == 0xffff_ffff ==> begun(c) == (ClientView { phase: Phase::Connecting, ..c }),
        delay_ms == 0 ==> delay_notice(attempt, delay_ms) is None,
        delay_ms > 0 ==> delay_notice(attempt, delay_ms) == Some(
            NetworkEventView::Reconnecting { attempt, delay_ms },
        ),
        after_connect(c, true) == (ClientView { phase: Phase::Opening { waited_ms: 0 }, ..c }),
        after_connect(c, false) == (ClientView { phase: Phase::Apart, ..c }),
{
}

/// What the player says is sent whole, to all or to the team as asked; asking who is there is sent;
/// the loop ends on a shutdown and if the main loop is gone, and on nothing else.
pub proof fn lemma_commands_are_sent(text: Seq<char>)
    ensures
        on_command_view(Some(NetworkCommandView::Say(text))) == ClientStepView::Send(
            ClientMessageView::Say { text },
        ),
        on_command_view(Some(NetworkCommandView::SayTeam(text))) == ClientStepView::Send(
            ClientMessageView::SayTeam { text },
        ),
        on_command_view(Some(NetworkCommandView::Who)) == ClientStepView::Send(
            ClientMessageView::Who,
        ),
        on_command_view(Some(NetworkCommandView::Shutdown)) is Exit,
        on_command_view(None) is Exit,
{
}

/// The views of events, of what the socket shows and of steps are of their kind, with what they hold
/// as it is.
pub proof fn lemma_client_views(event: Option<NetworkEvent>, e: SocketEvent, step: ClientStep)
    ensures
        event is None ==> event_view(event) is None,
        event is Some ==> event_view(event) == Some(event->0@),
        e is Opened ==> e@ is Opened,
        e is Closed ==> e@ is Closed,
        e is Failed ==> e@ is Failed,
        e matches SocketEvent::Message(m) ==> e@ == SocketEventView::Message(m@),
        e is Malformed ==> e@ is Malformed,
        e is Other ==> e@ is Other,
        step is Continue ==> step@ is Continue,
        step matches ClientStep::Send(m) ==> step@ == ClientStepView::Send(m@),
        step matches ClientStep::Deliver(d) ==> step@ == ClientStepView::Deliver(d@),
        step matches ClientStep::Retry(r) ==> step@ == ClientStepView::Retry(event_view(r)),
        step is Exit ==> step@ is Exit,
{
}

} // verus!
