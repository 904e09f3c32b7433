//! One WebSocket connection, from upgrade to close.
//!
//! A [`Session`] is the connection's state. The server's loop waits for whatever comes first — a
//! frame, a published event, a lag, a heartbeat, the shutdown — hands it to [`Session::step`], does
//! what the returned [`Step`] says, and calls [`Session::finish`] once the loop is left.
//!
//! The first message must be a `Connect`; any other, or a text that is none, is answered with an
//! error and the connection is closed. A connected client's messages are checked for length, then
//! for rate; one that passes is kept in the scrollback and published. What is said to a team reaches
//! nobody else, neither when it is said nor from the scrollback.
use std::time::Instant;
use vstd::prelude::*;
use vstd::string::*;

use crate::clock;
use crate::config::Config;
use crate::nickname;
use crate::protocol::{
    Channel, ChatMessage, ChatMessageView, ClientMessage, ClientMessageView, PlayerEntryView,
    ServerMessage, ServerMessageView, Team,
};
use crate::random;
use crate::rate_limit;
use crate::rate_limit::{BucketView, TokenBucket};
use crate::ring;
use crate::state;
use crate::state::{AppState, BroadcastEvent, BroadcastEventView, StateView};
use crate::text;

verus! {

// ── Inputs ────────────────────────────────────────────────────────────────────

/// What the connection waits for.
pub enum Input {
    /// The client's stream ended.
    Ended,
    /// Reading from the client failed.
    Failed,
    /// The client sent a close frame.
    CloseFrame,
    /// The client sent a frame that holds no text.
    OtherFrame,
    /// The client sent a text that is no client message.
    Malformed,
    /// The client sent a message.
    Client(ClientMessage),
    /// An event was published.
    Event(BroadcastEvent),
    /// Published events were lost, for this connection is too slow.
    Lagged,
    /// Nothing will be published any more.
    ChannelClosed,
    /// It is time to show that the connection is alive.
    Heartbeat,
    /// The server is shutting down.
    Shutdown,
}

/// The view of an [`Input`].
#[verifier::ext_equal]
pub enum InputView {
    Ended,
    Failed,
    CloseFrame,
    OtherFrame,
    Malformed,
    Client(ClientMessageView),
    Event(BroadcastEventView),
    Lagged,
    ChannelClosed,
    Heartbeat,
    Shutdown,
}

impl View for Input {
    type V = InputView;

    open spec fn view(&self) -> InputView {
        match *self {
            Input::Ended => InputView::Ended,
            Input::Failed => InputView::Failed,
            Input::CloseFrame => InputView::CloseFrame,
            Input::OtherFrame => InputView::OtherFrame,
            Input::Malformed => InputView::Malformed,
            Input::Client(m) => InputView::Client(m@),
            Input::Event(e) => InputView::Event(e@),
            Input::Lagged => InputView::Lagged,
            Input::ChannelClosed => InputView::ChannelClosed,
            Input::Heartbeat => InputView::Heartbeat,
            Input::Shutdown => InputView::Shutdown,
        }
    }
}

// ── Steps ─────────────────────────────────────────────────────────────────────

/// What the loop does next.
pub enum Step {
    /// Nothing; wait on.
    Idle,
    /// Leave the loop.
    Leave,
    /// Send the message, whether or not that succeeds, and wait on.
    Reply(ServerMessage),
    /// Send the message, whether or not that succeeds, and leave the loop.
    ReplyAndLeave(ServerMessage),
    /// Send the message; leave the loop if that fails.
    Forward(ServerMessage),
    /// Send `welcome`. If that succeeds, publish `joined`; if it fails, call
    /// [`Session::greeting_failed`] and leave the loop.
    Greet { welcome: ServerMessage, joined: BroadcastEvent },
    /// Publish the event.
    Publish(BroadcastEvent),
    /// Send a close frame and leave the loop.
    CloseAndLeave,
}

/// The view of a [`Step`].
#[verifier::ext_equal]
pub enum StepView {
    Idle,
    Leave,
    Reply(ServerMessageView),
    ReplyAndLeave(ServerMessageView),
    Forward(ServerMessageView),
    Greet { welcome: ServerMessageView, joined: BroadcastEventView },
    Publish(BroadcastEventView),
    CloseAndLeave,
}

impl View for Step {
    type V = StepView;

    open spec fn view(&self) -> StepView {
        match *self {
            Step::Idle => StepView::Idle,
            Step::Leave => StepView::Leave,
            Step::Reply(m) => StepView::Reply(m@),
            Step::ReplyAndLeave(m) => StepView::ReplyAndLeave(m@),
            Step::Forward(m) => StepView::Forward(m@),
            Step::Greet { welcome, joined } => StepView::Greet {
                welcome: welcome@,
                joined: joined@,
            },
            Step::Publish(e) => StepView::Publish(e@),
            Step::CloseAndLeave => StepView::CloseAndLeave,
        }
    }
}

impl StepView {
    /// Whether the loop is left whatever sending gives.
    pub open spec fn leaves(self) -> bool {
        self is Leave || self is ReplyAndLeave || self is CloseAndLeave
    }
}

// ── Rules ─────────────────────────────────────────────────────────────────────

/// The largest frame a client may send: eight times the message cap, and at least 16 KiB.
pub open spec fn frame_cap_of(max_msg_bytes: usize) -> usize {
    if max_msg_bytes * 8 > usize::MAX {
        usize::MAX
    } else if max_msg_bytes * 8 < 16384 {
        16384
    } else {
        (max_msg_bytes * 8) as usize
    }
}

/// The largest frame a client may send.
pub fn frame_cap(max_msg_bytes: usize) -> (cap: usize)
    ensures
        cap == frame_cap_of(max_msg_bytes),
{
    if max_msg_bytes > usize::MAX / 8 {
        usize::MAX
    } else if max_msg_bytes * 8 < 16384 {
        16384
    } else {
        max_msg_bytes * 8
    }
}

/// Whether a text has more bytes than allowed.
pub open spec fn too_long(text: Seq<char>, max_msg_bytes: usize) -> bool {
    vstd::utf8::encode_utf8(text).len() > max_msg_bytes
}

/// Whether a text has more bytes than allowed.
pub fn exceeds_cap(text: &str, max_msg_bytes: usize) -> (r: bool)
    ensures
        r == too_long(text@, max_msg_bytes),
{
    text.as_bytes().len() > max_msg_bytes
}

/// Whether an event with this filter is not for a member of `team`.
pub open spec fn filtered_out(team_filter: Option<Team>, team: Team) -> bool {
    team_filter is Some && team_filter->0 != team
}

/// Whether an event with this filter is not for a member of `team`.
pub fn should_skip(team_filter: Option<Team>, team: Team) -> (r: bool)
    ensures
        r == filtered_out(team_filter, team),
{
    match team_filter {
        Some(filter) => filter != team,
        None => false,
    }
}

/// The hint to a sender who is too fast.
pub open spec fn retry_reason(ms: nat) -> Seq<char> {
    "retry after "@ + text::decimal(ms) + "ms"@
}

fn retry_reason_of(ms: u64) -> (r: String)
    ensures
        r@ == retry_reason(ms as nat),
{
    let mut r = "retry after ".to_owned();
    text::push_decimal(&mut r, ms);
    r.append("ms");
    r
}

fn error(reason: &str) -> (m: ServerMessage)
    ensures
        m@ == error_view(reason@),
{
    ServerMessage::Error { reason: reason.to_owned() }
}

pub open spec fn error_view(reason: Seq<char>) -> ServerMessageView {
    ServerMessageView::Error { reason }
}

// ── Session ───────────────────────────────────────────────────────────────────

/// The state of one connection.
pub struct Session {
    session_id: u128,
    connected: bool,
    nickname: String,
    team: Team,
    lag_count: u32,
    rate_bucket: TokenBucket,
}

/// The view of a [`Session`].
#[verifier::ext_equal]
pub struct SessionView {
    pub session_id: u128,
    pub connected: bool,
    pub nickname: Seq<char>,
    pub team: Team,
    /// Lags since the last event was received.
    pub lag_count: nat,
    pub bucket: BucketView,
}

impl View for Session {
    type V = SessionView;

    closed spec fn view(&self) -> SessionView {
        SessionView {
            session_id: self.session_id,
            connected: self.connected,
            nickname: self.nickname@,
            team: self.team,
            lag_count: self.lag_count as nat,
            bucket: self.rate_bucket@,
        }
    }
}

/// A session before its `Connect`, made at the given reading of the clock.
pub open spec fn fresh_session(id: u128, config: Config, made: Instant) -> SessionView {
    SessionView {
        session_id: id,
        connected: false,
        nickname: Seq::empty(),
        team: Team::NoTeam,
        lag_count: 0,
        bucket: BucketView::full(
            config.rate_burst as nat,
            config.rate_refill_per_sec as nat,
            made,
        ),
    }
}

/// What chance, clocks and the walk of the registry contribute to one step.
#[verifier::ext_equal]
pub struct Chance {
    /// The coin flip for the team.
    pub heads: bool,
    /// The nickname suffixes.
    pub draws: Seq<u32>,
    /// What the monotonic clock shows.
    pub at: Instant,
    /// The timestamp.
    pub now: u64,
    /// The player list.
    pub players: Seq<PlayerEntryView>,
}

/// The values that `chance` can have where the step depends on it.
pub open spec fn can_be(
    chance: Chance,
    session: SessionView,
    s: StateView,
    input: InputView,
) -> bool {
    match input {
        InputView::Client(ClientMessageView::Connect { .. }) => !session.connected
            ==> nickname::are_draws(chance.draws),
        InputView::Client(ClientMessageView::Who) => session.connected ==> state::lists_all(
            chance.players,
            s.conns,
        ),
        _ => true,
    }
}

/// A session, the shared state and what the loop does, after a step.
#[verifier::ext_equal]
pub struct Outcome {
    pub session: SessionView,
    pub state: StateView,
    pub step: StepView,
}

/// The welcome to a client: of the history, what the client's team may see.
pub open spec fn welcome_view(
    s: StateView,
    config: Config,
    nick: Seq<char>,
    team: Team,
) -> ServerMessageView {
    ServerMessageView::Welcome {
        assigned_nick: nick,
        assigned_team: team,
        motd: config.motd@,
        scrollback: state::visible_to(s.scrollback, team),
    }
}

/// The event that tells everyone of a player who joined or left.
pub open spec fn presence_view(nick: Seq<char>, team: Team, joined: bool) -> BroadcastEventView {
    BroadcastEventView {
        msg: ServerMessageView::JoinedLeft { nickname: nick, team, joined },
        team_filter: None,
    }
}

/// A `Connect` that is accepted.
pub open spec fn greeted(
    session: SessionView,
    s: StateView,
    config: Config,
    requested: Seq<char>,
    team: Team,
    draws: Seq<u32>,
) -> Outcome {
    let nick = nickname::nick_for(requested, state::nicknames(s.conns), draws);
    Outcome {
        session: SessionView { connected: true, nickname: nick, team, ..session },
        state: state::registered(s, session.session_id, nick, team),
        step: StepView::Greet {
            welcome: welcome_view(s, config, nick, team),
            joined: presence_view(nick, team, true),
        },
    }
}

/// The message that a `Say` or `SayTeam` becomes.
pub open spec fn said_message(
    session: SessionView,
    channel: Channel,
    text: Seq<char>,
    now: u64,
) -> ChatMessageView {
    ChatMessageView { from: session.nickname, team: session.team, channel, text, ts: now }
}

/// A `Say` or `SayTeam` of a connected client, `elapsed` nanoseconds after the rate limiter was last
/// tried, when the monotonic clock shows `at` and the timestamp is `now`.
pub open spec fn said(
    session: SessionView,
    s: StateView,
    config: Config,
    channel: Channel,
    text: Seq<char>,
    elapsed: nat,
    at: Instant,
    now: u64,
) -> Outcome {
    if too_long(text, config.max_msg_bytes) {
        Outcome {
            session,
            state: s,
            step: StepView::Reply(error_view("message too long"@)),
        }
    } else {
        let session2 = SessionView { bucket: session.bucket.tried(elapsed, at), ..session };
        if !session.bucket.allows(elapsed) {
            Outcome {
                session: session2,
                state: s,
                step: StepView::Reply(
                    ServerMessageView::RateLimited {
                        reason: retry_reason(rate_limit::retry_ms(session.bucket.rate)),
                    },
                ),
            }
        } else {
            let msg = said_message(session, channel, text, now);
            Outcome {
                session: session2,
                state: StateView {
                    scrollback: ring::ring_push(
                        s.scrollback,
                        msg,
                        config.scrollback_size as nat,
                    ),
                    ..s
                },
                step: StepView::Publish(
                    BroadcastEventView {
                        msg: ServerMessageView::Message { data: msg },
                        team_filter: match channel {
                            Channel::All => None,
                            Channel::Team => Some(session.team),
                        },
                    },
                ),
            }
        }
    }
}

/// What a message of the client leads to.
pub open spec fn on_client(
    session: SessionView,
    s: StateView,
    config: Config,
    msg: ClientMessageView,
    chance: Chance,
) -> Outcome {
    if !session.connected {
        match msg {
            ClientMessageView::Connect { nickname, .. } => greeted(
                session,
                s,
                config,
                nickname,
                if chance.heads {
                    Team::Red
                } else {
                    Team::Blue
                },
                chance.draws,
            ),
            _ => Outcome {
                session,
                state: s,
                step: StepView::ReplyAndLeave(error_view("send Connect first"@)),
            },
        }
    } else {
        match msg {
            ClientMessageView::Connect { .. } => Outcome {
                session,
                state: s,
                step: StepView::Reply(error_view("already connected"@)),
            },
            ClientMessageView::Say { text } => said(
                session,
                s,
                config,
                Channel::All,
                text,
                session.bucket.since(chance.at),
                chance.at,
                chance.now,
            ),
            ClientMessageView::SayTeam { text } => said(
                session,
                s,
                config,
                Channel::Team,
                text,
                session.bucket.since(chance.at),
                chance.at,
                chance.now,
            ),
            ClientMessageView::Who => Outcome {
                session,
                state: s,
                step: StepView::Reply(ServerMessageView::WhoList { players: chance.players }),
            },
            ClientMessageView::Ping { seq } => Outcome {
                session,
                state: s,
                step: StepView::Reply(ServerMessageView::Pong { seq }),
            },
        }
    }
}

/// What an input leads to.
pub open spec fn outcome(
    session: SessionView,
    s: StateView,
    config: Config,
    input: InputView,
    chance: Chance,
) -> Outcome {
    match input {
        InputView::Ended | InputView::Failed | InputView::CloseFrame | InputView::ChannelClosed =>
            Outcome { session, state: s, step: StepView::Leave },
        InputView::OtherFrame => Outcome { session, state: s, step: StepView::Idle },
        InputView::Malformed => Outcome {
            session,
            state: s,
            step: if session.connected {
                StepView::Reply(error_view("invalid message"@))
            } else {
                StepView::ReplyAndLeave(error_view("invalid message"@))
            },
        },
        InputView::Client(msg) => on_client(session, s, config, msg, chance),
        InputView::Event(event) => Outcome {
            session: SessionView { lag_count: 0, ..session },
            state: s,
            step: if filtered_out(event.team_filter, session.team) {
                StepView::Idle
            } else {
                StepView::Forward(event.msg)
            },
        },
        InputView::Lagged => if session.lag_count + 1 >= config.max_lag_disconnects {
            Outcome {
                session,
                state: s,
                step: StepView::ReplyAndLeave(error_view("lag: too far behind"@)),
            }
        } else {
            Outcome {
                session: SessionView { lag_count: session.lag_count + 1, ..session },
                state: s,
                step: StepView::Idle,
            }
        },
        InputView::Heartbeat => Outcome {
            session,
            state: s,
            step: StepView::Forward(ServerMessageView::Pong { seq: 0 }),
        },
        InputView::Shutdown => Outcome { session, state: s, step: StepView::CloseAndLeave },
    }
}

impl Session {
    /// A session with the given id, before its `Connect`.
    pub fn with_id(session_id: u128, config: &Config) -> (s: Self)
        ensures
            s@ == fresh_session(session_id, *config, s@.bucket.last),
    {
        Session {
            session_id,
            connected: false,
            nickname: String::new(),
            team: Team::NoTeam,
            lag_count: 0,
            rate_bucket: TokenBucket::new(config.rate_burst, config.rate_refill_per_sec),
        }
    }

    /// A session with a new random id, before its `Connect`.
    pub fn new(config: &Config) -> (s: Self)
        ensures
            random::is_v4(s@.session_id),
            s@ == fresh_session(s@.session_id, *config, s@.bucket.last),
    {
        Session::with_id(random::random_uuid(), config)
    }

    /// The session's id.
    pub fn session_id(&self) -> (id: u128)
        ensures
            id == self@.session_id,
    {
        self.session_id
    }

    /// Whether the client has been welcomed.
    pub fn is_connected(&self) -> (r: bool)
        ensures
            r == self@.connected,
    {
        self.connected
    }

    /// The assigned nickname; empty before the `Connect`.
    pub fn nickname(&self) -> (r: &str)
        ensures
            r@ == self@.nickname,
    {
        self.nickname.as_str()
    }

    /// How many lags in a row there have been.
    pub fn lag_count(&self) -> (n: u32)
        ensures
            n == self@.lag_count,
    {
        self.lag_count
    }

    /// The assigned team.
    pub fn team(&self) -> (r: Team)
        ensures
            r == self@.team,
    {
        self.team
    }

    /// Accepts a `Connect`: assigns the nickname, registers the connection, and answers with the
    /// welcome.
    pub fn greet(
        &mut self,
        shared: &mut AppState,
        requested: &str,
        team: Team,
        draws: &Vec<u32>,
    ) -> (step: Step)
        requires
            nickname::are_draws(draws@),
        ensures
            final(shared).config == old(shared).config,
            (Outcome { session: final(self)@, state: final(shared)@, step: step@ }) == greeted(
                old(self)@,
                old(shared)@,
                old(shared).config,
                requested@,
                team,
                draws@,
            ),
    {
        let scrollback = shared.scrollback_for(team);
        let nick = shared.assign_and_register_from(self.session_id, requested, team, draws);
        self.connected = true;
        self.nickname = nick.clone();
        self.team = team;
        let welcome = ServerMessage::Welcome {
            assigned_nick: nick.clone(),
            assigned_team: team,
            motd: shared.config.motd.clone(),
            scrollback,
        };
        let joined = BroadcastEvent {
            msg: ServerMessage::JoinedLeft { nickname: nick, team, joined: true },
            team_filter: None,
        };
        Step::Greet { welcome, joined }
    }

    /// Handles a message of a connected client to everyone or to the team.
    ///
    /// `elapsed` is the time in nanoseconds since the last message that reached the rate limiter, up
    /// to `at`, which the monotonic clock shows; `now` is the timestamp.
    pub fn say(
        &mut self,
        shared: &mut AppState,
        channel: Channel,
        text: String,
        elapsed: u128,
        at: Instant,
        now: u64,
    ) -> (step: Step)
        ensures
            final(shared).config == old(shared).config,
            (Outcome { session: final(self)@, state: final(shared)@, step: step@ }) == said(
                old(self)@,
                old(shared)@,
                old(shared).config,
                channel,
                text@,
                elapsed as nat,
                at,
                now,
            ),
    {
        if exceeds_cap(text.as_str(), shared.config.max_msg_bytes) {
            return Step::Reply(error("message too long"));
        }
        if !self.rate_bucket.consume_after(elapsed, at) {
            return Step::Reply(
                ServerMessage::RateLimited {
                    reason: retry_reason_of(self.rate_bucket.retry_after_ms()),
                },
            );
        }
        let msg = ChatMessage {
            from: self.nickname.clone(),
            team: self.team,
            channel,
            text,
            ts: now,
        };
        shared.push_scrollback(msg.clone());
        let team_filter = match channel {
            Channel::All => None,
            Channel::Team => Some(self.team),
        };
        Step::Publish(BroadcastEvent { msg: ServerMessage::Message { data: msg }, team_filter })
    }

    /// Handles what came first.
    pub fn step(&mut self, shared: &mut AppState, input: Input) -> (step: Step)
        ensures
            final(shared).config == old(shared).config,
            exists|chance: Chance|
                {
                    &&& can_be(chance, old(self)@, old(shared)@, input@)
                    &&& (Outcome { session: final(self)@, state: final(shared)@, step: step@ })
                        == #[trigger] outcome(
                        old(self)@,
                        old(shared)@,
                        old(shared).config,
                        input@,
                        chance,
                    )
                },
    {
        let ghost mut chance = Chance {
            heads: true,
            draws: Seq::empty(),
            at: self@.bucket.last,
            now: 0,
            players: Seq::empty(),
        };
        let step = match input {
            Input::Ended => Step::Leave,
            Input::Failed => Step::Leave,
            Input::CloseFrame => Step::Leave,
            Input::ChannelClosed => Step::Leave,
            Input::OtherFrame => Step::Idle,
            Input::Malformed => if self.connected {
                Step::Reply(error("invalid message"))
            } else {
                Step::ReplyAndLeave(error("invalid message"))
            },
            Input::Client(msg) => if !self.connected {
                match msg {
                    ClientMessage::Connect { nickname, .. } => {
                        let team = nickname::assign_team();
                        let draws = nickname::draw_suffixes();
                        proof {
                            chance = Chance { heads: team == Team::Red, draws: draws@, ..chance };
                        }
                        self.greet(shared, nickname.as_str(), team, &draws)
                    },
                    _ => Step::ReplyAndLeave(error("send Connect first")),
                }
            } else {
                match msg {
                    ClientMessage::Connect { .. } => Step::Reply(error("already connected")),
                    ClientMessage::Say { text } => {
                        let at = clock::now();
                        let elapsed = self.rate_bucket.elapsed(&at);
                        let now = clock::unix_millis();
                        proof {
                            chance = Chance { at, now, ..chance };
                        }
                        self.say(shared, Channel::All, text, elapsed, at, now)
                    },
                    ClientMessage::SayTeam { text } => {
                        let at = clock::now();
                        let elapsed = self.rate_bucket.elapsed(&at);
                        let now = clock::unix_millis();
                        proof {
                            chance = Chance { at, now, ..chance };
                        }
                        self.say(shared, Channel::Team, text, elapsed, at, now)
                    },
                    ClientMessage::Who => {
                        let players = shared.who_list();
                        proof {
                            chance = Chance {
                                players: crate::protocol::players_view(players@),
                                ..chance
                            };
                        }
                        Step::Reply(ServerMessage::WhoList { players })
                    },
                    ClientMessage::Ping { seq } => Step::Reply(ServerMessage::Pong { seq }),
                }
            },
            Input::Event(event) => {
                self.lag_count = 0;
                if should_skip(event.team_filter, self.team) {
                    Step::Idle
                } else {
                    Step::Forward(event.msg)
                }
            },
            Input::Lagged => if self.lag_count as u64 + 1
                >= shared.config.max_lag_disconnects as u64 {
                Step::ReplyAndLeave(error("lag: too far behind"))
            } else {
                self.lag_count = self.lag_count + 1;
                Step::Idle
            },
            Input::Heartbeat => Step::Forward(ServerMessage::Pong { seq: 0 }),
            Input::Shutdown => Step::CloseAndLeave,
        };
        assert((Outcome { session: self@, state: shared@, step: step@ }) =~= outcome(
            old(self)@,
            old(shared)@,
            old(shared).config,
            input@,
            chance,
        ));
        step
    }

    /// Takes back a registration whose welcome could not be sent.
    pub fn greeting_failed(&mut self, shared: &mut AppState)
        ensures
            final(shared).config == old(shared).config,
            final(shared)@ == (StateView {
                conns: old(shared)@.conns.remove(old(self)@.session_id),
                ..old(shared)@
            }),
            final(self)@ == (SessionView { connected: false, ..old(self)@ }),
    {
        shared.remove_conn(self.session_id);
        self.connected = false;
    }

    /// Cleans up after the loop: a connected session is removed from the registry, and the event
    /// that says so is to be published.
    pub fn finish(&mut self, shared: &mut AppState) -> (left: Option<BroadcastEvent>)
        ensures
            final(shared).config == old(shared).config,
            final(self)@ == (SessionView { connected: false, ..old(self)@ }),
            final(shared)@ == finished_state(old(self)@, old(shared)@),
            match left {
                Some(event) => finished_event(old(self)@) == Some(event@),
                None => finished_event(old(self)@) is None,
            },
    {
        if !self.connected {
            return None;
        }
        shared.remove_conn(self.session_id);
        self.connected = false;
        Some(
            BroadcastEvent {
                msg: ServerMessage::JoinedLeft {
                    nickname: self.nickname.clone(),
                    team: self.team,
                    joined: false,
                },
                team_filter: None,
            },
        )
    }
}

/// The shared state after the cleanup.
pub open spec fn finished_state(session: SessionView, s: StateView) -> StateView {
    if session.connected {
        StateView { conns: s.conns.remove(session.session_id), ..s }
    } else {
        s
    }
}

/// The event that the cleanup publishes.
pub open spec fn finished_event(session: SessionView) -> Option<BroadcastEventView> {
    if session.connected {
        Some(presence_view(session.nickname, session.team, false))
    } else {
        None
    }
}

// ── What a session guarantees ─────────────────────────────────────────────────

/// The session and the registry agree: a connected session is registered under its id with its
/// nickname and a team of its own; one that is not connected is not registered.
pub open spec fn consistent(session: SessionView, s: StateView) -> bool {
    if session.connected {
        &&& session.team == Team::Red || session.team == Team::Blue
        &&& s.conns.contains_key(session.session_id)
        &&& s.conns[session.session_id] == state::ConnInfoView {
            session_id: session.session_id,
            nickname: session.nickname,
            team: session.team,
        }
    } else {
        !s.conns.contains_key(session.session_id)
    }
}

/// Every step keeps the session and the registry in agreement, for the session that takes the step
/// and for every other one; so does the cleanup.
pub proof fn lemma_step_consistent(
    session: SessionView,
    other: SessionView,
    s: StateView,
    config: Config,
    input: InputView,
    chance: Chance,
)
    requires
        consistent(session, s),
        consistent(other, s),
        other.session_id != session.session_id,
    ensures
        ({
            let o = outcome(session, s, config, input, chance);
            &&& consistent(o.session, o.state)
            &&& consistent(other, o.state)
            &&& o.session.session_id == session.session_id
            &&& consistent(
                SessionView { connected: false, ..o.session },
                finished_state(o.session, o.state),
            )
            &&& consistent(other, finished_state(o.session, o.state))
        }),
{
}

/// Before its `Connect` nothing that a client says gets anything but an error: any other message, and
/// a text that is none, is answered with one, the connection is closed, and nothing else happens.
pub proof fn lemma_connect_first(
    session: SessionView,
    s: StateView,
    config: Config,
    input: InputView,
    chance: Chance,
)
    requires
        !session.connected,
        input is Malformed || (input matches InputView::Client(msg) && !(msg is Connect)),
    ensures
        outcome(session, s, config, input, chance) == (Outcome {
            session,
            state: s,
            step: StepView::ReplyAndLeave(
                error_view(
                    if input is Malformed {
                        "invalid message"@
                    } else {
                        "send Connect first"@
                    },
                ),
            ),
        }),
{
}

/// A connected client is kept whatever it sends: neither a message nor a text that is none ends the
/// connection or changes who the client is.
pub proof fn lemma_kept_whatever_it_sends(
    session: SessionView,
    s: StateView,
    config: Config,
    input: InputView,
    chance: Chance,
)
    requires
        session.connected,
        input is Client || input is Malformed || input is OtherFrame,
    ensures
        ({
            let o = outcome(session, s, config, input, chance);
            &&& !o.step.leaves()
            &&& o.session == SessionView { bucket: o.session.bucket, ..session }
            &&& o.state.conns == s.conns
        }),
{
}

/// The text of a `Say` or `SayTeam`.
pub open spec fn text_of(msg: ClientMessageView) -> Seq<char> {
    match msg {
        ClientMessageView::Say { text } => text,
        ClientMessageView::SayTeam { text } => text,
        _ => Seq::empty(),
    }
}

/// A message that is too long or too fast is answered to its sender alone: it is neither kept nor
/// published, the sender stays connected, and one that is too long costs no token.
pub proof fn lemma_refused_leaves_no_trace(
    session: SessionView,
    s: StateView,
    config: Config,
    msg: ClientMessageView,
    chance: Chance,
)
    requires
        session.connected,
        msg is Say || msg is SayTeam,
        too_long(text_of(msg), config.max_msg_bytes) || !session.bucket.allows_at(chance.at),
    ensures
        ({
            let o = outcome(session, s, config, InputView::Client(msg), chance);
            &&& o.step is Reply
            &&& o.state == s
            &&& too_long(text_of(msg), config.max_msg_bytes) ==> o.session == session && o.step
                == StepView::Reply(error_view("message too long"@))
            &&& !too_long(text_of(msg), config.max_msg_bytes) ==> o.step == StepView::Reply(
                ServerMessageView::RateLimited {
                    reason: retry_reason(rate_limit::retry_ms(session.bucket.rate)),
                },
            ) && o.session == SessionView {
                bucket: session.bucket.tried_at(chance.at),
                ..session
            }
        }),
{
}

/// A message that passes is the newest in the scrollback, and reaches every session, if it was said
/// to all, or the sessions of the sender's team, if it was said to the team, and no others.
pub proof fn lemma_said_reaches(
    session: SessionView,
    s: StateView,
    config: Config,
    msg: ClientMessageView,
    chance: Chance,
    receiver: SessionView,
    receiver_chance: Chance,
)
    requires
        session.connected,
        msg is Say || msg is SayTeam,
        !too_long(text_of(msg), config.max_msg_bytes),
        session.bucket.allows_at(chance.at),
    ensures
        ({
            let o = outcome(session, s, config, InputView::Client(msg), chance);
            let channel = if msg is Say {
                Channel::All
            } else {
                Channel::Team
            };
            let data = said_message(session, channel, text_of(msg), chance.now);
            &&& o.step is Publish
            &&& config.scrollback_size > 0 ==> o.state.scrollback.last() == data
            &&& outcome(
                receiver,
                o.state,
                config,
                InputView::Event(o.step->Publish_0),
                receiver_chance,
            ).step == if msg is Say || receiver.team == session.team {
                StepView::Forward(ServerMessageView::Message { data })
            } else {
                StepView::Idle
            }
        }),
{
}

/// A client who is welcomed gets what its team may see of the history kept so far, and a nickname
/// that is not in use, unless the requested name and all its suffixes that were tried are: then it
/// is `guest` with a suffix. When the client goes, the same nickname and team are announced and the
/// registry is what it was.
pub proof fn lemma_join_then_leave(
    session: SessionView,
    s: StateView,
    config: Config,
    requested: Seq<char>,
    team: Team,
    chance: Chance,
)
    requires
        !session.connected,
        consistent(session, s),
    ensures
        ({
            let connect = ClientMessageView::Connect { nickname: requested, team };
            let o = outcome(session, s, config, InputView::Client(connect), chance);
            let taken = state::nicknames(s.conns);
            let nick = o.session.nickname;
            &&& o.session.connected
            &&& !taken.contains(nick) || {
                &&& taken.contains(nickname::normalized(requested))
                &&& nick == nickname::suffixed(
                    "guest"@,
                    chance.draws[nickname::SUFFIX_TRIES as int],
                )
            }
            &&& o.step == StepView::Greet {
                welcome: welcome_view(s, config, o.session.nickname, o.session.team),
                joined: presence_view(o.session.nickname, o.session.team, true),
            }
            &&& finished_event(o.session) == Some(
                presence_view(o.session.nickname, o.session.team, false),
            )
            &&& finished_state(o.session, o.state) == s
        }),
{
    let nick = nickname::nick_for(requested, state::nicknames(s.conns), chance.draws);
    let given = if chance.heads {
        Team::Red
    } else {
        Team::Blue
    };
    state::lemma_remove_undoes_register(s, session.session_id, nick, given);
    nickname::lemma_nick_unique(requested, state::nicknames(s.conns), chance.draws);
}

/// Nicknames stay unique through every step and every cleanup, if the nickname given to a client
/// who is welcomed is not in use.
pub proof fn lemma_step_keeps_unique(
    session: SessionView,
    s: StateView,
    config: Config,
    input: InputView,
    chance: Chance,
)
    requires
        consistent(session, s),
        s.conns.dom().finite(),
        state::unique_nicks(s.conns),
        !session.connected ==> (input matches InputView::Client(
            ClientMessageView::Connect { nickname: requested, .. },
        ) ==> !state::nicknames(s.conns).contains(
            nickname::nick_for(requested, state::nicknames(s.conns), chance.draws),
        )),
    ensures
        state::unique_nicks(outcome(session, s, config, input, chance).state.conns),
        state::unique_nicks(finished_state(session, s).conns),
{
    state::lemma_remove_keeps_unique(s.conns, session.session_id);
    if let InputView::Client(ClientMessageView::Connect { nickname: requested, .. }) = input {
        if !session.connected {
            let nick = nickname::nick_for(requested, state::nicknames(s.conns), chance.draws);
            let given = if chance.heads {
                Team::Red
            } else {
                Team::Blue
            };
            state::lemma_register_keeps_unique(s, session.session_id, nick, given);
        }
    }
}

/// The scrollback never grows beyond its bound.
pub proof fn lemma_step_bounds_scrollback(
    session: SessionView,
    s: StateView,
    config: Config,
    input: InputView,
    chance: Chance,
)
    requires
        s.scrollback.len() <= config.scrollback_size,
    ensures
        outcome(session, s, config, input, chance).state.scrollback.len()
            <= config.scrollback_size,
{
}

/// What a step sends to its client, if anything.
pub open spec fn sent(step: StepView) -> Option<ServerMessageView> {
    match step {
        StepView::Reply(m) => Some(m),
        StepView::ReplyAndLeave(m) => Some(m),
        StepView::Forward(m) => Some(m),
        StepView::Greet { welcome, .. } => Some(welcome),
        _ => None,
    }
}

/// Whether a server message shows a chat message.
pub open spec fn shows(msg: ServerMessageView, chat: ChatMessageView) -> bool {
    match msg {
        ServerMessageView::Message { data } => data == chat,
        ServerMessageView::Welcome { scrollback, .. } => scrollback.contains(chat),
        _ => false,
    }
}

/// Whether an event goes to those alone who may see it: no welcome is published, and what is said
/// to a team is published to that team.
pub open spec fn well_aimed(event: BroadcastEventView) -> bool {
    match event.msg {
        ServerMessageView::Welcome { .. } => false,
        ServerMessageView::Message { data } => data.channel == Channel::Team ==> event.team_filter
            == Some(data.team),
        _ => true,
    }
}

/// What is said to a team stays in the team: if every event published so far went to those alone who
/// may see it, so does every event that a step or a cleanup publishes, and a client is sent no chat
/// message, in a welcome or by itself, but those that were said to all or to the client's team.
pub proof fn lemma_team_talk_stays_in_team(
    session: SessionView,
    s: StateView,
    config: Config,
    input: InputView,
    chance: Chance,
    chat: ChatMessageView,
)
    requires
        input matches InputView::Event(event) ==> well_aimed(event),
    ensures
        ({
            let o = outcome(session, s, config, input, chance);
            &&& sent(o.step) matches Some(msg) ==> (shows(msg, chat) ==> state::is_for(
                chat,
                o.session.team,
            ))
            &&& o.step matches StepView::Publish(event) ==> well_aimed(event)
            &&& o.step matches StepView::Greet { joined, .. } ==> well_aimed(joined)
            &&& finished_event(o.session) matches Some(event) ==> well_aimed(event)
        }),
{
    let o = outcome(session, s, config, input, chance);
    state::lemma_visible_to(s.scrollback, o.session.team, chat);
}

/// The chat messages that a step publishes.
pub open spec fn chat_published(step: StepView) -> Seq<ChatMessageView> {
    match step {
        StepView::Publish(event) => match event.msg {
            ServerMessageView::Message { data } => seq![data],
            _ => Seq::empty(),
        },
        _ => Seq::empty(),
    }
}

/// The scrollback is the end of the history: if it holds the latest of all the chat messages
/// published so far, it does so after every step and every cleanup. A client who is welcomed gets
/// those of them that were said to all or to the client's team, oldest first.
pub proof fn lemma_scrollback_is_history(
    session: SessionView,
    s: StateView,
    config: Config,
    input: InputView,
    chance: Chance,
    history: Seq<ChatMessageView>,
)
    requires
        s.scrollback == ring::last_of(history, config.scrollback_size as nat),
    ensures
        ({
            let o = outcome(session, s, config, input, chance);
            &&& o.state.scrollback == ring::last_of(
                history + chat_published(o.step),
                config.scrollback_size as nat,
            )
            &&& finished_state(o.session, o.state).scrollback == o.state.scrollback
            &&& o.step matches StepView::Greet { welcome, .. } ==> {
                &&& welcome is Welcome
                &&& welcome->scrollback == state::visible_to(
                    ring::last_of(history, config.scrollback_size as nat),
                    o.session.team,
                )
            }
        }),
{
    let o = outcome(session, s, config, input, chance);
    assert(o.state.scrollback =~= ring::last_of(
        history + chat_published(o.step),
        config.scrollback_size as nat,
    ));
}

/// The session after `n` lags in a row.
pub open spec fn after_lags(
    session: SessionView,
    s: StateView,
    config: Config,
    chance: Chance,
    n: nat,
) -> SessionView
    decreases n,
{
    if n == 0 {
        session
    } else {
        outcome(
            after_lags(session, s, config, chance, (n - 1) as nat),
            s,
            config,
            InputView::Lagged,
            chance,
        ).session
    }
}

/// A slow client is kept through fewer lags in a row than the limit, and closed at the limit. Any
/// event received in between starts the count anew.
pub proof fn lemma_lag_limit(
    session: SessionView,
    s: StateView,
    config: Config,
    chance: Chance,
    event: BroadcastEventView,
    n: nat,
)
    requires
        session.lag_count == 0,
        n < config.max_lag_disconnects,
    ensures
        after_lags(session, s, config, chance, n) == (SessionView { lag_count: n, ..session }),
        ({
            let slow = after_lags(session, s, config, chance, n);
            let o = outcome(slow, s, config, InputView::Lagged, chance);
            &&& o.step.leaves() == (n + 1 == config.max_lag_disconnects)
            &&& o.step.leaves() ==> o.step == StepView::ReplyAndLeave(
                error_view("lag: too far behind"@),
            )
            &&& outcome(slow, s, config, InputView::Event(event), chance).session == session
        }),
    decreases n,
{
    if n > 0 {
        lemma_lag_limit(session, s, config, chance, event, (n - 1) as nat);
    }
}

// ── The whole life of a session ───────────────────────────────────────────────

/// One turn of a session's loop.
#[verifier::ext_equal]
pub struct Turn {
    /// The shared state when the turn begins: other sessions have had theirs in between.
    pub state: StateView,
    pub input: InputView,
    pub chance: Chance,
    /// Whether what the turn sends to the client gets through.
    pub gets_through: bool,
}

/// A session and the shared state after a turn: a step, and what is taken back if its welcome does
/// not get through.
pub open spec fn turned(session: SessionView, config: Config, turn: Turn) -> Outcome {
    let o = outcome(session, turn.state, config, turn.input, turn.chance);
    if o.step is Greet && !turn.gets_through {
        Outcome {
            session: SessionView { connected: false, ..o.session },
            state: StateView { conns: o.state.conns.remove(o.session.session_id), ..o.state },
            ..o
        }
    } else {
        o
    }
}

/// Whether the loop is left after a turn.
pub open spec fn ends(session: SessionView, config: Config, turn: Turn) -> bool {
    let step = turned(session, config, turn).step;
    step.leaves() || (step is Greet || step is Forward) && !turn.gets_through
}

/// The session after all of the turns.
pub open spec fn lived(start: SessionView, config: Config, turns: Seq<Turn>) -> SessionView
    decreases turns.len(),
{
    if turns.len() == 0 {
        start
    } else {
        turned(lived(start, config, turns.drop_last()), config, turns.last()).session
    }
}

/// The shared state after the last of the turns; `first` if there is none.
pub open spec fn left_behind(
    start: SessionView,
    first: StateView,
    config: Config,
    turns: Seq<Turn>,
) -> StateView {
    if turns.len() == 0 {
        first
    } else {
        turned(lived(start, config, turns.drop_last()), config, turns.last()).state
    }
}

/// Whether two states agree on the registration of a session.
pub open spec fn same_entry(a: StateView, b: StateView, id: u128) -> bool {
    &&& a.conns.contains_key(id) == b.conns.contains_key(id)
    &&& a.conns.contains_key(id) ==> a.conns[id] == b.conns[id]
}

/// Whether the turns can be those of a session: the loop is not left before the last, and nobody
/// else touches the session's registration in between.
pub open spec fn is_life(
    start: SessionView,
    first: StateView,
    config: Config,
    turns: Seq<Turn>,
) -> bool
    decreases turns.len(),
{
    turns.len() > 0 ==> {
        let before = turns.drop_last();
        &&& is_life(start, first, config, before)
        &&& before.len() > 0 ==> !ends(
            lived(start, config, before.drop_last()),
            config,
            before.last(),
        )
        &&& same_entry(
            left_behind(start, first, config, before),
            turns.last().state,
            start.session_id,
        )
    }
}

/// Whether a turn accepts a `Connect` and its welcome gets through.
pub open spec fn welcomes(session: SessionView, config: Config, turn: Turn) -> bool {
    turned(session, config, turn).step is Greet && turn.gets_through
}

/// Whether one of the turns welcomes the client.
pub open spec fn was_welcomed(start: SessionView, config: Config, turns: Seq<Turn>) -> bool
    decreases turns.len(),
{
    turns.len() > 0 && (was_welcomed(start, config, turns.drop_last()) || welcomes(
        lived(start, config, turns.drop_last()),
        config,
        turns.last(),
    ))
}

/// The events that a turn publishes.
pub open spec fn published(session: SessionView, config: Config, turn: Turn) -> Seq<
    BroadcastEventView,
> {
    match turned(session, config, turn).step {
        StepView::Publish(event) => seq![event],
        StepView::Greet { joined, .. } => if turn.gets_through {
            seq![joined]
        } else {
            Seq::empty()
        },
        _ => Seq::empty(),
    }
}

/// Those of the events that tell of a player who joined or left.
pub open spec fn presence(events: Seq<BroadcastEventView>) -> Seq<BroadcastEventView> {
    events.filter(|e: BroadcastEventView| e.msg is JoinedLeft)
}

/// The events that all of the turns publish, in order.
pub open spec fn all_published(start: SessionView, config: Config, turns: Seq<Turn>) -> Seq<
    BroadcastEventView,
>
    decreases turns.len(),
{
    if turns.len() == 0 {
        Seq::empty()
    } else {
        all_published(start, config, turns.drop_last()) + published(
            lived(start, config, turns.drop_last()),
            config,
            turns.last(),
        )
    }
}

proof fn lemma_presence_of_one(event: BroadcastEventView)
    ensures
        presence(seq![event]) == if event.msg is JoinedLeft {
            seq![event]
        } else {
            Seq::empty()
        },
        presence(Seq::empty()) == Seq::<BroadcastEventView>::empty(),
{
    reveal_with_fuel(Seq::filter, 2);
    assert(seq![event].drop_last() =~= Seq::empty());
    assert(Seq::empty().push(event) =~= seq![event]);
}

/// What one turn does to who the client is and what everyone is told.
proof fn lemma_turn(session: SessionView, config: Config, turn: Turn)
    requires
        consistent(session, turn.state),
    ensures
        ({
            let o = turned(session, config, turn);
            let welcomed = welcomes(session, config, turn);
            &&& o.session.session_id == session.session_id
            &&& consistent(o.session, o.state)
            &&& o.session.connected == (session.connected || welcomed)
            &&& session.connected ==> !welcomed && o.session.nickname == session.nickname
                && o.session.team == session.team
            &&& presence(published(session, config, turn)) == if welcomed {
                seq![presence_view(o.session.nickname, o.session.team, true)]
            } else {
                Seq::empty()
            }
        }),
{
    let new = published(session, config, turn);
    if new.len() > 0 {
        lemma_presence_of_one(new[0]);
        assert(new =~= seq![new[0]]);
    } else {
        lemma_presence_of_one(presence_view(Seq::empty(), Team::NoTeam, true));
        assert(new =~= Seq::empty());
    }
}

proof fn lemma_life(start: SessionView, first: StateView, config: Config, turns: Seq<Turn>)
    requires
        !start.connected,
        consistent(start, first),
        is_life(start, first, config, turns),
    ensures
        ({
            let now = lived(start, config, turns);
            &&& now.session_id == start.session_id
            &&& consistent(now, left_behind(start, first, config, turns))
            &&& now.connected == was_welcomed(start, config, turns)
            &&& presence(all_published(start, config, turns)) == if now.connected {
                seq![presence_view(now.nickname, now.team, true)]
            } else {
                Seq::empty()
            }
        }),
    decreases turns.len(),
{
    if turns.len() == 0 {
        lemma_presence_of_one(presence_view(Seq::empty(), Team::NoTeam, true));
    } else {
        let before = turns.drop_last();
        lemma_life(start, first, config, before);
        let session = lived(start, config, before);
        let turn = turns.last();
        assert(consistent(session, turn.state));
        lemma_turn(session, config, turn);
        lemma_presence_of_more(
            all_published(start, config, before),
            published(session, config, turn),
        );
    }
}

proof fn lemma_presence_of_more(a: Seq<BroadcastEventView>, b: Seq<BroadcastEventView>)
    ensures
        presence(a + b) == presence(a) + presence(b),
        presence(a) + Seq::empty() == presence(a),
        Seq::empty() + presence(b) == presence(b),
{
    Seq::filter_distributes_over_add(a, b, |e: BroadcastEventView| e.msg is JoinedLeft);
    assert(presence(a) + Seq::empty() =~= presence(a));
    assert(Seq::empty() + presence(b) =~= presence(b));
}

/// The events of a session's cleanup.
pub open spec fn cleanup_published(session: SessionView) -> Seq<BroadcastEventView> {
    match finished_event(session) {
        Some(event) => seq![event],
        None => Seq::empty(),
    }
}

proof fn lemma_presence_to_the_end(events: Seq<BroadcastEventView>, end: SessionView)
    requires
        presence(events) == if end.connected {
            seq![presence_view(end.nickname, end.team, true)]
        } else {
            Seq::empty()
        },
    ensures
        presence(events + cleanup_published(end)) == if end.connected {
            seq![
                presence_view(end.nickname, end.team, true),
                presence_view(end.nickname, end.team, false),
            ]
        } else {
            Seq::empty()
        },
{
    let left = presence_view(end.nickname, end.team, false);
    lemma_presence_of_one(left);
    lemma_presence_of_more(events, cleanup_published(end));
    assert(seq![presence_view(end.nickname, end.team, true)] + seq![left] =~= seq![
        presence_view(end.nickname, end.team, true),
        left,
    ]);
}

/// A session tells everyone of one arrival and then of one departure, or of neither: over its whole
/// life, cleanup included, it publishes that its player joined and after that that the same player
/// left, if the client was welcomed, and otherwise nothing of the kind. In either case it is not
/// registered any more.
pub proof fn lemma_one_join_then_one_leave(
    start: SessionView,
    first: StateView,
    config: Config,
    turns: Seq<Turn>,
    s: StateView,
)
    requires
        !start.connected,
        consistent(start, first),
        is_life(start, first, config, turns),
        same_entry(left_behind(start, first, config, turns), s, start.session_id),
    ensures
        ({
            let end = lived(start, config, turns);
            let events = all_published(start, config, turns) + cleanup_published(end);
            &&& presence(events) == if was_welcomed(start, config, turns) {
                seq![
                    presence_view(end.nickname, end.team, true),
                    presence_view(end.nickname, end.team, false),
                ]
            } else {
                Seq::empty()
            }
            &&& !finished_state(end, s).conns.contains_key(start.session_id)
        }),
{
    lemma_life(start, first, config, turns);
    lemma_presence_to_the_end(
        all_published(start, config, turns),
        lived(start, config, turns),
    );
}

/// Whether a turn asks the rate limiter.
pub open spec fn asks_limiter(session: SessionView, config: Config, turn: Turn) -> bool {
    session.connected && (turn.input matches InputView::Client(msg) && (msg is Say || msg is SayTeam)
        && !too_long(text_of(msg), config.max_msg_bytes))
}

/// How many messages the turns let through.
pub open spec fn let_through(start: SessionView, config: Config, turns: Seq<Turn>) -> nat
    decreases turns.len(),
{
    if turns.len() == 0 {
        0
    } else {
        let before = turns.drop_last();
        let_through(start, config, before) + if turned(
            lived(start, config, before),
            config,
            turns.last(),
        ).step is Publish {
            1nat
        } else {
            0nat
        }
    }
}

/// The nanoseconds that the rate limiter has counted over the turns, each time from when it was last
/// asked.
pub open spec fn limiter_time(start: SessionView, config: Config, turns: Seq<Turn>) -> nat
    decreases turns.len(),
{
    if turns.len() == 0 {
        0
    } else {
        let session = lived(start, config, turns.drop_last());
        limiter_time(start, config, turns.drop_last()) + if asks_limiter(
            session,
            config,
            turns.last(),
        ) {
            session.bucket.since(turns.last().chance.at)
        } else {
            0nat
        }
    }
}

/// Burst and steady rate bound what a client can say: over any run of turns no more messages are let
/// through than the bucket held tokens at the start, plus what the rate adds in the time counted.
pub proof fn lemma_throughput(start: SessionView, config: Config, turns: Seq<Turn>)
    ensures
        let_through(start, config, turns) * rate_limit::TOKEN + lived(
            start,
            config,
            turns,
        ).bucket.tokens <= start.bucket.tokens + limiter_time(start, config, turns)
            * start.bucket.rate,
        lived(start, config, turns).bucket.rate == start.bucket.rate,
    decreases turns.len(),
{
    let rate = start.bucket.rate;
    let time = limiter_time(start, config, turns);
    if turns.len() == 0 {
        assert(time * rate == 0) by (nonlinear_arith)
            requires
                time == 0,
        ;
    } else {
        let before = turns.drop_last();
        lemma_throughput(start, config, before);
        let session = lived(start, config, before);
        let earlier = limiter_time(start, config, before);
        let pause = session.bucket.since(turns.last().chance.at);
        assert((earlier + pause) * rate == earlier * rate + pause * rate) by (nonlinear_arith);
    }
}

// ── Input by input ────────────────────────────────────────────────────────────

/// A text may have as many bytes as the cap says and no more; a frame may have eight times as many,
/// and 16 KiB in any case.
pub proof fn lemma_caps(text: Seq<char>, max_msg_bytes: usize)
    ensures
        too_long(text, max_msg_bytes) <==> vstd::utf8::encode_utf8(text).len() > max_msg_bytes,
        frame_cap_of(max_msg_bytes) >= 16_384,
        16_384 <= max_msg_bytes * 8 <= usize::MAX ==> frame_cap_of(max_msg_bytes) == max_msg_bytes
            * 8,
        max_msg_bytes * 8 <= 16_384 ==> frame_cap_of(max_msg_bytes) == 16_384,
        max_msg_bytes * 8 > usize::MAX ==> frame_cap_of(max_msg_bytes) == usize::MAX,
{
}

/// An event without a filter is for everyone; one with a filter is for that team and no other.
pub proof fn lemma_filter(filter: Team, team: Team)
    ensures
        !filtered_out(None, team),
        filtered_out(Some(filter), team) <==> filter != team,
{
}

/// The hint names the milliseconds; an error says its reason and nothing else.
pub proof fn lemma_answers(ms: nat, reason: Seq<char>)
    ensures
        retry_reason(ms) == "retry after "@ + text::decimal(ms) + "ms"@,
        error_view(reason) == (ServerMessageView::Error { reason }),
{
}

/// A new session has its id, is not connected, has no nickname and no team, has not lagged, and may
/// send its whole burst.
pub proof fn lemma_fresh_session(id: u128, config: Config, made: Instant)
    ensures
        ({
            let session = fresh_session(id, config, made);
            &&& session.session_id == id
            &&& !session.connected
            &&& session.nickname.len() == 0
            &&& session.team == Team::NoTeam
            &&& session.lag_count == 0
            &&& session.bucket.tokens == config.rate_burst * 1_000_000_000
            &&& session.bucket.burst == config.rate_burst
            &&& session.bucket.rate == config.rate_refill_per_sec
            &&& session.bucket.last == made
        }),
{
}

/// What a connected client says within the cap and the rate is published and kept whole: the message
/// has exactly the text that was sent, the sender's nickname and team, the channel and the time. It
/// goes to all, or to the sender's team alone; it is pushed onto the scrollback; it costs one token;
/// and nothing else changes.
pub proof fn lemma_said_whole(
    session: SessionView,
    s: StateView,
    config: Config,
    text: Seq<char>,
    to_team: bool,
    chance: Chance,
)
    requires
        session.connected,
        vstd::utf8::encode_utf8(text).len() <= config.max_msg_bytes,
        session.bucket.burst >= 1,
        session.bucket.tokens + clock::nanos_from(session.bucket.last, chance.at)
            * session.bucket.rate >= 1_000_000_000,
    ensures
        ({
            let msg = if to_team {
                ClientMessageView::SayTeam { text }
            } else {
                ClientMessageView::Say { text }
            };
            let o = outcome(session, s, config, InputView::Client(msg), chance);
            let data = ChatMessageView {
                from: session.nickname,
                team: session.team,
                channel: if to_team {
                    Channel::Team
                } else {
                    Channel::All
                },
                text,
                ts: chance.now,
            };
            &&& o.step matches StepView::Publish(event)
            &&& event.msg == ServerMessageView::Message { data }
            &&& event.team_filter == if to_team {
                Some(session.team)
            } else {
                None
            }
            &&& o.state == StateView {
                scrollback: ring::ring_push(s.scrollback, data, config.scrollback_size as nat),
                conns: s.conns,
            }
            &&& config.scrollback_size > 0 ==> o.state.scrollback.last().text == text
            &&& o.session == SessionView { bucket: o.session.bucket, ..session }
            &&& o.session.bucket == session.bucket.tried_at(chance.at)
        }),
{
}

/// What a connected client says beyond the cap is answered so and costs nothing; within the cap but
/// beyond the rate it is answered with the time to wait. Neither is published or kept.
pub proof fn lemma_refused(
    session: SessionView,
    s: StateView,
    config: Config,
    text: Seq<char>,
    to_team: bool,
    chance: Chance,
)
    requires
        session.connected,
    ensures
        ({
            let msg = if to_team {
                ClientMessageView::SayTeam { text }
            } else {
                ClientMessageView::Say { text }
            };
            let o = outcome(session, s, config, InputView::Client(msg), chance);
            let bytes = vstd::utf8::encode_utf8(text).len();
            let balance = session.bucket.tokens + clock::nanos_from(session.bucket.last, chance.at)
                * session.bucket.rate;
            &&& bytes > config.max_msg_bytes ==> o == Outcome {
                session,
                state: s,
                step: StepView::Reply(ServerMessageView::Error { reason: "message too long"@ }),
            }
            &&& bytes <= config.max_msg_bytes && (balance < 1_000_000_000 || session.bucket.burst
                == 0) ==> o == Outcome {
                session: SessionView { bucket: session.bucket.tried_at(chance.at), ..session },
                state: s,
                step: StepView::Reply(
                    ServerMessageView::RateLimited {
                        reason: "retry after "@ + text::decimal(
                            rate_limit::retry_ms(session.bucket.rate),
                        ) + "ms"@,
                    },
                ),
            }
        }),
{
}

/// The first `Connect` gives the client a nickname beside those in use and the team that the coin
/// says, whatever team was asked for; registers it under both; welcomes it by the same with the
/// message of the day and what its team may see of the scrollback; and tells everyone of it. Nothing
/// else of the session or the state changes.
pub proof fn lemma_welcomed(
    session: SessionView,
    s: StateView,
    config: Config,
    requested: Seq<char>,
    asked: Team,
    chance: Chance,
)
    requires
        !session.connected,
    ensures
        ({
            let connect = ClientMessageView::Connect { nickname: requested, team: asked };
            let o = outcome(session, s, config, InputView::Client(connect), chance);
            let nick = nickname::nick_for(requested, state::nicknames(s.conns), chance.draws);
            let team = if chance.heads {
                Team::Red
            } else {
                Team::Blue
            };
            &&& o.session == SessionView { connected: true, nickname: nick, team, ..session }
            &&& o.state.scrollback == s.scrollback
            &&& o.state.conns == s.conns.insert(
                session.session_id,
                state::ConnInfoView { session_id: session.session_id, nickname: nick, team },
            )
            &&& o.step == StepView::Greet {
                welcome: ServerMessageView::Welcome {
                    assigned_nick: nick,
                    assigned_team: team,
                    motd: config.motd@,
                    scrollback: state::visible_to(s.scrollback, team),
                },
                joined: BroadcastEventView {
                    msg: ServerMessageView::JoinedLeft { nickname: nick, team, joined: true },
                    team_filter: None,
                },
            }
        }),
{
}

/// A connected client is answered and nothing changes: a second `Connect` with an error, a ping with
/// a pong of the same number, and the question who is there with the players.
pub proof fn lemma_answered(
    session: SessionView,
    s: StateView,
    config: Config,
    nickname: Seq<char>,
    team: Team,
    seq: u32,
    chance: Chance,
)
    requires
        session.connected,
    ensures
        outcome(
            session,
            s,
            config,
            InputView::Client(ClientMessageView::Connect { nickname, team }),
            chance,
        ) == (Outcome {
            session,
            state: s,
            step: StepView::Reply(ServerMessageView::Error { reason: "already connected"@ }),
        }),
        outcome(
            session,
            s,
            config,
            InputView::Client(ClientMessageView::Ping { seq }),
            chance,
        ) == (Outcome {
            session,
            state: s,
            step: StepView::Reply(ServerMessageView::Pong { seq }),
        }),
        outcome(session, s, config, InputView::Client(ClientMessageView::Who), chance) == (Outcome {
            session,
            state: s,
            step: StepView::Reply(ServerMessageView::WhoList { players: chance.players }),
        }),
{
}

/// Chance has its say within bounds: the suffixes for a new client are ten tries and a fallback of
/// four digits each, and the players told are those who are registered, each once.
pub proof fn lemma_chance_is_bounded(
    chance: Chance,
    session: SessionView,
    s: StateView,
    nickname: Seq<char>,
    team: Team,
)
    ensures
        !session.connected && can_be(
            chance,
            session,
            s,
            InputView::Client(ClientMessageView::Connect { nickname, team }),
        ) ==> chance.draws.len() == 11 && forall|i: int|
            0 <= i < 11 ==> #[trigger] chance.draws[i] < 10_000,
        session.connected && can_be(
            chance,
            session,
            s,
            InputView::Client(ClientMessageView::Who),
        ) ==> {
            &&& chance.players.len() == s.conns.len()
            &&& forall|id: u128| #[trigger]
                s.conns.contains_key(id) ==> chance.players.contains(
                    PlayerEntryView { nick: s.conns[id].nickname, team: s.conns[id].team },
                )
        },
{
    if session.connected && can_be(
        chance,
        session,
        s,
        InputView::Client(ClientMessageView::Who),
    ) {
        state::lemma_who_list_complete(chance.players, s.conns);
    }
}

/// Every published event reaches a session that it is for, as it is, and no other; either way it
/// ends a run of lags and changes nothing else.
pub proof fn lemma_events_are_forwarded(
    session: SessionView,
    s: StateView,
    config: Config,
    event: BroadcastEventView,
    chance: Chance,
)
    ensures
        ({
            let o = outcome(session, s, config, InputView::Event(event), chance);
            &&& event.team_filter is None || event.team_filter == Some(session.team) ==> o.step
                == StepView::Forward(event.msg)
            &&& event.team_filter is Some && event.team_filter != Some(session.team)
                ==> o.step is Idle
            &&& o.session == SessionView { lag_count: 0, ..session }
            &&& o.state == s
        }),
{
}

/// A lag is counted; the one that reaches the limit ends the connection with an error.
pub proof fn lemma_lag_is_counted(
    session: SessionView,
    s: StateView,
    config: Config,
    chance: Chance,
)
    ensures
        ({
            let o = outcome(session, s, config, InputView::Lagged, chance);
            &&& o.state == s
            &&& session.lag_count + 1 < config.max_lag_disconnects ==> o.step is Idle && o.session
                == SessionView { lag_count: session.lag_count + 1, ..session }
            &&& session.lag_count + 1 >= config.max_lag_disconnects ==> o.step
                == StepView::ReplyAndLeave(
                ServerMessageView::Error { reason: "lag: too far behind"@ },
            ) && o.session == session
        }),
{
}

/// A stream that ends or fails, a close frame and a channel that is closed end the loop; so does a
/// shutdown, with a close frame. A heartbeat sends the pong of number zero. A frame without text is
/// passed over. None of this changes the session or the state.
pub proof fn lemma_other_inputs(
    session: SessionView,
    s: StateView,
    config: Config,
    input: InputView,
    chance: Chance,
)
    requires
        !(input is Client || input is Event || input is Lagged || input is Malformed),
    ensures
        ({
            let o = outcome(session, s, config, input, chance);
            &&& o.session == session
            &&& o.state == s
            &&& input is Ended || input is Failed || input is CloseFrame || input is ChannelClosed
                ==> o.step is Leave
            &&& input is OtherFrame ==> o.step is Idle
            &&& input is Heartbeat ==> o.step == StepView::Forward(
                ServerMessageView::Pong { seq: 0 },
            )
            &&& input is Shutdown ==> o.step is CloseAndLeave
        }),
{
}

/// A text that is no message is answered with an error and changes nothing; it ends the connection
/// of a client who is not connected yet, and of no other.
pub proof fn lemma_malformed(session: SessionView, s: StateView, config: Config, chance: Chance)
    ensures
        ({
            let o = outcome(session, s, config, InputView::Malformed, chance);
            let answer = ServerMessageView::Error { reason: "invalid message"@ };
            &&& o.session == session
            &&& o.state == s
            &&& session.connected ==> o.step == StepView::Reply(answer)
            &&& !session.connected ==> o.step == StepView::ReplyAndLeave(answer)
        }),
{
}

/// The cleanup of a connected session takes its registration away, and no other, and tells everyone
/// that this player left; that of one that is not connected does nothing.
pub proof fn lemma_cleanup(session: SessionView, s: StateView)
    ensures
        session.connected ==> finished_state(session, s) == (StateView {
            scrollback: s.scrollback,
            conns: s.conns.remove(session.session_id),
        }),
        session.connected ==> finished_event(session) == Some(
            BroadcastEventView {
                msg: ServerMessageView::JoinedLeft {
                    nickname: session.nickname,
                    team: session.team,
                    joined: false,
                },
                team_filter: None,
            },
        ),
        !session.connected ==> finished_state(session, s) == s,
        !session.connected ==> finished_event(session) is None,
{
}

/// The views of inputs and steps are of their kind, with what they hold as it is.
pub proof fn lemma_input_and_step_views(input: Input, step: Step)
    ensures
        input is Ended ==> input@ is Ended,
        input is Failed ==> input@ is Failed,
        input is CloseFrame ==> input@ is CloseFrame,
        input is OtherFrame ==> input@ is OtherFrame,
        input is Malformed ==> input@ is Malformed,
        input matches Input::Client(m) ==> input@ == InputView::Client(m@),
        input matches Input::Event(e) ==> input@ == InputView::Event(e@),
        input is Lagged ==> input@ is Lagged,
        input is ChannelClosed ==> input@ is ChannelClosed,
        input is Heartbeat ==> input@ is Heartbeat,
        input is Shutdown ==> input@ is Shutdown,
        step is Idle ==> step@ is Idle,
        step is Leave ==> step@ is Leave,
        step matches Step::Reply(m) ==> step@ == StepView::Reply(m@),
        step matches Step::ReplyAndLeave(m) ==> step@ == StepView::ReplyAndLeave(m@),
        step matches Step::Forward(m) ==> step@ == StepView::Forward(m@),
        step matches Step::Greet { welcome, joined } ==> step@ == (StepView::Greet {
            welcome: welcome@,
            joined: joined@,
        }),
        step matches Step::Publish(e) ==> step@ == StepView::Publish(e@),
        step is CloseAndLeave ==> step@ is CloseAndLeave,
{
}

/// The same of a message at a given time: it is let through whole or refused by its bytes and by the
/// balance after the time that has passed, whatever these are.
pub proof fn lemma_said_at_a_time(
    session: SessionView,
    s: StateView,
    config: Config,
    channel: Channel,
    text: Seq<char>,
    elapsed: nat,
    at: Instant,
    now: u64,
)
    ensures
        ({
            let o = said(session, s, config, channel, text, elapsed, at, now);
            let bytes = vstd::utf8::encode_utf8(text).len();
            let has_token = session.bucket.tokens + elapsed * session.bucket.rate >= 1_000_000_000
                && session.bucket.burst >= 1;
            &&& o.state.conns == s.conns
            &&& bytes > config.max_msg_bytes ==> o == Outcome {
                session,
                state: s,
                step: StepView::Reply(ServerMessageView::Error { reason: "message too long"@ }),
            }
            &&& bytes <= config.max_msg_bytes ==> o.session == SessionView {
                bucket: session.bucket.tried(elapsed, at),
                ..session
            }
            &&& bytes <= config.max_msg_bytes && !has_token ==> o.state == s && o.step
                == StepView::Reply(
                ServerMessageView::RateLimited {
                    reason: "retry after "@ + text::decimal(
                        rate_limit::retry_ms(session.bucket.rate),
                    ) + "ms"@,
                },
            )
            &&& bytes <= config.max_msg_bytes && has_token ==> {
                &&& o.step matches StepView::Publish(event)
                &&& event.team_filter == if channel == Channel::Team {
                    Some(session.team)
                } else {
                    None
                }
                &&& event.msg matches ServerMessageView::Message { data }
                &&& data.text == text
                &&& data.from == session.nickname
                &&& data.team == session.team
                &&& data.channel == channel
                &&& data.ts == now
                &&& o.state.scrollback == ring::ring_push(
                    s.scrollback,
                    data,
                    config.scrollback_size as nat,
                )
            }
        }),
{
}

/// The same of a `Connect` that gets a given team and given draws.
pub proof fn lemma_greeted_into_a_team(
    session: SessionView,
    s: StateView,
    config: Config,
    requested: Seq<char>,
    team: Team,
    draws: Seq<u32>,
)
    ensures
        ({
            let o = greeted(session, s, config, requested, team, draws);
            let nick = nickname::nick_for(requested, state::nicknames(s.conns), draws);
            &&& o.session == SessionView { connected: true, nickname: nick, team, ..session }
            &&& o.state == StateView {
                scrollback: s.scrollback,
                conns: s.conns.insert(
                    session.session_id,
                    state::ConnInfoView { session_id: session.session_id, nickname: nick, team },
                ),
            }
            &&& o.step == StepView::Greet {
                welcome: ServerMessageView::Welcome {
                    assigned_nick: nick,
                    assigned_team: team,
                    motd: config.motd@,
                    scrollback: state::visible_to(s.scrollback, team),
                },
                joined: BroadcastEventView {
                    msg: ServerMessageView::JoinedLeft { nickname: nick, team, joined: true },
                    team_filter: None,
                },
            }
        }),
{
}

/// What the steps taken one at a time say, a `Connect` with a given team and a message at a given
/// time, is what an input leads to.
pub proof fn lemma_steps_are_outcomes(
    session: SessionView,
    s: StateView,
    config: Config,
    text: Seq<char>,
    asked: Team,
    chance: Chance,
)
    ensures
        !session.connected ==> greeted(
            session,
            s,
            config,
            text,
            if chance.heads {
                Team::Red
            } else {
                Team::Blue
            },
            chance.draws,
        ) == outcome(
            session,
            s,
            config,
            InputView::Client(ClientMessageView::Connect { nickname: text, team: asked }),
            chance,
        ),
        session.connected ==> said(
            session,
            s,
            config,
            Channel::All,
            text,
            clock::nanos_from(session.bucket.last, chance.at) as nat,
            chance.at,
            chance.now,
        ) == outcome(
            session,
            s,
            config,
            InputView::Client(ClientMessageView::Say { text }),
            chance,
        ),
        session.connected ==> said(
            session,
            s,
            config,
            Channel::Team,
            text,
            clock::nanos_from(session.bucket.last, chance.at) as nat,
            chance.at,
            chance.now,
        ) == outcome(
            session,
            s,
            config,
            InputView::Client(ClientMessageView::SayTeam { text }),
            chance,
        ),
{
}

} // verus!
