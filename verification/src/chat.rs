//! The chat HUD's state: histories, input box and connection status.
use std::collections::VecDeque;
use std::sync::mpsc::Receiver;
use vstd::prelude::*;
use vstd::string::*;

use crate::network::types::{
    events_view, NetworkCommand, NetworkCommandView, NetworkEvent, NetworkEventView,
};
use crate::protocol::{
    messages_view, players_view, Channel, ChatMessage, ChatMessageView, PlayerEntry,
    PlayerEntryView, Team,
};
use crate::ring;
use crate::text;

verus! {

/// Maximum number of chat messages kept in the ring buffer.
pub const CHAT_HISTORY_LEN: usize = 200;

/// Maximum number of system messages kept.
pub const SYSTEM_HISTORY_LEN: usize = 50;

/// Maximum number of network events applied per frame.
pub const DRAIN_CAP: usize = 32;

// ── Connection status ─────────────────────────────────────────────────────────

/// Connection health visible to the HUD.
#[derive(Debug, Clone, Copy, PartialEq, Eq, Structural)]
pub enum ConnectionStatus {
    /// Not connected yet.
    Disconnected,
    /// Connecting for the first time, or again after a drop.
    Connecting,
    /// Handshake accepted; session live.
    Connected,
    /// Waiting before the next attempt.
    Reconnecting { attempt: u32, delay_ms: u64 },
}

// ── Chat state ────────────────────────────────────────────────────────────────

/// All mutable state of the chat HUD.
pub struct ChatState {
    /// Received chat messages, newest at the back.
    pub messages: VecDeque<ChatMessage>,
    /// System and server messages: joins, leaves, player lists, message of the day.
    pub system_messages: VecDeque<String>,
    /// Current text in the input box.
    pub input_buffer: String,
    /// Whether the input box is visible and takes keystrokes.
    pub chat_active: bool,
    /// Channel for the next outbound message.
    pub channel: Channel,
    /// Server-assigned nickname.
    pub nickname: Option<String>,
    /// Server-assigned team.
    pub team: Option<Team>,
    /// Current connection health.
    pub connection_status: ConnectionStatus,
}

/// The view of a [`ChatState`].
#[verifier::ext_equal]
pub struct ChatView {
    pub messages: Seq<ChatMessageView>,
    pub system: Seq<Seq<char>>,
    pub input: Seq<char>,
    pub active: bool,
    pub channel: Channel,
    pub nickname: Option<Seq<char>>,
    pub team: Option<Team>,
    pub status: ConnectionStatus,
}

/// The views of a list of strings.
pub open spec fn texts_view(s: Seq<String>) -> Seq<Seq<char>> {
    Seq::new(s.len(), |i: int| s[i]@)
}

impl View for ChatState {
    type V = ChatView;

    open spec fn view(&self) -> ChatView {
        ChatView {
            messages: messages_view(self.messages@),
            system: texts_view(self.system_messages@),
            input: self.input_buffer@,
            active: self.chat_active,
            channel: self.channel,
            nickname: text::text_view(self.nickname),
            team: self.team,
            status: self.connection_status,
        }
    }
}

impl ChatView {
    /// The histories are within their bounds.
    pub open spec fn bounded(self) -> bool {
        &&& self.messages.len() <= CHAT_HISTORY_LEN
        &&& self.system.len() <= SYSTEM_HISTORY_LEN
    }

    /// The state at the start.
    pub open spec fn initial() -> ChatView {
        ChatView {
            messages: Seq::empty(),
            system: Seq::empty(),
            input: Seq::empty(),
            active: false,
            channel: Channel::All,
            nickname: None,
            team: None,
            status: ConnectionStatus::Disconnected,
        }
    }

    /// With one more chat message.
    pub open spec fn with_message(self, msg: ChatMessageView) -> ChatView {
        ChatView {
            messages: ring::ring_push(self.messages, msg, CHAT_HISTORY_LEN as nat),
            ..self
        }
    }

    /// With one more system message.
    pub open spec fn with_system(self, text: Seq<char>) -> ChatView {
        ChatView {
            system: ring::ring_push(self.system, text, SYSTEM_HISTORY_LEN as nat),
            ..self
        }
    }
}

impl ChatState {
    /// A new state: nothing received, nothing typed, not connected.
    pub fn new() -> (s: Self)
        ensures
            s@ == ChatView::initial(),
    {
        let s = ChatState {
            messages: VecDeque::with_capacity(CHAT_HISTORY_LEN),
            system_messages: VecDeque::with_capacity(SYSTEM_HISTORY_LEN),
            input_buffer: String::new(),
            chat_active: false,
            channel: Channel::All,
            nickname: None,
            team: None,
            connection_status: ConnectionStatus::Disconnected,
        };
        assert(s@ =~= ChatView::initial());
        s
    }

    /// Opens the input box for the given channel, with no text in it.
    pub fn open_input(&mut self, channel: Channel)
        ensures
            final(self)@ == (ChatView { channel, input: Seq::empty(), active: true, ..old(self)@ }),
    {
        self.channel = channel;
        self.input_buffer = String::new();
        self.chat_active = true;
    }

    /// Closes the input box without sending.
    pub fn close_input(&mut self)
        ensures
            final(self)@ == (ChatView { input: Seq::empty(), active: false, ..old(self)@ }),
    {
        self.chat_active = false;
        self.input_buffer = String::new();
    }

    /// Pushes a chat message, evicting the oldest if the history is full.
    pub fn push_message(&mut self, msg: ChatMessage)
        ensures
            final(self)@ == old(self)@.with_message(msg@),
    {
        ring::push_capped(&mut self.messages, msg, CHAT_HISTORY_LEN);
        assert(self@ =~= old(self)@.with_message(msg@));
    }

    /// Pushes a system message, evicting the oldest if the history is full.
    pub fn push_system(&mut self, text: String)
        ensures
            final(self)@ == old(self)@.with_system(text@),
    {
        ring::push_capped(&mut self.system_messages, text, SYSTEM_HISTORY_LEN);
        assert(self@ =~= old(self)@.with_system(text@));
    }
}

impl Default for ChatState {
    fn default() -> (s: Self)
        ensures
            s@ == ChatView::initial(),
    {
        ChatState::new()
    }
}

// ── System messages ───────────────────────────────────────────────────────────

/// Short name of a team in system messages.
pub open spec fn label_of(team: Team) -> Seq<char> {
    match team {
        Team::Red => "red"@,
        Team::Blue => "blue"@,
        Team::NoTeam => "spectator"@,
    }
}

/// Short name of a team in system messages.
pub fn team_label(team: Team) -> (r: &'static str)
    ensures
        r@ == label_of(team),
{
    match team {
        Team::Red => "red",
        Team::Blue => "blue",
        Team::NoTeam => "spectator",
    }
}

/// `nick (team)`.
pub open spec fn player_text(nick: Seq<char>, team: Team) -> Seq<char> {
    nick + " ("@ + label_of(team) + ")"@
}

/// The players, separated by commas.
pub open spec fn players_text(players: Seq<PlayerEntryView>) -> Seq<char>
    decreases players.len(),
{
    if players.len() == 0 {
        Seq::empty()
    } else if players.len() == 1 {
        player_text(players[0].nick, players[0].team)
    } else {
        players_text(players.drop_last()) + ", "@ + player_text(
            players.last().nick,
            players.last().team,
        )
    }
}

/// The message of the day, as a system message.
pub open spec fn motd_text(motd: Seq<char>) -> Seq<char> {
    "[server] "@ + motd
}

/// The system message on a player who joined or left.
pub open spec fn presence_text(nick: Seq<char>, team: Team, joined: bool) -> Seq<char> {
    "[server] "@ + player_text(nick, team) + if joined {
        " joined"@
    } else {
        " left"@
    }
}

/// The system message that lists the players.
pub open spec fn who_text(players: Seq<PlayerEntryView>) -> Seq<char> {
    "[server] "@ + text::decimal(players.len()) + if players.len() == 1 {
        " player: "@
    } else {
        " players: "@
    } + players_text(players)
}

fn push_player(s: &mut String, nick: &String, team: Team)
    ensures
        final(s)@ == old(s)@ + player_text(nick@, team),
{
    s.append(nick.as_str());
    s.append(" (");
    s.append(team_label(team));
    s.append(")");
    assert(s@ =~= old(s)@ + player_text(nick@, team));
}

fn presence_line(nick: &String, team: Team, joined: bool) -> (s: String)
    ensures
        s@ == presence_text(nick@, team, joined),
{
    let mut s = "[server] ".to_owned();
    push_player(&mut s, nick, team);
    s.append(
        if joined {
            " joined"
        } else {
            " left"
        },
    );
    s
}

fn who_line(players: &Vec<PlayerEntry>) -> (s: String)
    ensures
        s@ == who_text(players_view(players@)),
{
    let mut s = "[server] ".to_owned();
    text::push_decimal(&mut s, players.len() as u64);
    s.append(
        if players.len() == 1 {
            " player: "
        } else {
            " players: "
        },
    );
    let ghost head = s@;
    let ghost all = players_view(players@);
    let mut i: usize = 0;
    assert(s@ =~= head + players_text(all.take(0)));
    while i < players.len()
        invariant
            i <= players@.len(),
            all == players_view(players@),
            s@ == head + players_text(all.take(i as int)),
        decreases players@.len() - i,
    {
        let ghost before = s@;
        let ghost next = all.take(i + 1);
        assert(next.drop_last() =~= all.take(i as int));
        if i > 0 {
            s.append(", ");
        }
        push_player(&mut s, &players[i].nick, players[i].team);
        assert(next.last() == players@[i as int]@);
        assert(s@ =~= head + players_text(next));
        i += 1;
    }
    assert(all.take(i as int) =~= all);
    s
}

// ── Network events ────────────────────────────────────────────────────────────

/// The state after an event.
pub open spec fn applied(c: ChatView, event: NetworkEventView) -> ChatView {
    match event {
        NetworkEventView::Connected { assigned_nick, assigned_team, motd, scrollback } => {
            let told = ChatView {
                nickname: Some(assigned_nick),
                team: Some(assigned_team),
                status: ConnectionStatus::Connected,
                ..c.with_system(motd_text(motd))
            };
            ChatView {
                messages: ring::ring_push_all(c.messages, scrollback, CHAT_HISTORY_LEN as nat),
                ..told
            }
        },
        NetworkEventView::Message(msg) => c.with_message(msg),
        NetworkEventView::JoinedLeft { nickname, team, joined } => c.with_system(
            presence_text(nickname, team, joined),
        ),
        NetworkEventView::WhoList(players) => c.with_system(who_text(players)),
        NetworkEventView::Reconnecting { attempt, delay_ms } => ChatView {
            status: ConnectionStatus::Reconnecting { attempt, delay_ms },
            ..c
        },
        NetworkEventView::Disconnected => ChatView { status: ConnectionStatus::Connecting, ..c },
    }
}

/// The state after a run of events.
pub open spec fn applied_all(c: ChatView, events: Seq<NetworkEventView>) -> ChatView
    decreases events.len(),
{
    if events.len() == 0 {
        c
    } else {
        applied(applied_all(c, events.drop_last()), events.last())
    }
}

/// Applies a single event.
pub fn apply_event(event: &NetworkEvent, state: &mut ChatState)
    ensures
        final(state)@ == applied(old(state)@, event@),
{
    match event {
        NetworkEvent::Connected { assigned_nick, assigned_team, motd, scrollback } => {
            state.nickname = Some(assigned_nick.clone());
            state.team = Some(*assigned_team);
            state.connection_status = ConnectionStatus::Connected;
            let mut line = "[server] ".to_owned();
            line.append(motd.as_str());
            state.push_system(line);
            let ghost told = state@;
            let ghost all = messages_view(scrollback@);
            let mut i: usize = 0;
            assert(all.take(0) =~= Seq::empty());
            while i < scrollback.len()
                invariant
                    i <= scrollback@.len(),
                    all == messages_view(scrollback@),
                    state@ == (ChatView {
                        messages: ring::ring_push_all(
                            told.messages,
                            all.take(i as int),
                            CHAT_HISTORY_LEN as nat,
                        ),
                        ..told
                    }),
                decreases scrollback@.len() - i,
            {
                assert(all.take(i + 1).drop_last() =~= all.take(i as int));
                state.push_message(scrollback[i].clone());
                i += 1;
            }
            assert(all.take(i as int) =~= all);
        },
        NetworkEvent::Message(msg) => {
            state.push_message(msg.clone());
        },
        NetworkEvent::JoinedLeft { nickname, team, joined } => {
            state.push_system(presence_line(nickname, *team, *joined));
        },
        NetworkEvent::WhoList(players) => {
            state.push_system(who_line(players));
        },
        NetworkEvent::Reconnecting { attempt, delay_ms } => {
            state.connection_status = ConnectionStatus::Reconnecting {
                attempt: *attempt,
                delay_ms: *delay_ms,
            };
        },
        NetworkEvent::Disconnected => {
            state.connection_status = ConnectionStatus::Connecting;
        },
    }
}

/// `Receiver::try_recv`: the next event, if one is waiting and its sender is still there or left
/// it behind.
#[verifier::external_body]
fn try_recv(rx: &Receiver<NetworkEvent>) -> (event: Option<NetworkEvent>) {
    rx.try_recv().ok()
}

/// Takes in one result of polling for an event: applies the event and adds it to those consumed.
/// Returns whether to poll again: not if there was no event, nor once the frame's share is used up.
pub fn drain_step(
    polled: Option<NetworkEvent>,
    state: &mut ChatState,
    consumed: &mut Vec<NetworkEvent>,
) -> (again: bool)
    ensures
        match polled {
            Some(event) => {
                &&& final(state)@ == applied(old(state)@, event@)
                &&& final(consumed)@ == old(consumed)@.push(event)
                &&& again == (final(consumed)@.len() < DRAIN_CAP)
            },
            None => {
                &&& final(state)@ == old(state)@
                &&& final(consumed)@ == old(consumed)@
                &&& !again
            },
        },
{
    match polled {
        Some(event) => {
            apply_event(&event, state);
            consumed.push(event);
            consumed.len() < DRAIN_CAP
        },
        None => false,
    }
}

/// How many events of a queue of this length a frame takes.
pub open spec fn frame_share(waiting: nat) -> int {
    if waiting < DRAIN_CAP {
        waiting as int
    } else {
        DRAIN_CAP as int
    }
}

/// Drains at most [`DRAIN_CAP`] events from the front of a queue and applies them, in order. Returns
/// them and leaves the rest for the next frame.
pub fn drain_queue(queue: &mut VecDeque<NetworkEvent>, state: &mut ChatState) -> (consumed: Vec<
    NetworkEvent,
>)
    ensures
        consumed@ == old(queue)@.take(frame_share(old(queue)@.len())),
        final(queue)@ == old(queue)@.skip(frame_share(old(queue)@.len())),
        final(state)@ == applied_all(old(state)@, events_view(consumed@)),
{
    let mut consumed: Vec<NetworkEvent> = Vec::new();
    let mut again: bool = true;
    assert(events_view(consumed@) =~= Seq::empty());
    while again
        invariant
            consumed@.len() <= DRAIN_CAP,
            consumed@.len() <= old(queue)@.len(),
            consumed@ == old(queue)@.take(consumed@.len() as int),
            queue@ == old(queue)@.skip(consumed@.len() as int),
            state@ == applied_all(old(state)@, events_view(consumed@)),
            again ==> consumed@.len() < DRAIN_CAP,
            !again ==> consumed@.len() == frame_share(old(queue)@.len()),
        decreases DRAIN_CAP - consumed@.len() + if again {
            1int
        } else {
            0int
        },
    {
        let ghost before = consumed@;
        again = drain_step(queue.pop_front(), state, &mut consumed);
        assert(consumed@.len() > before.len() ==> events_view(consumed@).drop_last()
            =~= events_view(before));
    }
    consumed
}

/// Drains at most [`DRAIN_CAP`] events from `rx` and applies them, in order. Returns them.
pub fn drain_network(rx: &Receiver<NetworkEvent>, state: &mut ChatState) -> (consumed: Vec<
    NetworkEvent,
>)
    ensures
        consumed@.len() <= DRAIN_CAP,
        final(state)@ == applied_all(old(state)@, events_view(consumed@)),
{
    let mut consumed: Vec<NetworkEvent> = Vec::new();
    let mut again: bool = true;
    assert(events_view(consumed@) =~= Seq::empty());
    while again
        invariant
            again ==> consumed@.len() < DRAIN_CAP,
            consumed@.len() <= DRAIN_CAP,
            state@ == applied_all(old(state)@, events_view(consumed@)),
        decreases DRAIN_CAP - consumed@.len() + if again {
            1int
        } else {
            0int
        },
    {
        let ghost before = consumed@;
        again = drain_step(try_recv(rx), state, &mut consumed);
        assert(consumed@.len() > before.len() ==> events_view(consumed@).drop_last()
            =~= events_view(before));
    }
    consumed
}

// ── Input ─────────────────────────────────────────────────────────────────────

/// The command that an entered text stands for.
pub open spec fn command_for(input: Seq<char>, channel: Channel) -> Option<NetworkCommandView> {
    let entered = text::trimmed(input);
    if entered.len() == 0 {
        None
    } else if text::begins_with_lowered(entered, "/who"@) {
        Some(NetworkCommandView::Who)
    } else {
        match channel {
            Channel::All => Some(NetworkCommandView::Say(entered)),
            Channel::Team => Some(NetworkCommandView::SayTeam(entered)),
        }
    }
}

/// Takes the text from the input box, closes the box, and returns the command it stands for.
///
/// `/who`, in any case and with anything after it, asks for the player list; other text is said on
/// the selected channel; no text is no command.
pub fn submit(state: &mut ChatState) -> (command: Option<NetworkCommand>)
    ensures
        final(state)@ == (ChatView { input: Seq::empty(), active: false, ..old(state)@ }),
        match command {
            Some(c) => command_for(old(state)@.input, old(state)@.channel) == Some(c@),
            None => command_for(old(state)@.input, old(state)@.channel) is None,
        },
{
    let entered = text::trim(state.input_buffer.as_str());
    state.input_buffer = String::new();
    state.chat_active = false;
    if entered.as_str().is_empty() {
        return None;
    }
    if text::starts_with_lowered(entered.as_str(), "/who") {
        return Some(NetworkCommand::Who);
    }
    Some(
        match state.channel {
            Channel::All => NetworkCommand::Say(entered),
            Channel::Team => NetworkCommand::SayTeam(entered),
        },
    )
}

// ── What the chat guarantees ──────────────────────────────────────────────────

/// The histories stay within their bounds, whatever events arrive.
pub proof fn lemma_histories_bounded(c: ChatView, events: Seq<NetworkEventView>)
    requires
        c.bounded(),
    ensures
        applied_all(c, events).bounded(),
    decreases events.len(),
{
    if events.len() > 0 {
        let before = applied_all(c, events.drop_last());
        lemma_histories_bounded(c, events.drop_last());
        if let NetworkEventView::Connected { scrollback, .. } = events.last() {
            ring::lemma_ring_keeps_latest(before.messages, scrollback, CHAT_HISTORY_LEN as nat);
        }
    }
}

/// Nothing waiting is lost, repeated or moved by draining frame by frame: what a frame takes and what
/// it leaves are the queue, and a frame takes all that is waiting if it can.
pub proof fn lemma_frame_splits_queue(queue: Seq<NetworkEvent>)
    ensures
        queue.take(frame_share(queue.len())) + queue.skip(frame_share(queue.len())) == queue,
        queue.skip(frame_share(queue.len())).len() == 0 <==> queue.len() <= DRAIN_CAP,
{
    assert(queue.take(frame_share(queue.len())) + queue.skip(frame_share(queue.len())) =~= queue);
}

/// Draining in two frames is the same as draining in one: the events of the first, then those of
/// the second.
pub proof fn lemma_drain_in_frames(
    c: ChatView,
    first: Seq<NetworkEventView>,
    second: Seq<NetworkEventView>,
)
    ensures
        applied_all(applied_all(c, first), second) == applied_all(c, first + second),
    decreases second.len(),
{
    if second.len() == 0 {
        assert(first + second =~= first);
    } else {
        lemma_drain_in_frames(c, first, second.drop_last());
        assert((first + second).drop_last() =~= first + second.drop_last());
    }
}

/// On a welcome the player gets the assigned identity, the message of the day is the newest system
/// message, and a history that has room for it ends in the server's scrollback, oldest first.
pub proof fn lemma_welcome_populates(
    c: ChatView,
    nick: Seq<char>,
    team: Team,
    motd: Seq<char>,
    scrollback: Seq<ChatMessageView>,
)
    requires
        c.bounded(),
    ensures
        ({
            let after = applied(
                c,
                NetworkEventView::Connected {
                    assigned_nick: nick,
                    assigned_team: team,
                    motd,
                    scrollback,
                },
            );
            &&& after.nickname == Some(nick)
            &&& after.team == Some(team)
            &&& after.status == ConnectionStatus::Connected
            &&& after.system.last() == motd_text(motd)
            &&& after.messages == ring::last_of(
                c.messages + scrollback,
                CHAT_HISTORY_LEN as nat,
            )
            &&& scrollback.len() <= CHAT_HISTORY_LEN ==> scrollback.is_suffix_of(after.messages)
        }),
{
    ring::lemma_ring_keeps_latest(c.messages, scrollback, CHAT_HISTORY_LEN as nat);
    let after = ring::last_of(c.messages + scrollback, CHAT_HISTORY_LEN as nat);
    if scrollback.len() <= CHAT_HISTORY_LEN {
        assert(scrollback =~= after.subrange(
            after.len() - scrollback.len(),
            after.len() as int,
        ));
    }
}

/// What is typed is never lost to its case or its margins: white space around the text, and ASCII
/// capitals in `/who`, do not change the command.
pub proof fn lemma_command_ignores_margins(input: Seq<char>, channel: Channel)
    ensures
        command_for(text::trimmed(input), channel) == command_for(input, channel),
        text::begins_with_lowered(text::trimmed(input), "/who"@) ==> command_for(input, channel)
            == Some(NetworkCommandView::Who),
{
    text::lemma_trimmed_twice(input);
    reveal_strlit("/who");
}

/// The view of the state is its fields, the histories in order; the state at the start is empty.
pub proof fn lemma_chat_view(c: ChatState)
    ensures
        c@.messages.len() == c.messages@.len(),
        forall|i: int|
            0 <= i < c.messages@.len() ==> #[trigger] c@.messages[i] == c.messages@[i]@,
        c@.system.len() == c.system_messages@.len(),
        forall|i: int|
            0 <= i < c.system_messages@.len() ==> #[trigger] c@.system[i] == c.system_messages@[i]@,
        c@.input == c.input_buffer@,
        c@.active == c.chat_active,
        c@.channel == c.channel,
        c@.nickname == text::text_view(c.nickname),
        c@.team == c.team,
        c@.status == c.connection_status,
        ChatView::initial().messages.len() == 0,
        ChatView::initial().system.len() == 0,
        ChatView::initial().input.len() == 0,
        !ChatView::initial().active,
        ChatView::initial().channel == Channel::All,
        ChatView::initial().nickname is None,
        ChatView::initial().team is None,
        ChatView::initial().status == ConnectionStatus::Disconnected,
{
}

/// Every chat message that arrives, to whomever it was said, is the newest of the history, after the
/// latest of what was there, and changes nothing else.
pub proof fn lemma_message_is_kept(c: ChatView, msg: ChatMessageView)
    ensures
        ({
            let after = applied(c, NetworkEventView::Message(msg));
            &&& after.messages.last() == msg
            &&& after.messages == ring::ring_push(c.messages, msg, 200)
            &&& c.messages.len() <= 200 ==> after.messages == ring::last_of(
                c.messages.push(msg),
                200,
            )
            &&& after == ChatView { messages: after.messages, ..c }
            &&& after == c.with_message(msg)
        }),
{
    if c.messages.len() <= 200 {
        assert(applied(c, NetworkEventView::Message(msg)).messages =~= ring::last_of(
            c.messages.push(msg),
            200,
        ));
    }
}

/// A system message is the newest of the system history, after the latest of what was there, and
/// changes nothing else.
pub proof fn lemma_system_message_is_kept(c: ChatView, text: Seq<char>)
    ensures
        c.with_system(text).system.last() == text,
        c.with_system(text).system == ring::ring_push(c.system, text, 50),
        c.system.len() <= 50 ==> c.with_system(text).system == ring::last_of(
            c.system.push(text),
            50,
        ),
        c.with_system(text) == (ChatView { system: c.with_system(text).system, ..c }),
{
    if c.system.len() <= 50 {
        assert(c.with_system(text).system =~= ring::last_of(c.system.push(text), 50));
    }
}

/// Who joins or leaves is told by name, team and what happened; a player list is told by its length
/// and its players. Nothing else changes.
pub proof fn lemma_presence_is_told(
    c: ChatView,
    nick: Seq<char>,
    team: Team,
    joined: bool,
    players: Seq<PlayerEntryView>,
)
    ensures
        applied(c, NetworkEventView::JoinedLeft { nickname: nick, team, joined }) == c.with_system(
            "[server] "@ + (nick + " ("@ + (match team {
                Team::Red => "red"@,
                Team::Blue => "blue"@,
                Team::NoTeam => "spectator"@,
            }) + ")"@) + (if joined {
                " joined"@
            } else {
                " left"@
            }),
        ),
        applied(c, NetworkEventView::WhoList(players)) == c.with_system(
            "[server] "@ + text::decimal(players.len()) + (if players.len() == 1 {
                " player: "@
            } else {
                " players: "@
            }) + players_text(players),
        ),
{
}

/// Players are listed by name and team, in order, with a comma and a space between one and the next.
pub proof fn lemma_players_text(players: Seq<PlayerEntryView>, p: PlayerEntryView)
    ensures
        players_text(Seq::empty()).len() == 0,
        ({
            let entry = p.nick + " ("@ + (match p.team {
                Team::Red => "red"@,
                Team::Blue => "blue"@,
                Team::NoTeam => "spectator"@,
            }) + ")"@;
            &&& players.len() == 0 ==> players_text(players.push(p)) == entry
            &&& players.len() > 0 ==> players_text(players.push(p)) == players_text(players)
                + ", "@ + entry
        }),
{
    assert(players.push(p).drop_last() =~= players);
}

/// A welcome changes who the player is, the status and the histories, and nothing else: the message
/// of the day is told, and the scrollback follows what is there.
pub proof fn lemma_welcome_is_applied(
    c: ChatView,
    nick: Seq<char>,
    team: Team,
    motd: Seq<char>,
    scrollback: Seq<ChatMessageView>,
)
    ensures
        applied(
            c,
            NetworkEventView::Connected {
                assigned_nick: nick,
                assigned_team: team,
                motd,
                scrollback,
            },
        ) == (ChatView {
            nickname: Some(nick),
            team: Some(team),
            status: ConnectionStatus::Connected,
            system: c.with_system("[server] "@ + motd).system,
            messages: ring::ring_push_all(c.messages, scrollback, 200),
            ..c
        }),
{
}

/// Losing the connection, and waiting for the next attempt, change the status and nothing else.
pub proof fn lemma_status_is_shown(c: ChatView, attempt: u32, delay_ms: u64)
    ensures
        applied(c, NetworkEventView::Reconnecting { attempt, delay_ms }) == (ChatView {
            status: ConnectionStatus::Reconnecting { attempt, delay_ms },
            ..c
        }),
        applied(c, NetworkEventView::Disconnected) == (ChatView {
            status: ConnectionStatus::Connecting,
            ..c
        }),
{
}

/// Events are applied one after the other, each to what those before it left.
pub proof fn lemma_applied_one_more(
    c: ChatView,
    events: Seq<NetworkEventView>,
    event: NetworkEventView,
)
    ensures
        applied_all(c, Seq::empty()) == c,
        applied_all(c, events.push(event)) == applied(applied_all(c, events), event),
{
    assert(events.push(event).drop_last() =~= events);
}

/// A frame takes all that waits, up to 32.
pub proof fn lemma_frame_share(waiting: nat)
    ensures
        waiting <= 32 ==> frame_share(waiting) == waiting,
        waiting >= 32 ==> frame_share(waiting) == 32,
{
}

/// What is typed is said whole, without its margins, on the channel that is selected; only a text
/// that begins with `/who`, in capitals or not, asks for the player list, and only one with nothing
/// in it is no command.
pub proof fn lemma_typed_is_said(input: Seq<char>, channel: Channel)
    ensures
        ({
            let entered = text::trimmed(input);
            let asks = entered.len() >= 4 && entered[0] == '/' && (entered[1] == 'w' || entered[1]
                == 'W') && (entered[2] == 'h' || entered[2] == 'H') && (entered[3] == 'o'
                || entered[3] == 'O');
            &&& command_for(input, channel) is None <==> entered.len() == 0
            &&& command_for(input, channel) == Some(NetworkCommandView::Who) <==> asks
            &&& entered.len() > 0 && !asks && channel == Channel::All ==> command_for(
                input,
                channel,
            ) == Some(NetworkCommandView::Say(entered))
            &&& entered.len() > 0 && !asks && channel == Channel::Team ==> command_for(
                input,
                channel,
            ) == Some(NetworkCommandView::SayTeam(entered))
        }),
{
    let entered = text::trimmed(input);
    let who = "/who"@;
    reveal_strlit("/who");
    text::lemma_lowered(entered, who);
    if entered.len() >= 4 {
        text::lemma_ascii_lower(entered[0]);
        text::lemma_ascii_lower(entered[1]);
        text::lemma_ascii_lower(entered[2]);
        text::lemma_ascii_lower(entered[3]);
        assert(who[0] == '/' && who[1] == 'w' && who[2] == 'h' && who[3] == 'o');
    }
}

/// Short names of the teams.
pub proof fn lemma_team_labels()
    ensures
        label_of(Team::Red) == "red"@,
        label_of(Team::Blue) == "blue"@,
        label_of(Team::NoTeam) == "spectator"@,
{
}

} // verus!
