//! The messages that client and server exchange.
//!
//! Each type has a view in which text is a sequence of characters; contracts speak of the views.
use vstd::prelude::*;

verus! {

// ── Supporting enums ──────────────────────────────────────────────────────────

/// Player team assignment.
#[derive(Debug, Clone, Copy, PartialEq, Eq, Structural)]
pub enum Team {
    /// No team yet, as before the handshake.
    NoTeam,
    Red,
    Blue,
}

/// Chat channel scope.
#[derive(Debug, Clone, Copy, PartialEq, Eq, Structural)]
pub enum Channel {
    All,
    Team,
}

// ── Supporting structs ────────────────────────────────────────────────────────

/// A single chat message as stored and transmitted.
#[derive(Debug, PartialEq)]
pub struct ChatMessage {
    pub from: String,
    pub team: Team,
    pub channel: Channel,
    pub text: String,
    /// Unix timestamp in milliseconds.
    pub ts: u64,
}

/// The view of a [`ChatMessage`].
#[verifier::ext_equal]
pub struct ChatMessageView {
    pub from: Seq<char>,
    pub team: Team,
    pub channel: Channel,
    pub text: Seq<char>,
    pub ts: u64,
}

impl View for ChatMessage {
    type V = ChatMessageView;

    open spec fn view(&self) -> ChatMessageView {
        ChatMessageView {
            from: self.from@,
            team: self.team,
            channel: self.channel,
            text: self.text@,
            ts: self.ts,
        }
    }
}

impl Clone for ChatMessage {
    fn clone(&self) -> (r: Self)
        ensures
            r == *self,
    {
        ChatMessage {
            from: self.from.clone(),
            team: self.team,
            channel: self.channel,
            text: self.text.clone(),
            ts: self.ts,
        }
    }
}

/// The views of a list of chat messages.
pub open spec fn messages_view(s: Seq<ChatMessage>) -> Seq<ChatMessageView> {
    Seq::new(s.len(), |i: int| s[i]@)
}

/// A single entry in the player list.
#[derive(Debug, PartialEq)]
pub struct PlayerEntry {
    pub nick: String,
    pub team: Team,
}

/// The view of a [`PlayerEntry`].
#[verifier::ext_equal]
pub struct PlayerEntryView {
    pub nick: Seq<char>,
    pub team: Team,
}

impl View for PlayerEntry {
    type V = PlayerEntryView;

    open spec fn view(&self) -> PlayerEntryView {
        PlayerEntryView { nick: self.nick@, team: self.team }
    }
}

impl Clone for PlayerEntry {
    fn clone(&self) -> (r: Self)
        ensures
            r == *self,
    {
        PlayerEntry { nick: self.nick.clone(), team: self.team }
    }
}

/// The views of a list of player entries.
pub open spec fn players_view(s: Seq<PlayerEntry>) -> Seq<PlayerEntryView> {
    Seq::new(s.len(), |i: int| s[i]@)
}

// ── Client to server ──────────────────────────────────────────────────────────

/// Messages sent by the game client over the WebSocket.
#[derive(Debug, PartialEq)]
pub enum ClientMessage {
    /// First message after the socket opens: associates nickname and team.
    Connect { nickname: String, team: Team },
    /// Global message.
    Say { text: String },
    /// Team-filtered message.
    SayTeam { text: String },
    /// Request the current player list; the server replies with `WhoList`.
    Who,
    /// Keep-alive and round-trip latency probe.
    Ping { seq: u32 },
}

/// The view of a [`ClientMessage`].
#[verifier::ext_equal]
pub enum ClientMessageView {
    Connect { nickname: Seq<char>, team: Team },
    Say { text: Seq<char> },
    SayTeam { text: Seq<char> },
    Who,
    Ping { seq: u32 },
}

impl View for ClientMessage {
    type V = ClientMessageView;

    open spec fn view(&self) -> ClientMessageView {
        match *self {
            ClientMessage::Connect { nickname, team } => ClientMessageView::Connect {
                nickname: nickname@,
                team,
            },
            ClientMessage::Say { text } => ClientMessageView::Say { text: text@ },
            ClientMessage::SayTeam { text } => ClientMessageView::SayTeam { text: text@ },
            ClientMessage::Who => ClientMessageView::Who,
            ClientMessage::Ping { seq } => ClientMessageView::Ping { seq },
        }
    }
}

impl Clone for ClientMessage {
    fn clone(&self) -> (r: Self)
        ensures
            r == *self,
    {
        match self {
            ClientMessage::Connect { nickname, team } => ClientMessage::Connect {
                nickname: nickname.clone(),
                team: *team,
            },
            ClientMessage::Say { text } => ClientMessage::Say { text: text.clone() },
            ClientMessage::SayTeam { text } => ClientMessage::SayTeam { text: text.clone() },
            ClientMessage::Who => ClientMessage::Who,
            ClientMessage::Ping { seq } => ClientMessage::Ping { seq: *seq },
        }
    }
}

// ── Server to client ──────────────────────────────────────────────────────────

/// Messages sent by the server to connected clients.
#[derive(Debug, PartialEq)]
pub enum ServerMessage {
    /// Sent immediately after the server accepts a `Connect`.
    Welcome {
        assigned_nick: String,
        assigned_team: Team,
        motd: String,
        scrollback: Vec<ChatMessage>,
    },
    /// A chat message broadcast to this client.
    Message { data: ChatMessage },
    /// A player joined or left.
    JoinedLeft { nickname: String, team: Team, joined: bool },
    /// Response to `ClientMessage::Who`.
    WhoList { players: Vec<PlayerEntry> },
    /// Client is sending too fast.
    RateLimited { reason: String },
    /// Reply to `ClientMessage::Ping`.
    Pong { seq: u32 },
    /// Protocol or policy error.
    Error { reason: String },
}

/// The view of a [`ServerMessage`].
#[verifier::ext_equal]
pub enum ServerMessageView {
    Welcome {
        assigned_nick: Seq<char>,
        assigned_team: Team,
        motd: Seq<char>,
        scrollback: Seq<ChatMessageView>,
    },
    Message { data: ChatMessageView },
    JoinedLeft { nickname: Seq<char>, team: Team, joined: bool },
    WhoList { players: Seq<PlayerEntryView> },
    RateLimited { reason: Seq<char> },
    Pong { seq: u32 },
    Error { reason: Seq<char> },
}

impl View for ServerMessage {
    type V = ServerMessageView;

    open spec fn view(&self) -> ServerMessageView {
        match *self {
            ServerMessage::Welcome { assigned_nick, assigned_team, motd, scrollback } =>
                ServerMessageView::Welcome {
                assigned_nick: assigned_nick@,
                assigned_team,
                motd: motd@,
                scrollback: messages_view(scrollback@),
            },
            ServerMessage::Message { data } => ServerMessageView::Message { data: data@ },
            ServerMessage::JoinedLeft { nickname, team, joined } => ServerMessageView::JoinedLeft {
                nickname: nickname@,
                team,
                joined,
            },
            ServerMessage::WhoList { players } => ServerMessageView::WhoList {
                players: players_view(players@),
            },
            ServerMessage::RateLimited { reason } => ServerMessageView::RateLimited {
                reason: reason@,
            },
            ServerMessage::Pong { seq } => ServerMessageView::Pong { seq },
            ServerMessage::Error { reason } => ServerMessageView::Error { reason: reason@ },
        }
    }
}

/// A copy of each message, in the same order.
pub fn clone_messages(v: &Vec<ChatMessage>) -> (r: Vec<ChatMessage>)
    ensures
        r@ == v@,
{
    let r = v.clone();
    assert(r@ =~= v@);
    r
}

/// A copy of each entry, in the same order.
pub fn clone_players(v: &Vec<PlayerEntry>) -> (r: Vec<PlayerEntry>)
    ensures
        r@ == v@,
{
    let r = v.clone();
    assert(r@ =~= v@);
    r
}

impl Clone for ServerMessage {
    fn clone(&self) -> (r: Self)
        ensures
            r@ == self@,
    {
        match self {
            ServerMessage::Welcome { assigned_nick, assigned_team, motd, scrollback } =>
                ServerMessage::Welcome {
                assigned_nick: assigned_nick.clone(),
                assigned_team: *assigned_team,
                motd: motd.clone(),
                scrollback: clone_messages(scrollback),
            },
            ServerMessage::Message { data } => ServerMessage::Message { data: data.clone() },
            ServerMessage::JoinedLeft { nickname, team, joined } => ServerMessage::JoinedLeft {
                nickname: nickname.clone(),
                team: *team,
                joined: *joined,
            },
            ServerMessage::WhoList { players } => ServerMessage::WhoList {
                players: clone_players(players),
            },
            ServerMessage::RateLimited { reason } => ServerMessage::RateLimited {
                reason: reason.clone(),
            },
            ServerMessage::Pong { seq } => ServerMessage::Pong { seq: *seq },
            ServerMessage::Error { reason } => ServerMessage::Error { reason: reason.clone() },
        }
    }
}

// ── What the views show ───────────────────────────────────────────────────────

/// The view of a chat message or a player entry is its fields, each as it is.
pub proof fn lemma_record_views(m: ChatMessage, p: PlayerEntry)
    ensures
        m@.from == m.from@,
        m@.team == m.team,
        m@.channel == m.channel,
        m@.text == m.text@,
        m@.ts == m.ts,
        p@.nick == p.nick@,
        p@.team == p.team,
{
}

/// The view of a list is the list of the views, in the same order.
pub proof fn lemma_list_views(messages: Seq<ChatMessage>, players: Seq<PlayerEntry>)
    ensures
        messages_view(messages).len() == messages.len(),
        forall|i: int|
            0 <= i < messages.len() ==> #[trigger] messages_view(messages)[i] == messages[i]@,
        players_view(players).len() == players.len(),
        forall|i: int| 0 <= i < players.len() ==> #[trigger] players_view(players)[i] == players[i]@,
{
}

/// The view of a client message is of its kind, with its fields as they are.
pub proof fn lemma_client_message_view(m: ClientMessage)
    ensures
        m matches ClientMessage::Connect { nickname, team } ==> m@ == (ClientMessageView::Connect {
            nickname: nickname@,
            team,
        }),
        m matches ClientMessage::Say { text } ==> m@ == (ClientMessageView::Say { text: text@ }),
        m matches ClientMessage::SayTeam { text } ==> m@ == (ClientMessageView::SayTeam {
            text: text@,
        }),
        m is Who ==> m@ is Who,
        m matches ClientMessage::Ping { seq } ==> m@ == (ClientMessageView::Ping { seq }),
{
}

/// The view of a server message is of its kind, with its fields as they are.
pub proof fn lemma_server_message_view(m: ServerMessage)
    ensures
        m matches ServerMessage::Welcome { assigned_nick, assigned_team, motd, scrollback } ==> m@
            == (ServerMessageView::Welcome {
            assigned_nick: assigned_nick@,
            assigned_team,
            motd: motd@,
            scrollback: messages_view(scrollback@),
        }),
        m matches ServerMessage::Message { data } ==> m@ == (ServerMessageView::Message {
            data: data@,
        }),
        m matches ServerMessage::JoinedLeft { nickname, team, joined } ==> m@ == (
        ServerMessageView::JoinedLeft { nickname: nickname@, team, joined }),
        m matches ServerMessage::WhoList { players } ==> m@ == (ServerMessageView::WhoList {
            players: players_view(players@),
        }),
        m matches ServerMessage::RateLimited { reason } ==> m@ == (ServerMessageView::RateLimited {
            reason: reason@,
        }),
        m matches ServerMessage::Pong { seq } ==> m@ == (ServerMessageView::Pong { seq }),
        m matches ServerMessage::Error { reason } ==> m@ == (ServerMessageView::Error {
            reason: reason@,
        }),
{
}

} // verus!
