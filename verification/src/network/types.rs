//! What the network loop and the game's main loop tell each other.
use std::sync::mpsc::{Receiver, Sender};
use vstd::prelude::*;

use crate::protocol::{
    clone_messages, clone_players, messages_view, players_view, ChatMessage, ChatMessageView,
    PlayerEntry, PlayerEntryView, Team,
};

verus! {

/// `std::sync::mpsc::Sender`, opaque: the sending half of a channel.
#[verifier::external_type_specification]
#[verifier::external_body]
#[verifier::reject_recursive_types(T)]
pub struct ExSender<T>(Sender<T>);

/// `std::sync::mpsc::Receiver`, opaque: the receiving half of a channel.
#[verifier::external_type_specification]
#[verifier::external_body]
#[verifier::reject_recursive_types(T)]
pub struct ExReceiver<T>(Receiver<T>);

// ── App event ─────────────────────────────────────────────────────────────────

/// Event that wakes the game's main loop.
#[derive(Debug, Clone, Copy, PartialEq, Eq, Structural)]
pub enum AppEvent {
    /// At least one [`NetworkEvent`] is ready.
    ChatWakeup,
}

// ── Network events ────────────────────────────────────────────────────────────

/// Events from the network loop to the main loop.
#[derive(Debug)]
pub enum NetworkEvent {
    /// The server accepted our `Connect`.
    Connected {
        assigned_nick: String,
        assigned_team: Team,
        motd: String,
        scrollback: Vec<ChatMessage>,
    },
    /// A chat message.
    Message(ChatMessage),
    /// A player joined or left.
    JoinedLeft { nickname: String, team: Team, joined: bool },
    /// Response to `NetworkCommand::Who`.
    WhoList(Vec<PlayerEntry>),
    /// The loop is waiting before the next attempt.
    Reconnecting { attempt: u32, delay_ms: u64 },
    /// The connection was closed.
    Disconnected,
}

/// The view of a [`NetworkEvent`].
#[verifier::ext_equal]
pub enum NetworkEventView {
    Connected {
        assigned_nick: Seq<char>,
        assigned_team: Team,
        motd: Seq<char>,
        scrollback: Seq<ChatMessageView>,
    },
    Message(ChatMessageView),
    JoinedLeft { nickname: Seq<char>, team: Team, joined: bool },
    WhoList(Seq<PlayerEntryView>),
    Reconnecting { attempt: u32, delay_ms: u64 },
    Disconnected,
}

impl View for NetworkEvent {
    type V = NetworkEventView;

    open spec fn view(&self) -> NetworkEventView {
        match *self {
            NetworkEvent::Connected { assigned_nick, assigned_team, motd, scrollback } =>
                NetworkEventView::Connected {
                assigned_nick: assigned_nick@,
                assigned_team,
                motd: motd@,
                scrollback: messages_view(scrollback@),
            },
            NetworkEvent::Message(msg) => NetworkEventView::Message(msg@),
            NetworkEvent::JoinedLeft { nickname, team, joined } => NetworkEventView::JoinedLeft {
                nickname: nickname@,
                team,
                joined,
            },
            NetworkEvent::WhoList(players) => NetworkEventView::WhoList(players_view(players@)),
            NetworkEvent::Reconnecting { attempt, delay_ms } => NetworkEventView::Reconnecting {
                attempt,
                delay_ms,
            },
            NetworkEvent::Disconnected => NetworkEventView::Disconnected,
        }
    }
}

impl Clone for NetworkEvent {
    fn clone(&self) -> (r: Self)
        ensures
            r@ == self@,
    {
        match self {
            NetworkEvent::Connected { assigned_nick, assigned_team, motd, scrollback } =>
                NetworkEvent::Connected {
                assigned_nick: assigned_nick.clone(),
                assigned_team: *assigned_team,
                motd: motd.clone(),
                scrollback: clone_messages(scrollback),
            },
            NetworkEvent::Message(msg) => NetworkEvent::Message(msg.clone()),
            NetworkEvent::JoinedLeft { nickname, team, joined } => NetworkEvent::JoinedLeft {
                nickname: nickname.clone(),
                team: *team,
                joined: *joined,
            },
            NetworkEvent::WhoList(players) => NetworkEvent::WhoList(clone_players(players)),
            NetworkEvent::Reconnecting { attempt, delay_ms } => NetworkEvent::Reconnecting {
                attempt: *attempt,
                delay_ms: *delay_ms,
            },
            NetworkEvent::Disconnected => NetworkEvent::Disconnected,
        }
    }
}

/// The views of a list of events.
pub open spec fn events_view(s: Seq<NetworkEvent>) -> Seq<NetworkEventView> {
    Seq::new(s.len(), |i: int| s[i]@)
}

// ── Network commands ──────────────────────────────────────────────────────────

/// Commands from the main loop to the network loop.
#[derive(Debug)]
pub enum NetworkCommand {
    /// Send a global message.
    Say(String),
    /// Send a team-filtered message.
    SayTeam(String),
    /// Request the current player list.
    Who,
    /// Shut the network loop down cleanly.
    Shutdown,
}

/// The view of a [`NetworkCommand`].
#[verifier::ext_equal]
pub enum NetworkCommandView {
    Say(Seq<char>),
    SayTeam(Seq<char>),
    Who,
    Shutdown,
}

impl View for NetworkCommand {
    type V = NetworkCommandView;

    open spec fn view(&self) -> NetworkCommandView {
        match *self {
            NetworkCommand::Say(text) => NetworkCommandView::Say(text@),
            NetworkCommand::SayTeam(text) => NetworkCommandView::SayTeam(text@),
            NetworkCommand::Who => NetworkCommandView::Who,
            NetworkCommand::Shutdown => NetworkCommandView::Shutdown,
        }
    }
}

impl Clone for NetworkCommand {
    fn clone(&self) -> (r: Self)
        ensures
            r@ == self@,
    {
        match self {
            NetworkCommand::Say(text) => NetworkCommand::Say(text.clone()),
            NetworkCommand::SayTeam(text) => NetworkCommand::SayTeam(text.clone()),
            NetworkCommand::Who => NetworkCommand::Who,
            NetworkCommand::Shutdown => NetworkCommand::Shutdown,
        }
    }
}

// ── Public handle ─────────────────────────────────────────────────────────────

/// What the main loop holds of the network loop.
pub struct NetworkHandle {
    /// Sends commands to the network loop.
    pub tx: Sender<NetworkCommand>,
    /// Receives events from the network loop.
    pub rx: Receiver<NetworkEvent>,
}

// ── What the views show ───────────────────────────────────────────────────────

/// The view of an event is of its kind, with its fields as they are; that of a list of events is the
/// list of their views.
pub proof fn lemma_event_view(e: NetworkEvent, events: Seq<NetworkEvent>)
    ensures
        e matches NetworkEvent::Connected { assigned_nick, assigned_team, motd, scrollback } ==> e@
            == (NetworkEventView::Connected {
            assigned_nick: assigned_nick@,
            assigned_team,
            motd: motd@,
            scrollback: messages_view(scrollback@),
        }),
        e matches NetworkEvent::Message(msg) ==> e@ == NetworkEventView::Message(msg@),
        e matches NetworkEvent::JoinedLeft { nickname, team, joined } ==> e@ == (
        NetworkEventView::JoinedLeft { nickname: nickname@, team, joined }),
        e matches NetworkEvent::WhoList(players) ==> e@ == NetworkEventView::WhoList(
            players_view(players@),
        ),
        e matches NetworkEvent::Reconnecting { attempt, delay_ms } ==> e@ == (
        NetworkEventView::Reconnecting { attempt, delay_ms }),
        e is Disconnected ==> e@ is Disconnected,
        events_view(events).len() == events.len(),
        forall|i: int| 0 <= i < events.len() ==> #[trigger] events_view(events)[i] == events[i]@,
{
}

/// The view of a command is of its kind, with its text as it is.
pub proof fn lemma_command_view(c: NetworkCommand)
    ensures
        c matches NetworkCommand::Say(text) ==> c@ == NetworkCommandView::Say(text@),
        c matches NetworkCommand::SayTeam(text) ==> c@ == NetworkCommandView::SayTeam(text@),
        c is Who ==> c@ is Who,
        c is Shutdown ==> c@ is Shutdown,
{
}

} // verus!
