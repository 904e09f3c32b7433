//! Shared server state: the connection registry and the scrollback ring.
use std::collections::{HashMap, VecDeque};
use vstd::prelude::*;

use crate::config::Config;
use crate::nickname;
use crate::nickname::TakenNicks;
use crate::protocol::{
    messages_view, players_view, Channel, ChatMessage, ChatMessageView, PlayerEntry, PlayerEntryView,
    ServerMessage, ServerMessageView, Team,
};
use crate::ring;

verus! {

broadcast use vstd::std_specs::hash::group_hash_axioms;

// ── Broadcast event ───────────────────────────────────────────────────────────

/// A value published to every connection.
///
/// `team_filter` is `Some(team)` for team messages; a receiver of another team drops the event.
#[derive(Debug)]
pub struct BroadcastEvent {
    pub msg: ServerMessage,
    pub team_filter: Option<Team>,
}

/// The view of a [`BroadcastEvent`].
#[verifier::ext_equal]
pub struct BroadcastEventView {
    pub msg: ServerMessageView,
    pub team_filter: Option<Team>,
}

impl View for BroadcastEvent {
    type V = BroadcastEventView;

    open spec fn view(&self) -> BroadcastEventView {
        BroadcastEventView { msg: self.msg@, team_filter: self.team_filter }
    }
}

impl Clone for BroadcastEvent {
    fn clone(&self) -> (r: Self)
        ensures
            r@ == self@,
    {
        BroadcastEvent { msg: self.msg.clone(), team_filter: self.team_filter }
    }
}

// ── Connection info ───────────────────────────────────────────────────────────

/// What is known of one connection.
#[derive(Debug)]
pub struct ConnInfo {
    /// The session's UUID as a number.
    pub session_id: u128,
    pub nickname: String,
    pub team: Team,
}

/// The view of a [`ConnInfo`].
#[verifier::ext_equal]
pub struct ConnInfoView {
    pub session_id: u128,
    pub nickname: Seq<char>,
    pub team: Team,
}

impl View for ConnInfo {
    type V = ConnInfoView;

    open spec fn view(&self) -> ConnInfoView {
        ConnInfoView { session_id: self.session_id, nickname: self.nickname@, team: self.team }
    }
}

impl Clone for ConnInfo {
    fn clone(&self) -> (r: Self)
        ensures
            r == *self,
    {
        ConnInfo { session_id: self.session_id, nickname: self.nickname.clone(), team: self.team }
    }
}

// ── AppState ──────────────────────────────────────────────────────────────────

/// State shared by all connections.
pub struct AppState {
    pub config: Config,
    pub scrollback: VecDeque<ChatMessage>,
    pub connections: HashMap<u128, ConnInfo>,
}

/// The view of an [`AppState`]; the configuration is not part of it, for nothing changes it.
#[verifier::ext_equal]
pub struct StateView {
    pub scrollback: Seq<ChatMessageView>,
    pub conns: Map<u128, ConnInfoView>,
}

/// The views of the registered connections.
pub open spec fn conns_view(m: Map<u128, ConnInfo>) -> Map<u128, ConnInfoView> {
    m.map_values(|c: ConnInfo| c@)
}

impl View for AppState {
    type V = StateView;

    open spec fn view(&self) -> StateView {
        StateView {
            scrollback: messages_view(self.scrollback@),
            conns: conns_view(self.connections@),
        }
    }
}

/// The nicknames in use.
pub open spec fn nicknames(conns: Map<u128, ConnInfoView>) -> Set<Seq<char>> {
    Set::new(
        |nick: Seq<char>|
            exists|id: u128| #[trigger] conns.contains_key(id) && conns[id].nickname == nick,
    )
}

/// What the player list says of a connection.
pub open spec fn entry_of(conn: ConnInfoView) -> PlayerEntryView {
    PlayerEntryView { nick: conn.nickname, team: conn.team }
}

/// `players` lists each of the connections once, in the order of `ids`.
pub open spec fn lists_in_order(
    players: Seq<PlayerEntryView>,
    conns: Map<u128, ConnInfoView>,
    ids: Seq<u128>,
) -> bool {
    &&& ids.no_duplicates()
    &&& ids.to_set() == conns.dom()
    &&& players.len() == ids.len()
    &&& forall|i: int| 0 <= i < ids.len() ==> #[trigger] players[i] == entry_of(conns[ids[i]])
}

/// `players` lists each of the connections once, in some order.
pub open spec fn lists_all(
    players: Seq<PlayerEntryView>,
    conns: Map<u128, ConnInfoView>,
) -> bool {
    exists|ids: Seq<u128>| lists_in_order(players, conns, ids)
}

/// Whether a message may be shown to a member of `team`: it was said to all, or to that team.
pub open spec fn is_for(msg: ChatMessageView, team: Team) -> bool {
    msg.channel == Channel::All || msg.team == team
}

/// The messages that may be shown to a member of `team`, in order.
pub open spec fn visible_to(messages: Seq<ChatMessageView>, team: Team) -> Seq<ChatMessageView> {
    messages.filter(|m: ChatMessageView| is_for(m, team))
}

impl AppState {
    /// A state with no connection and no history.
    pub fn new(config: Config) -> (s: Self)
        ensures
            s.config == config,
            s@.scrollback == Seq::<ChatMessageView>::empty(),
            s@.conns == Map::<u128, ConnInfoView>::empty(),
    {
        let s = AppState { config, scrollback: VecDeque::new(), connections: HashMap::new() };
        assert(s@.scrollback =~= Seq::empty());
        assert(s@.conns =~= Map::empty());
        s
    }

    // ── Connection registry ───────────────────────────────────────────────────

    /// The number of open connections.
    pub fn connection_count(&self) -> (n: usize)
        ensures
            n == self@.conns.len(),
    {
        assert(self@.conns.dom() =~= self.connections@.dom());
        self.connections.len()
    }

    /// Registers a connection under its session.
    pub fn register_conn(&mut self, info: ConnInfo)
        ensures
            final(self).config == old(self).config,
            final(self)@ == (StateView {
                conns: old(self)@.conns.insert(info.session_id, info@),
                ..old(self)@
            }),
    {
        let _ = self.connections.insert(info.session_id, info);
        assert(self@.conns =~= old(self)@.conns.insert(info.session_id, info@));
    }

    /// Removes the connection of a session, if there is one.
    pub fn remove_conn(&mut self, session_id: u128)
        ensures
            final(self).config == old(self).config,
            final(self)@ == (StateView {
                conns: old(self)@.conns.remove(session_id),
                ..old(self)@
            }),
    {
        let _ = self.connections.remove(&session_id);
        assert(self@.conns =~= old(self)@.conns.remove(session_id));
    }

    // ── WhoList ───────────────────────────────────────────────────────────────

    /// A snapshot of the connected players.
    pub fn who_list(&self) -> (players: Vec<PlayerEntry>)
        ensures
            lists_all(players_view(players@), self@.conns),
    {
        let mut players: Vec<PlayerEntry> = Vec::new();
        let ghost mut ids: Seq<u128> = Seq::empty();
        for id in it: self.connections.keys()
            invariant
                players@.len() == it.index(),
                ids == it.seq().unref().take(it.index()),
                it.seq().unref().to_set() == self.connections@.dom(),
                it.seq().no_duplicates(),
                it.index() == it.seq().len() ==> ids == it.seq().unref(),
                ids.no_duplicates(),
                forall|i: int|
                    0 <= i < it.index() ==> #[trigger] players@[i]@ == entry_of(
                        self@.conns[ids[i]],
                    ),
        {
            proof {
                let all = it.seq().unref();
                assert(all[it.index()] == *id);
                assert(all.contains(*id));
                assert(self.connections@.dom().contains(*id));
                ids = ids.push(*id);
                assert(ids =~= all.take(it.index() + 1));
            }
            if let Some(conn) = self.connections.get(id) {
                players.push(PlayerEntry { nick: conn.nickname.clone(), team: conn.team });
            }
        }
        assert(ids.to_set() == self@.conns.dom());
        assert(ids.no_duplicates());
        assert(lists_in_order(players_view(players@), self@.conns, ids));
        players
    }

    // ── Nicknames ─────────────────────────────────────────────────────────────

    /// The nicknames of the registered connections.
    pub fn taken_nicks(&self) -> (taken: TakenNicks)
        ensures
            taken@ == nicknames(self@.conns),
    {
        let mut taken = TakenNicks::new();
        let ghost mut ids: Seq<u128> = Seq::empty();
        for id in it: self.connections.keys()
            invariant
                ids == it.seq().unref().take(it.index()),
                it.seq().unref().to_set() == self.connections@.dom(),
                it.index() == it.seq().len() ==> ids == it.seq().unref(),
                forall|i: int| 0 <= i < ids.len() ==> self.connections@.contains_key(#[trigger] ids[i]),
                forall|i: int|
                    0 <= i < ids.len() ==> taken@.contains(
                        (#[trigger] self@.conns[ids[i]]).nickname,
                    ),
                forall|nick: Seq<char>|
                    taken@.contains(nick) ==> exists|i: int|
                        0 <= i < ids.len() && (#[trigger] self@.conns[ids[i]]).nickname == nick,
        {
            let ghost before = ids;
            let ghost taken_before = taken@;
            proof {
                let all = it.seq().unref();
                assert(all[it.index()] == *id);
                assert(all.contains(*id));
                ids = ids.push(*id);
                assert(ids =~= all.take(it.index() + 1));
            }
            if let Some(conn) = self.connections.get(id) {
                let _ = taken.insert(conn.nickname.clone());
                proof {
                    assert(self@.conns[ids.last()].nickname == conn.nickname@);
                    assert forall|nick: Seq<char>| taken@.contains(nick) implies exists|i: int|
                        0 <= i < ids.len() && (#[trigger] self@.conns[ids[i]]).nickname == nick by {
                        if taken_before.contains(nick) {
                            let i = choose|i: int|
                                0 <= i < before.len() && (
                                #[trigger] self@.conns[before[i]]).nickname == nick;
                            assert(ids[i] == before[i]);
                        } else {
                            assert(ids[ids.len() - 1] == *id);
                        }
                    }
                }
            }
        }
        assert forall|nick: Seq<char>| nicknames(self@.conns).contains(nick) implies taken@.contains(
            nick,
        ) by {
            let id = choose|id: u128| #[trigger]
                self@.conns.contains_key(id) && self@.conns[id].nickname == nick;
            assert(ids.to_set().contains(id));
            let i = choose|i: int| 0 <= i < ids.len() && ids[i] == id;
            assert(taken@.contains(self@.conns[ids[i]].nickname));
        }
        assert forall|nick: Seq<char>| taken@.contains(nick) implies nicknames(
            self@.conns,
        ).contains(nick) by {
            let i = choose|i: int|
                0 <= i < ids.len() && (#[trigger] self@.conns[ids[i]]).nickname == nick;
            assert(self@.conns.contains_key(ids[i]));
        }
        assert(taken@ =~= nicknames(self@.conns));
        taken
    }

    /// Assigns a nickname beside those in use, and registers the connection under it.
    ///
    /// The suffixes in `draws` are tried in order if the requested name is taken.
    pub fn assign_and_register_from(
        &mut self,
        session_id: u128,
        requested: &str,
        team: Team,
        draws: &Vec<u32>,
    ) -> (nick: String)
        requires
            nickname::are_draws(draws@),
        ensures
            final(self).config == old(self).config,
            nick@ == nickname::nick_for(requested@, nicknames(old(self)@.conns), draws@),
            final(self)@ == registered(old(self)@, session_id, nick@, team),
    {
        let taken = self.taken_nicks();
        let nick = nickname::assign_nick_from(requested, &taken, draws);
        self.register_conn(ConnInfo { session_id, nickname: nick.clone(), team });
        nick
    }

    /// Assigns a nickname beside those in use, and registers the connection under it.
    pub fn assign_and_register(&mut self, session_id: u128, requested: &str, team: Team) -> (nick:
        String)
        ensures
            final(self).config == old(self).config,
            exists|draws: Seq<u32>|
                nickname::are_draws(draws) && nick@ == #[trigger] nickname::nick_for(
                    requested@,
                    nicknames(old(self)@.conns),
                    draws,
                ),
            final(self)@ == registered(old(self)@, session_id, nick@, team),
    {
        let draws = nickname::draw_suffixes();
        self.assign_and_register_from(session_id, requested, team, &draws)
    }

    // ── Scrollback ring ───────────────────────────────────────────────────────

    /// The scrollback, oldest message first.
    pub fn scrollback_snapshot(&self) -> (r: Vec<ChatMessage>)
        ensures
            messages_view(r@) == self@.scrollback,
    {
        let mut r: Vec<ChatMessage> = Vec::new();
        let mut i: usize = 0;
        while i < self.scrollback.len()
            invariant
                i <= self.scrollback@.len(),
                r@ == self.scrollback@.take(i as int),
            decreases self.scrollback@.len() - i,
        {
            r.push(self.scrollback[i].clone());
            i += 1;
        }
        assert(r@ =~= self.scrollback@);
        r
    }

    /// The part of the scrollback that a member of `team` may see, oldest message first.
    pub fn scrollback_for(&self, team: Team) -> (r: Vec<ChatMessage>)
        ensures
            messages_view(r@) == visible_to(self@.scrollback, team),
    {
        let all = self.scrollback_snapshot();
        let ghost keep = |m: ChatMessageView| is_for(m, team);
        let mut r: Vec<ChatMessage> = Vec::new();
        let mut i: usize = 0;
        assert(self@.scrollback.take(0) =~= Seq::empty());
        assert(messages_view(r@) =~= Seq::<ChatMessageView>::empty().filter(keep)) by {
            reveal(Seq::filter);
        }
        while i < all.len()
            invariant
                i <= all@.len(),
                messages_view(all@) == self@.scrollback,
                keep == (|m: ChatMessageView| is_for(m, team)),
                messages_view(r@) == self@.scrollback.take(i as int).filter(keep),
            decreases all@.len() - i,
        {
            let ghost kept = r@;
            let ghost next = self@.scrollback.take(i + 1);
            assert(next.drop_last() =~= self@.scrollback.take(i as int));
            assert(next.last() == all@[i as int]@);
            assert(next.filter(keep) == if keep(next.last()) {
                next.drop_last().filter(keep).push(next.last())
            } else {
                next.drop_last().filter(keep)
            }) by {
                reveal(Seq::filter);
            }
            let shown = match all[i].channel {
                Channel::All => true,
                Channel::Team => all[i].team == team,
            };
            if shown {
                r.push(all[i].clone());
                assert(messages_view(r@) =~= messages_view(kept).push(next.last()));
            }
            i += 1;
        }
        assert(self@.scrollback.take(i as int) =~= self@.scrollback);
        r
    }

    /// Pushes a message onto the scrollback ring.
    ///
    /// Evicts the oldest entry when the ring is at capacity, so it never grows beyond
    /// `config.scrollback_size`.
    pub fn push_scrollback(&mut self, msg: ChatMessage)
        ensures
            final(self).config == old(self).config,
            final(self)@ == (StateView {
                scrollback: ring::ring_push(
                    old(self)@.scrollback,
                    msg@,
                    old(self).config.scrollback_size as nat,
                ),
                ..old(self)@
            }),
    {
        ring::push_capped(&mut self.scrollback, msg, self.config.scrollback_size);
        assert(self@.scrollback =~= ring::ring_push(
            old(self)@.scrollback,
            msg@,
            self.config.scrollback_size as nat,
        ));
    }
}

/// The state after a connection has been registered.
pub open spec fn registered(s: StateView, id: u128, nick: Seq<char>, team: Team) -> StateView {
    StateView {
        conns: s.conns.insert(id, ConnInfoView { session_id: id, nickname: nick, team }),
        ..s
    }
}

// ── What the registry guarantees ──────────────────────────────────────────────

/// No two connections have the same nickname.
pub open spec fn unique_nicks(conns: Map<u128, ConnInfoView>) -> bool {
    forall|a: u128, b: u128|
        #[trigger] conns.contains_key(a) && #[trigger] conns.contains_key(b) && a != b
            ==> conns[a].nickname != conns[b].nickname
}

/// Registering a new session under a nickname that is not in use keeps nicknames unique and adds
/// one connection.
pub proof fn lemma_register_keeps_unique(s: StateView, id: u128, nick: Seq<char>, team: Team)
    requires
        unique_nicks(s.conns),
        s.conns.dom().finite(),
        !s.conns.contains_key(id),
        !nicknames(s.conns).contains(nick),
    ensures
        unique_nicks(registered(s, id, nick, team).conns),
        registered(s, id, nick, team).conns.len() == s.conns.len() + 1,
        nicknames(registered(s, id, nick, team).conns).contains(nick),
{
    let after = registered(s, id, nick, team).conns;
    assert(after.contains_key(id) && after[id].nickname == nick);
    assert forall|a: u128, b: u128|
        #[trigger] after.contains_key(a) && #[trigger] after.contains_key(b) && a
            != b implies after[a].nickname != after[b].nickname by {
        if a == id {
            assert(s.conns.contains_key(b));
        } else if b == id {
            assert(s.conns.contains_key(a));
        } else {
            assert(s.conns.contains_key(a) && s.conns.contains_key(b));
        }
    }
}

/// Removing a connection keeps nicknames unique.
pub proof fn lemma_remove_keeps_unique(conns: Map<u128, ConnInfoView>, id: u128)
    requires
        unique_nicks(conns),
    ensures
        unique_nicks(conns.remove(id)),
{
    assert forall|a: u128, b: u128|
        #[trigger] conns.remove(id).contains_key(a) && #[trigger] conns.remove(id).contains_key(b)
            && a != b implies conns.remove(id)[a].nickname != conns.remove(id)[b].nickname by {
        assert(conns.contains_key(a) && conns.contains_key(b));
    }
}

/// Removing the connection that a new session registered restores the registry.
pub proof fn lemma_remove_undoes_register(s: StateView, id: u128, nick: Seq<char>, team: Team)
    requires
        !s.conns.contains_key(id),
    ensures
        registered(s, id, nick, team).conns.remove(id) == s.conns,
{
    assert(registered(s, id, nick, team).conns.remove(id) =~= s.conns);
}

/// What a member of a team may see of a history holds every message that was said to all or to that
/// team, and no other.
pub proof fn lemma_visible_to(messages: Seq<ChatMessageView>, team: Team, msg: ChatMessageView)
    ensures
        visible_to(messages, team).contains(msg) <==> messages.contains(msg) && is_for(msg, team),
{
    let keep = |m: ChatMessageView| is_for(m, team);
    if messages.contains(msg) && is_for(msg, team) {
        let i = choose|i: int| 0 <= i < messages.len() && messages[i] == msg;
        messages.lemma_filter_contains(keep, i);
    }
    if visible_to(messages, team).contains(msg) {
        messages.lemma_filter_contains_rev(keep, msg);
        let i = choose|i: int|
            0 <= i < visible_to(messages, team).len() && visible_to(messages, team)[i] == msg;
        messages.lemma_filter_pred(keep, i);
    }
}

/// A player list has one entry for each connection: every connection is in it, and there are as
/// many entries as connections.
pub proof fn lemma_who_list_complete(
    players: Seq<PlayerEntryView>,
    conns: Map<u128, ConnInfoView>,
)
    requires
        lists_all(players, conns),
    ensures
        players.len() == conns.len(),
        forall|id: u128| #[trigger]
            conns.contains_key(id) ==> players.contains(entry_of(conns[id])),
{
    let ids = choose|ids: Seq<u128>| lists_in_order(players, conns, ids);
    ids.unique_seq_to_set();
    assert forall|id: u128| #[trigger] conns.contains_key(id) implies players.contains(
        entry_of(conns[id]),
    ) by {
        assert(ids.to_set().contains(id));
        let i = choose|i: int| 0 <= i < ids.len() && ids[i] == id;
        assert(players[i] == entry_of(conns[id]));
    }
}

/// The views of an event and of a connection are their fields; that of a state has the scrollback in
/// order and every connection under its id.
pub proof fn lemma_state_views(event: BroadcastEvent, conn: ConnInfo, state: AppState)
    ensures
        event@.msg == event.msg@,
        event@.team_filter == event.team_filter,
        conn@.session_id == conn.session_id,
        conn@.nickname == conn.nickname@,
        conn@.team == conn.team,
        state@.scrollback.len() == state.scrollback@.len(),
        forall|i: int|
            0 <= i < state.scrollback@.len() ==> #[trigger] state@.scrollback[i]
                == state.scrollback@[i]@,
        state@.conns.dom() == state.connections@.dom(),
        forall|id: u128| #[trigger]
            state@.conns.contains_key(id) ==> state@.conns[id] == state.connections@[id]@,
{
    assert(state@.conns.dom() =~= state.connections@.dom());
}

/// A nickname is in use if and only if some connection has it.
pub proof fn lemma_nicknames(conns: Map<u128, ConnInfoView>, nick: Seq<char>)
    ensures
        nicknames(conns).contains(nick) <==> exists|id: u128| #[trigger]
            conns.contains_key(id) && conns[id].nickname == nick,
{
}

/// Registering adds one connection, under the id, nickname and team given, and touches neither
/// another connection nor the scrollback.
pub proof fn lemma_registered(s: StateView, id: u128, nick: Seq<char>, team: Team, other: u128)
    ensures
        ({
            let after = registered(s, id, nick, team);
            &&& after.scrollback == s.scrollback
            &&& after.conns.contains_key(id)
            &&& after.conns[id].session_id == id
            &&& after.conns[id].nickname == nick
            &&& after.conns[id].team == team
            &&& other != id ==> after.conns.contains_key(other) == s.conns.contains_key(other)
                && after.conns[other] == s.conns[other]
        }),
{
}

/// What a team may see is picked message by message, in order: one more message is one more to see
/// if it was said to all or by that team, and otherwise nothing.
pub proof fn lemma_visible_one_more(messages: Seq<ChatMessageView>, msg: ChatMessageView, team: Team)
    ensures
        visible_to(Seq::empty(), team) == Seq::<ChatMessageView>::empty(),
        visible_to(messages.push(msg), team) == if msg.channel == Channel::All || msg.team == team {
            visible_to(messages, team).push(msg)
        } else {
            visible_to(messages, team)
        },
{
    reveal(Seq::filter);
    assert(messages.push(msg).drop_last() =~= messages);
}

/// A player list has, for each connection and for nothing else, one entry with its nickname and its
/// team.
pub proof fn lemma_who_list_entries(
    players: Seq<PlayerEntryView>,
    conns: Map<u128, ConnInfoView>,
) -> (ids: Seq<u128>)
    requires
        lists_all(players, conns),
    ensures
        ids.no_duplicates(),
        forall|id: u128| ids.contains(id) <==> #[trigger] conns.contains_key(id),
        players.len() == ids.len(),
        forall|i: int|
            0 <= i < ids.len() ==> (#[trigger] players[i]).nick == conns[ids[i]].nickname
                && players[i].team == conns[ids[i]].team,
{
    let ids = choose|ids: Seq<u128>| lists_in_order(players, conns, ids);
    assert forall|id: u128| ids.contains(id) <==> #[trigger] conns.contains_key(id) by {
        assert(ids.to_set().contains(id) <==> conns.dom().contains(id));
    }
    ids
}

} // verus!
