//! One connection, and several of them on one server.
use ffoie_chat::config::{Config, Env};
use ffoie_chat::protocol::{Channel, ChatMessage, ClientMessage, ServerMessage, Team};
use ffoie_chat::state::{AppState, BroadcastEvent};
use ffoie_chat::ws::{exceeds_cap, frame_cap, should_skip, Input, Session, Step};
use std::time::{Duration, Instant};

fn test_config() -> Config {
    let mut config = Config::from_env(&Env { vars: Vec::new() }, true).unwrap();
    config.motd = "test motd".to_string();
    config.heartbeat_secs = 60;
    config
}

/// A connection with everything that was sent to its client.
struct Client {
    session: Session,
    inbox: Vec<ServerMessage>,
    open: bool,
}

/// A server whose sockets never break.
struct Server {
    shared: AppState,
    clients: Vec<Client>,
}

impl Server {
    fn new(config: Config) -> Self {
        Server { shared: AppState::new(config), clients: Vec::new() }
    }

    fn attach(&mut self) -> usize {
        let session = Session::new(&self.shared.config);
        self.clients.push(Client { session, inbox: Vec::new(), open: true });
        self.clients.len() - 1
    }

    fn connect(&mut self, nick: &str) -> usize {
        let id = self.attach();
        self.send(id, ClientMessage::Connect { nickname: nick.to_string(), team: Team::NoTeam });
        id
    }

    fn send(&mut self, id: usize, msg: ClientMessage) {
        self.input(id, Input::Client(msg));
    }

    fn say(&mut self, id: usize, text: &str) {
        self.send(id, ClientMessage::Say { text: text.to_string() });
    }

    fn input(&mut self, id: usize, input: Input) {
        let client = &mut self.clients[id];
        match client.session.step(&mut self.shared, input) {
            Step::Idle => {}
            Step::Leave | Step::CloseAndLeave => self.leave(id),
            Step::Reply(m) | Step::Forward(m) => client.inbox.push(m),
            Step::ReplyAndLeave(m) => {
                client.inbox.push(m);
                self.leave(id);
            }
            Step::Greet { welcome, joined } => {
                client.inbox.push(welcome);
                self.publish(joined);
            }
            Step::Publish(event) => self.publish(event),
        }
    }

    fn publish(&mut self, event: BroadcastEvent) {
        for id in 0..self.clients.len() {
            if self.clients[id].open {
                self.input(id, Input::Event(event.clone()));
            }
        }
    }

    fn leave(&mut self, id: usize) {
        self.clients[id].open = false;
        if let Some(event) = self.clients[id].session.finish(&mut self.shared) {
            self.publish(event);
        }
    }

    fn inbox(&mut self, id: usize) -> Vec<ServerMessage> {
        std::mem::take(&mut self.clients[id].inbox)
    }

    fn nick(&self, id: usize) -> String {
        self.clients[id].session.nickname().to_string()
    }
}

// ── Team filter ───────────────────────────────────────────────────────────────

/// When `team_filter` is `None` the event should be forwarded to everyone.
#[test]
fn team_filter_none_passes_all_teams() {
    let filter: Option<Team> = None;
    let my_team = Team::Red;
    assert!(!should_skip(filter, my_team), "no filter should pass to any team");
    assert!(!should_skip(filter, Team::NoTeam));
}

/// When `team_filter` is `Some(Red)` and the receiver is `Red`, forward.
#[test]
fn team_filter_matches_own_team() {
    let filter = Some(Team::Red);
    let my_team = Team::Red;
    assert!(!should_skip(filter, my_team), "matching team filter should not skip");
}

/// When `team_filter` is `Some(Red)` and the receiver is `Blue`, skip.
#[test]
fn team_filter_skips_other_team() {
    let filter = Some(Team::Red);
    let my_team = Team::Blue;
    assert!(should_skip(filter, my_team), "non-matching team filter should skip");
}

// ── Message length cap ────────────────────────────────────────────────────────

/// A message exactly at the cap is accepted.
#[test]
fn message_at_cap_is_accepted() {
    let max_bytes: usize = 500;
    let text = "a".repeat(500);
    assert!(
        !exceeds_cap(&text, max_bytes),
        "500-byte message should pass the cap"
    );
}

/// A message one byte over the cap is rejected.
#[test]
fn message_over_cap_is_rejected() {
    let max_bytes: usize = 500;
    let text = "a".repeat(501);
    assert!(
        exceeds_cap(&text, max_bytes),
        "501-byte message should exceed the cap"
    );
}

#[test]
fn the_cap_counts_bytes() {
    assert!(!exceeds_cap("€€", 6));
    assert!(exceeds_cap("€€", 5));
    assert!(!exceeds_cap("", 0));
}

#[test]
fn frames_are_capped_at_eight_messages_but_not_below_16_kib() {
    assert_eq!(frame_cap(500), 16 * 1024);
    assert_eq!(frame_cap(2048), 16 * 1024);
    assert_eq!(frame_cap(2049), 16392);
    assert_eq!(frame_cap(usize::MAX), usize::MAX);
}

// ── Conversations ─────────────────────────────────────────────────────────────

#[test]
fn two_clients_chat() {
    let mut server = Server::new(test_config());
    let a = server.connect("Alice");
    let b = server.connect("Bob");

    let seen_by_a = server.inbox(a);
    assert!(matches!(&seen_by_a[0], ServerMessage::Welcome { assigned_nick, motd, .. }
        if assigned_nick == "Alice" && motd == "test motd"));
    assert!(matches!(&seen_by_a[2], ServerMessage::JoinedLeft { nickname, joined: true, .. }
        if nickname == "Bob"));
    assert_eq!(seen_by_a.len(), 3);
    let seen_by_b = server.inbox(b);
    assert!(matches!(&seen_by_b[1], ServerMessage::JoinedLeft { joined: true, .. }));

    server.say(a, "hello from A");
    match &server.inbox(b)[..] {
        [ServerMessage::Message { data }] => {
            assert_eq!(data.text, "hello from A");
            assert_eq!(data.from, "Alice");
            assert_eq!(data.channel, Channel::All);
            assert!(data.ts > 1_577_836_800_000);
        }
        other => panic!("expected Message, got {other:?}"),
    }
}

#[test]
fn team_filter() {
    let mut server = Server::new(test_config());
    let draws = vec![0; 11];
    let mut ids = Vec::new();
    for (nick, team) in [("PlayerA", Team::Red), ("PlayerB", Team::Blue), ("PlayerC", Team::Red)] {
        let id = server.attach();
        let Server { shared, clients } = &mut server;
        clients[id].session.greet(shared, nick, team, &draws);
        ids.push(id);
    }
    server.send(ids[0], ClientMessage::SayTeam { text: "team-only".to_string() });
    assert!(matches!(&server.inbox(ids[0])[..], [ServerMessage::Message { .. }]));
    assert!(matches!(&server.inbox(ids[2])[..], [ServerMessage::Message { data }]
        if data.text == "team-only" && data.channel == Channel::Team));
    assert!(server.inbox(ids[1]).is_empty());
}

/// What is said to a team is kept for the team alone: a newcomer of the other team gets nothing of it.
#[test]
fn team_talk_does_not_reach_the_other_team_later() {
    let mut server = Server::new(test_config());
    let draws = vec![0; 11];
    let speaker = server.attach();
    {
        let Server { shared, clients } = &mut server;
        clients[speaker].session.greet(shared, "PlayerA", Team::Red, &draws);
    }
    server.send(speaker, ClientMessage::SayTeam { text: "team-only".to_string() });
    server.say(speaker, "to all");
    for (team, expected) in [
        (Team::Red, vec!["team-only", "to all"]),
        (Team::Blue, vec!["to all"]),
        (Team::NoTeam, vec!["to all"]),
    ] {
        let id = server.attach();
        let Server { shared, clients } = &mut server;
        match clients[id].session.greet(shared, "Newcomer", team, &draws) {
            Step::Greet { welcome: ServerMessage::Welcome { scrollback, .. }, .. } => {
                let texts: Vec<&str> = scrollback.iter().map(|m| m.text.as_str()).collect();
                assert_eq!(texts, expected);
            }
            _ => panic!("expected Greet"),
        }
        let seen: Vec<String> =
            server.shared.scrollback_for(team).into_iter().map(|m| m.text).collect();
        assert_eq!(seen, expected);
    }
}

#[test]
fn rate_limit() {
    let mut server = Server::new(test_config());
    let id = server.connect("Spammer");
    server.inbox(id);
    for i in 0..11u32 {
        server.say(id, &format!("msg{i}"));
    }
    let seen = server.inbox(id);
    assert_eq!(seen.len(), 11);
    assert!(seen[..10].iter().all(|m| matches!(m, ServerMessage::Message { .. })));
    assert_eq!(
        seen[10],
        ServerMessage::RateLimited { reason: "retry after 500ms".to_string() }
    );
    assert!(server.clients[id].open, "a sender who is too fast stays connected");
    assert_eq!(server.shared.scrollback_snapshot().len(), 10);
}

#[test]
fn length_cap() {
    let mut server = Server::new(test_config());
    let id = server.connect("Bigmouth");
    server.inbox(id);
    server.say(id, &"x".repeat(501));
    assert_eq!(
        server.inbox(id),
        vec![ServerMessage::Error { reason: "message too long".to_string() }]
    );
    server.say(id, &"x".repeat(500));
    assert!(matches!(&server.inbox(id)[..], [ServerMessage::Message { .. }]));
}

#[test]
fn scrollback_on_connect() {
    let mut server = Server::new(test_config());
    let a = server.connect("Historian");
    for i in 0..3u32 {
        server.say(a, &format!("history{i}"));
    }
    server.input(a, Input::Ended);
    let c = server.connect("Newcomer");
    match &server.inbox(c)[0] {
        ServerMessage::Welcome { scrollback, .. } => {
            assert_eq!(scrollback.len(), 3);
            assert_eq!(scrollback[0].text, "history0");
            assert_eq!(scrollback[1].text, "history1");
            assert_eq!(scrollback[2].text, "history2");
        }
        other => panic!("expected Welcome, got {other:?}"),
    }
}

#[test]
fn a_newcomer_gets_the_end_of_the_history() {
    let mut config = test_config();
    config.scrollback_size = 2;
    let mut server = Server::new(config);
    let a = server.connect("Historian");
    for i in 0..3u32 {
        server.say(a, &format!("history{i}"));
    }
    let c = server.connect("Newcomer");
    match &server.inbox(c)[0] {
        ServerMessage::Welcome { scrollback, .. } => {
            let texts: Vec<&str> = scrollback.iter().map(|m| m.text.as_str()).collect();
            assert_eq!(texts, ["history1", "history2"]);
        }
        other => panic!("expected Welcome, got {other:?}"),
    }
}

#[test]
fn joined_left_notifications() {
    let mut server = Server::new(test_config());
    let b = server.connect("Watcher");
    server.inbox(b);
    let a = server.connect("Leaver");
    let team = server.clients[a].session.team();
    let notice = |joined| ServerMessage::JoinedLeft { nickname: "Leaver".to_string(), team, joined };
    assert_eq!(server.inbox(b), vec![notice(true)]);
    server.input(a, Input::Failed);
    assert_eq!(server.inbox(b), vec![notice(false)]);
    assert_eq!(server.shared.connection_count(), 1);
}

#[test]
fn nickname_collision() {
    let mut server = Server::new(test_config());
    let a = server.connect("Samebot");
    let b = server.connect("Samebot");
    assert_eq!(server.nick(a), "Samebot");
    let nick_b = server.nick(b);
    assert_ne!(nick_b, "Samebot");
    assert!(nick_b.contains("Samebot"));
}

#[test]
fn lag_disconnect() {
    let mut config = test_config();
    config.max_lag_disconnects = 3;
    let mut server = Server::new(config);
    let slow = server.connect("Slug");
    server.inbox(slow);
    server.input(slow, Input::Lagged);
    server.input(slow, Input::Lagged);
    assert_eq!(server.clients[slow].session.lag_count(), 2);
    assert!(server.clients[slow].open);
    server.input(slow, Input::Lagged);
    assert!(!server.clients[slow].open);
    assert_eq!(
        server.inbox(slow)[0],
        ServerMessage::Error { reason: "lag: too far behind".to_string() }
    );
    assert_eq!(server.shared.connection_count(), 0);
}

#[test]
fn a_received_event_ends_the_run_of_lags() {
    let mut config = test_config();
    config.max_lag_disconnects = 2;
    let mut server = Server::new(config);
    let id = server.connect("Slug");
    let filter = match server.clients[id].session.team() {
        Team::Red => Team::Blue,
        _ => Team::Red,
    };
    let event = |team_filter| BroadcastEvent { msg: ServerMessage::Pong { seq: 9 }, team_filter };
    server.input(id, Input::Lagged);
    server.input(id, Input::Event(event(None)));
    server.input(id, Input::Lagged);
    server.input(id, Input::Event(event(Some(filter))));
    server.input(id, Input::Lagged);
    assert!(server.clients[id].open);
    server.input(id, Input::Lagged);
    assert!(!server.clients[id].open);
}

#[test]
fn no_tolerance_for_lags() {
    let mut config = test_config();
    config.max_lag_disconnects = 0;
    let mut server = Server::new(config);
    let id = server.connect("Slug");
    server.input(id, Input::Lagged);
    assert!(!server.clients[id].open);
}

#[test]
fn connect_comes_first() {
    for msg in [
        ClientMessage::Say { text: "hi".to_string() },
        ClientMessage::SayTeam { text: "hi".to_string() },
        ClientMessage::Who,
        ClientMessage::Ping { seq: 1 },
    ] {
        let mut server = Server::new(test_config());
        let id = server.attach();
        server.send(id, msg);
        assert_eq!(
            server.inbox(id),
            vec![ServerMessage::Error { reason: "send Connect first".to_string() }]
        );
        assert!(!server.clients[id].open);
        assert!(server.shared.scrollback_snapshot().is_empty());
    }
}

#[test]
fn a_first_text_that_is_no_message_closes_the_socket() {
    let mut server = Server::new(test_config());
    let id = server.attach();
    server.input(id, Input::OtherFrame);
    assert!(server.clients[id].open);
    server.input(id, Input::Malformed);
    assert_eq!(
        server.inbox(id),
        vec![ServerMessage::Error { reason: "invalid message".to_string() }]
    );
    assert!(!server.clients[id].open);
    assert_eq!(server.shared.connection_count(), 0);
}

#[test]
fn each_message_is_paid_for_with_the_time_since_the_last() {
    let mut config = test_config();
    config.rate_burst = 1;
    let mut shared = AppState::new(config);
    let mut session = Session::with_id(5, &shared.config);
    session.greet(&mut shared, "Fox", Team::Blue, &vec![0; 11]);
    let mut try_after = |ms: u64| {
        let pause = Duration::from_millis(ms).as_nanos();
        let step =
            session.say(&mut shared, Channel::All, "go".to_string(), pause, Instant::now(), 0);
        matches!(step, Step::Publish(_))
    };
    assert!(try_after(0));
    assert!(!try_after(499));
    assert!(try_after(1));
    assert!(!try_after(0));
}

#[test]
fn one_arrival_and_one_departure_are_announced() {
    let notices = |messages: Vec<ServerMessage>| -> Vec<bool> {
        messages
            .into_iter()
            .filter_map(|m| match m {
                ServerMessage::JoinedLeft { nickname, joined, .. } if nickname == "Fox" => {
                    Some(joined)
                }
                _ => None,
            })
            .collect()
    };
    for last in [Input::Ended, Input::Failed, Input::CloseFrame, Input::Shutdown] {
        let mut server = Server::new(test_config());
        let watcher = server.connect("Watcher");
        let fox = server.connect("Fox");
        server.say(fox, "hi");
        server.send(fox, ClientMessage::Connect { nickname: "Fox".to_string(), team: Team::Red });
        server.input(fox, Input::Malformed);
        server.input(fox, last);
        assert!(server.clients[fox].session.finish(&mut server.shared).is_none());
        assert_eq!(notices(server.inbox(watcher)), [true, false]);
    }
    // One who never connects is never announced.
    let mut server = Server::new(test_config());
    let watcher = server.connect("Watcher");
    server.inbox(watcher);
    let stranger = server.attach();
    server.say(stranger, "hi");
    assert!(server.inbox(watcher).is_empty());
}

#[test]
fn bad_text_and_second_connect_are_forgiven() {
    let mut server = Server::new(test_config());
    let id = server.connect("Fox");
    server.inbox(id);
    server.input(id, Input::Malformed);
    server.send(id, ClientMessage::Connect { nickname: "Hen".to_string(), team: Team::Red });
    server.input(id, Input::OtherFrame);
    assert_eq!(
        server.inbox(id),
        vec![
            ServerMessage::Error { reason: "invalid message".to_string() },
            ServerMessage::Error { reason: "already connected".to_string() },
        ]
    );
    assert_eq!(server.nick(id), "Fox");
    assert!(server.clients[id].open);
}

#[test]
fn ping_heartbeat_and_player_list() {
    let mut server = Server::new(test_config());
    let a = server.connect("Ann");
    let b = server.connect("Bob");
    server.inbox(a);
    server.send(a, ClientMessage::Ping { seq: 42 });
    server.input(a, Input::Heartbeat);
    server.send(a, ClientMessage::Who);
    let seen = server.inbox(a);
    assert_eq!(seen[0], ServerMessage::Pong { seq: 42 });
    assert_eq!(seen[1], ServerMessage::Pong { seq: 0 });
    match &seen[2] {
        ServerMessage::WhoList { players } => {
            let mut nicks: Vec<&str> = players.iter().map(|p| p.nick.as_str()).collect();
            nicks.sort();
            assert_eq!(nicks, ["Ann", "Bob"]);
            let bob = players.iter().find(|p| p.nick == "Bob").unwrap();
            assert_eq!(bob.team, server.clients[b].session.team());
        }
        other => panic!("expected WhoList, got {other:?}"),
    }
}

#[test]
fn every_way_out_leaves() {
    for input in [
        Input::Ended,
        Input::Failed,
        Input::CloseFrame,
        Input::ChannelClosed,
        Input::Shutdown,
    ] {
        let mut server = Server::new(test_config());
        let id = server.connect("Fox");
        server.input(id, input);
        assert!(!server.clients[id].open);
        assert_eq!(server.shared.connection_count(), 0);
    }
}

#[test]
fn shutdown_sends_a_close_frame() {
    let mut shared = AppState::new(test_config());
    let mut session = Session::new(&shared.config);
    assert!(matches!(session.step(&mut shared, Input::Shutdown), Step::CloseAndLeave));
    assert!(session.finish(&mut shared).is_none());
}

#[test]
fn a_broken_greeting_is_taken_back() {
    let mut shared = AppState::new(test_config());
    let mut session = Session::new(&shared.config);
    let connect = ClientMessage::Connect { nickname: "Fox".to_string(), team: Team::NoTeam };
    assert!(matches!(session.step(&mut shared, Input::Client(connect)), Step::Greet { .. }));
    assert!(session.is_connected());
    assert_eq!(shared.connection_count(), 1);
    session.greeting_failed(&mut shared);
    assert!(!session.is_connected());
    assert_eq!(shared.connection_count(), 0);
    assert!(session.finish(&mut shared).is_none());
}

#[test]
fn said_at_a_given_time() {
    let mut shared = AppState::new(test_config());
    let mut session = Session::with_id(5, &shared.config);
    session.greet(&mut shared, "Fox", Team::Blue, &vec![0; 11]);
    let step =
        session.say(&mut shared, Channel::Team, "go".to_string(), 0, Instant::now(), 1234);
    let expected = ChatMessage {
        from: "Fox".to_string(),
        team: Team::Blue,
        channel: Channel::Team,
        text: "go".to_string(),
        ts: 1234,
    };
    match step {
        Step::Publish(event) => {
            assert_eq!(event.msg, ServerMessage::Message { data: expected.clone() });
            assert_eq!(event.team_filter, Some(Team::Blue));
        }
        _ => panic!("expected Publish"),
    }
    assert_eq!(shared.scrollback_snapshot(), vec![expected]);
}

#[test]
fn session_ids_are_random_uuids() {
    let config = test_config();
    let a = Session::new(&config).session_id();
    let b = Session::new(&config).session_id();
    assert_ne!(a, b);
    assert_eq!(uuid::Uuid::from_u128(a).get_version_num(), 4);
    assert_eq!(uuid::Uuid::from_u128(a).get_variant(), uuid::Variant::RFC4122);
}
