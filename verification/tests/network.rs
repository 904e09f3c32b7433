//! The client's connection loop.
use ffoie_chat::network::backoff::{
    backoff_delay_ms, browser_delay_ms, delay_bound_ms, next_nap_ms,
};
use ffoie_chat::network::client::{
    dispatch, on_command, ClientLoop, ClientStep, Phase, Platform, SocketEvent,
};
use ffoie_chat::network::types::{AppEvent, NetworkCommand, NetworkEvent};
use ffoie_chat::protocol::{Channel, ChatMessage, ClientMessage, PlayerEntry, ServerMessage, Team};

#[test]
fn test_backoff_delays() {
    // Attempt 1: connect immediately (no delay).
    assert_eq!(backoff_delay_ms(1), 0, "first attempt must be immediate");

    // Attempt 2: base = min(30000, 1000*2^1) = 2000; jitter in [0, 2000].
    for _ in 0..100 {
        let d = backoff_delay_ms(2);
        assert!(d <= 2_000, "attempt 2 delay out of range: {d}");
    }

    // Attempt 3: base = min(30000, 1000*2^2) = 4000; jitter in [0, 4000].
    for _ in 0..100 {
        let d = backoff_delay_ms(3);
        assert!(d <= 4_000, "attempt 3 delay out of range: {d}");
    }

    // Attempt 4: base = 8000.
    for _ in 0..100 {
        let d = backoff_delay_ms(4);
        assert!(d <= 8_000, "attempt 4 delay out of range: {d}");
    }

    // Attempt 5: base = 16000.
    for _ in 0..100 {
        let d = backoff_delay_ms(5);
        assert!(d <= 16_000, "attempt 5 delay out of range: {d}");
    }

    // Attempt 6+: base capped at 30000.
    for attempt in 6..=20 {
        for _ in 0..20 {
            let d = backoff_delay_ms(attempt);
            assert!(d <= 30_000, "attempt {attempt} delay exceeds 30s cap: {d}ms");
        }
    }
}

#[test]
fn test_backoff_jitter_range() {
    let samples: Vec<u64> = (0..500).map(|_| backoff_delay_ms(5)).collect();
    let max_observed = *samples.iter().max().unwrap();
    // With 500 samples from [0, 16000], the probability that all are < 8000
    // is astronomically small.
    assert!(
        max_observed > 4_000,
        "jitter appears broken — all 500 samples <= 4000ms (max={max_observed})"
    );
}

#[test]
fn delay_bounds() {
    let bounds: Vec<u64> = (0..9).map(delay_bound_ms).collect();
    assert_eq!(bounds, [0, 0, 2_000, 4_000, 8_000, 16_000, 30_000, 30_000, 30_000]);
    assert_eq!(delay_bound_ms(u32::MAX), 30_000);
}

#[test]
fn browser_delays_stay_within_the_bound() {
    assert_eq!(browser_delay_ms(1, 500), 0);
    assert_eq!(browser_delay_ms(2, 500), 500);
    assert_eq!(browser_delay_ms(2, 2001), 2000);
    assert_eq!(browser_delay_ms(40, u32::MAX), 30_000);
}

#[test]
fn browser_naps() {
    assert_eq!(next_nap_ms(120, 0, false), Some(50));
    assert_eq!(next_nap_ms(120, 100, false), Some(20));
    assert_eq!(next_nap_ms(120, 120, false), None);
    assert_eq!(next_nap_ms(120, 0, true), None);
}

#[test]
fn test_server_message_welcome_maps_to_connected() {
    let scrollback = vec![ChatMessage {
        from: "alice".to_owned(),
        team: Team::Red,
        channel: Channel::All,
        text: "hello".to_owned(),
        ts: 1_000,
    }];
    let server_msg = ServerMessage::Welcome {
        assigned_nick: "fox#1234".to_owned(),
        assigned_team: Team::Blue,
        motd: "Welcome!".to_owned(),
        scrollback: scrollback.clone(),
    };
    match dispatch(server_msg) {
        Some(NetworkEvent::Connected { assigned_nick, assigned_team, motd, scrollback: sb }) => {
            assert_eq!(assigned_nick, "fox#1234");
            assert_eq!(assigned_team, Team::Blue);
            assert_eq!(motd, "Welcome!");
            assert_eq!(sb, scrollback);
        }
        other => panic!("unexpected variant: {other:?}"),
    }
}

#[test]
fn test_server_message_joined_left_maps() {
    let server_msg = ServerMessage::JoinedLeft {
        nickname: "bob".to_owned(),
        team: Team::Red,
        joined: true,
    };
    match dispatch(server_msg) {
        Some(NetworkEvent::JoinedLeft { nickname, team, joined }) => {
            assert_eq!(nickname, "bob");
            assert_eq!(team, Team::Red);
            assert!(joined);
        }
        other => panic!("unexpected variant: {other:?}"),
    }
}

#[test]
fn test_server_message_who_list_maps() {
    let players = vec![
        PlayerEntry { nick: "alice".to_owned(), team: Team::Red },
        PlayerEntry { nick: "bob".to_owned(), team: Team::Blue },
    ];
    match dispatch(ServerMessage::WhoList { players: players.clone() }) {
        Some(NetworkEvent::WhoList(p)) => assert_eq!(p, players),
        other => panic!("unexpected variant: {other:?}"),
    }
}

#[test]
fn pongs_limits_and_errors_become_no_event() {
    assert!(dispatch(ServerMessage::Pong { seq: 1 }).is_none());
    assert!(dispatch(ServerMessage::RateLimited { reason: "x".to_owned() }).is_none());
    assert!(dispatch(ServerMessage::Error { reason: "x".to_owned() }).is_none());
}

#[test]
fn commands_become_messages() {
    let sent = |c| match on_command(Some(c)) {
        ClientStep::Send(m) => m,
        _ => panic!("nothing to send"),
    };
    assert_eq!(
        sent(NetworkCommand::Say("hello world".to_owned())),
        ClientMessage::Say { text: "hello world".to_owned() }
    );
    assert_eq!(
        sent(NetworkCommand::SayTeam("go left".to_owned())),
        ClientMessage::SayTeam { text: "go left".to_owned() }
    );
    assert_eq!(sent(NetworkCommand::Who), ClientMessage::Who);
    assert!(matches!(on_command(Some(NetworkCommand::Shutdown)), ClientStep::Exit));
    assert!(matches!(on_command(None), ClientStep::Exit));
}

/// A loop whose socket is about to open.
fn opening(platform: Platform) -> ClientLoop {
    let mut c = ClientLoop::new(platform, "Fox".to_owned());
    let (delay, notice) = c.begin();
    assert_eq!(delay, 0);
    assert!(notice.is_none());
    assert!(matches!(c.connect_result(true), ClientStep::Continue));
    c
}

#[test]
fn the_handshake_follows_the_open() {
    let mut c = opening(Platform::Native);
    assert!(matches!(c.on_socket(SocketEvent::Malformed), ClientStep::Continue));
    assert!(matches!(c.on_quiet(), ClientStep::Continue));
    match c.on_socket(SocketEvent::Opened) {
        ClientStep::Send(m) => assert_eq!(
            m,
            ClientMessage::Connect { nickname: "Fox".to_owned(), team: Team::NoTeam }
        ),
        _ => panic!("expected the handshake"),
    }
    assert_eq!(c.phase(), Phase::Live);
    assert!(matches!(c.on_socket(SocketEvent::Opened), ClientStep::Continue));
    assert!(matches!(c.on_socket(SocketEvent::Other), ClientStep::Continue));
}

#[test]
fn failed_attempts_are_counted_and_announced() {
    let mut c = ClientLoop::new(Platform::Native, "Fox".to_owned());
    assert_eq!(c.next(), 1);
    assert!(matches!(c.connect_result(false), ClientStep::Retry(None)));
    assert_eq!(c.next(), 2);
    assert!(c.notice(0).is_none());
    assert!(matches!(
        c.notice(700),
        Some(NetworkEvent::Reconnecting { attempt: 2, delay_ms: 700 })
    ));
}

#[test]
fn begin_draws_a_delay_and_announces_it() {
    let mut c = ClientLoop::new(Platform::Native, "Fox".to_owned());
    for attempt in 1..=8u32 {
        let (delay, notice) = c.begin();
        assert!(delay <= delay_bound_ms(attempt));
        match notice {
            None => assert_eq!(delay, 0),
            Some(NetworkEvent::Reconnecting { attempt: a, delay_ms }) => {
                assert_eq!((a, delay_ms), (attempt, delay));
            }
            other => panic!("unexpected notice: {other:?}"),
        }
        c.connect_result(false);
    }
}

#[test]
fn a_live_connection_that_ends_is_retried_at_once() {
    for event in [SocketEvent::Closed, SocketEvent::Failed] {
        let mut c = opening(Platform::Browser);
        c.on_socket(SocketEvent::Opened);
        assert!(matches!(
            c.on_socket(event),
            ClientStep::Retry(Some(NetworkEvent::Disconnected))
        ));
        assert_eq!(c.phase(), Phase::Apart);
        assert_eq!(c.next(), 1);
    }
}

#[test]
fn connections_that_never_open_are_counted() {
    for platform in [Platform::Native, Platform::Browser] {
        let mut c = opening(platform);
        for attempt in 2..=8u32 {
            let ended = if attempt % 2 == 0 { SocketEvent::Closed } else { SocketEvent::Failed };
            assert!(matches!(
                c.on_socket(ended),
                ClientStep::Retry(Some(NetworkEvent::Disconnected))
            ));
            assert_eq!(c.next(), attempt);
            assert!(matches!(
                c.notice(1),
                Some(NetworkEvent::Reconnecting { attempt: a, delay_ms: 1 }) if a == attempt
            ));
            c.connect_result(true);
        }
        // Once it has been open, the count begins anew.
        c.on_socket(SocketEvent::Opened);
        c.on_socket(SocketEvent::Closed);
        assert_eq!(c.next(), 1);
    }
}

#[test]
fn a_server_that_never_opens_is_not_stormed() {
    let mut c = opening(Platform::Native);
    let mut waited = 0;
    for _ in 0..50 {
        c.on_socket(SocketEvent::Closed);
        let (delay, notice) = c.begin();
        assert_eq!(notice.is_some(), delay > 0);
        waited += delay;
        c.connect_result(true);
    }
    assert!(waited > 30_000, "back-off appears broken: waited {waited}ms in all");
}

#[test]
fn a_browser_gives_up_after_ten_seconds() {
    let mut c = opening(Platform::Browser);
    for _ in 0..2000 {
        assert!(matches!(c.on_quiet(), ClientStep::Continue));
    }
    assert!(matches!(
        c.on_quiet(),
        ClientStep::Retry(Some(NetworkEvent::Disconnected))
    ));
    let mut n = opening(Platform::Native);
    for _ in 0..3000 {
        assert!(matches!(n.on_quiet(), ClientStep::Continue));
    }
}

#[test]
fn a_browser_handles_32_texts_in_a_tick() {
    let mut c = opening(Platform::Browser);
    c.on_socket(SocketEvent::Opened);
    c.begin_tick();
    for i in 0..32 {
        assert!(c.may_poll());
        if i % 2 == 0 {
            assert!(matches!(c.on_socket(SocketEvent::Malformed), ClientStep::Continue));
        } else {
            let m = ServerMessage::JoinedLeft {
                nickname: "bob".to_owned(),
                team: Team::Red,
                joined: false,
            };
            assert!(matches!(
                c.on_socket(SocketEvent::Message(m)),
                ClientStep::Deliver(NetworkEvent::JoinedLeft { joined: false, .. })
            ));
        }
    }
    assert!(!c.may_poll());
    c.begin_tick();
    assert!(c.may_poll());
}

#[test]
fn pings_are_numbered_from_zero() {
    let mut c = opening(Platform::Native);
    c.on_socket(SocketEvent::Opened);
    for seq in 0..3 {
        assert_eq!(c.on_heartbeat(), ClientMessage::Ping { seq });
    }
    c.on_socket(SocketEvent::Closed);
    c.next();
    c.connect_result(true);
    c.on_socket(SocketEvent::Opened);
    assert_eq!(c.on_heartbeat(), ClientMessage::Ping { seq: 0 });
}

#[test]
fn events_and_commands_are_clone() {
    let event = NetworkEvent::Reconnecting { attempt: 3, delay_ms: 4 };
    assert_eq!(format!("{:?}", event.clone()), format!("{event:?}"));
    let command = NetworkCommand::Say("hi".to_owned());
    assert_eq!(format!("{:?}", command.clone()), format!("{command:?}"));
    assert_eq!(AppEvent::ChatWakeup, AppEvent::ChatWakeup.clone());
}
