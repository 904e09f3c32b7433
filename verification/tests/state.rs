//! The connection registry and the scrollback ring.
use ffoie_chat::config::{Config, Env};
use ffoie_chat::health::healthz_handler;
use ffoie_chat::protocol::{Channel, ChatMessage, PlayerEntry, ServerMessage, Team};
use ffoie_chat::state::{AppState, BroadcastEvent, ConnInfo};

fn test_config() -> Config {
    Config::from_env(&Env { vars: Vec::new() }, true).unwrap()
}

fn make_msg(from: &str) -> ChatMessage {
    ChatMessage {
        from: from.to_string(),
        team: Team::NoTeam,
        channel: Channel::All,
        text: "hi".to_string(),
        ts: 0,
    }
}

#[test]
fn scrollback_eviction() {
    let config = test_config();
    let mut state = AppState::new(config.clone());
    let capacity = config.scrollback_size; // default 50

    // Push capacity + 1 messages.
    for i in 0..=capacity {
        state.push_scrollback(make_msg(&format!("user{i}")));
    }

    let snap = state.scrollback_snapshot();
    assert_eq!(snap.len(), capacity, "ring should be at capacity after eviction");
    // The first message ("user0") must have been evicted.
    assert!(
        !snap.iter().any(|m| m.from == "user0"),
        "first message should have been evicted"
    );
    // The last message ("user{capacity}") must still be present.
    assert!(
        snap.iter().any(|m| m.from == format!("user{capacity}")),
        "last message should be present"
    );
}

#[test]
fn who_list_returns_all_registered() {
    let mut state = AppState::new(test_config());

    let id1 = uuid::Uuid::new_v4().as_u128();
    let id2 = uuid::Uuid::new_v4().as_u128();
    state.register_conn(ConnInfo { session_id: id1, nickname: "Alice".into(), team: Team::Red });
    state.register_conn(ConnInfo { session_id: id2, nickname: "Bob".into(), team: Team::Blue });

    let list = state.who_list();
    assert_eq!(list.len(), 2);
    let nicks: Vec<_> = list.iter().map(|p| p.nick.as_str()).collect();
    assert!(nicks.contains(&"Alice"));
    assert!(nicks.contains(&"Bob"));
}

#[test]
fn remove_conn_decrements_count() {
    let mut state = AppState::new(test_config());
    let id = uuid::Uuid::new_v4().as_u128();
    state.register_conn(ConnInfo { session_id: id, nickname: "Ghost".into(), team: Team::Red });
    assert_eq!(state.connection_count(), 1);
    state.remove_conn(id);
    assert_eq!(state.connection_count(), 0);
}

#[test]
fn broadcast_event_is_clone() {
    let ev = BroadcastEvent {
        msg: ServerMessage::Pong { seq: 1 },
        team_filter: Some(Team::Red),
    };
    let copy = ev.clone();
    assert_eq!(copy.msg, ServerMessage::Pong { seq: 1 });
    assert_eq!(copy.team_filter, Some(Team::Red));
}

#[test]
fn scrollback_keeps_the_latest_in_order() {
    let mut config = test_config();
    config.scrollback_size = 3;
    let mut state = AppState::new(config);
    for i in 0..5 {
        state.push_scrollback(make_msg(&format!("user{i}")));
    }
    let names: Vec<String> = state.scrollback_snapshot().into_iter().map(|m| m.from).collect();
    assert_eq!(names, ["user2", "user3", "user4"]);
}

#[test]
fn scrollback_of_size_zero_keeps_nothing() {
    let mut config = test_config();
    config.scrollback_size = 0;
    let mut state = AppState::new(config);
    state.push_scrollback(make_msg("user"));
    assert!(state.scrollback_snapshot().is_empty());
}

#[test]
fn registering_twice_replaces() {
    let mut state = AppState::new(test_config());
    state.register_conn(ConnInfo { session_id: 7, nickname: "A".into(), team: Team::Red });
    state.register_conn(ConnInfo { session_id: 7, nickname: "B".into(), team: Team::Blue });
    assert_eq!(
        state.who_list(),
        vec![PlayerEntry { nick: "B".to_string(), team: Team::Blue }]
    );
}

#[test]
fn removing_what_is_not_there_changes_nothing() {
    let mut state = AppState::new(test_config());
    state.register_conn(ConnInfo { session_id: 7, nickname: "A".into(), team: Team::Red });
    state.remove_conn(8);
    assert_eq!(state.connection_count(), 1);
}

#[test]
fn assigned_nicknames_are_registered_and_unique() {
    let mut state = AppState::new(test_config());
    assert_eq!(state.assign_and_register(1, " Fox ", Team::Red), "Fox");
    let second = state.assign_and_register(2, "Fox", Team::Blue);
    assert!(second.starts_with("Fox#"));
    assert_eq!(second.len(), 8);
    let draws = vec![42; 11];
    assert_eq!(state.assign_and_register_from(3, "", Team::Red, &draws), "guest");
    assert_eq!(state.assign_and_register_from(4, "guest", Team::Red, &draws), "guest#0042");
    let mut nicks: Vec<String> = state.who_list().into_iter().map(|p| p.nick).collect();
    nicks.sort();
    nicks.dedup();
    assert_eq!(nicks.len(), 4);
    let taken = state.taken_nicks();
    assert!(taken.contains("Fox") && taken.contains(&second) && !taken.contains("Hen"));
}

#[test]
fn health_report() {
    let mut state = AppState::new(test_config());
    state.register_conn(ConnInfo { session_id: 7, nickname: "A".into(), team: Team::Red });
    let report = healthz_handler(&state, 12);
    assert_eq!(report.status, "ok");
    assert_eq!(report.uptime_seconds, 12);
    assert_eq!(report.connections, 1);
    assert_eq!(report.version, "v1.1");
}
