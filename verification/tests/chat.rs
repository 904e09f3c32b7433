//! The chat HUD's state.
use ffoie_chat::chat::{
    drain_network, drain_queue, drain_step, submit, ChatState, ConnectionStatus, CHAT_HISTORY_LEN,
};
use ffoie_chat::network::types::{NetworkCommand, NetworkEvent, NetworkHandle};
use ffoie_chat::protocol::{Channel, ChatMessage, PlayerEntry, Team};
use std::collections::VecDeque;
use std::sync::mpsc;

fn message(i: u64) -> ChatMessage {
    ChatMessage {
        from: "x".to_string(),
        team: Team::NoTeam,
        channel: Channel::All,
        text: i.to_string(),
        ts: i,
    }
}

#[test]
fn test_max_messages_cap() {
    let mut state = ChatState::new();
    for i in 0..250u64 {
        state.push_message(ChatMessage {
            from: "x".to_string(),
            team: Team::NoTeam,
            channel: Channel::All,
            text: i.to_string(),
            ts: i,
        });
    }
    assert_eq!(
        state.messages.len(),
        CHAT_HISTORY_LEN,
        "ring buffer must not exceed CHAT_HISTORY_LEN"
    );
    // Oldest (ts=0..49) should have been evicted; newest (ts=200..249) kept.
    let ts_oldest = state.messages.front().unwrap().ts;
    assert_eq!(ts_oldest, 50, "oldest evicted messages should be gone");
}

#[test]
fn test_submit_who() {
    let mut state = ChatState::new();
    state.chat_active = true;
    state.channel = Channel::All;
    state.input_buffer = "/who".to_string();
    let cmd = submit(&mut state);
    assert!(matches!(cmd, Some(NetworkCommand::Who)));
    assert!(!state.chat_active, "chat_active must be cleared after submit");
    assert!(state.input_buffer.is_empty());
}

#[test]
fn test_submit_who_with_args() {
    let mut state = ChatState::new();
    state.chat_active = true;
    state.channel = Channel::All;
    state.input_buffer = "/who all".to_string();
    let cmd = submit(&mut state);
    assert!(matches!(cmd, Some(NetworkCommand::Who)));
}

#[test]
fn test_submit_who_case_insensitive() {
    let mut state = ChatState::new();
    state.chat_active = true;
    state.channel = Channel::All;
    state.input_buffer = "/WHO".to_string();
    let cmd = submit(&mut state);
    assert!(matches!(cmd, Some(NetworkCommand::Who)));
}

#[test]
fn test_submit_say_all() {
    let mut state = ChatState::new();
    state.chat_active = true;
    state.channel = Channel::All;
    state.input_buffer = "hello".to_string();
    let cmd = submit(&mut state);
    assert!(matches!(cmd, Some(NetworkCommand::Say(ref s)) if s == "hello"));
}

#[test]
fn test_submit_say_team() {
    let mut state = ChatState::new();
    state.chat_active = true;
    state.channel = Channel::Team;
    state.input_buffer = "go left".to_string();
    let cmd = submit(&mut state);
    assert!(matches!(cmd, Some(NetworkCommand::SayTeam(ref s)) if s == "go left"));
}

#[test]
fn test_submit_empty() {
    let mut state = ChatState::new();
    state.chat_active = true;
    state.channel = Channel::All;
    state.input_buffer = "".to_string();
    let cmd = submit(&mut state);
    assert!(cmd.is_none());
    assert!(!state.chat_active, "chat_active must be cleared even on empty submit");
}

#[test]
fn test_submit_whitespace_only() {
    let mut state = ChatState::new();
    state.chat_active = true;
    state.channel = Channel::All;
    state.input_buffer = "   ".to_string();
    let cmd = submit(&mut state);
    assert!(cmd.is_none());
}

#[test]
fn test_drain_connected_populates_state() {
    let (tx, rx) = mpsc::channel::<NetworkEvent>();

    let scrollback = vec![ChatMessage {
        from: "alice".to_string(),
        team: Team::Red,
        channel: Channel::All,
        text: "hi".to_string(),
        ts: 1_000,
    }];

    tx.send(NetworkEvent::Connected {
        assigned_nick: "fox#1234".to_string(),
        assigned_team: Team::Blue,
        motd: "Welcome!".to_string(),
        scrollback: scrollback.clone(),
    })
    .unwrap();

    let mut state = ChatState::new();
    let consumed = drain_network(&rx, &mut state);

    assert_eq!(consumed.len(), 1);
    assert_eq!(state.nickname, Some("fox#1234".to_string()));
    assert_eq!(state.team, Some(Team::Blue));
    assert!(matches!(
        state.connection_status,
        ConnectionStatus::Connected
    ));
    // MOTD should appear in system messages.
    assert!(
        state
            .system_messages
            .iter()
            .any(|s| s.contains("Welcome!")),
        "MOTD must appear in system_messages"
    );
    // Scrollback should appear in messages.
    assert_eq!(state.messages.len(), 1);
    assert_eq!(state.messages[0].text, "hi");
}

#[test]
fn test_drain_cap_at_32() {
    let (tx, rx) = mpsc::channel::<NetworkEvent>();

    // Send 50 messages — only 32 should be drained.
    for i in 0..50u64 {
        tx.send(NetworkEvent::Message(ChatMessage {
            from: "x".to_string(),
            team: Team::NoTeam,
            channel: Channel::All,
            text: i.to_string(),
            ts: i,
        }))
        .unwrap();
    }

    let mut state = ChatState::new();
    let consumed = drain_network(&rx, &mut state);

    assert_eq!(consumed.len(), 32, "drain must be capped at 32 per frame");
    assert_eq!(state.messages.len(), 32);
}

#[test]
fn test_drain_reconnecting_updates_status() {
    let (tx, rx) = mpsc::channel::<NetworkEvent>();
    tx.send(NetworkEvent::Reconnecting {
        attempt: 3,
        delay_ms: 4_000,
    })
    .unwrap();

    let mut state = ChatState::new();
    drain_network(&rx, &mut state);

    assert!(
        matches!(
            state.connection_status,
            ConnectionStatus::Reconnecting { attempt: 3, .. }
        ),
        "status must be Reconnecting after drain"
    );
}

#[test]
fn the_rest_is_drained_in_the_next_frame() {
    let (tx, rx) = mpsc::channel();
    let (commands, _) = mpsc::channel();
    let handle = NetworkHandle { tx: commands, rx };
    for i in 0..50 {
        tx.send(NetworkEvent::Message(message(i))).unwrap();
    }
    let mut state = ChatState::default();
    drain_network(&handle.rx, &mut state);
    drop(tx);
    let consumed = drain_network(&handle.rx, &mut state);
    assert_eq!(consumed.len(), 18);
    let stamps: Vec<u64> = state.messages.iter().map(|m| m.ts).collect();
    assert_eq!(stamps, (0..50).collect::<Vec<u64>>());
    assert!(drain_network(&handle.rx, &mut state).is_empty());
}

#[test]
fn a_frame_takes_the_front_of_the_queue() {
    let mut queue: VecDeque<NetworkEvent> =
        (0..50).map(|i| NetworkEvent::Message(message(i))).collect();
    let mut state = ChatState::new();
    assert_eq!(drain_queue(&mut queue, &mut state).len(), 32);
    assert_eq!(queue.len(), 18);
    assert!(matches!(&queue[0], NetworkEvent::Message(m) if m.ts == 32));
    assert_eq!(state.messages.len(), 32);
    assert_eq!(drain_queue(&mut queue, &mut state).len(), 18);
    assert!(queue.is_empty());
    let stamps: Vec<u64> = state.messages.iter().map(|m| m.ts).collect();
    assert_eq!(stamps, (0..50).collect::<Vec<u64>>());
    assert!(drain_queue(&mut queue, &mut state).is_empty());
}

#[test]
fn drain_step_stops_at_the_cap_and_when_nothing_waits() {
    let mut state = ChatState::new();
    let mut consumed = Vec::new();
    for i in 0..31 {
        assert!(drain_step(Some(NetworkEvent::Message(message(i))), &mut state, &mut consumed));
    }
    assert!(!drain_step(Some(NetworkEvent::Disconnected), &mut state, &mut consumed));
    assert_eq!(consumed.len(), 32);
    assert_eq!(state.connection_status, ConnectionStatus::Connecting);
    assert!(!drain_step(None, &mut state, &mut consumed));
    assert_eq!(consumed.len(), 32);
}

#[test]
fn system_messages_read_as_documented() {
    let mut state = ChatState::new();
    let mut consumed = Vec::new();
    let player = |nick: &str, team| PlayerEntry { nick: nick.to_string(), team };
    let events = vec![
        NetworkEvent::JoinedLeft { nickname: "bob".into(), team: Team::Red, joined: true },
        NetworkEvent::JoinedLeft { nickname: "eve".into(), team: Team::NoTeam, joined: false },
        NetworkEvent::WhoList(vec![]),
        NetworkEvent::WhoList(vec![player("bob", Team::Red)]),
        NetworkEvent::WhoList(vec![
            player("bob", Team::Red),
            player("ann", Team::Blue),
            player("eve", Team::NoTeam),
        ]),
    ];
    for event in events {
        drain_step(Some(event), &mut state, &mut consumed);
    }
    let lines: Vec<&str> = state.system_messages.iter().map(|s| s.as_str()).collect();
    assert_eq!(
        lines,
        [
            "[server] bob (red) joined",
            "[server] eve (spectator) left",
            "[server] 0 players: ",
            "[server] 1 player: bob (red)",
            "[server] 3 players: bob (red), ann (blue), eve (spectator)",
        ]
    );
}

#[test]
fn system_history_keeps_the_latest_fifty() {
    let mut state = ChatState::new();
    for i in 0..60 {
        state.push_system(i.to_string());
    }
    assert_eq!(state.system_messages.len(), 50);
    assert_eq!(state.system_messages[0], "10");
    assert_eq!(state.system_messages[49], "59");
}

#[test]
fn a_long_scrollback_is_cut_to_the_latest() {
    let mut state = ChatState::new();
    let mut consumed = Vec::new();
    let welcome = NetworkEvent::Connected {
        assigned_nick: "fox".into(),
        assigned_team: Team::Red,
        motd: "hi".into(),
        scrollback: (0..205).map(message).collect(),
    };
    drain_step(Some(welcome), &mut state, &mut consumed);
    assert_eq!(state.messages.len(), 200);
    assert_eq!(state.messages[0].ts, 5);
    assert_eq!(state.messages[199].ts, 204);
    assert_eq!(state.system_messages[0], "[server] hi");
}

#[test]
fn opening_and_closing_the_input() {
    let mut state = ChatState::new();
    state.input_buffer = "left over".into();
    state.open_input(Channel::Team);
    assert!(state.chat_active);
    assert_eq!(state.channel, Channel::Team);
    assert_eq!(state.input_buffer, "");
    state.input_buffer = "draft".into();
    state.close_input();
    assert!(!state.chat_active);
    assert_eq!(state.input_buffer, "");
    assert_eq!(state.channel, Channel::Team);
}

#[test]
fn submitted_text_is_trimmed() {
    let mut state = ChatState::new();
    state.open_input(Channel::All);
    state.input_buffer = "\u{3000} Hello There \n".into();
    let cmd = submit(&mut state);
    assert!(matches!(cmd, Some(NetworkCommand::Say(ref s)) if s == "Hello There"));
    state.input_buffer = "  /wHoever".into();
    assert!(matches!(submit(&mut state), Some(NetworkCommand::Who)));
    state.input_buffer = "/wh".into();
    assert!(matches!(submit(&mut state), Some(NetworkCommand::Say(ref s)) if s == "/wh"));
}
