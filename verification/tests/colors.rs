//! Quake color codes, and what the panel shows.
use ffoie_chat::chat::{ChatState, ConnectionStatus};
use ffoie_chat::colors::{parse_colors, team_to_color, visible_spans, Rgb};
use ffoie_chat::panel::panel;
use ffoie_chat::protocol::{Channel, ChatMessage, Team};

fn white() -> Rgb {
    Rgb { r: 220, g: 220, b: 220 }
}
fn red() -> Rgb {
    Rgb { r: 215, g: 15, b: 15 }
}
fn yellow() -> Rgb {
    Rgb { r: 220, g: 220, b: 15 }
}
fn green() -> Rgb {
    Rgb { r: 15, g: 200, b: 15 }
}

#[test]
fn test_parse_colors_plain_text() {
    let spans = parse_colors("hello");
    assert_eq!(spans.len(), 1);
    assert_eq!(spans[0].0, white());
    assert_eq!(spans[0].1, "hello");
}

#[test]
fn test_parse_colors_single_code() {
    let spans = parse_colors("^1red text");
    // One empty initial flush + one span for "red text".
    // Filter empties as the renderer does.
    let non_empty: Vec<_> = spans.into_iter().filter(|(_, s)| !s.is_empty()).collect();
    assert_eq!(non_empty.len(), 1);
    assert_eq!(non_empty[0].0, red());
    assert_eq!(non_empty[0].1, "red text");
}

#[test]
fn test_parse_colors_mixed() {
    let spans = parse_colors("^3FFOIE^7 chat");
    let non_empty: Vec<_> = spans.into_iter().filter(|(_, s)| !s.is_empty()).collect();
    assert_eq!(non_empty.len(), 2);
    assert_eq!(non_empty[0].0, yellow());
    assert_eq!(non_empty[0].1, "FFOIE");
    assert_eq!(non_empty[1].0, white());
    assert_eq!(non_empty[1].1, " chat");
}

#[test]
fn test_parse_colors_trailing_caret() {
    let spans = parse_colors("end^");
    let non_empty: Vec<_> = spans.into_iter().filter(|(_, s)| !s.is_empty()).collect();
    assert_eq!(non_empty.len(), 1);
    assert_eq!(non_empty[0].0, white());
    assert_eq!(non_empty[0].1, "end^");
}

#[test]
fn test_parse_colors_unknown_code() {
    // ^9 is not in 0..=7 — should be emitted as literal "^9".
    let spans = parse_colors("^9unknown");
    let non_empty: Vec<_> = spans.into_iter().filter(|(_, s)| !s.is_empty()).collect();
    assert_eq!(non_empty.len(), 1);
    assert_eq!(non_empty[0].0, white());
    assert_eq!(non_empty[0].1, "^9unknown");
}

#[test]
fn test_parse_colors_empty() {
    let spans = parse_colors("");
    assert!(spans.is_empty());
}

#[test]
fn test_parse_colors_all_codes() {
    // Verify each ^0..^7 code produces a non-empty flush and switches color.
    let text = "^0a^1b^2c^3d^4e^5f^6g^7h";
    let spans = parse_colors(text);
    let non_empty: Vec<_> = spans.into_iter().filter(|(_, s)| !s.is_empty()).collect();
    // Expect 8 non-empty spans: a, b, c, d, e, f, g, h.
    assert_eq!(non_empty.len(), 8);
    assert_eq!(non_empty[0].1, "a");
    assert_eq!(non_empty[7].1, "h");
    assert_eq!(non_empty[7].0, white());
}

#[test]
fn every_code_has_its_color() {
    let colors: Vec<(u8, u8, u8)> = visible_spans("^0a^1b^2c^3d^4e^5f^6g^7h")
        .into_iter()
        .map(|(c, _)| (c.r, c.g, c.b))
        .collect();
    assert_eq!(
        colors,
        [
            (25, 25, 25),
            (215, 15, 15),
            (15, 200, 15),
            (220, 220, 15),
            (15, 15, 200),
            (15, 210, 210),
            (210, 15, 210),
            (220, 220, 220),
        ]
    );
}

#[test]
fn empty_spans_are_kept_but_not_shown() {
    let spans = parse_colors("^1^2text");
    assert_eq!(spans.len(), 3);
    assert_eq!(spans[0], (white(), String::new()));
    assert_eq!(spans[1], (red(), String::new()));
    assert_eq!(spans[2], (green(), "text".to_string()));
    assert_eq!(visible_spans("^1^2text"), vec![(green(), "text".to_string())]);
}

#[test]
fn a_caret_goes_with_the_character_after_it() {
    assert_eq!(parse_colors("^^1a"), vec![(white(), "^^1a".to_string())]);
    assert_eq!(parse_colors("^é^1€"), vec![(white(), "^é".to_string()), (red(), "€".to_string())]);
    assert_eq!(parse_colors("^"), vec![(white(), "^".to_string())]);
}

#[test]
fn only_the_codes_are_lost() {
    let text = "a^1b^^c^9d^7^7e^";
    let joined: String = parse_colors(text).into_iter().map(|(_, s)| s).collect();
    assert_eq!(joined, "ab^^c^9de^");
    assert_eq!(parse_colors(text).len(), 4);
}

#[test]
fn team_colors() {
    assert_eq!(team_to_color(Team::Red), Rgb { r: 220, g: 80, b: 80 });
    assert_eq!(team_to_color(Team::Blue), Rgb { r: 80, g: 140, b: 220 });
    assert_eq!(team_to_color(Team::NoTeam), Rgb { r: 200, g: 200, b: 200 });
}

fn said(channel: Channel, text: &str) -> ChatMessage {
    ChatMessage {
        from: "bob".to_string(),
        team: Team::Blue,
        channel,
        text: text.to_string(),
        ts: 0,
    }
}

#[test]
fn panel_before_the_first_connection() {
    let p = panel(&ChatState::new());
    assert!(p.badge.is_none());
    assert_eq!(p.header.unwrap().text, "Connecting…");
    assert!(p.hint.is_none() && p.prompt.is_none());
    assert!(p.system.is_empty() && p.lines.is_empty());
}

#[test]
fn panel_while_reconnecting() {
    let mut state = ChatState::new();
    state.connection_status = ConnectionStatus::Reconnecting { attempt: 12, delay_ms: 5 };
    let p = panel(&state);
    let badge = p.badge.unwrap();
    assert_eq!(badge.text, "Reconnecting… (attempt 12)");
    assert_eq!(badge.color, Rgb { r: 255, g: 200, b: 60 });
    assert!(p.header.is_none());
}

#[test]
fn collapsed_panel_shows_the_player_and_the_keys() {
    let mut state = ChatState::new();
    state.nickname = Some("fox".to_string());
    state.team = Some(Team::Red);
    state.connection_status = ConnectionStatus::Connected;
    state.push_system("hello".to_string());
    state.push_message(said(Channel::All, "hi"));
    let p = panel(&state);
    let header = p.header.unwrap();
    assert_eq!(header.text, "[fox]");
    assert_eq!(header.color, team_to_color(Team::Red));
    assert_eq!(p.hint.unwrap().text, "T: chat  Y: team");
    assert!(p.system.is_empty() && p.lines.is_empty() && p.prompt.is_none());
}

#[test]
fn open_panel_shows_the_histories_and_the_prompt() {
    let mut state = ChatState::new();
    state.push_system("one".to_string());
    state.push_system("two".to_string());
    state.push_message(said(Channel::All, "^1hi"));
    state.push_message(said(Channel::Team, "go"));
    state.open_input(Channel::Team);
    let p = panel(&state);
    let system: Vec<&str> = p.system.iter().map(|l| l.text.as_str()).collect();
    assert_eq!(system, ["one", "two"]);
    assert_eq!(p.system[0].color, Rgb { r: 160, g: 160, b: 160 });
    assert_eq!(p.lines[0].sender.text, "bob: ");
    assert_eq!(p.lines[0].sender.color, team_to_color(Team::Blue));
    assert_eq!(p.lines[0].spans, vec![(red(), "hi".to_string())]);
    assert_eq!(p.lines[1].sender.text, "[TEAM] bob: ");
    let prompt = p.prompt.unwrap();
    assert_eq!(prompt.text, "[TEAM] ");
    assert_eq!(prompt.color, team_to_color(Team::NoTeam));
    assert!(p.hint.is_none());
    state.channel = Channel::All;
    let prompt = panel(&state).prompt.unwrap();
    assert_eq!(prompt.text, "[ALL] ");
    assert_eq!(prompt.color, Rgb { r: 200, g: 200, b: 200 });
}
