//! Configuration from environment variables.
use ffoie_chat::config::{bind_text, wants_json_log, Config, ConfigError, Env, ValueError};
use ffoie_chat::network::settings::ClientSettings;
use ffoie_chat::text::IntError;

fn env(vars: &[(&str, &str)]) -> Env {
    Env {
        vars: vars
            .iter()
            .map(|(name, value)| (name.to_string(), Some(value.to_string())))
            .collect(),
    }
}

#[test]
fn empty_environment_gives_the_defaults() {
    let c = Config::from_env(&env(&[]), true).unwrap();
    assert_eq!(c.bind, "0.0.0.0:8080");
    assert_eq!(c.motd, "Welcome to FFOIE chat — be excellent to each other");
    assert_eq!(c.heartbeat_secs, 15);
    assert_eq!(c.max_msg_bytes, 500);
    assert_eq!(c.rate_burst, 10);
    assert_eq!(c.rate_refill_per_sec, 2);
    assert_eq!(c.broadcast_capacity, 1024);
    assert_eq!(c.scrollback_size, 50);
    assert_eq!(c.max_lag_disconnects, 3);
}

#[test]
fn variables_override_the_defaults() {
    let c = Config::from_env(&env(&[
        ("FFOIE_CHAT_BIND", "127.0.0.1:9"),
        ("FFOIE_CHAT_MOTD", ""),
        ("FFOIE_CHAT_HEARTBEAT_SECS", "18446744073709551615"),
        ("FFOIE_CHAT_MAX_MSG_BYTES", "+64"),
        ("FFOIE_CHAT_RATE_BURST", "4294967295"),
        ("FFOIE_CHAT_RATE_REFILL_PER_SEC", "0"),
        ("FFOIE_CHAT_BROADCAST_CAPACITY", "00016"),
        ("FFOIE_CHAT_SCROLLBACK_SIZE", "7"),
        ("FFOIE_CHAT_MAX_LAG_DISCONNECTS", "1"),
    ]), true)
    .unwrap();
    assert_eq!(c.bind, "127.0.0.1:9");
    assert_eq!(c.motd, "");
    assert_eq!(c.heartbeat_secs, u64::MAX);
    assert_eq!(c.max_msg_bytes, 64);
    assert_eq!(c.rate_burst, u32::MAX);
    assert_eq!(c.rate_refill_per_sec, 0);
    assert_eq!(c.broadcast_capacity, 16);
    assert_eq!(c.scrollback_size, 7);
    assert_eq!(c.max_lag_disconnects, 1);
}

#[test]
fn each_kind_of_bad_number_is_reported() {
    let bad = |value: &str| {
        Config::from_env(&env(&[("FFOIE_CHAT_RATE_BURST", value)]), true).unwrap_err()
    };
    let error = |e| ConfigError {
        var: "FFOIE_CHAT_RATE_BURST",
        error: ValueError::Number(e),
    };
    assert_eq!(bad(""), error(IntError::Empty));
    assert_eq!(bad("ten"), error(IntError::InvalidDigit));
    assert_eq!(bad("+"), error(IntError::InvalidDigit));
    assert_eq!(bad("-1"), error(IntError::InvalidDigit));
    assert_eq!(bad(" 1"), error(IntError::InvalidDigit));
    assert_eq!(bad("4294967296"), error(IntError::PosOverflow));
}

/// An environment with one variable whose value is not valid Unicode.
fn garbled(name: &str) -> Env {
    Env { vars: vec![(name.to_string(), None)] }
}

#[test]
fn a_number_that_is_not_unicode_is_an_error() {
    for name in [
        "FFOIE_CHAT_HEARTBEAT_SECS",
        "FFOIE_CHAT_MAX_MSG_BYTES",
        "FFOIE_CHAT_RATE_BURST",
        "FFOIE_CHAT_RATE_REFILL_PER_SEC",
        "FFOIE_CHAT_BROADCAST_CAPACITY",
        "FFOIE_CHAT_SCROLLBACK_SIZE",
        "FFOIE_CHAT_MAX_LAG_DISCONNECTS",
    ] {
        let e = Config::from_env(&garbled(name), true).unwrap_err();
        assert_eq!(e, ConfigError { var: name, error: ValueError::NotUnicode });
        assert_eq!(e.error.message(), "environment variable was not valid unicode");
    }
}

#[test]
fn a_text_that_is_not_unicode_counts_for_nothing() {
    let motd = Config::from_env(&garbled("FFOIE_CHAT_MOTD"), true).unwrap().motd;
    assert_eq!(motd, "Welcome to FFOIE chat — be excellent to each other");
    assert_eq!(bind_text(&garbled("FFOIE_CHAT_BIND")), "0.0.0.0:8080");
    assert_eq!(ClientSettings::from_env(&garbled("FFOIE_NICK"), None).nick, "guest");
    let s = ClientSettings::from_env(&garbled("FFOIE_CHAT_HEARTBEAT_SECS"), None);
    assert_eq!(s.heartbeat_secs, 15);
}

#[test]
fn an_address_that_does_not_parse_is_an_error_and_the_first() {
    let vars = env(&[("FFOIE_CHAT_BIND", "nowhere"), ("FFOIE_CHAT_RATE_BURST", "x")]);
    assert_eq!(bind_text(&vars), "nowhere");
    let e = Config::from_env(&vars, false).unwrap_err();
    assert_eq!(e, ConfigError { var: "FFOIE_CHAT_BIND", error: ValueError::Address });
    assert_eq!(e.error.message(), "invalid socket address syntax");
}

#[test]
fn the_first_bad_variable_is_reported() {
    let e = Config::from_env(&env(&[
        ("FFOIE_CHAT_MAX_LAG_DISCONNECTS", "x"),
        ("FFOIE_CHAT_SCROLLBACK_SIZE", "y"),
    ]), true)
    .unwrap_err();
    assert_eq!(e.var, "FFOIE_CHAT_SCROLLBACK_SIZE");
}

#[test]
fn numbers_are_read_as_the_standard_library_reads_them() {
    for value in [
        "", "+", "-", "0", "+0", "-0", "007", "42", "4294967295", "4294967296", "99999999999999999999",
        "99999999999999999999x", "12x", "x12", "1 2", "1_000", "٣", "++1", "+-1",
    ] {
        let ours = Config::from_env(&env(&[("FFOIE_CHAT_RATE_BURST", value)]), true);
        match value.parse::<u32>() {
            Ok(n) => assert_eq!(ours.unwrap().rate_burst, n, "{value:?}"),
            Err(e) => {
                assert_eq!(ours.unwrap_err().error.message(), e.to_string(), "{value:?}")
            }
        }
    }
}

#[test]
fn json_log_is_asked_for_by_name() {
    assert!(wants_json_log("json"));
    assert!(wants_json_log(" JSON\n"));
    assert!(!wants_json_log(""));
    assert!(!wants_json_log("jsonl"));
    assert!(!wants_json_log("plain"));
}

#[test]
fn client_settings_default() {
    let s = ClientSettings::from_env(&env(&[]), None);
    assert_eq!(s.url, "ws://localhost:8080/ws");
    assert_eq!(s.nick, "guest");
    assert_eq!(s.heartbeat_secs, 15);
}

#[test]
fn client_settings_from_the_environment() {
    let vars = env(&[
        ("FFOIE_CHAT_URL", "wss://a/ws"),
        ("FFOIE_NICK", "Fox"),
        ("FFOIE_CHAT_HEARTBEAT_SECS", "20"),
    ]);
    let s = ClientSettings::from_env(&vars, Some("wss://b/ws"));
    assert_eq!(s.url, "wss://a/ws");
    assert_eq!(s.nick, "Fox");
    assert_eq!(s.heartbeat_secs, 20);
}

#[test]
fn client_settings_forgive_a_bad_heartbeat_and_use_the_built_in_url() {
    let s = ClientSettings::from_env(&env(&[("FFOIE_CHAT_HEARTBEAT_SECS", "soon")]), Some("wss://b/ws"));
    assert_eq!(s.url, "wss://b/ws");
    assert_eq!(s.heartbeat_secs, 15);
    let b = ClientSettings::for_browser(Some("wss://b/ws"));
    assert_eq!((b.url.as_str(), b.nick.as_str()), ("wss://b/ws", "guest"));
    assert_eq!(ClientSettings::for_browser(None).url, "ws://localhost:8080/ws");
}
