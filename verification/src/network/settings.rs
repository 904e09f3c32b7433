//! Where the client connects to, and as whom.
use vstd::prelude::*;

use crate::config;
use crate::config::{Env, Var};
use crate::text;

verus! {

/// The client's settings.
#[derive(Debug)]
pub struct ClientSettings {
    /// WebSocket URL of the chat server.
    pub url: String,
    /// Requested nickname.
    pub nick: String,
    /// Interval between pings in seconds.
    pub heartbeat_secs: u64,
}

/// The URL fixed when the program was built, or the one for a server on this machine.
pub open spec fn built_url(baked: Option<Seq<char>>) -> Seq<char> {
    match baked {
        Some(url) => url,
        None => "ws://localhost:8080/ws"@,
    }
}

/// The ping interval: the variable's number, or 15 where it holds none.
pub open spec fn ping_secs_of(env: config::EnvView) -> nat {
    match config::heartbeat_secs_of(env) {
        Ok(n) => n,
        Err(_) => 15,
    }
}

fn url_or_default(baked: Option<&str>) -> (r: String)
    ensures
        r@ == built_url(
            match baked {
                Some(url) => Some(url@),
                None => None,
            },
        ),
{
    match baked {
        Some(url) => url.to_owned(),
        None => "ws://localhost:8080/ws".to_owned(),
    }
}

impl ClientSettings {
    /// Reads the settings from environment variables; `baked` is a URL fixed when the program was
    /// built.
    pub fn from_env(env: &Env, baked: Option<&str>) -> (r: ClientSettings)
        ensures
            r.url@ == config::text_of(
                env@,
                "FFOIE_CHAT_URL"@,
                built_url(
                    match baked {
                        Some(url) => Some(url@),
                        None => None,
                    },
                ),
            ),
            r.nick@ == config::text_of(env@, "FFOIE_NICK"@, "guest"@),
            r.heartbeat_secs == ping_secs_of(env@),
    {
        let url = match env.get("FFOIE_CHAT_URL") {
            Var::Text(url) => url,
            _ => url_or_default(baked),
        };
        let nick = match env.get("FFOIE_NICK") {
            Var::Text(nick) => nick,
            _ => "guest".to_owned(),
        };
        let heartbeat_secs: u64 = match env.get("FFOIE_CHAT_HEARTBEAT_SECS") {
            Var::Text(v) => match text::parse_number(v.as_str(), u64::MAX) {
                Ok(n) => n,
                Err(_) => 15,
            },
            _ => 15,
        };
        ClientSettings { url, nick, heartbeat_secs }
    }

    /// The settings in a browser, which has no environment.
    pub fn for_browser(baked: Option<&str>) -> (r: ClientSettings)
        ensures
            r.url@ == built_url(
                match baked {
                    Some(url) => Some(url@),
                    None => None,
                },
            ),
            r.nick@ == "guest"@,
            r.heartbeat_secs == 15,
    {
        ClientSettings {
            url: url_or_default(baked),
            nick: "guest".to_owned(),
            heartbeat_secs: 15,
        }
    }
}

/// The URL that was built in is used if there is one; the ping interval is what its variable says, if
/// that is a number.
pub proof fn lemma_client_settings(url: Seq<char>, env: config::EnvView)
    ensures
        built_url(Some(url)) == url,
        built_url(None) == "ws://localhost:8080/ws"@,
        config::value_of(env, "FFOIE_CHAT_HEARTBEAT_SECS"@) matches config::VarView::Text(t) ==> {
            &&& text::parsed_number(t, 0xffff_ffff_ffff_ffff) matches Ok(n) ==> ping_secs_of(env)
                == n
            &&& text::parsed_number(t, 0xffff_ffff_ffff_ffff) is Err ==> ping_secs_of(env) == 15
        },
        !(config::value_of(env, "FFOIE_CHAT_HEARTBEAT_SECS"@) is Text) ==> ping_secs_of(env) == 15,
{
}

} // verus!
