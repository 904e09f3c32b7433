//! Server configuration, read from environment variables.
use vstd::prelude::*;

use crate::text;
use crate::text::IntError;

verus! {

// ── The environment ───────────────────────────────────────────────────────────

/// Environment variables as name and value. A value that is not valid Unicode is `None`.
pub struct Env {
    pub vars: Vec<(String, Option<String>)>,
}

/// The view of an [`Env`]: names and values.
pub type EnvView = Seq<(Seq<char>, Option<Seq<char>>)>;

impl View for Env {
    type V = EnvView;

    open spec fn view(&self) -> EnvView {
        Seq::new(self.vars@.len(), |i: int| (self.vars@[i].0@, text::text_view(self.vars@[i].1)))
    }
}

/// A variable, as far as it can be read.
#[derive(Debug)]
pub enum Var {
    /// It is not set.
    Unset,
    /// It is set to something that is not valid Unicode.
    NotUnicode,
    /// It is set to this text.
    Text(String),
}

/// The view of a [`Var`].
#[verifier::ext_equal]
pub enum VarView {
    Unset,
    NotUnicode,
    Text(Seq<char>),
}

impl View for Var {
    type V = VarView;

    open spec fn view(&self) -> VarView {
        match *self {
            Var::Unset => VarView::Unset,
            Var::NotUnicode => VarView::NotUnicode,
            Var::Text(s) => VarView::Text(s@),
        }
    }
}

/// The first variable called `name`.
pub open spec fn value_of(env: EnvView, name: Seq<char>) -> VarView
    decreases env.len(),
{
    if env.len() == 0 {
        VarView::Unset
    } else if env.first().0 == name {
        match env.first().1 {
            Some(v) => VarView::Text(v),
            None => VarView::NotUnicode,
        }
    } else {
        value_of(env.drop_first(), name)
    }
}

impl Env {
    /// The first variable called `name`.
    pub fn get(&self, name: &str) -> (r: Var)
        ensures
            r@ == value_of(self@, name@),
    {
        let wanted = name.to_owned();
        let mut i: usize = 0;
        assert(self@.skip(0) =~= self@);
        while i < self.vars.len()
            invariant
                i <= self.vars.len(),
                wanted@ == name@,
                value_of(self@.skip(i as int), name@) == value_of(self@, name@),
            decreases self.vars.len() - i,
        {
            let ghost rest = self@.skip(i as int);
            assert(rest.first() == self@[i as int]);
            if self.vars[i].0 == wanted {
                return match &self.vars[i].1 {
                    Some(v) => Var::Text(v.clone()),
                    None => Var::NotUnicode,
                };
            }
            assert(rest.drop_first() =~= self@.skip(i + 1));
            i += 1;
        }
        Var::Unset
    }
}

// ── Configuration ─────────────────────────────────────────────────────────────

/// Server configuration.
///
/// Every value has a default, so the server works with an empty environment.
#[derive(Debug)]
pub struct Config {
    /// Address and port the server binds to, as text.
    pub bind: String,
    /// Message of the day sent to every connecting client in the `Welcome`.
    pub motd: String,
    /// Interval between server heartbeats in seconds.
    pub heartbeat_secs: u64,
    /// Maximum size of a single chat message in bytes.
    pub max_msg_bytes: usize,
    /// Token-bucket burst capacity for per-connection rate limiting.
    pub rate_burst: u32,
    /// Token-bucket refill rate in tokens per second.
    pub rate_refill_per_sec: u32,
    /// Capacity of the broadcast channel.
    pub broadcast_capacity: usize,
    /// Number of recent messages kept in the scrollback ring.
    pub scrollback_size: usize,
    /// Consecutive lags before a slow client is disconnected.
    pub max_lag_disconnects: u32,
}

impl Clone for Config {
    fn clone(&self) -> (r: Self)
        ensures
            r == *self,
    {
        Config {
            bind: self.bind.clone(),
            motd: self.motd.clone(),
            heartbeat_secs: self.heartbeat_secs,
            max_msg_bytes: self.max_msg_bytes,
            rate_burst: self.rate_burst,
            rate_refill_per_sec: self.rate_refill_per_sec,
            broadcast_capacity: self.broadcast_capacity,
            scrollback_size: self.scrollback_size,
            max_lag_disconnects: self.max_lag_disconnects,
        }
    }
}

/// Why a variable does not hold what it should.
#[derive(Debug, Clone, Copy, PartialEq, Eq, Structural)]
pub enum ValueError {
    /// Its value is not valid Unicode.
    NotUnicode,
    /// Its value is no number of its kind.
    Number(IntError),
    /// Its value is no socket address.
    Address,
}

impl ValueError {
    /// What the error is called in a report to the operator.
    pub open spec fn spec_message(self) -> Seq<char> {
        match self {
            ValueError::NotUnicode => "environment variable was not valid unicode"@,
            ValueError::Number(e) => e.spec_message(),
            ValueError::Address => "invalid socket address syntax"@,
        }
    }

    /// The error as text.
    pub fn message(&self) -> (s: &'static str)
        ensures
            s@ == self.spec_message(),
    {
        match self {
            ValueError::NotUnicode => "environment variable was not valid unicode",
            ValueError::Number(e) => e.message(),
            ValueError::Address => "invalid socket address syntax",
        }
    }
}

/// A variable that does not hold what it should.
#[derive(Debug, Clone, Copy, PartialEq, Eq)]
pub struct ConfigError {
    /// The variable's name.
    pub var: &'static str,
    pub error: ValueError,
}

/// The number in the variable `name`, or `default` where it is not set; an error where it is set to
/// anything else.
pub open spec fn number_of(
    env: EnvView,
    name: Seq<char>,
    default: nat,
    max: nat,
) -> Result<nat, ValueError> {
    match value_of(env, name) {
        VarView::Unset => Ok(default),
        VarView::NotUnicode => Err(ValueError::NotUnicode),
        VarView::Text(v) => match text::parsed_number(v, max) {
            Ok(n) => Ok(n),
            Err(e) => Err(ValueError::Number(e)),
        },
    }
}

/// The text in the variable `name`, or `default` where it holds none.
pub open spec fn text_of(
    env: EnvView,
    name: Seq<char>,
    default: Seq<char>,
) -> Seq<char> {
    match value_of(env, name) {
        VarView::Text(v) => v,
        _ => default,
    }
}

pub open spec fn heartbeat_secs_of(env: EnvView) -> Result<nat, ValueError> {
    number_of(env, "FFOIE_CHAT_HEARTBEAT_SECS"@, 15, u64::MAX as nat)
}

pub open spec fn max_msg_bytes_of(env: EnvView) -> Result<nat, ValueError> {
    number_of(env, "FFOIE_CHAT_MAX_MSG_BYTES"@, 500, usize::MAX as nat)
}

pub open spec fn rate_burst_of(env: EnvView) -> Result<nat, ValueError> {
    number_of(env, "FFOIE_CHAT_RATE_BURST"@, 10, u32::MAX as nat)
}

pub open spec fn rate_refill_per_sec_of(env: EnvView) -> Result<nat, ValueError> {
    number_of(env, "FFOIE_CHAT_RATE_REFILL_PER_SEC"@, 2, u32::MAX as nat)
}

pub open spec fn broadcast_capacity_of(env: EnvView) -> Result<nat, ValueError> {
    number_of(env, "FFOIE_CHAT_BROADCAST_CAPACITY"@, 1024, usize::MAX as nat)
}

pub open spec fn scrollback_size_of(env: EnvView) -> Result<nat, ValueError> {
    number_of(env, "FFOIE_CHAT_SCROLLBACK_SIZE"@, 50, usize::MAX as nat)
}

pub open spec fn max_lag_disconnects_of(env: EnvView) -> Result<nat, ValueError> {
    number_of(env, "FFOIE_CHAT_MAX_LAG_DISCONNECTS"@, 3, u32::MAX as nat)
}

/// The first variable, in the order in which they are read, that does not hold what it should: the
/// address, then the numbers.
pub open spec fn first_bad(env: EnvView, bind_parses: bool) -> Option<(Seq<char>, ValueError)> {
    if !bind_parses {
        Some(("FFOIE_CHAT_BIND"@, ValueError::Address))
    } else if let Err(e) = heartbeat_secs_of(env) {
        Some(("FFOIE_CHAT_HEARTBEAT_SECS"@, e))
    } else if let Err(e) = max_msg_bytes_of(env) {
        Some(("FFOIE_CHAT_MAX_MSG_BYTES"@, e))
    } else if let Err(e) = rate_burst_of(env) {
        Some(("FFOIE_CHAT_RATE_BURST"@, e))
    } else if let Err(e) = rate_refill_per_sec_of(env) {
        Some(("FFOIE_CHAT_RATE_REFILL_PER_SEC"@, e))
    } else if let Err(e) = broadcast_capacity_of(env) {
        Some(("FFOIE_CHAT_BROADCAST_CAPACITY"@, e))
    } else if let Err(e) = scrollback_size_of(env) {
        Some(("FFOIE_CHAT_SCROLLBACK_SIZE"@, e))
    } else if let Err(e) = max_lag_disconnects_of(env) {
        Some(("FFOIE_CHAT_MAX_LAG_DISCONNECTS"@, e))
    } else {
        None
    }
}

/// Reads the variable `name` as a number of at most `max`; `default` if it is not set.
fn parse_or_default(env: &Env, name: &'static str, default: u64, max: u64) -> (r: Result<
    u64,
    ConfigError,
>)
    requires
        default <= max,
    ensures
        match r {
            Ok(n) => number_of(env@, name@, default as nat, max as nat) == Ok::<nat, ValueError>(
                n as nat,
            ) && n <= max,
            Err(e) => number_of(env@, name@, default as nat, max as nat) == Err::<nat, ValueError>(
                e.error,
            ) && e.var@ == name@,
        },
{
    match env.get(name) {
        Var::Unset => Ok(default),
        Var::NotUnicode => Err(ConfigError { var: name, error: ValueError::NotUnicode }),
        Var::Text(v) => match text::parse_number(v.as_str(), max) {
            Ok(n) => Ok(n),
            Err(e) => Err(ConfigError { var: name, error: ValueError::Number(e) }),
        },
    }
}

/// Reads the variable `name` as text; `default` if it holds none.
fn text_or_default(env: &Env, name: &str, default: &str) -> (r: String)
    ensures
        r@ == text_of(env@, name@, default@),
{
    match env.get(name) {
        Var::Text(v) => v,
        _ => default.to_owned(),
    }
}

/// The address to bind to, as text, before it is parsed.
pub fn bind_text(env: &Env) -> (r: String)
    ensures
        r@ == text_of(env@, "FFOIE_CHAT_BIND"@, "0.0.0.0:8080"@),
{
    text_or_default(env, "FFOIE_CHAT_BIND", "0.0.0.0:8080")
}

impl Config {
    /// Loads the configuration from environment variables, falling back to defaults.
    ///
    /// `bind_parses` says whether [`bind_text`] is a socket address. Fails if it is none, or if the
    /// variable of a number is set but holds no number of its kind.
    pub fn from_env(env: &Env, bind_parses: bool) -> (r: Result<Config, ConfigError>)
        ensures
            match r {
                Ok(c) => {
                    &&& bind_parses
                    &&& c.bind@ == text_of(env@, "FFOIE_CHAT_BIND"@, "0.0.0.0:8080"@)
                    &&& c.motd@ == text_of(
                        env@,
                        "FFOIE_CHAT_MOTD"@,
                        "Welcome to FFOIE chat — be excellent to each other"@,
                    )
                    &&& heartbeat_secs_of(env@) == Ok::<nat, ValueError>(c.heartbeat_secs as nat)
                    &&& max_msg_bytes_of(env@) == Ok::<nat, ValueError>(c.max_msg_bytes as nat)
                    &&& rate_burst_of(env@) == Ok::<nat, ValueError>(c.rate_burst as nat)
                    &&& rate_refill_per_sec_of(env@) == Ok::<nat, ValueError>(
                        c.rate_refill_per_sec as nat,
                    )
                    &&& broadcast_capacity_of(env@) == Ok::<nat, ValueError>(
                        c.broadcast_capacity as nat,
                    )
                    &&& scrollback_size_of(env@) == Ok::<nat, ValueError>(c.scrollback_size as nat)
                    &&& max_lag_disconnects_of(env@) == Ok::<nat, ValueError>(
                        c.max_lag_disconnects as nat,
                    )
                },
                Err(e) => first_bad(env@, bind_parses) == Some((e.var@, e.error)),
            },
    {
        let bind = bind_text(env);
        if !bind_parses {
            return Err(ConfigError { var: "FFOIE_CHAT_BIND", error: ValueError::Address });
        }
        let motd = text_or_default(
            env,
            "FFOIE_CHAT_MOTD",
            "Welcome to FFOIE chat — be excellent to each other",
        );
        let word: u64 = usize::MAX as u64;
        let half: u64 = u32::MAX as u64;
        let heartbeat_secs = parse_or_default(env, "FFOIE_CHAT_HEARTBEAT_SECS", 15, u64::MAX)?;
        let max_msg_bytes = parse_or_default(env, "FFOIE_CHAT_MAX_MSG_BYTES", 500, word)? as usize;
        let rate_burst = parse_or_default(env, "FFOIE_CHAT_RATE_BURST", 10, half)? as u32;
        let rate_refill_per_sec =
            parse_or_default(env, "FFOIE_CHAT_RATE_REFILL_PER_SEC", 2, half)? as u32;
        let broadcast_capacity =
            parse_or_default(env, "FFOIE_CHAT_BROADCAST_CAPACITY", 1024, word)? as usize;
        let scrollback_size =
            parse_or_default(env, "FFOIE_CHAT_SCROLLBACK_SIZE", 50, word)? as usize;
        let max_lag_disconnects =
            parse_or_default(env, "FFOIE_CHAT_MAX_LAG_DISCONNECTS", 3, half)? as u32;
        Ok(
            Config {
                bind,
                motd,
                heartbeat_secs,
                max_msg_bytes,
                rate_burst,
                rate_refill_per_sec,
                broadcast_capacity,
                scrollback_size,
                max_lag_disconnects,
            },
        )
    }
}

/// Whether the log is to be written as JSON, as `RUST_LOG_FORMAT` asks.
pub fn wants_json_log(log_format: &str) -> (r: bool)
    ensures
        r == (text::lowered(text::trimmed(log_format@)) == text::lowered("json"@)),
{
    let trimmed = text::trim(log_format);
    text::eq_lowered(trimmed.as_str(), "json")
}

// ── What the configuration guarantees ─────────────────────────────────────────

/// Whether `name` is the variable of one of the numbers.
pub open spec fn is_number_var(name: Seq<char>) -> bool {
    ||| name == "FFOIE_CHAT_HEARTBEAT_SECS"@
    ||| name == "FFOIE_CHAT_MAX_MSG_BYTES"@
    ||| name == "FFOIE_CHAT_RATE_BURST"@
    ||| name == "FFOIE_CHAT_RATE_REFILL_PER_SEC"@
    ||| name == "FFOIE_CHAT_BROADCAST_CAPACITY"@
    ||| name == "FFOIE_CHAT_SCROLLBACK_SIZE"@
    ||| name == "FFOIE_CHAT_MAX_LAG_DISCONNECTS"@
}

/// Loading fails if the address is none or a number is bad, and in no other case. The address is
/// blamed first; a number is blamed only if it is set.
pub proof fn lemma_what_fails(env: EnvView, bind_parses: bool)
    ensures
        first_bad(env, bind_parses) is Some <==> !bind_parses || heartbeat_secs_of(env) is Err
            || max_msg_bytes_of(env) is Err || rate_burst_of(env) is Err || rate_refill_per_sec_of(
            env,
        ) is Err || broadcast_capacity_of(env) is Err || scrollback_size_of(env) is Err
            || max_lag_disconnects_of(env) is Err,
        !bind_parses ==> first_bad(env, bind_parses) == Some(
            ("FFOIE_CHAT_BIND"@, ValueError::Address),
        ),
        bind_parses ==> (first_bad(env, bind_parses) matches Some((name, _)) ==> is_number_var(name)
            && value_of(env, name) !is Unset),
{
}

/// Where none of the numbers is set and the address is one, loading succeeds and each number has its
/// default.
pub proof fn lemma_defaults(env: EnvView)
    requires
        forall|name: Seq<char>| is_number_var(name) ==> #[trigger] value_of(env, name) is Unset,
    ensures
        first_bad(env, true) is None,
        heartbeat_secs_of(env) == Ok::<nat, ValueError>(15),
        max_msg_bytes_of(env) == Ok::<nat, ValueError>(500),
        rate_burst_of(env) == Ok::<nat, ValueError>(10),
        rate_refill_per_sec_of(env) == Ok::<nat, ValueError>(2),
        broadcast_capacity_of(env) == Ok::<nat, ValueError>(1024),
        scrollback_size_of(env) == Ok::<nat, ValueError>(50),
        max_lag_disconnects_of(env) == Ok::<nat, ValueError>(3),
{
}

/// The view of an environment has its variables in order, with their names and values; that of a
/// variable is what it holds.
pub proof fn lemma_env_views(env: Env, var: Var)
    ensures
        env@.len() == env.vars@.len(),
        forall|i: int|
            0 <= i < env@.len() ==> (#[trigger] env@[i]).0 == env.vars@[i].0@ && env@[i].1
                == text::text_view(env.vars@[i].1),
        var is Unset ==> var@ is Unset,
        var is NotUnicode ==> var@ is NotUnicode,
        var matches Var::Text(s) ==> var@ == VarView::Text(s@),
{
}

/// A variable has the value with which it stands first, whatever comes after; one that does not
/// stand there is not set.
pub proof fn lemma_value_of(env: EnvView, name: Seq<char>, i: int)
    ensures
        value_of(env, name) is Unset <==> forall|j: int|
            0 <= j < env.len() ==> (#[trigger] env[j]).0 != name,
        0 <= i < env.len() && env[i].0 == name && (forall|j: int|
            0 <= j < i ==> (#[trigger] env[j]).0 != name) ==> {
            &&& env[i].1 matches Some(v) ==> value_of(env, name) == VarView::Text(v)
            &&& env[i].1 is None ==> value_of(env, name) is NotUnicode
        },
    decreases env.len(),
{
    if env.len() > 0 && env.first().0 != name {
        let rest = env.drop_first();
        lemma_value_of(rest, name, i - 1);
        assert forall|j: int| 0 <= j < rest.len() implies #[trigger] rest[j] == env[j + 1] by {}
        if forall|j: int| 0 <= j < rest.len() ==> (#[trigger] rest[j]).0 != name {
            assert forall|j: int| 0 <= j < env.len() implies (#[trigger] env[j]).0 != name by {
                if j > 0 {
                    assert(rest[j - 1] == env[j]);
                }
            }
        } else {
            let j = choose|j: int| 0 <= j < rest.len() && (#[trigger] rest[j]).0 == name;
            assert(env[j + 1].0 == name);
        }
        if 0 < i < env.len() && env[i].0 == name && (forall|j: int|
            0 <= j < i ==> (#[trigger] env[j]).0 != name) {
            assert(rest[i - 1] == env[i]);
            assert forall|j: int| 0 <= j < i - 1 implies (#[trigger] rest[j]).0 != name by {
                assert(rest[j] == env[j + 1]);
            }
        }
    } else if env.len() > 0 {
        assert(env[0].0 == name);
    }
}

/// A number is the default if its variable is not set, what its text reads as if it has one, and an
/// error otherwise; a text is the default if its variable has none.
pub proof fn lemma_number_and_text(
    env: EnvView,
    name: Seq<char>,
    default: nat,
    max: nat,
    default_text: Seq<char>,
)
    ensures
        value_of(env, name) is Unset ==> number_of(env, name, default, max) == Ok::<
            nat,
            ValueError,
        >(default),
        value_of(env, name) is NotUnicode ==> number_of(env, name, default, max) == Err::<
            nat,
            ValueError,
        >(ValueError::NotUnicode),
        value_of(env, name) matches VarView::Text(t) ==> {
            &&& text::parsed_number(t, max) matches Ok(n) ==> number_of(env, name, default, max)
                == Ok::<nat, ValueError>(n)
            &&& text::parsed_number(t, max) matches Err(e) ==> number_of(env, name, default, max)
                == Err::<nat, ValueError>(ValueError::Number(e))
        },
        value_of(env, name) matches VarView::Text(t) ==> text_of(env, name, default_text) == t,
        !(value_of(env, name) is Text) ==> text_of(env, name, default_text) == default_text,
{
}

/// Each setting has a variable of its own, a default and a largest value.
pub proof fn lemma_number_variables(env: EnvView)
    ensures
        heartbeat_secs_of(env) == number_of(
            env,
            "FFOIE_CHAT_HEARTBEAT_SECS"@,
            15,
            0xffff_ffff_ffff_ffff,
        ),
        max_msg_bytes_of(env) == number_of(
            env,
            "FFOIE_CHAT_MAX_MSG_BYTES"@,
            500,
            usize::MAX as nat,
        ),
        rate_burst_of(env) == number_of(env, "FFOIE_CHAT_RATE_BURST"@, 10, 0xffff_ffff),
        rate_refill_per_sec_of(env) == number_of(
            env,
            "FFOIE_CHAT_RATE_REFILL_PER_SEC"@,
            2,
            0xffff_ffff,
        ),
        broadcast_capacity_of(env) == number_of(
            env,
            "FFOIE_CHAT_BROADCAST_CAPACITY"@,
            1024,
            usize::MAX as nat,
        ),
        scrollback_size_of(env) == number_of(
            env,
            "FFOIE_CHAT_SCROLLBACK_SIZE"@,
            50,
            usize::MAX as nat,
        ),
        max_lag_disconnects_of(env) == number_of(
            env,
            "FFOIE_CHAT_MAX_LAG_DISCONNECTS"@,
            3,
            0xffff_ffff,
        ),
{
}

/// The variables are looked at in a fixed order, and the first bad one is blamed with its own error.
pub proof fn lemma_first_bad(env: EnvView)
    ensures
        heartbeat_secs_of(env) matches Err(e) ==> first_bad(env, true) == Some(
            ("FFOIE_CHAT_HEARTBEAT_SECS"@, e),
        ),
        heartbeat_secs_of(env) is Ok ==> (max_msg_bytes_of(env) matches Err(e) ==> first_bad(
            env,
            true,
        ) == Some(("FFOIE_CHAT_MAX_MSG_BYTES"@, e))),
        heartbeat_secs_of(env) is Ok && max_msg_bytes_of(env) is Ok ==> (rate_burst_of(
            env,
        ) matches Err(e) ==> first_bad(env, true) == Some(("FFOIE_CHAT_RATE_BURST"@, e))),
        heartbeat_secs_of(env) is Ok && max_msg_bytes_of(env) is Ok && rate_burst_of(env) is Ok
            ==> (rate_refill_per_sec_of(env) matches Err(e) ==> first_bad(env, true) == Some(
            ("FFOIE_CHAT_RATE_REFILL_PER_SEC"@, e),
        )),
        heartbeat_secs_of(env) is Ok && max_msg_bytes_of(env) is Ok && rate_burst_of(env) is Ok
            && rate_refill_per_sec_of(env) is Ok ==> (broadcast_capacity_of(env) matches Err(e)
            ==> first_bad(env, true) == Some(("FFOIE_CHAT_BROADCAST_CAPACITY"@, e))),
        heartbeat_secs_of(env) is Ok && max_msg_bytes_of(env) is Ok && rate_burst_of(env) is Ok
            && rate_refill_per_sec_of(env) is Ok && broadcast_capacity_of(env) is Ok ==> (
        scrollback_size_of(env) matches Err(e) ==> first_bad(env, true) == Some(
            ("FFOIE_CHAT_SCROLLBACK_SIZE"@, e),
        )),
        heartbeat_secs_of(env) is Ok && max_msg_bytes_of(env) is Ok && rate_burst_of(env) is Ok
            && rate_refill_per_sec_of(env) is Ok && broadcast_capacity_of(env) is Ok
            && scrollback_size_of(env) is Ok ==> (max_lag_disconnects_of(env) matches Err(e)
            ==> first_bad(env, true) == Some(("FFOIE_CHAT_MAX_LAG_DISCONNECTS"@, e))),
{
}

/// What each error is called.
pub proof fn lemma_value_error_messages(e: IntError)
    ensures
        ValueError::NotUnicode.spec_message() == "environment variable was not valid unicode"@,
        ValueError::Number(e).spec_message() == e.spec_message(),
        ValueError::Address.spec_message() == "invalid socket address syntax"@,
{
}

} // verus!
