//! The service configuration, built from the values of its environment
//! variables.
use vstd::prelude::*;
use crate::decimal::{integer_value, is_negative, parse_i32};
use crate::pattern::opt_view;
use crate::text::{chars_of, copy_range, first_where, string_from, trim_bounds, trim_ws};

verus! {

#[derive(Debug, Clone)]
pub struct Config {
    pub gmail: GmailConfig,
    pub database: DatabaseConfig,
    pub data_dir: String,
    pub scheduler: SchedulerConfig,
    pub slack: Option<SlackConfig>,
}

#[derive(Debug, Clone)]
pub struct SchedulerConfig {
    pub enabled: bool,
    /// Times of day, `HH:MM`.
    pub schedule_times: Vec<String>,
}

#[derive(Debug, Clone)]
pub struct GmailConfig {
    pub credentials_path: String,
    pub token_cache_path: String,
}

#[derive(Debug, Clone)]
pub struct DatabaseConfig {
    pub host: String,
    pub port: u16,
    pub database: String,
    pub username: String,
    pub password: String,
}

#[derive(Debug, Clone)]
pub struct SlackConfig {
    pub bot_token: String,
    pub channel_id: String,
}

/// The values of the environment variables that the configuration reads;
/// `None` for a variable that is not set.
pub struct EnvValues {
    pub gmail_credentials_path: Option<String>,
    pub gmail_token_cache_path: Option<String>,
    pub db_host: Option<String>,
    pub db_port: Option<String>,
    pub db_name: Option<String>,
    pub db_username: Option<String>,
    pub db_password: Option<String>,
    pub data_dir: Option<String>,
    pub scheduler_enabled: Option<String>,
    pub scheduler_times: Option<String>,
    pub slack_bot_token: Option<String>,
    pub slack_channel_id: Option<String>,
}

/// Why no configuration could be built.
#[derive(Debug, Clone, Copy, PartialEq, Eq, Structural)]
pub enum ConfigError {
    /// `GMAIL_CREDENTIALS_PATH` is not set.
    MissingCredentialsPath,
    /// `DB_PASSWORD` is not set.
    MissingDbPassword,
}

/// The port used when `DB_PORT` is unset or not a port number.
pub const DEFAULT_DB_PORT: u16 = 5432;

pub open spec fn or_default(v: Option<String>, d: Seq<char>) -> Seq<char> {
    match v {
        Some(s) => s@,
        None => d,
    }
}

/// The port number that `s` writes, as `u16::from_str` reads it.
pub open spec fn parsed_port(s: Seq<char>) -> Option<u16> {
    match integer_value(s) {
        Some(v) => if !is_negative(s) && 0 <= v <= u16::MAX {
            Some(v as u16)
        } else {
            None
        },
        None => None,
    }
}

/// The characters equal to `sep`.
pub open spec fn sep_class(sep: char) -> spec_fn(char) -> bool {
    |c: char| c == sep
}

/// The pieces of `s` from index `i` on, split at `sep`, as `str::split(sep)`
/// gives them.
pub open spec fn split_from(s: Seq<char>, sep: char, i: int) -> Seq<Seq<char>>
    decreases s.len() - i,
{
    if i < 0 || i > s.len() {
        Seq::empty()
    } else {
        let e = first_where(s, sep_class(sep), i, s.len() as int);
        if e < i || e >= s.len() {
            seq![s.subrange(i, s.len() as int)]
        } else {
            seq![s.subrange(i, e)] + split_from(s, sep, e + 1)
        }
    }
}

/// The scheduled times that a `SCHEDULER_TIMES` value lists: its
/// comma-separated pieces, trimmed.
pub open spec fn schedule_times_of(s: Seq<char>) -> Seq<Seq<char>> {
    split_from(s, ',', 0).map_values(|p: Seq<char>| trim_ws(p))
}

impl Config {
    /// The configuration of the given environment values: every variable but
    /// `GMAIL_CREDENTIALS_PATH` and `DB_PASSWORD` has a default.
    pub fn from_env_values(env: EnvValues) -> (r: Result<Config, ConfigError>)
        ensures
            env.gmail_credentials_path is None ==> r == Err::<Config, ConfigError>(
                ConfigError::MissingCredentialsPath,
            ),
            env.gmail_credentials_path is Some && env.db_password is None ==> r == Err::<
                Config,
                ConfigError,
            >(ConfigError::MissingDbPassword),
            r matches Ok(c) ==> {
                &&& env.gmail_credentials_path matches Some(p) && c.gmail.credentials_path@ == p@
                &&& c.gmail.token_cache_path@ == or_default(
                    env.gmail_token_cache_path,
                    "./gmail-token-cache.json"@,
                )
                &&& c.database.host@ == or_default(env.db_host, "localhost"@)
                &&& c.database.port == match parsed_port(or_default(env.db_port, "5432"@)) {
                    Some(p) => p,
                    None => DEFAULT_DB_PORT,
                }
                &&& c.database.database@ == or_default(env.db_name, "homemetrics"@)
                &&& c.database.username@ == or_default(env.db_username, "postgres"@)
                &&& env.db_password matches Some(p) && c.database.password@ == p@
                &&& c.data_dir@ == or_default(env.data_dir, "./data"@)
                &&& c.scheduler.enabled == (or_default(env.scheduler_enabled, "false"@)
                    == "true"@)
                &&& c.scheduler.schedule_times@.map_values(|s: String| s@) == schedule_times_of(
                    or_default(env.scheduler_times, "02:00"@),
                )
                &&& match (env.slack_bot_token, env.slack_channel_id) {
                    (Some(t), Some(ch)) => c.slack matches Some(s) && s.bot_token@ == t@
                        && s.channel_id@ == ch@,
                    _ => c.slack is None,
                }
            },
            (env.gmail_credentials_path is Some && env.db_password is Some) ==> r is Ok,
    {
        let credentials_path = match env.gmail_credentials_path {
            Some(p) => p,
            None => {
                return Err(ConfigError::MissingCredentialsPath);
            },
        };
        let password = match env.db_password {
            Some(p) => p,
            None => {
                return Err(ConfigError::MissingDbPassword);
            },
        };
        let token_cache_path = value_or(env.gmail_token_cache_path, "./gmail-token-cache.json");
        let host = value_or(env.db_host, "localhost");
        let port_text = value_or(env.db_port, "5432");
        let port = match parse_port(&port_text) {
            Some(p) => p,
            None => DEFAULT_DB_PORT,
        };
        let database = value_or(env.db_name, "homemetrics");
        let username = value_or(env.db_username, "postgres");
        let data_dir = value_or(env.data_dir, "./data");
        let enabled_text = value_or(env.scheduler_enabled, "false");
        let enabled = enabled_text == String::from_str("true");
        let times_text = value_or(env.scheduler_times, "02:00");
        let schedule_times = split_times(&times_text);
        let slack = match (env.slack_bot_token, env.slack_channel_id) {
            (Some(bot_token), Some(channel_id)) => Some(SlackConfig { bot_token, channel_id }),
            _ => None,
        };
        Ok(
            Config {
                gmail: GmailConfig { credentials_path, token_cache_path },
                database: DatabaseConfig { host, port, database, username, password },
                data_dir,
                scheduler: SchedulerConfig { enabled, schedule_times },
                slack,
            },
        )
    }
}

fn value_or(v: Option<String>, d: &str) -> (r: String)
    ensures
        r@ == or_default(v, d@),
{
    match v {
        Some(s) => s,
        None => String::from_str(d),
    }
}

/// The port number that `s` writes.
pub fn parse_port(s: &String) -> (r: Option<u16>)
    ensures
        r == parsed_port(s@),
{
    let v = chars_of(s.as_str());
    assert(v@.subrange(0, v@.len() as int) =~= v@);
    if v.len() > 0 && v[0] == '-' {
        return None;
    }
    match parse_i32(&v, 0, v.len()) {
        Some(x) => {
            if 0 <= x && x <= 65535 {
                Some(x as u16)
            } else {
                None
            }
        },
        None => {
            proof {
                match integer_value(v@) {
                    Some(x) => {
                        assert(!(i32::MIN <= x <= i32::MAX));
                    },
                    None => {},
                }
            }
            None
        },
    }
}

/// The comma-separated pieces of `s`, trimmed.
pub fn split_times(s: &String) -> (r: Vec<String>)
    ensures
        r@.map_values(|t: String| t@) == schedule_times_of(s@),
{
    split_trimmed(s, ',')
}

/// The pieces of `s` split at `sep`, each trimmed.
fn split_trimmed(s: &String, sep: char) -> (r: Vec<String>)
    ensures
        r@.map_values(|t: String| t@) == split_from(s@, sep, 0).map_values(|p: Seq<char>| trim_ws(p)),
{
    let v = chars_of(s.as_str());
    let n = v.len();
    let ghost pieces = split_from(v@, sep, 0);
    let mut out: Vec<String> = Vec::new();
    let mut i: usize = 0;
    loop
        invariant
            i <= n == v@.len(),
            v@ == s@,
            pieces == split_from(v@, sep, 0),
            out@.map_values(|t: String| t@) + split_from(v@, sep, i as int).map_values(
                |p: Seq<char>| trim_ws(p),
            ) == pieces.map_values(|p: Seq<char>| trim_ws(p)),
        decreases n - i,
    {
        let mut e: usize = i;
        while e < n && v[e] != sep
            invariant
                i <= e <= n == v@.len(),
                first_where(v@, sep_class(sep), e as int, n as int) == first_where(
                    v@,
                    sep_class(sep),
                    i as int,
                    n as int,
                ),
            decreases n - e,
        {
            e = e + 1;
        }
        let (a, b) = trim_bounds(&v, i, e, false);
        let piece = string_from(&copy_range(&v, a, b));
        let ghost before = out@.map_values(|t: String| t@);
        out.push(piece);
        assert(out@.map_values(|t: String| t@) =~= before.push(piece@));
        if e == n {
            assert(split_from(v@, sep, i as int) == seq![v@.subrange(i as int, n as int)]);
            assert(split_from(v@, sep, i as int).map_values(|p: Seq<char>| trim_ws(p)) =~= seq![
                piece@,
            ]);
            assert(before + seq![piece@] =~= out@.map_values(|t: String| t@));
            return out;
        }
        assert(split_from(v@, sep, i as int) == seq![v@.subrange(i as int, e as int)]
            + split_from(v@, sep, e + 1));
        assert(split_from(v@, sep, i as int).map_values(|p: Seq<char>| trim_ws(p)) =~= seq![
            piece@,
        ] + split_from(v@, sep, e + 1).map_values(|p: Seq<char>| trim_ws(p)));
        assert(before + (seq![piece@] + split_from(v@, sep, e + 1).map_values(
            |p: Seq<char>| trim_ws(p),
        )) =~= out@.map_values(|t: String| t@) + split_from(v@, sep, e + 1).map_values(
            |p: Seq<char>| trim_ws(p),
        ));
        i = e + 1;
    }
}

} // verus!

verus! {

/// Why the scheduled mode cannot start.
#[derive(Debug, Clone, Copy, PartialEq, Eq, Structural)]
pub enum ScheduleError {
    /// The scheduler is not enabled.
    Disabled,
    /// No time is listed.
    NoTimes,
}

/// The cron expression (seconds first) of a daily run at `HH:MM`: the time
/// must have exactly one `:`; hours and minutes are taken as written.
pub open spec fn cron_of(time: Seq<char>) -> Option<Seq<char>> {
    let parts = split_from(time, ':', 0);
    if parts.len() == 2 {
        Some("0 "@ + parts[1] + " "@ + parts[0] + " * * *"@)
    } else {
        None
    }
}

/// The cron expressions of the times from index `k` on, those that are not
/// `HH:MM` being skipped.
pub open spec fn crons_from(times: Seq<Seq<char>>, k: int) -> Seq<Seq<char>>
    decreases times.len() - k,
{
    if k < 0 || k >= times.len() {
        Seq::empty()
    } else {
        match cron_of(times[k]) {
            Some(c) => seq![c] + crons_from(times, k + 1),
            None => crons_from(times, k + 1),
        }
    }
}

/// The pieces of `s` split at `sep`.
fn split_plain(s: &Vec<char>, sep: char) -> (r: Vec<Vec<char>>)
    ensures
        r@.map_values(|t: Vec<char>| t@) == split_from(s@, sep, 0),
{
    let n = s.len();
    let mut out: Vec<Vec<char>> = Vec::new();
    let mut i: usize = 0;
    loop
        invariant
            i <= n == s@.len(),
            out@.map_values(|t: Vec<char>| t@) + split_from(s@, sep, i as int) == split_from(
                s@,
                sep,
                0,
            ),
        decreases n - i,
    {
        let mut e: usize = i;
        while e < n && s[e] != sep
            invariant
                i <= e <= n == s@.len(),
                first_where(s@, sep_class(sep), e as int, n as int) == first_where(
                    s@,
                    sep_class(sep),
                    i as int,
                    n as int,
                ),
            decreases n - e,
        {
            e = e + 1;
        }
        let piece = copy_range(s, i, e);
        let ghost before = out@.map_values(|t: Vec<char>| t@);
        out.push(piece);
        assert(out@.map_values(|t: Vec<char>| t@) =~= before.push(piece@));
        if e == n {
            assert(before + seq![piece@] =~= out@.map_values(|t: Vec<char>| t@));
            return out;
        }
        assert(before + (seq![piece@] + split_from(s@, sep, e + 1)) =~= out@.map_values(
            |t: Vec<char>| t@,
        ) + split_from(s@, sep, e + 1));
        i = e + 1;
    }
}

/// The cron expression of a daily run at `HH:MM`.
pub fn cron_expression(time: &str) -> (r: Option<String>)
    ensures
        opt_view(r) == cron_of(time@),
{
    let v = chars_of(time);
    let parts = split_plain(&v, ':');
    let ghost pv = parts@.map_values(|t: Vec<char>| t@);
    if parts.len() != 2 {
        return None;
    }
    assert(pv[0] == parts@[0]@ && pv[1] == parts@[1]@);
    let e = String::from_str("0 ").concat(string_from(&parts[1]).as_str());
    let e = e.concat(" ");
    let e = e.concat(string_from(&parts[0]).as_str());
    let e = e.concat(" * * *");
    Some(e)
}

/// The cron expressions of the scheduled runs.
pub fn schedule_crons(s: &SchedulerConfig) -> (r: Result<Vec<String>, ScheduleError>)
    ensures
        !s.enabled ==> r == Err::<Vec<String>, ScheduleError>(ScheduleError::Disabled),
        s.enabled && s.schedule_times@.len() == 0 ==> r == Err::<Vec<String>, ScheduleError>(
            ScheduleError::NoTimes,
        ),
        s.enabled && s.schedule_times@.len() > 0 ==> (r matches Ok(v) && v@.map_values(
            |t: String| t@,
        ) == crons_from(s.schedule_times@.map_values(|t: String| t@), 0)),
{
    if !s.enabled {
        return Err(ScheduleError::Disabled);
    }
    if s.schedule_times.len() == 0 {
        return Err(ScheduleError::NoTimes);
    }
    let ghost tv = s.schedule_times@.map_values(|t: String| t@);
    let mut out: Vec<String> = Vec::new();
    let mut k: usize = 0;
    while k < s.schedule_times.len()
        invariant
            k <= s.schedule_times@.len(),
            tv == s.schedule_times@.map_values(|t: String| t@),
            out@.map_values(|t: String| t@) + crons_from(tv, k as int) == crons_from(tv, 0),
        decreases s.schedule_times@.len() - k,
    {
        assert(tv[k as int] == s.schedule_times@[k as int]@);
        let ghost before = out@.map_values(|t: String| t@);
        match cron_expression(s.schedule_times[k].as_str()) {
            Some(c) => {
                out.push(c);
                assert(out@.map_values(|t: String| t@) =~= before.push(c@));
                assert(before + (seq![c@] + crons_from(tv, k + 1)) =~= out@.map_values(
                    |t: String| t@,
                ) + crons_from(tv, k + 1));
            },
            None => {},
        }
        k = k + 1;
    }
    assert(out@.map_values(|t: String| t@) + Seq::<Seq<char>>::empty() =~= out@.map_values(
        |t: String| t@,
    ));
    Ok(out)
}

} // verus!
