use vstd::prelude::*;
use crate::error::AppError;

verus! {

/// The whole configuration of a process.
#[derive(Clone, Debug)]
pub struct AppConfig {
    pub server: ServerConfig,
    pub database: DatabaseConfig,
    pub nats: NatsConfig,
    pub scheduler: SchedulerConfig,
    pub security: SecurityConfig,
}

/// Where the HTTP ingress listens, and the public base URL of tracking links.
#[derive(Clone, Debug)]
pub struct ServerConfig {
    pub port: u16,
    pub host: String,
}

/// Connection settings of the durable store.
#[derive(Clone, Debug)]
pub struct DatabaseConfig {
    pub url: String,
    pub max_connections: u32,
    pub min_connections: u32,
    pub max_lifetime_secs: u64,
    pub idle_timeout_secs: u64,
}

/// The message bus: its URL, the stream, and the one subject published to.
#[derive(Clone, Debug)]
pub struct NatsConfig {
    pub url: String,
    pub stream: String,
    pub subject: String,
}

/// How many requests one claim takes, and the tick interval.
#[derive(Clone, Copy, Debug, PartialEq, Eq, Structural)]
pub struct SchedulerConfig {
    pub batch_size: usize,
    pub interval_secs: u64,
}

/// The API key that protected ingress routes expect.
#[derive(Clone, Debug)]
pub struct SecurityConfig {
    pub api_key: String,
}

/// Marker for the durable store. Its pool is opened, and its migrations are
/// run, by the process that embeds the library, from a `DatabaseConfig`.
#[derive(Clone, Copy, Debug)]
pub struct Database;

pub open spec fn is_digit(c: char) -> bool {
    '0' <= c && c <= '9'
}

/// The value of a run of decimal digits, most significant first.
pub open spec fn digits_value(d: Seq<char>) -> nat
    decreases d.len(),
{
    if d.len() == 0 {
        0
    } else {
        digits_value(d.drop_last()) * 10 + (d.last() as u32 - 48) as nat
    }
}

/// The digits of an unsigned decimal: the text without one leading '+'.
pub open spec fn unsigned_digits(s: Seq<char>) -> Seq<char> {
    if s.len() > 0 && s[0] == '+' {
        s.drop_first()
    } else {
        s
    }
}

/// The number that `str::parse::<u64>` reads from a text: an optional '+'
/// then one or more ASCII digits, with a value that fits in a u64; None for
/// any other text.
pub open spec fn decimal_u64(s: Seq<char>) -> Option<u64> {
    let d = unsigned_digits(s);
    if d.len() == 0 || exists|i: int| 0 <= i < d.len() && !is_digit(#[trigger] d[i]) {
        None
    } else if digits_value(d) > u64::MAX {
        None
    } else {
        Some(digits_value(d) as u64)
    }
}

proof fn lemma_digits_value_grows(d: Seq<char>, j: int)
    requires
        0 <= j <= d.len(),
        forall|i: int| 0 <= i < d.len() ==> is_digit(#[trigger] d[i]),
    ensures
        digits_value(d.take(j)) <= digits_value(d),
    decreases d.len(),
{
    if j == d.len() {
        assert(d.take(j) =~= d);
    } else {
        lemma_digits_value_grows(d.drop_last(), j);
        assert(d.drop_last().take(j) =~= d.take(j));
    }
}

/// Reads an unsigned decimal as `str::parse::<u64>` does.
pub fn parse_u64(s: &str) -> (r: Option<u64>)
    ensures
        r == decimal_u64(s@),
{
    let n = s.unicode_len();
    let mut start: usize = 0;
    if n > 0 && s.get_char(0) == '+' {
        start = 1;
    }
    let ghost d = unsigned_digits(s@);
    proof {
        if start == 1 {
            assert(d =~= s@.subrange(1, n as int));
        } else {
            assert(d =~= s@.subrange(0, n as int));
        }
    }
    if start == n {
        return None;
    }
    let mut i: usize = start;
    let mut v: u64 = 0;
    while i < n
        invariant
            start <= i <= n,
            start < n,
            n == s@.len(),
            d =~= s@.subrange(start as int, n as int),
            d == unsigned_digits(s@),
            forall|j: int| start <= j < i ==> is_digit(#[trigger] s@[j]),
            v == digits_value(s@.subrange(start as int, i as int)),
        decreases n - i,
    {
        let c = s.get_char(i);
        assert(d[i - start] == s@[i as int]);
        if !('0' <= c && c <= '9') {
            assert(!is_digit(d[i - start]));
            return None;
        }
        let digit = (c as u32 - 48) as u64;
        proof {
            assert(s@.subrange(start as int, i + 1).drop_last() =~= s@.subrange(start as int, i as int));
            assert(s@.subrange(start as int, i + 1).last() == c);
            assert(digits_value(s@.subrange(start as int, i + 1)) == v * 10 + digit);
        }
        if v > (u64::MAX - digit) / 10 {
            proof {
                assert(v * 10 + digit > u64::MAX) by (nonlinear_arith)
                    requires
                        v > (u64::MAX - digit) / 10,
                        digit <= 9;
                if forall|j: int| 0 <= j < d.len() ==> is_digit(#[trigger] d[j]) {
                    lemma_digits_value_grows(d, i + 1 - start);
                    assert(d.take(i + 1 - start) =~= s@.subrange(start as int, i + 1));
                }
            }
            return None;
        }
        v = v * 10 + digit;
        i = i + 1;
    }
    proof {
        assert(s@.subrange(start as int, n as int) =~= d);
        assert forall|j: int| 0 <= j < d.len() implies is_digit(#[trigger] d[j]) by {
            assert(d[j] == s@[j + start]);
        }
    }
    Some(v)
}

/// The raw settings of a process, one per environment variable; None where
/// the variable is not set.
#[derive(Clone, Debug, Default)]
pub struct EnvSettings {
    pub server_port: Option<String>,
    pub server_host: Option<String>,
    pub database_url: Option<String>,
    pub db_max_connections: Option<String>,
    pub db_min_connections: Option<String>,
    pub db_max_lifetime_secs: Option<String>,
    pub db_idle_timeout_secs: Option<String>,
    pub nats_url: Option<String>,
    pub nats_stream: Option<String>,
    pub nats_subject: Option<String>,
    pub batch_size: Option<String>,
    pub scheduler_interval: Option<String>,
    pub api_key: Option<String>,
}

/// A setting's text, or its default when unset.
pub open spec fn setting_text(value: Option<String>, default: Seq<char>) -> Seq<char> {
    match value {
        Some(v) => v@,
        None => default,
    }
}

/// The number a setting holds (or its default), when it is a decimal no
/// larger than `max`.
pub open spec fn setting_number(value: Option<String>, default: Seq<char>, max: u64) -> Option<u64> {
    match decimal_u64(setting_text(value, default)) {
        Some(n) if n <= max => Some(n),
        _ => None,
    }
}

fn text_or_default(value: &Option<String>, default: &str) -> (r: String)
    ensures
        r@ == setting_text(*value, default@),
{
    match value {
        Some(v) => v.clone(),
        None => String::from_str(default),
    }
}

fn number_setting(value: &Option<String>, default: &str, max: u64, key: &str) -> (r: Result<u64, AppError>)
    ensures
        (r is Ok) == (setting_number(*value, default@, max) is Some),
        r matches Ok(n) ==> setting_number(*value, default@, max) == Some(n),
        r matches Err(e) ==> e is Config,
{
    let text = text_or_default(value, default);
    match parse_u64(text.as_str()) {
        Some(n) => {
            if n <= max {
                return Ok(n);
            }
        },
        None => {},
    }
    let mut message = String::from_str("Failed to parse ");
    message.append(key);
    Err(AppError::Config(message))
}

/// Whether every numeric setting reads, within the range of its field.
pub open spec fn numbers_read(v: EnvSettings) -> bool {
    &&& setting_number(v.server_port, "3000"@, u16::MAX as u64) is Some
    &&& setting_number(v.db_max_connections, "25"@, u32::MAX as u64) is Some
    &&& setting_number(v.db_min_connections, "5"@, u32::MAX as u64) is Some
    &&& setting_number(v.db_max_lifetime_secs, "3600"@, u64::MAX) is Some
    &&& setting_number(v.db_idle_timeout_secs, "900"@, u64::MAX) is Some
    &&& setting_number(v.batch_size, "1000"@, usize::MAX as u64) is Some
    &&& setting_number(v.scheduler_interval, "60"@, u64::MAX) is Some
}

impl AppConfig {
    /// The configuration from raw settings: unset settings take their
    /// defaults, numbers are read as unsigned decimals, and DATABASE_URL and
    /// API_KEY must be set.
    pub fn from_settings(v: &EnvSettings) -> (r: Result<AppConfig, AppError>)
        ensures
            (r is Ok) == (numbers_read(*v) && v.database_url is Some && v.api_key is Some),
            r matches Err(e) ==> e is Config,
            r matches Ok(c) ==> {
                &&& Some(c.server.port as u64) == setting_number(v.server_port, "3000"@, u16::MAX as u64)
                &&& c.server.host@ == setting_text(v.server_host, "http://localhost:3000"@)
                &&& Some(c.database.url) == v.database_url
                &&& Some(c.database.max_connections as u64) == setting_number(v.db_max_connections, "25"@, u32::MAX as u64)
                &&& Some(c.database.min_connections as u64) == setting_number(v.db_min_connections, "5"@, u32::MAX as u64)
                &&& Some(c.database.max_lifetime_secs) == setting_number(v.db_max_lifetime_secs, "3600"@, u64::MAX)
                &&& Some(c.database.idle_timeout_secs) == setting_number(v.db_idle_timeout_secs, "900"@, u64::MAX)
                &&& c.nats.url@ == setting_text(v.nats_url, "nats://127.0.0.1:4222"@)
                &&& c.nats.stream@ == setting_text(v.nats_stream, "messages"@)
                &&& c.nats.subject@ == setting_text(v.nats_subject, "messages.email"@)
                &&& Some(c.scheduler.batch_size as u64) == setting_number(v.batch_size, "1000"@, usize::MAX as u64)
                &&& Some(c.scheduler.interval_secs) == setting_number(v.scheduler_interval, "60"@, u64::MAX)
                &&& Some(c.security.api_key) == v.api_key
            },
    {
        let port = number_setting(&v.server_port, "3000", u16::MAX as u64, "SERVER_PORT")?;
        let database_url = match &v.database_url {
            Some(u) => u.clone(),
            None => {
                return Err(AppError::Config(String::from_str("DATABASE_URL must be set")));
            },
        };
        let max_connections = number_setting(&v.db_max_connections, "25", u32::MAX as u64, "DB_MAX_CONNECTIONS")?;
        let min_connections = number_setting(&v.db_min_connections, "5", u32::MAX as u64, "DB_MIN_CONNECTIONS")?;
        let max_lifetime_secs = number_setting(&v.db_max_lifetime_secs, "3600", u64::MAX, "DB_MAX_LIFETIME_SECS")?;
        let idle_timeout_secs = number_setting(&v.db_idle_timeout_secs, "900", u64::MAX, "DB_IDLE_TIMEOUT_SECS")?;
        let batch_size = number_setting(&v.batch_size, "1000", usize::MAX as u64, "BATCH_SIZE")?;
        let interval_secs = number_setting(&v.scheduler_interval, "60", u64::MAX, "SCHEDULER_INTERVAL")?;
        let api_key = match &v.api_key {
            Some(k) => k.clone(),
            None => {
                return Err(AppError::Config(String::from_str("API_KEY must be set")));
            },
        };
        Ok(AppConfig {
            server: ServerConfig { port: port as u16, host: text_or_default(&v.server_host, "http://localhost:3000") },
            database: DatabaseConfig {
                url: database_url,
                max_connections: max_connections as u32,
                min_connections: min_connections as u32,
                max_lifetime_secs,
                idle_timeout_secs,
            },
            nats: NatsConfig {
                url: text_or_default(&v.nats_url, "nats://127.0.0.1:4222"),
                stream: text_or_default(&v.nats_stream, "messages"),
                subject: text_or_default(&v.nats_subject, "messages.email"),
            },
            scheduler: SchedulerConfig { batch_size: batch_size as usize, interval_secs },
            security: SecurityConfig { api_key },
        })
    }
}

} // verus!
