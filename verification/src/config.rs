//! Settings of the connection pool and of statement logging.

use crate::text::str_equal;
use vstd::prelude::*;

verus! {

/// Limits and timeouts of the database connection pool.
#[derive(Debug, Clone)]
pub struct PoolConfig {
    pub max_connections: u32,
    pub min_connections: u32,
    pub connect_timeout_seconds: u64,
    pub idle_timeout_seconds: u64,
    pub max_lifetime_seconds: u64,
}

impl PoolConfig {
    /// The configuration used when nothing is set.
    pub open spec fn standard() -> PoolConfig {
        PoolConfig {
            max_connections: 10,
            min_connections: 2,
            connect_timeout_seconds: 30,
            idle_timeout_seconds: 600,
            max_lifetime_seconds: 1800,
        }
    }
}

impl Default for PoolConfig {
    fn default() -> (c: Self)
        ensures
            c == PoolConfig::standard(),
    {
        PoolConfig {
            max_connections: 10,
            min_connections: 2,
            connect_timeout_seconds: 30,
            idle_timeout_seconds: 600,
            max_lifetime_seconds: 1800,
        }
    }
}

/// Verbosity of statement logging, from silent to most verbose.
#[derive(Debug, Clone, Copy, PartialEq, Eq, Structural)]
pub enum LogLevel {
    Off,
    Error,
    Warn,
    Info,
    Debug,
    Trace,
}

/// How SQL statements are logged.
#[derive(Debug, Clone)]
pub struct SqlLogConfig {
    /// Level at which statements are logged.
    pub level: LogLevel,
    /// In development every statement is logged; otherwise only slow ones.
    pub log_all_in_dev: bool,
    /// Threshold in milliseconds above which a statement counts as slow.
    pub slow_query_threshold_ms: u64,
}

impl SqlLogConfig {
    /// The configuration used when nothing is set.
    pub open spec fn standard() -> SqlLogConfig {
        SqlLogConfig { level: LogLevel::Debug, log_all_in_dev: true, slow_query_threshold_ms: 100 }
    }
}

impl Default for SqlLogConfig {
    fn default() -> (c: Self)
        ensures
            c == SqlLogConfig::standard(),
    {
        SqlLogConfig { level: LogLevel::Debug, log_all_in_dev: true, slow_query_threshold_ms: 100 }
    }
}

/// Size of the connection pool and the number of idle connections in it.
#[derive(Debug, Clone)]
pub struct PoolMetrics {
    pub size: u32,
    pub idle: usize,
}

/// What `str::to_lowercase` returns for a text.
pub uninterp spec fn lowercase_of(text: Seq<char>) -> Seq<char>;

/// What `str::to_uppercase` returns for a text.
pub uninterp spec fn uppercase_of(text: Seq<char>) -> Seq<char>;

/// What `str::parse::<u32>` returns for a text, where it succeeds.
pub uninterp spec fn parsed_u32(text: Seq<char>) -> Option<u32>;

/// What `str::parse::<u64>` returns for a text, where it succeeds.
pub uninterp spec fn parsed_u64(text: Seq<char>) -> Option<u64>;

/// Calls `str::to_lowercase`. Nothing is claimed of the result but that it
/// depends on the text alone.
#[verifier::external_body]
fn to_lowercase(text: &str) -> (lower: String)
    ensures
        lower@ == lowercase_of(text@),
{
    text.to_lowercase()
}

/// Calls `str::to_uppercase`. Nothing is claimed of the result but that it
/// depends on the text alone.
#[verifier::external_body]
fn to_uppercase(text: &str) -> (upper: String)
    ensures
        upper@ == uppercase_of(text@),
{
    text.to_uppercase()
}

/// Calls `str::parse::<u32>` and drops the error. Nothing is claimed of the
/// result but that it depends on the text alone.
#[verifier::external_body]
fn parse_u32(text: &str) -> (value: Option<u32>)
    ensures
        value == parsed_u32(text@),
{
    text.parse::<u32>().ok()
}

/// Calls `str::parse::<u64>` and drops the error. Nothing is claimed of the
/// result but that it depends on the text alone.
#[verifier::external_body]
fn parse_u64(text: &str) -> (value: Option<u64>)
    ensures
        value == parsed_u64(text@),
{
    text.parse::<u64>().ok()
}

/// Whether a lower-case environment name stands for development.
pub open spec fn names_development(lower: Seq<char>) -> bool {
    lower == "development"@ || lower == "dev"@
}

/// The level that an upper-case level name stands for; a name that is not
/// known gives the default, which is `Debug` in development and `Info`
/// elsewhere.
pub open spec fn level_named(upper: Seq<char>, is_dev: bool) -> LogLevel {
    if upper == "TRACE"@ {
        LogLevel::Trace
    } else if upper == "DEBUG"@ {
        LogLevel::Debug
    } else if upper == "INFO"@ {
        LogLevel::Info
    } else if upper == "WARN"@ || upper == "WARNING"@ {
        LogLevel::Warn
    } else if upper == "ERROR"@ {
        LogLevel::Error
    } else if upper == "OFF"@ || upper == "NONE"@ {
        LogLevel::Off
    } else if is_dev {
        LogLevel::Debug
    } else {
        LogLevel::Info
    }
}

/// Decides whether a lower-case environment name stands for development.
pub fn is_development_name(lower: &str) -> (is_dev: bool)
    ensures
        is_dev == names_development(lower@),
{
    str_equal(lower, "development") || str_equal(lower, "dev")
}

/// Finds the level for an upper-case level name.
pub fn level_from_name(upper: &str, is_dev: bool) -> (level: LogLevel)
    ensures
        level == level_named(upper@, is_dev),
{
    if str_equal(upper, "TRACE") {
        LogLevel::Trace
    } else if str_equal(upper, "DEBUG") {
        LogLevel::Debug
    } else if str_equal(upper, "INFO") {
        LogLevel::Info
    } else if str_equal(upper, "WARN") || str_equal(upper, "WARNING") {
        LogLevel::Warn
    } else if str_equal(upper, "ERROR") {
        LogLevel::Error
    } else if str_equal(upper, "OFF") || str_equal(upper, "NONE") {
        LogLevel::Off
    } else if is_dev {
        LogLevel::Debug
    } else {
        LogLevel::Info
    }
}

/// Finds the level for a level name in any letter case.
pub fn parse_db_log_level(is_dev: bool, raw: &str) -> (level: LogLevel)
    ensures
        level == level_named(uppercase_of(raw@), is_dev),
{
    let upper = to_uppercase(raw);
    level_from_name(upper.as_str(), is_dev)
}

/// The number that a setting gives: the parsed value, or the default where
/// the setting is absent or is not a number of the type.
pub open spec fn setting_or<T>(parsed: Option<T>, default: T) -> T {
    match parsed {
        Some(value) => value,
        None => default,
    }
}

/// The parsed value of an optional `u32` setting.
pub open spec fn u32_setting(raw: Option<&str>) -> Option<u32> {
    match raw {
        Some(text) => parsed_u32(text@),
        None => None,
    }
}

/// The parsed value of an optional `u64` setting.
pub open spec fn u64_setting(raw: Option<&str>) -> Option<u64> {
    match raw {
        Some(text) => parsed_u64(text@),
        None => None,
    }
}

fn read_u32(raw: Option<&str>) -> (value: Option<u32>)
    ensures
        value == u32_setting(raw),
{
    match raw {
        Some(text) => parse_u32(text),
        None => None,
    }
}

fn read_u64(raw: Option<&str>) -> (value: Option<u64>)
    ensures
        value == u64_setting(raw),
{
    match raw {
        Some(text) => parse_u64(text),
        None => None,
    }
}

impl PoolConfig {
    /// The configuration for the given values; a value that is absent is
    /// taken from the standard configuration.
    pub open spec fn with_values(
        max_connections: Option<u32>,
        min_connections: Option<u32>,
        connect_timeout_seconds: Option<u64>,
        idle_timeout_seconds: Option<u64>,
        max_lifetime_seconds: Option<u64>,
    ) -> PoolConfig {
        PoolConfig {
            max_connections: setting_or(max_connections, 10),
            min_connections: setting_or(min_connections, 2),
            connect_timeout_seconds: setting_or(connect_timeout_seconds, 30),
            idle_timeout_seconds: setting_or(idle_timeout_seconds, 600),
            max_lifetime_seconds: setting_or(max_lifetime_seconds, 1800),
        }
    }

    /// Builds the configuration from values that were parsed already.
    pub fn from_values(
        max_connections: Option<u32>,
        min_connections: Option<u32>,
        connect_timeout_seconds: Option<u64>,
        idle_timeout_seconds: Option<u64>,
        max_lifetime_seconds: Option<u64>,
    ) -> (config: Self)
        ensures
            config == PoolConfig::with_values(
                max_connections,
                min_connections,
                connect_timeout_seconds,
                idle_timeout_seconds,
                max_lifetime_seconds,
            ),
    {
        PoolConfig {
            max_connections: match max_connections {
                Some(value) => value,
                None => 10,
            },
            min_connections: match min_connections {
                Some(value) => value,
                None => 2,
            },
            connect_timeout_seconds: match connect_timeout_seconds {
                Some(value) => value,
                None => 30,
            },
            idle_timeout_seconds: match idle_timeout_seconds {
                Some(value) => value,
                None => 600,
            },
            max_lifetime_seconds: match max_lifetime_seconds {
                Some(value) => value,
                None => 1800,
            },
        }
    }

    /// Builds the configuration from the raw texts of its settings. A
    /// setting that is absent or does not parse as a number of its type is
    /// taken from the standard configuration.
    pub fn from_settings(
        max_connections: Option<&str>,
        min_connections: Option<&str>,
        connect_timeout_seconds: Option<&str>,
        idle_timeout_seconds: Option<&str>,
        max_lifetime_seconds: Option<&str>,
    ) -> (config: Self)
        ensures
            config == PoolConfig::with_values(
                u32_setting(max_connections),
                u32_setting(min_connections),
                u64_setting(connect_timeout_seconds),
                u64_setting(idle_timeout_seconds),
                u64_setting(max_lifetime_seconds),
            ),
    {
        PoolConfig::from_values(
            read_u32(max_connections),
            read_u32(min_connections),
            read_u64(connect_timeout_seconds),
            read_u64(idle_timeout_seconds),
            read_u64(max_lifetime_seconds),
        )
    }
}

/// Which statements the pool logs.
#[derive(Debug, Clone, Copy, PartialEq, Eq, Structural)]
pub enum StatementLogging {
    Disabled,
    All { level: LogLevel },
    SlowOnly { level: LogLevel, threshold_ms: u64 },
}

impl SqlLogConfig {
    /// The configuration for an environment name in lower case, a level
    /// name in upper case and a parsed threshold.
    pub open spec fn with_values(
        lower_env: Seq<char>,
        upper_level: Seq<char>,
        slow_query_threshold_ms: Option<u64>,
    ) -> SqlLogConfig {
        SqlLogConfig {
            level: level_named(upper_level, names_development(lower_env)),
            log_all_in_dev: names_development(lower_env),
            slow_query_threshold_ms: setting_or(slow_query_threshold_ms, 100),
        }
    }

    /// Builds the configuration from an environment name in lower case, a
    /// level name in upper case and a parsed threshold.
    pub fn from_values(lower_env: &str, upper_level: &str, slow_query_threshold_ms: Option<u64>) -> (config:
        Self)
        ensures
            config == SqlLogConfig::with_values(lower_env@, upper_level@, slow_query_threshold_ms),
    {
        let is_dev = is_development_name(lower_env);
        SqlLogConfig {
            level: level_from_name(upper_level, is_dev),
            log_all_in_dev: is_dev,
            slow_query_threshold_ms: match slow_query_threshold_ms {
                Some(value) => value,
                None => 100,
            },
        }
    }

    /// The name of the environment: the first of the two settings that is
    /// present, else `development`.
    pub open spec fn environment_name(rust_env: Option<&str>, environment: Option<&str>) -> Seq<
        char,
    > {
        match (rust_env, environment) {
            (Some(name), _) => name@,
            (None, Some(name)) => name@,
            (None, None) => "development"@,
        }
    }

    /// Builds the configuration from the raw texts of its settings: the two
    /// environment names, the level name, and the threshold for slow
    /// statements in milliseconds. Letter case does not matter in names.
    pub fn from_settings(
        rust_env: Option<&str>,
        environment: Option<&str>,
        level: Option<&str>,
        slow_query_ms: Option<&str>,
    ) -> (config: Self)
        ensures
            config == SqlLogConfig::with_values(
                lowercase_of(SqlLogConfig::environment_name(rust_env, environment)),
                uppercase_of(
                    match level {
                        Some(name) => name@,
                        None => ""@,
                    },
                ),
                u64_setting(slow_query_ms),
            ),
    {
        let env_mode = match (rust_env, environment) {
            (Some(name), _) => name,
            (None, Some(name)) => name,
            (None, None) => "development",
        };
        let lower = to_lowercase(env_mode);
        let upper = to_uppercase(
            match level {
                Some(name) => name,
                None => "",
            },
        );
        SqlLogConfig::from_values(lower.as_str(), upper.as_str(), read_u64(slow_query_ms))
    }

    /// Which statements are to be logged under this configuration: none
    /// where the level is `Off`, all in development, else the slow ones.
    pub fn statement_logging(&self) -> (logging: StatementLogging)
        ensures
            logging == if self.level == LogLevel::Off {
                StatementLogging::Disabled
            } else if self.log_all_in_dev {
                StatementLogging::All { level: self.level }
            } else {
                StatementLogging::SlowOnly {
                    level: self.level,
                    threshold_ms: self.slow_query_threshold_ms,
                }
            },
    {
        if self.level == LogLevel::Off {
            StatementLogging::Disabled
        } else if self.log_all_in_dev {
            StatementLogging::All { level: self.level }
        } else {
            StatementLogging::SlowOnly {
                level: self.level,
                threshold_ms: self.slow_query_threshold_ms,
            }
        }
    }
}

} // verus!
