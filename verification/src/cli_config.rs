//! Configuration of the `metalps` command: command-line values merged with
//! configuration-file values, then validated.
//!
//! Each setting is taken from the command line when given there, else from
//! the configuration file, else from its default.

use crate::logging::{
    chosen_number, chosen_text, choose_number, choose_text, log_format_accepts, log_format_error,
    log_level_accepts, log_level_error, log_format_named, log_level_named, parse_log_format,
    parse_log_level,
};
use rust_template_foundation::logging::{LogFormat, LogLevel};
use crate::types::{
    all_ascii, ascii_lowercase, lowercase, sort_key_parse, sort_key_parse_ascii, SortKey,
};
use vstd::prelude::*;

verus! {

/// Errors of configuration validation.
#[derive(Debug, Clone, PartialEq, Eq)]
pub enum ConfigError {
    Validation(String),
}

impl ConfigError {
    /// The human-readable text of this error.
    pub fn message(&self) -> (s: String)
        ensures
            match self {
                ConfigError::Validation(m) => s@ == "Configuration validation failed: "@ + m@,
            },
    {
        match self {
            ConfigError::Validation(m) => {
                let mut s = String::from_str("Configuration validation failed: ");
                s.append(m.as_str());
                s
            },
        }
    }
}

/// The values given on the command line.
#[derive(Debug, Clone)]
pub struct CliRaw {
    /// Log level (trace, debug, info, warn, error).
    pub log_level: Option<String>,
    /// Log format (text, json).
    pub log_format: Option<String>,
    /// Path to the configuration file.
    pub config: Option<String>,
    /// Output as JSON instead of a human-readable table.
    pub json: bool,
    /// Sample interval in milliseconds.
    pub interval_ms: Option<u64>,
    /// Only show information for this PID.
    pub pid: Option<i32>,
    /// Sort output by: gpu (default), time, vram, pid.
    pub sort: Option<String>,
}

/// The values read from the configuration file.
#[derive(Debug, Clone, Default)]
pub struct ConfigFileRaw {
    pub log_level: Option<String>,
    pub log_format: Option<String>,
    pub interval_ms: Option<u64>,
    pub sort: Option<String>,
}

/// The validated configuration.
#[derive(Debug)]
pub struct Config {
    pub log_level: LogLevel,
    pub log_format: LogFormat,
    pub json_output: bool,
    pub interval_ms: u64,
    pub pid_filter: Option<i32>,
    pub sort: SortKey,
}

/// The smallest sample interval accepted, in milliseconds.
pub const MIN_INTERVAL_MS: u64 = 100;

/// The log level text that applies.
pub open spec fn level_text(cli: CliRaw, file: ConfigFileRaw) -> Seq<char> {
    chosen_text(cli.log_level, file.log_level, "warn"@)
}

/// The log format text that applies.
pub open spec fn format_text(cli: CliRaw, file: ConfigFileRaw) -> Seq<char> {
    chosen_text(cli.log_format, file.log_format, "text"@)
}

/// The sort key text that applies.
pub open spec fn sort_text(cli: CliRaw, file: ConfigFileRaw) -> Seq<char> {
    chosen_text(cli.sort, file.sort, "gpu"@)
}

/// The sample interval that applies: the chosen value, at least 100 ms.
pub open spec fn interval_of(cli: CliRaw, file: ConfigFileRaw) -> u64 {
    let n = chosen_number(cli.interval_ms, file.interval_ms, 1000);
    if n < MIN_INTERVAL_MS {
        MIN_INTERVAL_MS
    } else {
        n
    }
}

/// The merged configuration is valid: the log level, the log format and the
/// sort key all name known values.
pub open spec fn config_valid(cli: CliRaw, file: ConfigFileRaw) -> bool {
    &&& log_level_accepts(lowercase(level_text(cli, file)))
    &&& log_format_accepts(lowercase(format_text(cli, file)))
    &&& sort_key_parse(sort_text(cli, file)) is Ok
}

/// The texts of the log level, log format and sort key that apply are all
/// ASCII (the defaults are).
pub open spec fn config_texts_ascii(cli: CliRaw, file: ConfigFileRaw) -> bool {
    &&& all_ascii(level_text(cli, file))
    &&& all_ascii(format_text(cli, file))
    &&& all_ascii(sort_text(cli, file))
}

/// Validity of ASCII texts, read through ASCII lower-casing.
pub open spec fn config_valid_ascii(cli: CliRaw, file: ConfigFileRaw) -> bool {
    &&& log_level_accepts(ascii_lowercase(level_text(cli, file)))
    &&& log_format_accepts(ascii_lowercase(format_text(cli, file)))
    &&& sort_key_parse_ascii(sort_text(cli, file)) is Ok
}

/// The validation message of an invalid merged configuration: the first
/// failing check of log level, log format, sort key, in that order.
pub open spec fn config_error_text(cli: CliRaw, file: ConfigFileRaw) -> Seq<char> {
    if !log_level_accepts(lowercase(level_text(cli, file))) {
        log_level_error(level_text(cli, file))
    } else if !log_format_accepts(lowercase(format_text(cli, file))) {
        log_format_error(format_text(cli, file))
    } else {
        sort_key_parse(sort_text(cli, file))->Err_0
    }
}

impl Config {
    /// Merge the command line with the configuration file and validate.
    pub fn from_cli_and_file(cli: CliRaw, file: ConfigFileRaw) -> (r: Result<Config, ConfigError>)
        ensures
            r is Ok <==> config_valid(cli, file),
            config_texts_ascii(cli, file) ==> (r is Ok <==> config_valid_ascii(cli, file)),
            r matches Ok(c) ==> {
                &&& Ok::<SortKey, Seq<char>>(c.sort) == sort_key_parse(sort_text(cli, file))
                &&& c.log_level == log_level_named(level_text(cli, file))
                &&& c.log_format == log_format_named(format_text(cli, file))
                &&& c.interval_ms == interval_of(cli, file)
                &&& c.json_output == cli.json
                &&& c.pid_filter == cli.pid
            },
            r matches Ok(c) ==> {
                &&& cli.interval_ms matches Some(n) ==> c.interval_ms == (if n < 100 {
                    100
                } else {
                    n
                })
                &&& file.interval_ms matches Some(n) ==> cli.interval_ms is None ==> c.interval_ms
                    == (if n < 100 {
                    100
                } else {
                    n
                })
                &&& (cli.interval_ms is None && file.interval_ms is None) ==> c.interval_ms == 1000
                &&& cli.log_level matches Some(a) ==> c.log_level == log_level_named(a@)
                &&& file.log_level matches Some(a) ==> cli.log_level is None ==> c.log_level
                    == log_level_named(a@)
                &&& cli.log_format matches Some(a) ==> c.log_format == log_format_named(a@)
                &&& file.log_format matches Some(a) ==> cli.log_format is None ==> c.log_format
                    == log_format_named(a@)
                &&& cli.sort matches Some(a) ==> sort_key_parse(a@) == Ok::<SortKey, Seq<char>>(c.sort)
                &&& file.sort matches Some(a) ==> cli.sort is None ==> sort_key_parse(a@) == Ok::<
                    SortKey,
                    Seq<char>,
                >(c.sort)
            },
            r matches Err(ConfigError::Validation(m)) ==> m@ == config_error_text(cli, file),
    {
        let level_str = choose_text(cli.log_level, file.log_level, "warn");
        let log_level = match parse_log_level(level_str.as_str()) {
            Ok(l) => l,
            Err(m) => {
                return Err(ConfigError::Validation(m));
            },
        };
        let format_str = choose_text(cli.log_format, file.log_format, "text");
        let log_format = match parse_log_format(format_str.as_str()) {
            Ok(f) => f,
            Err(m) => {
                return Err(ConfigError::Validation(m));
            },
        };
        let chosen = choose_number(cli.interval_ms, file.interval_ms, 1000);
        let interval_ms = if chosen < MIN_INTERVAL_MS {
            MIN_INTERVAL_MS
        } else {
            chosen
        };
        let sort_str = choose_text(cli.sort, file.sort, "gpu");
        let sort = match SortKey::parse(sort_str.as_str()) {
            Ok(k) => k,
            Err(m) => {
                return Err(ConfigError::Validation(m));
            },
        };
        Ok(
            Config {
                log_level,
                log_format,
                json_output: cli.json,
                interval_ms,
                pid_filter: cli.pid,
                sort,
            },
        )
    }
}


// ── laws ────────────────────────────────────────────────────────────────────

/// The sample interval never goes below 100 ms, whatever was given.
pub proof fn law_interval_at_least_minimum(cli: CliRaw, file: ConfigFileRaw)
    ensures
        interval_of(cli, file) >= MIN_INTERVAL_MS,
{
}

/// A setting given on the command line wins over the configuration file,
/// and a setting given only in the file wins over the default.
pub proof fn law_command_line_then_file_then_default(
    cli_value: Option<String>,
    file_value: Option<String>,
    default: Seq<char>,
)
    ensures
        cli_value matches Some(c) ==> chosen_text(cli_value, file_value, default) == c@,
        cli_value is None ==> (file_value matches Some(f) ==> chosen_text(cli_value, file_value, default) == f@),
        cli_value is None && file_value is None ==> chosen_text(cli_value, file_value, default) == default,
{
}

/// Each setting of the command is taken from the command line when given
/// there, else from the configuration file, else from its default ("warn",
/// "text", "gpu", 1000 ms); the interval is then raised to 100 ms at least.
pub proof fn law_command_settings_precedence(cli: CliRaw, file: ConfigFileRaw)
    ensures
        cli.interval_ms matches Some(n) ==> interval_of(cli, file) == (if n < 100 {
            100
        } else {
            n
        }),
        file.interval_ms matches Some(n) ==> cli.interval_ms is None ==> interval_of(cli, file) == (
        if n < 100 {
            100
        } else {
            n
        }),
        cli.interval_ms is None && file.interval_ms is None ==> interval_of(cli, file) == 1000,
        cli.log_level matches Some(a) ==> level_text(cli, file) == a@,
        file.log_level matches Some(a) ==> cli.log_level is None ==> level_text(cli, file) == a@,
        cli.log_level is None && file.log_level is None ==> level_text(cli, file) == "warn"@,
        cli.log_format matches Some(a) ==> format_text(cli, file) == a@,
        file.log_format matches Some(a) ==> cli.log_format is None ==> format_text(cli, file) == a@,
        cli.log_format is None && file.log_format is None ==> format_text(cli, file) == "text"@,
        cli.sort matches Some(a) ==> sort_text(cli, file) == a@,
        file.sort matches Some(a) ==> cli.sort is None ==> sort_text(cli, file) == a@,
        cli.sort is None && file.sort is None ==> sort_text(cli, file) == "gpu"@,
{
}

} // verus!
