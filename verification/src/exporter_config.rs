//! Configuration of the Prometheus exporter: command-line values merged
//! with configuration-file values, then validated.

use crate::logging::{
    chosen_number, chosen_text, choose_number, choose_text, log_format_accepts, log_format_error,
    log_format_named, log_level_accepts, log_level_error, log_level_named,
};
use crate::types::{all_ascii, ascii_lowercase, lowercase};
use rust_template_foundation::logging::{LogFormat, LogLevel};
use vstd::prelude::*;

verus! {

/// An address to listen on (TCP address, Unix socket path, inherited
/// socket, ...); its contents are not read here.
#[verifier::external_type_specification]
#[verifier::external_body]
pub struct ExListenerAddress(tokio_listener::ListenerAddress);

/// What `<ListenerAddress as FromStr>::from_str` gives for the text `s`:
/// the address, or the reason it rejects the text.
pub uninterp spec fn listener_address_parsed(s: Seq<char>) -> Result<tokio_listener::ListenerAddress, Seq<char>>;

/// Parses a listen address.
/// Calls `<tokio_listener::ListenerAddress as FromStr>::from_str`, whose
/// result depends on the text alone; the address it gives, or the reason
/// it rejects the text, is named by `listener_address_parsed`.
#[verifier::external_body]
fn parse_listener_address(s: &str) -> (r: Result<tokio_listener::ListenerAddress, &'static str>)
    ensures
        match r {
            Ok(a) => listener_address_parsed(s@) == Ok::<tokio_listener::ListenerAddress, Seq<char>>(a),
            Err(reason) => listener_address_parsed(s@) == Err::<tokio_listener::ListenerAddress, Seq<char>>(reason@),
        },
{
    s.parse::<tokio_listener::ListenerAddress>()
}

/// The log level and log format texts that apply (command line, else
/// file, else "info" and "text") both name known values.
pub open spec fn log_levels_resolve(
    cli_level: Option<String>,
    cli_format: Option<String>,
    file_level: Option<String>,
    file_format: Option<String>,
) -> bool {
    &&& log_level_accepts(lowercase(chosen_text(cli_level, file_level, "info"@)))
    &&& log_format_accepts(lowercase(chosen_text(cli_format, file_format, "text"@)))
}

/// The log level and log format texts that apply are ASCII.
pub open spec fn log_choices_ascii(
    cli_level: Option<String>,
    cli_format: Option<String>,
    file_level: Option<String>,
    file_format: Option<String>,
) -> bool {
    &&& all_ascii(chosen_text(cli_level, file_level, "info"@))
    &&& all_ascii(chosen_text(cli_format, file_format, "text"@))
}

/// ASCII log level and log format texts name known values, read through
/// ASCII lower-casing.
pub open spec fn log_choices_resolve_ascii(
    cli_level: Option<String>,
    cli_format: Option<String>,
    file_level: Option<String>,
    file_format: Option<String>,
) -> bool {
    &&& log_level_accepts(ascii_lowercase(chosen_text(cli_level, file_level, "info"@)))
    &&& log_format_accepts(ascii_lowercase(chosen_text(cli_format, file_format, "text"@)))
}

/// The message of failed log settings: the log level's when it is unknown,
/// else the log format's.
pub open spec fn log_resolution_error(
    cli_level: Option<String>,
    cli_format: Option<String>,
    file_level: Option<String>,
    file_format: Option<String>,
) -> Seq<char> {
    let level = chosen_text(cli_level, file_level, "info"@);
    if !log_level_accepts(lowercase(level)) {
        log_level_error(level)
    } else {
        log_format_error(chosen_text(cli_format, file_format, "text"@))
    }
}

/// Resolves the log level and log format.
/// Calls `rust_template_foundation::config::resolve_log_settings` with a
/// `CommonConfigFile` built from the two file values. The source takes the
/// command-line level, else the file level, else "info", and parses it;
/// then the command-line format, else the file format, else "text", and
/// parses it; a parse error is rendered with `to_string`. Parsing
/// lower-cases the text, which for ASCII text is the ASCII lower-casing.
/// The level and format it returns are those `FromStr` gives for the
/// chosen texts, named `log_level_named` and `log_format_named`.
#[verifier::external_body]
fn resolve_log_settings(
    cli_level: Option<String>,
    cli_format: Option<String>,
    file_level: Option<String>,
    file_format: Option<String>,
) -> (r: Result<(LogLevel, LogFormat), String>)
    ensures
        r is Ok <==> log_levels_resolve(cli_level, cli_format, file_level, file_format),
        log_choices_ascii(cli_level, cli_format, file_level, file_format) ==> (r is Ok
            <==> log_choices_resolve_ascii(cli_level, cli_format, file_level, file_format)),
        r matches Ok((l, f)) ==> l == log_level_named(chosen_text(cli_level, file_level, "info"@))
            && f == log_format_named(chosen_text(cli_format, file_format, "text"@)),
        r matches Err(m) ==> m@ == log_resolution_error(cli_level, cli_format, file_level, file_format),
{
    let file = rust_template_foundation::config::CommonConfigFile {
        log_level: file_level,
        log_format: file_format,
    };
    rust_template_foundation::config::resolve_log_settings(cli_level, cli_format, &file)
}

/// Errors of configuration validation.
#[derive(Debug, Clone, PartialEq, Eq)]
pub enum ConfigError {
    Validation(String),
    InvalidListenAddress { address: String, reason: &'static str },
}

impl ConfigError {
    /// The human-readable text of this error.
    pub fn message(&self) -> (s: String)
        ensures
            match self {
                ConfigError::Validation(m) => s@ == "Configuration validation failed: "@ + m@,
                ConfigError::InvalidListenAddress { address, reason } => s@
                    == "Invalid listen address '"@ + address@ + "': "@ + reason@,
            },
    {
        match self {
            ConfigError::Validation(m) => {
                let mut s = String::from_str("Configuration validation failed: ");
                s.append(m.as_str());
                s
            },
            ConfigError::InvalidListenAddress { address, reason } => {
                let mut s = String::from_str("Invalid listen address '");
                s.append(address.as_str());
                s.append("': ");
                s.append(reason);
                s
            },
        }
    }
}

/// The values given on the command line.
#[derive(Debug, Clone)]
pub struct CliRaw {
    pub log_level: Option<String>,
    pub log_format: Option<String>,
    /// Path to the configuration file.
    pub config: Option<String>,
    /// Address to listen on: host:port for TCP, /path/to.sock for a Unix
    /// socket, or sd-listen to inherit a socket from systemd.
    pub listen: Option<String>,
    /// GPU sample interval in milliseconds.
    pub interval_ms: Option<u64>,
}

/// The values read from the configuration file.
#[derive(Debug, Clone, Default)]
pub struct ConfigFileRaw {
    pub log_level: Option<String>,
    pub log_format: Option<String>,
    pub listen: Option<String>,
    pub interval_ms: Option<u64>,
}

/// The validated configuration.
#[derive(Debug)]
pub struct Config {
    pub log_level: LogLevel,
    pub log_format: LogFormat,
    pub listen_address: tokio_listener::ListenerAddress,
    pub interval_ms: u64,
}

/// The log level text that applies.
pub open spec fn level_text(cli: CliRaw, file: ConfigFileRaw) -> Seq<char> {
    chosen_text(cli.log_level, file.log_level, "info"@)
}

/// The log format text that applies.
pub open spec fn format_text(cli: CliRaw, file: ConfigFileRaw) -> Seq<char> {
    chosen_text(cli.log_format, file.log_format, "text"@)
}

/// The listen address text that applies.
pub open spec fn listen_text(cli: CliRaw, file: ConfigFileRaw) -> Seq<char> {
    chosen_text(cli.listen, file.listen, "127.0.0.1:9101"@)
}

/// The sample interval that applies.
pub open spec fn interval_of(cli: CliRaw, file: ConfigFileRaw) -> u64 {
    chosen_number(cli.interval_ms, file.interval_ms, 1000)
}

/// The log settings that apply are valid.
pub open spec fn log_settings_valid(cli: CliRaw, file: ConfigFileRaw) -> bool {
    &&& log_level_accepts(lowercase(level_text(cli, file)))
    &&& log_format_accepts(lowercase(format_text(cli, file)))
}

/// The log level and log format texts that apply are ASCII (the defaults
/// are).
pub open spec fn log_texts_ascii(cli: CliRaw, file: ConfigFileRaw) -> bool {
    &&& all_ascii(level_text(cli, file))
    &&& all_ascii(format_text(cli, file))
}

/// Validity of ASCII log settings, read through ASCII lower-casing.
pub open spec fn log_settings_valid_ascii(cli: CliRaw, file: ConfigFileRaw) -> bool {
    &&& log_level_accepts(ascii_lowercase(level_text(cli, file)))
    &&& log_format_accepts(ascii_lowercase(format_text(cli, file)))
}

impl Config {
    /// Merge the command line with the configuration file and validate.
    pub fn from_cli_and_file(cli: CliRaw, file: ConfigFileRaw) -> (r: Result<Config, ConfigError>)
        ensures
            r is Ok <==> log_settings_valid(cli, file) && listener_address_parsed(
                listen_text(cli, file),
            ) is Ok,
            log_texts_ascii(cli, file) ==> (r is Ok <==> log_settings_valid_ascii(cli, file)
                && listener_address_parsed(listen_text(cli, file)) is Ok),
            r matches Ok(c) ==> {
                &&& c.log_level == log_level_named(level_text(cli, file))
                &&& c.log_format == log_format_named(format_text(cli, file))
                &&& Ok::<tokio_listener::ListenerAddress, Seq<char>>(c.listen_address)
                    == listener_address_parsed(listen_text(cli, file))
                &&& c.interval_ms == interval_of(cli, file)
            },
            r matches Ok(c) ==> {
                &&& cli.listen matches Some(a) ==> Ok::<tokio_listener::ListenerAddress, Seq<char>>(
                    c.listen_address,
                ) == listener_address_parsed(a@)
                &&& file.listen matches Some(a) ==> cli.listen is None ==> Ok::<
                    tokio_listener::ListenerAddress,
                    Seq<char>,
                >(c.listen_address) == listener_address_parsed(a@)
                &&& (cli.listen is None && file.listen is None) ==> Ok::<
                    tokio_listener::ListenerAddress,
                    Seq<char>,
                >(c.listen_address) == listener_address_parsed("127.0.0.1:9101"@)
                &&& cli.interval_ms matches Some(n) ==> c.interval_ms == n
                &&& file.interval_ms matches Some(n) ==> cli.interval_ms is None ==> c.interval_ms == n
                &&& (cli.interval_ms is None && file.interval_ms is None) ==> c.interval_ms == 1000
                &&& cli.log_level matches Some(a) ==> c.log_level == log_level_named(a@)
                &&& file.log_level matches Some(a) ==> cli.log_level is None ==> c.log_level
                    == log_level_named(a@)
                &&& cli.log_format matches Some(a) ==> c.log_format == log_format_named(a@)
                &&& file.log_format matches Some(a) ==> cli.log_format is None ==> c.log_format
                    == log_format_named(a@)
            },
            r matches Err(ConfigError::Validation(m)) ==> {
                &&& !log_settings_valid(cli, file)
                &&& m@ == (if !log_level_accepts(lowercase(level_text(cli, file))) {
                    log_level_error(level_text(cli, file))
                } else {
                    log_format_error(format_text(cli, file))
                })
            },
            r matches Err(ConfigError::InvalidListenAddress { address, reason }) ==> {
                &&& log_settings_valid(cli, file)
                &&& address@ == listen_text(cli, file)
                &&& listener_address_parsed(listen_text(cli, file)) == Err::<
                    tokio_listener::ListenerAddress,
                    Seq<char>,
                >(reason@)
            },
    {
        let (log_level, log_format) = match resolve_log_settings(
            cli.log_level,
            cli.log_format,
            file.log_level,
            file.log_format,
        ) {
            Ok(settings) => settings,
            Err(m) => {
                return Err(ConfigError::Validation(m));
            },
        };
        let listen_str = choose_text(cli.listen, file.listen, "127.0.0.1:9101");
        let listen_address = match parse_listener_address(listen_str.as_str()) {
            Ok(a) => a,
            Err(reason) => {
                return Err(ConfigError::InvalidListenAddress { address: listen_str, reason });
            },
        };
        let interval_ms = choose_number(cli.interval_ms, file.interval_ms, 1000);
        Ok(Config { log_level, log_format, listen_address, interval_ms })
    }
}

// ── laws ────────────────────────────────────────────────────────────────────

/// Each exporter setting is taken from the command line when given there,
/// else from the configuration file, else from its default ("info",
/// "text", "127.0.0.1:9101", 1000 ms).
pub proof fn law_exporter_settings_precedence(cli: CliRaw, file: ConfigFileRaw)
    ensures
        cli.listen matches Some(a) ==> listen_text(cli, file) == a@,
        file.listen matches Some(a) ==> cli.listen is None ==> listen_text(cli, file) == a@,
        cli.listen is None && file.listen is None ==> listen_text(cli, file) == "127.0.0.1:9101"@,
        cli.interval_ms matches Some(n) ==> interval_of(cli, file) == n,
        file.interval_ms matches Some(n) ==> cli.interval_ms is None ==> interval_of(cli, file) == n,
        cli.interval_ms is None && file.interval_ms is None ==> interval_of(cli, file) == 1000,
        cli.log_level matches Some(a) ==> level_text(cli, file) == a@,
        file.log_level matches Some(a) ==> cli.log_level is None ==> level_text(cli, file) == a@,
        cli.log_level is None && file.log_level is None ==> level_text(cli, file) == "info"@,
        cli.log_format matches Some(a) ==> format_text(cli, file) == a@,
        file.log_format matches Some(a) ==> cli.log_format is None ==> format_text(cli, file) == a@,
        cli.log_format is None && file.log_format is None ==> format_text(cli, file) == "text"@,
{
}

} // verus!
