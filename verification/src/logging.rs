//! Log level and log format settings, as the shared project foundation
//! defines and parses them.

use vstd::prelude::*;

use crate::types::{all_ascii, ascii_lowercase, lowercase};

verus! {

/// The foundation's log severity threshold; its variants are not read here.
#[verifier::external_type_specification]
#[verifier::external_body]
pub struct ExLogLevel(rust_template_foundation::logging::LogLevel);

/// The foundation's log encoding; its variants are not read here.
#[verifier::external_type_specification]
#[verifier::external_body]
pub struct ExLogFormat(rust_template_foundation::logging::LogFormat);

/// The (lower-cased) names that select a log level.
pub open spec fn log_level_accepts(name: Seq<char>) -> bool {
    ||| name == "trace"@
    ||| name == "debug"@
    ||| name == "info"@
    ||| name == "warn"@
    ||| name == "warning"@
    ||| name == "error"@
}

/// The message that rejects the log level text `s`.
pub open spec fn log_level_error(s: Seq<char>) -> Seq<char> {
    "Invalid log level: "@ + s + ". Valid values are: trace, debug, info, warn, error"@
}

/// The (lower-cased) names that select a log format.
pub open spec fn log_format_accepts(name: Seq<char>) -> bool {
    ||| name == "text"@
    ||| name == "pretty"@
    ||| name == "json"@
}

/// The message that rejects the log format text `s`.
pub open spec fn log_format_error(s: Seq<char>) -> Seq<char> {
    "Invalid log format: "@ + s + ". Valid values are: text, json"@
}

/// The log level that `<LogLevel as FromStr>::from_str` gives for the text
/// `s` when it accepts it.
pub uninterp spec fn log_level_named(s: Seq<char>) -> rust_template_foundation::logging::LogLevel;

/// The log format that `<LogFormat as FromStr>::from_str` gives for the
/// text `s` when it accepts it.
pub uninterp spec fn log_format_named(s: Seq<char>) -> rust_template_foundation::logging::LogFormat;

/// Parses a log level.
/// Calls `<LogLevel as FromStr>::from_str` of the foundation crate and
/// renders its error with `to_string`. The source lower-cases the text
/// (`str::to_lowercase`) and accepts trace, debug, info, warn, warning and
/// error; its error displays as "Invalid log level: <text>. Valid values
/// are: trace, debug, info, warn, error" with the text as given. The level
/// it returns depends on the text alone and is named `log_level_named`.
/// For ASCII text the lower-casing maps 'A'..='Z' to 'a'..='z' and keeps
/// every other character, as `str::to_lowercase` does.
#[verifier::external_body]
pub(crate) fn parse_log_level(s: &str) -> (r: Result<rust_template_foundation::logging::LogLevel, String>)
    ensures
        r is Ok <==> log_level_accepts(lowercase(s@)),
        all_ascii(s@) ==> (r is Ok <==> log_level_accepts(ascii_lowercase(s@))),
        r matches Ok(l) ==> l == log_level_named(s@),
        r matches Err(m) ==> m@ == log_level_error(s@),
{
    s.parse::<rust_template_foundation::logging::LogLevel>().map_err(|e| e.to_string())
}

/// Parses a log format.
/// Calls `<LogFormat as FromStr>::from_str` of the foundation crate and
/// renders its error with `to_string`. The source lower-cases the text and
/// accepts text, pretty and json; its error displays as "Invalid log
/// format: <text>. Valid values are: text, json". The format it returns
/// depends on the text alone and is named `log_format_named`. For ASCII
/// text the lower-casing is the ASCII one, as for the log level.
#[verifier::external_body]
pub(crate) fn parse_log_format(s: &str) -> (r: Result<rust_template_foundation::logging::LogFormat, String>)
    ensures
        r is Ok <==> log_format_accepts(lowercase(s@)),
        all_ascii(s@) ==> (r is Ok <==> log_format_accepts(ascii_lowercase(s@))),
        r matches Ok(f) ==> f == log_format_named(s@),
        r matches Err(m) ==> m@ == log_format_error(s@),
{
    s.parse::<rust_template_foundation::logging::LogFormat>().map_err(|e| e.to_string())
}

/// The text chosen from a command-line value, a file value and a default,
/// in that order of precedence.
pub open spec fn chosen_text(cli: Option<String>, file: Option<String>, default: Seq<char>) -> Seq<
    char,
> {
    match cli {
        Some(s) => s@,
        None => match file {
            Some(s) => s@,
            None => default,
        },
    }
}

/// The number chosen from a command-line value, a file value and a default,
/// in that order of precedence.
pub open spec fn chosen_number(cli: Option<u64>, file: Option<u64>, default: u64) -> u64 {
    match cli {
        Some(n) => n,
        None => match file {
            Some(n) => n,
            None => default,
        },
    }
}

/// The command-line value if given, else the file value if given, else the
/// default.
pub fn choose_text(cli: Option<String>, file: Option<String>, default: &str) -> (s: String)
    ensures
        s@ == chosen_text(cli, file, default@),
{
    match cli {
        Some(s) => s,
        None => match file {
            Some(s) => s,
            None => String::from_str(default),
        },
    }
}

/// The command-line value if given, else the file value if given, else the
/// default.
pub fn choose_number(cli: Option<u64>, file: Option<u64>, default: u64) -> (n: u64)
    ensures
        n == chosen_number(cli, file, default),
{
    match cli {
        Some(n) => n,
        None => match file {
            Some(n) => n,
            None => default,
        },
    }
}

} // verus!
