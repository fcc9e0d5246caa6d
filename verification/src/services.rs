//! Cross-cutting services: the logging interface with a line-printing
//! implementation, and credential validation for the login workflow.

use vstd::prelude::*;
use crate::error::SharedError;
use crate::textfmt::{replace_of, replace_str};
use std::io::Write;

verus! {

#[derive(Debug, PartialEq, Eq, Structural, Clone, Copy)]
pub enum LogLevel {
    Error,
    Warn,
    Info,
    Debug,
}

/// The text a level is shown as.
pub open spec fn level_name(level: LogLevel) -> Seq<char> {
    match level {
        LogLevel::Error => "Error"@,
        LogLevel::Warn => "Warn"@,
        LogLevel::Info => "Info"@,
        LogLevel::Debug => "Debug"@,
    }
}

impl LogLevel {
    pub fn name(&self) -> (r: &'static str)
        ensures
            r@ == level_name(*self),
    {
        match self {
            LogLevel::Error => "Error",
            LogLevel::Warn => "Warn",
            LogLevel::Info => "Info",
            LogLevel::Debug => "Debug",
        }
    }
}

/// A log sink. The levelled helpers all funnel into `log`.
pub trait Logger {
    fn log(&self, level: LogLevel, message: &str);

    fn error(&self, message: &str) {
        self.log(LogLevel::Error, message);
    }

    fn warn(&self, message: &str) {
        self.log(LogLevel::Warn, message);
    }

    fn debug(&self, message: &str) {
        self.log(LogLevel::Debug, message);
    }

    fn info(&self, message: &str) {
        self.log(LogLevel::Info, message);
    }
}

pub struct LoggerConfig {
    pub format: String,
    pub min_level: LogLevel,
}

/// A logger that renders each entry from the configured format string and
/// prints it as one line.
pub struct LoggerPrinter {
    config: LoggerConfig,
}

impl LoggerPrinter {
    /// The configured format string.
    pub closed spec fn format_spec(&self) -> Seq<char> {
        self.config.format@
    }

    pub fn new(config: LoggerConfig) -> (r: LoggerPrinter)
        ensures
            r.format_spec() == config.format@,
    {
        LoggerPrinter { config }
    }

    /// Renders one entry: the format string with its `{level}`,
    /// `{timestamp}` and `{message}` placeholders substituted, in that
    /// order.
    pub fn format_message(&self, level: LogLevel, timestamp: &str, message: &str) -> (r: String)
        ensures
            r@ == replace_of(
                replace_of(
                    replace_of(self.format_spec(), "{level}"@, level_name(level)),
                    "{timestamp}"@,
                    timestamp@,
                ),
                "{message}"@,
                message@,
            ),
    {
        let step1 = replace_str(self.config.format.as_str(), "{level}", level.name());
        let step2 = replace_str(step1.as_str(), "{timestamp}", timestamp);
        replace_str(step2.as_str(), "{message}", message)
    }
}

/// Relies on std's `SystemTime` for the clock and chrono's
/// `DateTime::from_timestamp` and `to_rfc3339` for the rendering. Every
/// fallible step is matched, never unwrapped, so the call returns on any
/// clock reading: before the Unix epoch it renders the epoch, and beyond
/// chrono's range it renders nothing. The result depends on the clock, so
/// nothing is claimed of it.
#[verifier::external_body]
fn now_rfc3339() -> String {
    let secs: i64 = match std::time::SystemTime::now().duration_since(std::time::UNIX_EPOCH) {
        Ok(d) => i64::try_from(d.as_secs()).unwrap_or(i64::MAX),
        Err(_) => 0,
    };
    match chrono::DateTime::<chrono::Utc>::from_timestamp(secs, 0) {
        Some(dt) => dt.to_rfc3339(),
        None => String::new(),
    }
}

/// Relies on std's stdout: prints one line to it.
#[verifier::external_body]
fn print_line(line: &str) {
    let mut out = std::io::stdout();
    let _ = writeln!(out, "{}", line);
}

impl Logger for LoggerPrinter {
    fn log(&self, level: LogLevel, message: &str) {
        let timestamp = now_rfc3339();
        let line = self.format_message(level, timestamp.as_str(), message);
        print_line(line.as_str());
    }
}

/// Validates credentials handed in by a caller.
pub trait CredentialsValidator {
    fn validate(&self, user: &String, pass: &String) -> Result<String, SharedError>;

    fn has_access(&self, api_key: &String) -> Result<(), SharedError>;
}

pub struct CredentialsValidatorOneUserConfig {
    pub user: String,
    pub pass: String,
    pub key: String,
}

/// A validator that knows exactly one user and hands out one key.
pub struct CredentialsValidatorOneUser {
    pub config: CredentialsValidatorOneUserConfig,
}

impl CredentialsValidator for CredentialsValidatorOneUser {
    fn validate(&self, user: &String, pass: &String) -> (r: Result<String, SharedError>)
        ensures
            r is Ok <==> self.config.user@ == user@ && self.config.pass@ == pass@,
            r is Ok ==> r->Ok_0@ == self.config.key@,
            r is Err ==> r->Err_0.code == 401 && r->Err_0.message@ == "INVALID CREDENTIALS"@,
    {
        if self.config.user == *user && self.config.pass == *pass {
            Ok(self.config.key.clone())
        } else {
            Err(SharedError::new("INVALID CREDENTIALS", 401))
        }
    }

    fn has_access(&self, api_key: &String) -> (r: Result<(), SharedError>)
        ensures
            r is Ok <==> self.config.key@ == api_key@,
            r is Err ==> r->Err_0.code == 401 && r->Err_0.message@ == "NOT AUTHORIZED"@,
    {
        if self.config.key == *api_key {
            Ok(())
        } else {
            Err(SharedError::new("NOT AUTHORIZED", 401))
        }
    }
}

} // verus!
