use commerce_core::dispatch::{Mediator, Sender, Store};
use commerce_core::error::SharedError;
use commerce_core::queries::LoginQuery;
use commerce_core::services::{
    CredentialsValidator, CredentialsValidatorOneUser, CredentialsValidatorOneUserConfig, LogLevel,
    LoggerConfig, LoggerPrinter,
};

fn validator() -> CredentialsValidatorOneUser {
    CredentialsValidatorOneUser {
        config: CredentialsValidatorOneUserConfig {
            user: "username".to_string(),
            pass: "password".to_string(),
            key: "api-key-1".to_string(),
        },
    }
}

#[test]
fn login_returns_the_key_for_good_credentials() {
    let mut m = Mediator::new(Store::new(validator()));
    let out = m
        .send(LoginQuery { user: "username".to_string(), pass: "password".to_string() })
        .unwrap();
    assert_eq!(out.key, "api-key-1");
}

#[test]
fn login_refuses_bad_credentials() {
    let mut m = Mediator::new(Store::new(validator()));
    let err = m
        .send(LoginQuery { user: "username".to_string(), pass: "wrong".to_string() })
        .unwrap_err();
    assert_eq!(err.code, 401);
    assert_eq!(err.message, "INVALID CREDENTIALS");
}

#[test]
fn has_access_checks_the_key() {
    let v = validator();
    assert!(v.has_access(&"api-key-1".to_string()).is_ok());
    let err = v.has_access(&"other".to_string()).unwrap_err();
    assert_eq!(err.code, 401);
    assert_eq!(err.message, "NOT AUTHORIZED");
}

#[test]
fn log_lines_substitute_every_placeholder() {
    let printer = LoggerPrinter::new(LoggerConfig {
        format: "{timestamp}|{level}|{message}".to_string(),
        min_level: LogLevel::Debug,
    });
    let line = printer.format_message(LogLevel::Error, "2015-05-15T00:00:00+00:00", "boom");
    assert_eq!(line, "2015-05-15T00:00:00+00:00|Error|boom");
}

#[test]
fn log_format_without_placeholders_is_kept() {
    let printer = LoggerPrinter::new(LoggerConfig {
        format: "plain".to_string(),
        min_level: LogLevel::Info,
    });
    let line = printer.format_message(LogLevel::Warn, "ts", "msg");
    assert_eq!(line, "plain");
}

#[test]
fn level_names_match_their_variants() {
    assert_eq!(LogLevel::Error.name(), "Error");
    assert_eq!(LogLevel::Warn.name(), "Warn");
    assert_eq!(LogLevel::Info.name(), "Info");
    assert_eq!(LogLevel::Debug.name(), "Debug");
}

#[test]
fn shared_error_describes_itself() {
    let err = SharedError::new("broken", 500);
    assert_eq!(err.code, 500);
    assert_eq!(err.describe(), "Error: broken");
}
