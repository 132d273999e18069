use pushtime::config::{parse_config, ConfigError};

#[test]
fn both_keys_resolve() {
    let cfg = parse_config("PUSHOVER_TOKEN=abc\nPUSHOVER_USER=u1\n").unwrap();
    assert_eq!(cfg.token, "abc");
    assert_eq!(cfg.user, "u1");
    assert!(cfg.api_url.is_none());
}

#[test]
fn last_occurrence_wins() {
    let cfg = parse_config(
        "PUSHOVER_TOKEN=first\nPUSHOVER_USER=u\nPUSHOVER_TOKEN=second\n",
    )
    .unwrap();
    assert_eq!(cfg.token, "second");
    assert_eq!(cfg.user, "u");
}

#[test]
fn missing_token_fails() {
    let err = parse_config("PUSHOVER_USER=u\n").unwrap_err();
    assert_eq!(err, ConfigError::MissingToken);
    assert_eq!(err.message(), "PUSHOVER_TOKEN not found in config.");
}

#[test]
fn missing_user_fails() {
    let err = parse_config("PUSHOVER_TOKEN=t\n").unwrap_err();
    assert_eq!(err, ConfigError::MissingUser);
    assert_eq!(err.message(), "PUSHOVER_USER not found in config.");
}

#[test]
fn empty_token_fails() {
    let err = parse_config("PUSHOVER_TOKEN=   \nPUSHOVER_USER=u\n").unwrap_err();
    assert_eq!(err, ConfigError::EmptyCredential);
}

#[test]
fn empty_user_fails() {
    let err = parse_config("PUSHOVER_TOKEN=t\nPUSHOVER_USER=\n").unwrap_err();
    assert_eq!(err, ConfigError::EmptyCredential);
}

#[test]
fn lines_without_equals_are_ignored() {
    let cfg = parse_config(
        "just a note\n\nPUSHOVER_TOKEN=t\nanother note\nPUSHOVER_USER=u",
    )
    .unwrap();
    assert_eq!(cfg.token, "t");
    assert_eq!(cfg.user, "u");
}

#[test]
fn value_may_contain_equals() {
    let cfg = parse_config(
        "PUSHOVER_TOKEN=t\nPUSHOVER_USER=u\nPUSHOVER_API=https://h/p?a=b\n",
    )
    .unwrap();
    assert_eq!(cfg.api_url.as_deref(), Some("https://h/p?a=b"));
}

#[test]
fn keys_and_values_are_trimmed() {
    let cfg = parse_config("  PUSHOVER_TOKEN  =  tok  \n\tPUSHOVER_USER\t=\tusr\t\n").unwrap();
    assert_eq!(cfg.token, "tok");
    assert_eq!(cfg.user, "usr");
}

#[test]
fn empty_input_is_missing_token() {
    let err = parse_config("").unwrap_err();
    assert_eq!(err, ConfigError::MissingToken);
}

#[test]
fn not_found_and_unreadable_messages() {
    assert_eq!(
        ConfigError::NotFound.message(),
        "No .pushtime config found in the current or parent directories or home directory."
    );
    assert_eq!(
        ConfigError::Unreadable.message(),
        "Failed to read pushover configuration file."
    );
    assert_eq!(
        ConfigError::EmptyCredential.message(),
        "PUSHOVER_TOKEN or PUSHOVER_USER is empty in config."
    );
}
