use zoom_lomax::config::{
    read_config, resolve_credentials, validate_config, Config, ConfigError, ConfigField,
};
use zoom_lomax::jsonio::{RawInt, RawStr};

#[test]
fn test_invalid_config() {
    read_config("").expect_err("should fail");
    read_config("foo").expect_err("should fail");
    read_config("{").expect_err("should fail");
    read_config("{}").expect_err("should fail");
    read_config(
        r#"{
        "api_key": "key",
        "api_secret": "secret",
        "user": "user@example.com"
    }"#,
    )
    .expect_err("should fail");
    read_config(
        r#"{
        "api_key": "key",
        "api_secret": "secret",
        "output_dir": "/home/me/dir",
        "user": "user@example.com",
        "notify": "<user@foo.com"
    }"#,
    )
    .expect_err("should fail");
    read_config(
        r#"{
        "api_key": "key",
        "api_secret": "secret",
        "output_dir": "/home/me/dir",
        "user": "user@example.com",
        "days", "foo"
    }"#,
    )
    .expect_err("should fail");
}

#[test]
fn test_valid_config() {
    read_config(
        r#"{
        "api_key": "key",
        "api_secret": "secret",
        "output_dir": "/home/me/dir",
        "user": "user@example.com"
    }"#,
    )
    .expect("missing notify and days");
    read_config(
        r#"{
        "api_key": "key",
        "api_secret": "secret",
        "output_dir": "/home/me/dir",
        "user": "user@example.com",
        "notify": "My name <user@example.com>",
        "days": 4
    }"#,
    )
    .expect("fully specified");
}

#[test]
fn config_error_kinds() {
    assert_eq!(read_config("[1, 2]").unwrap_err(), ConfigError::Missing(ConfigField::ApiKey));
    assert_eq!(read_config("not json at all").unwrap_err(), ConfigError::Malformed);
    assert_eq!(
        read_config(r#"{"api_key": 3}"#).unwrap_err(),
        ConfigError::Invalid(ConfigField::ApiKey)
    );
    assert_eq!(
        read_config(r#"{"api_key": "k", "api_secret": "s", "user": "u@e.com"}"#).unwrap_err(),
        ConfigError::Missing(ConfigField::OutputDir)
    );
    let missing_user = r#"{
        "api_key": "k",
        "api_secret": "s",
        "output_dir": "/tmp/out"
    }"#;
    assert_eq!(read_config(missing_user).unwrap_err(), ConfigError::Missing(ConfigField::User));
    let bad_days = r#"{
        "api_key": "k",
        "api_secret": "s",
        "user": "u@e.com",
        "output_dir": "/tmp/out",
        "days": "soon"
    }"#;
    assert_eq!(read_config(bad_days).unwrap_err(), ConfigError::Invalid(ConfigField::Days));
    let negative_days = r#"{
        "api_key": "k",
        "api_secret": "s",
        "user": "u@e.com",
        "output_dir": "/tmp/out",
        "days": -2
    }"#;
    assert_eq!(read_config(negative_days).unwrap_err(), ConfigError::Invalid(ConfigField::Days));
    let bad_notify = r#"{
        "api_key": "k",
        "api_secret": "s",
        "user": "u@e.com",
        "output_dir": "/tmp/out",
        "notify": 7
    }"#;
    assert_eq!(read_config(bad_notify).unwrap_err(), ConfigError::Invalid(ConfigField::Notify));
}

#[test]
fn config_days_defaults_to_one() {
    let c: Config = read_config(
        r#"{
        "api_key": "k",
        "api_secret": "s",
        "user": "u@e.com",
        "output_dir": "/tmp/out"
    }"#,
    )
    .unwrap();
    assert_eq!(c.days, 1);
    assert_eq!(c.api_key, "k");
    assert_eq!(c.api_secret, "s");
    assert_eq!(c.user, "u@e.com");
    assert_eq!(c.output_dir, "/tmp/out");
    assert!(c.notify.is_none());
}

#[test]
fn config_notify_kept_when_valid() {
    let c = read_config(
        r#"{
        "api_key": "k",
        "api_secret": "s",
        "user": "u@e.com",
        "output_dir": "/tmp/out",
        "notify": "someone@example.com",
        "days": 3
    }"#,
    )
    .unwrap();
    assert_eq!(c.days, 3);
    assert_eq!(c.notify.as_deref(), Some("someone@example.com"));
}

#[test]
fn resolving_credentials_swaps_only_the_secrets() {
    let base = || Config {
        api_key: "key-name".to_string(),
        api_secret: "secret-name".to_string(),
        user: "u@e.com".to_string(),
        output_dir: "/tmp/out".to_string(),
        days: 2,
        notify: Some("a@b.com".to_string()),
    };
    let c = resolve_credentials(base(), Some("k-val".to_string()), Some("s-val".to_string()))
        .unwrap();
    assert_eq!(c.api_key, "k-val");
    assert_eq!(c.api_secret, "s-val");
    assert_eq!(c.user, "u@e.com");
    assert_eq!(c.days, 2);
    assert_eq!(c.notify.as_deref(), Some("a@b.com"));
    assert_eq!(
        resolve_credentials(base(), None, Some("s".to_string())).unwrap_err(),
        ConfigError::Missing(ConfigField::ApiKey)
    );
    assert_eq!(
        resolve_credentials(base(), Some("k".to_string()), None).unwrap_err(),
        ConfigError::Missing(ConfigField::ApiSecret)
    );
}

#[test]
fn validate_config_field_order() {
    let r = validate_config(
        RawStr::Absent,
        RawStr::Absent,
        RawStr::Absent,
        RawStr::Absent,
        RawInt::NotAnInt,
        RawStr::NotAString,
        false,
    );
    assert_eq!(r.unwrap_err(), ConfigError::Missing(ConfigField::ApiKey));
    let r = validate_config(
        RawStr::Val("k".to_string()),
        RawStr::Val("s".to_string()),
        RawStr::Val("u".to_string()),
        RawStr::Val("/o".to_string()),
        RawInt::Absent,
        RawStr::Absent,
        false,
    );
    let c = r.unwrap();
    assert_eq!(c.days, 1);
    assert!(c.notify.is_none());
}
