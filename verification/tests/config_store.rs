use notify_relay::config::{load_config, parse_u64, Config};
use notify_relay::errors::{ConfigError, UnsupportedStoreError};
use notify_relay::store::{sqlite_parent_dir, store_scheme, StoreScheme};

fn load(
    gt: &str,
    bt: &str,
    ci: &str,
    poll: Option<&str>,
    timeout: Option<&str>,
    url: &str,
) -> Result<Config, ConfigError> {
    load_config(gt, bt, ci, poll, timeout, url)
}

#[test]
fn unsupported_scheme_fails_fast() {
    assert_eq!(store_scheme("ftp://host"), Err(UnsupportedStoreError));
}

#[test]
fn recognized_schemes_select_backends() {
    assert_eq!(store_scheme("sqlite://./data/notify.db"), Ok(StoreScheme::Sqlite));
    assert_eq!(store_scheme("sqlite::memory:"), Ok(StoreScheme::Sqlite));
    assert_eq!(store_scheme("postgres://host/db"), Ok(StoreScheme::Postgres));
    assert_eq!(store_scheme("postgresql://host/db"), Ok(StoreScheme::Postgres));
    assert_eq!(store_scheme("mysql://host/db"), Err(UnsupportedStoreError));
}

#[test]
fn parent_dir_for_file_backed_store() {
    assert_eq!(sqlite_parent_dir("sqlite://./data/notify.db"), Some("./data".to_string()));
    assert_eq!(sqlite_parent_dir("sqlite://a/b/c.db"), Some("a/b".to_string()));
    assert_eq!(sqlite_parent_dir("sqlite://notify.db"), None);
    assert_eq!(sqlite_parent_dir("sqlite::memory:"), None);
    assert_eq!(sqlite_parent_dir("sqlite://"), None);
}

#[test]
fn parse_u64_accepts_decimals_and_sign() {
    assert_eq!(parse_u64("0"), Some(0));
    assert_eq!(parse_u64("60"), Some(60));
    assert_eq!(parse_u64("+5"), Some(5));
    assert_eq!(parse_u64("18446744073709551615"), Some(u64::MAX));
    assert_eq!(parse_u64(""), None);
    assert_eq!(parse_u64("+"), None);
    assert_eq!(parse_u64("12a"), None);
    assert_eq!(parse_u64("-3"), None);
    assert_eq!(parse_u64("18446744073709551616"), None);
    assert_eq!(parse_u64("99999999999999999999999"), None);
}

#[test]
fn config_defaults_apply() {
    let c = load("gh", "bot", "chat", None, None, "").unwrap();
    assert_eq!(c.poll_interval_secs, 60);
    assert_eq!(c.http_timeout_secs, 15);
    assert_eq!(c.database_url, "sqlite://./data/notify.db");
    assert_eq!(c.github_token, "gh");
    assert_eq!(c.telegram_bot_token, "bot");
    assert_eq!(c.telegram_chat_id, "chat");
}

#[test]
fn config_keeps_explicit_values() {
    let c = load("gh", "bot", "chat", Some("120"), Some("30"), "postgres://db").unwrap();
    assert_eq!(c.poll_interval_secs, 120);
    assert_eq!(c.http_timeout_secs, 30);
    assert_eq!(c.database_url, "postgres://db");
}

#[test]
fn config_missing_values_fail_in_order() {
    assert_eq!(load("", "", "", None, None, "").unwrap_err(), ConfigError::MissingGithubToken);
    assert_eq!(
        load("gh", "", "", None, None, "").unwrap_err(),
        ConfigError::MissingTelegramBotToken
    );
    assert_eq!(
        load("gh", "bot", "", None, None, "").unwrap_err(),
        ConfigError::MissingTelegramChatId
    );
}

#[test]
fn config_rejects_bad_intervals() {
    assert_eq!(
        load("gh", "bot", "chat", Some("abc"), None, "").unwrap_err(),
        ConfigError::InvalidPollInterval
    );
    assert_eq!(
        load("gh", "bot", "chat", None, Some("x1"), "").unwrap_err(),
        ConfigError::InvalidHttpTimeout
    );
    assert_eq!(
        load("gh", "bot", "chat", Some("0"), None, "").unwrap_err(),
        ConfigError::PollIntervalZero
    );
    assert_eq!(
        load("gh", "bot", "chat", Some("5"), Some("0"), "").unwrap_err(),
        ConfigError::HttpTimeoutZero
    );
}

#[test]
fn config_set_but_empty_interval_is_invalid() {
    // an absent variable takes the default, a set-but-empty one does not
    assert_eq!(
        load("gh", "bot", "chat", Some(""), None, "").unwrap_err(),
        ConfigError::InvalidPollInterval
    );
    assert_eq!(
        load("gh", "bot", "chat", None, Some(""), "").unwrap_err(),
        ConfigError::InvalidHttpTimeout
    );
}
