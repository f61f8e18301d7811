use messages_gateway::config::{parse_u64, AppConfig, EnvSettings};
use messages_gateway::error::AppError;

fn required() -> EnvSettings {
    EnvSettings {
        database_url: Some("postgres://localhost/mail".to_string()),
        api_key: Some("SECRET-REDACTED".to_string()),
        ..EnvSettings::default()
    }
}

#[test]
fn defaults_fill_unset_settings() {
    let c = AppConfig::from_settings(&required()).unwrap();
    assert_eq!(c.server.port, 3000);
    assert_eq!(c.server.host, "http://localhost:3000");
    assert_eq!(c.database.url, "postgres://localhost/mail");
    assert_eq!(c.database.max_connections, 25);
    assert_eq!(c.database.min_connections, 5);
    assert_eq!(c.database.max_lifetime_secs, 3600);
    assert_eq!(c.database.idle_timeout_secs, 900);
    assert_eq!(c.nats.url, "nats://127.0.0.1:4222");
    assert_eq!(c.nats.stream, "messages");
    assert_eq!(c.nats.subject, "messages.email");
    assert_eq!(c.scheduler.batch_size, 1000);
    assert_eq!(c.scheduler.interval_secs, 60);
    assert_eq!(c.security.api_key, "SECRET-REDACTED");
}

#[test]
fn set_values_override_defaults() {
    let v = EnvSettings {
        server_port: Some("8080".to_string()),
        batch_size: Some("250".to_string()),
        nats_subject: Some("mail.out".to_string()),
        ..required()
    };
    let c = AppConfig::from_settings(&v).unwrap();
    assert_eq!(c.server.port, 8080);
    assert_eq!(c.scheduler.batch_size, 250);
    assert_eq!(c.nats.subject, "mail.out");
}

fn config_error(v: &EnvSettings) -> String {
    match AppConfig::from_settings(v) {
        Err(AppError::Config(m)) => m,
        other => panic!("unexpected {:?}", other),
    }
}

#[test]
fn missing_required_and_bad_numbers_are_errors() {
    assert_eq!(config_error(&EnvSettings { database_url: None, ..required() }), "DATABASE_URL must be set");
    assert_eq!(config_error(&EnvSettings { api_key: None, ..required() }), "API_KEY must be set");
    assert_eq!(
        config_error(&EnvSettings { server_port: Some("70000".to_string()), ..required() }),
        "Failed to parse SERVER_PORT"
    );
    assert_eq!(
        config_error(&EnvSettings { scheduler_interval: Some("soon".to_string()), ..required() }),
        "Failed to parse SCHEDULER_INTERVAL"
    );
}

#[test]
fn decimal_reading_agrees_with_std() {
    let cases = [
        "0", "42", "+42", "", "+", "-1", "++1", " 1", "1 ", "12a", "007",
        "18446744073709551615", "18446744073709551616", "99999999999999999999999", "٣",
    ];
    for text in cases {
        assert_eq!(parse_u64(text), text.parse::<u64>().ok(), "text {:?}", text);
    }
    assert_eq!(parse_u64("+42"), Some(42));
    assert_eq!(parse_u64("18446744073709551615"), Some(u64::MAX));
    assert_eq!(parse_u64("18446744073709551616"), None);
}
