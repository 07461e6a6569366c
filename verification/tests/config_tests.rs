use auth_core::config::{
    parse_environment, parse_i64_str, parse_u16_str, AppConfig, ConfigError, DatabaseConfig,
    DatabaseConfigError, Environment,
};

fn some(s: &str) -> Option<String> {
    Some(s.to_string())
}

#[test]
fn test_app_config_defaults() {
    let c = AppConfig::build(None, None, None, some("s3cret"), None).expect("build");
    assert_eq!(c.host, "0.0.0.0");
    assert_eq!(c.port, 3000);
    assert_eq!(c.environment, Environment::Development);
    assert_eq!(c.jwt_secret, "s3cret");
    assert_eq!(c.jwt_expiration_hours, 24);
}

#[test]
fn test_app_config_explicit_values() {
    let c = AppConfig::build(
        some("127.0.0.1"),
        some("8080"),
        some("PROD"),
        some("k"),
        some("48"),
    )
    .expect("build");
    assert_eq!(c.host, "127.0.0.1");
    assert_eq!(c.port, 8080);
    assert_eq!(c.environment, Environment::Production);
    assert_eq!(c.jwt_expiration_hours, 48);
    assert_eq!(c.server_addr(), "127.0.0.1:8080");
    assert!(c.is_production());
}

#[test]
fn test_app_config_rejections() {
    assert!(matches!(
        AppConfig::build(None, some("70000"), None, some("k"), None),
        Err(ConfigError::InvalidPort)
    ));
    assert!(matches!(
        AppConfig::build(None, some("80x"), None, some("k"), None),
        Err(ConfigError::InvalidPort)
    ));
    assert!(matches!(
        AppConfig::build(None, None, some("nowhere"), some("k"), None),
        Err(ConfigError::InvalidEnvironment)
    ));
    assert!(matches!(
        AppConfig::build(None, None, None, None, None),
        Err(ConfigError::MissingEnvVar)
    ));
    assert!(matches!(
        AppConfig::build(None, None, None, some("k"), some("soon")),
        Err(ConfigError::InvalidJwtExpiration)
    ));
}

#[test]
fn test_port_parsing_follows_integer_syntax() {
    assert_eq!(parse_u16_str("0123"), Some(123));
    assert_eq!(parse_u16_str("+80"), Some(80));
    assert_eq!(parse_u16_str("65535"), Some(65535));
    assert_eq!(parse_u16_str("65536"), None);
    assert_eq!(parse_u16_str(""), None);
    assert_eq!(parse_u16_str("+"), None);
    assert_eq!(parse_u16_str("-1"), None);
}

#[test]
fn test_hour_parsing_accepts_signs() {
    assert_eq!(parse_i64_str("24"), Some(24));
    assert_eq!(parse_i64_str("-5"), Some(-5));
    assert_eq!(parse_i64_str("+7"), Some(7));
    assert_eq!(parse_i64_str("9223372036854775807"), Some(i64::MAX));
    assert_eq!(parse_i64_str("-9223372036854775808"), Some(i64::MIN));
    assert_eq!(parse_i64_str("9223372036854775808"), None);
    assert_eq!(parse_i64_str("--1"), None);
}

#[test]
fn test_environment_names_are_ascii_case_insensitive() {
    assert_eq!(parse_environment("development"), Ok(Environment::Development));
    assert_eq!(parse_environment("DEV"), Ok(Environment::Development));
    assert_eq!(parse_environment("Staging"), Ok(Environment::Staging));
    assert_eq!(parse_environment("stg"), Ok(Environment::Staging));
    assert_eq!(parse_environment("production"), Ok(Environment::Production));
    assert_eq!(parse_environment("PrOd"), Ok(Environment::Production));
    assert_eq!(parse_environment("prodx"), Err(ConfigError::InvalidEnvironment));
    assert_eq!(parse_environment(""), Err(ConfigError::InvalidEnvironment));
}

#[test]
fn test_environment_from_str_trait() {
    let e: Result<Environment, ConfigError> = "staging".parse();
    assert_eq!(e, Ok(Environment::Staging));
}

#[test]
fn test_database_config_defaults_and_fallbacks() {
    assert!(matches!(
        DatabaseConfig::build(None, None, None, None),
        Err(DatabaseConfigError::MissingDatabaseUrl)
    ));
    let c = DatabaseConfig::build(some("postgres://localhost/app"), None, None, None)
        .expect("build");
    assert_eq!(c.url, "postgres://localhost/app");
    assert_eq!(c.max_connections, 10);
    assert_eq!(c.min_connections, 1);
    assert_eq!(c.acquire_timeout_secs, 30);
    let c = DatabaseConfig::build(some("postgres://x"), some("25"), some("bad"), some("90"))
        .expect("build");
    assert_eq!(c.max_connections, 25);
    assert_eq!(c.min_connections, 1);
    assert_eq!(c.acquire_timeout_secs, 90);
}
