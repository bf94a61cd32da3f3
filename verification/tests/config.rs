use receipt_ingest::config::{check_issuers, AppConfig, ConfigError, Environment};

fn env() -> Environment {
    Environment {
        mongo_uri: Some("mongodb://localhost".to_string()),
        database: Some("fin".to_string()),
        ollama_model: Some("llama3.1:latest".to_string()),
        frontend_app_url: Some("http://localhost:3000".to_string()),
        issuer_emails: Some(r#"["a@bank.com", "b@wallet.io"]"#.to_string()),
    }
}

fn error_of(env: Environment) -> ConfigError {
    match AppConfig::from_env(env) {
        Err(e) => e,
        Ok(c) => panic!("unexpected configuration {:?}", c),
    }
}

#[test]
fn a_complete_environment_gives_a_configuration() {
    let config = AppConfig::from_env(env()).unwrap();
    assert_eq!(config.mongo_uri, "mongodb://localhost");
    assert_eq!(config.database, "fin");
    assert_eq!(config.ollama_model, "llama3.1:latest");
    assert_eq!(config.frontend_app_url, "http://localhost:3000");
    assert_eq!(config.issuer_emails, vec!["a@bank.com".to_string(), "b@wallet.io".to_string()]);
}

#[test]
fn the_first_missing_value_is_named() {
    assert_eq!(error_of(Environment { mongo_uri: None, database: None, ..env() }), ConfigError::MissingMongoUri);
    assert_eq!(error_of(Environment { database: None, ..env() }), ConfigError::MissingDatabase);
    assert_eq!(error_of(Environment { ollama_model: None, ..env() }), ConfigError::MissingOllamaModel);
    assert_eq!(
        error_of(Environment { frontend_app_url: None, ..env() }),
        ConfigError::MissingFrontendAppUrl
    );
    assert_eq!(error_of(Environment { issuer_emails: None, ..env() }), ConfigError::MissingIssuerEmails);
}

#[test]
fn the_issuers_must_be_an_array_of_strings() {
    let with = |raw: &str| error_of(Environment { issuer_emails: Some(raw.to_string()), ..env() });
    assert_eq!(with("a@bank.com"), ConfigError::InvalidIssuerEmails);
    assert_eq!(with("[1, 2]"), ConfigError::InvalidIssuerEmails);
    assert_eq!(with("[]"), ConfigError::NoIssuerEmails);
}

#[test]
fn an_issuer_list_is_checked_by_itself() {
    assert_eq!(check_issuers(None), Err(ConfigError::InvalidIssuerEmails));
    assert_eq!(check_issuers(Some(Vec::new())), Err(ConfigError::NoIssuerEmails));
    assert_eq!(check_issuers(Some(vec!["a".to_string()])), Ok(vec!["a".to_string()]));
}
