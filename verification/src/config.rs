//! The configuration of the service, from the values of its environment.

use vstd::prelude::*;
use crate::text::{opt_text, views};

verus! {

/// An outside type: why a text is no JSON, or not the JSON asked for.
#[verifier::external_type_specification]
#[verifier::external_body]
pub struct ExJsonError(serde_json::Error);

/// What the service is configured with.
#[derive(Debug)]
pub struct AppConfig {
    pub mongo_uri: String,
    pub database: String,
    pub ollama_model: String,
    pub frontend_app_url: String,
    /// The addresses of the issuers whose messages are searched for; one at
    /// least.
    pub issuer_emails: Vec<String>,
}

/// The mathematical form of an `AppConfig`.
pub struct Settings {
    pub mongo_uri: Seq<char>,
    pub database: Seq<char>,
    pub ollama_model: Seq<char>,
    pub frontend_app_url: Seq<char>,
    pub issuer_emails: Seq<Seq<char>>,
}

impl View for AppConfig {
    type V = Settings;

    open spec fn view(&self) -> Settings {
        Settings {
            mongo_uri: self.mongo_uri@,
            database: self.database@,
            ollama_model: self.ollama_model@,
            frontend_app_url: self.frontend_app_url@,
            issuer_emails: views(self.issuer_emails@),
        }
    }
}

/// Why there is no configuration.
#[derive(Debug, Clone, Copy, PartialEq, Eq, Structural)]
pub enum ConfigError {
    /// `MONGO_URI` is not set.
    MissingMongoUri,
    /// `DATABASE` is not set.
    MissingDatabase,
    /// `OLLAMA_MODEL` is not set.
    MissingOllamaModel,
    /// `FRONTEND_APP_URL` is not set.
    MissingFrontendAppUrl,
    /// `ISSUER_EMAILS` is not set.
    MissingIssuerEmails,
    /// `ISSUER_EMAILS` is no JSON array of strings.
    InvalidIssuerEmails,
    /// `ISSUER_EMAILS` is an empty array.
    NoIssuerEmails,
}

/// The values of the environment that the configuration is read from, each
/// there or not.
#[derive(Debug)]
pub struct Environment {
    pub mongo_uri: Option<String>,
    pub database: Option<String>,
    pub ollama_model: Option<String>,
    pub frontend_app_url: Option<String>,
    pub issuer_emails: Option<String>,
}

/// What the JSON parser reads from `raw` as an array of strings: the
/// strings, or nothing where `raw` is no such array.
pub uninterp spec fn json_string_list(raw: Seq<char>) -> Option<Seq<Seq<char>>>;

/// Reads `raw` with `serde_json::from_str` as a `Vec<String>`. The error is
/// the parser's.
#[verifier::external_body]
fn parse_string_list(raw: &str) -> (r: Result<Vec<String>, serde_json::Error>)
    ensures
        match r {
            Ok(list) => json_string_list(raw@) == Some(views(list@)),
            Err(_) => json_string_list(raw@).is_none(),
        },
{
    serde_json::from_str(raw)
}

/// The issuers that a value of `ISSUER_EMAILS` names, from what the JSON
/// parser read from it: an error where it read nothing or an empty array.
pub open spec fn issuers_from(parsed: Option<Seq<Seq<char>>>) -> Result<
    Seq<Seq<char>>,
    ConfigError,
> {
    match parsed {
        None => Err(ConfigError::InvalidIssuerEmails),
        Some(list) => if list.len() == 0 {
            Err(ConfigError::NoIssuerEmails)
        } else {
            Ok(list)
        },
    }
}

/// The configuration that the values `mongo_uri` to `issuer_emails` give:
/// the first value that is missing is the error; then the issuers are read.
pub open spec fn settings_from(
    mongo_uri: Option<Seq<char>>,
    database: Option<Seq<char>>,
    ollama_model: Option<Seq<char>>,
    frontend_app_url: Option<Seq<char>>,
    issuer_emails: Option<Seq<char>>,
) -> Result<Settings, ConfigError> {
    if mongo_uri.is_none() {
        Err(ConfigError::MissingMongoUri)
    } else if database.is_none() {
        Err(ConfigError::MissingDatabase)
    } else if ollama_model.is_none() {
        Err(ConfigError::MissingOllamaModel)
    } else if frontend_app_url.is_none() {
        Err(ConfigError::MissingFrontendAppUrl)
    } else if issuer_emails.is_none() {
        Err(ConfigError::MissingIssuerEmails)
    } else {
        match issuers_from(json_string_list(issuer_emails.unwrap())) {
            Err(e) => Err(e),
            Ok(list) => Ok(
                Settings {
                    mongo_uri: mongo_uri.unwrap(),
                    database: database.unwrap(),
                    ollama_model: ollama_model.unwrap(),
                    frontend_app_url: frontend_app_url.unwrap(),
                    issuer_emails: list,
                },
            ),
        }
    }
}

/// Checks what the JSON parser read as the list of issuers: there must be
/// one at least.
pub fn check_issuers(parsed: Option<Vec<String>>) -> (r: Result<Vec<String>, ConfigError>)
    ensures
        match r {
            Ok(list) => issuers_from(
                match parsed {
                    Some(l) => Some(views(l@)),
                    None => None,
                },
            ) == Ok::<Seq<Seq<char>>, ConfigError>(views(list@)),
            Err(e) => issuers_from(
                match parsed {
                    Some(l) => Some(views(l@)),
                    None => None,
                },
            ) == Err::<Seq<Seq<char>>, ConfigError>(e),
        },
{
    match parsed {
        None => Err(ConfigError::InvalidIssuerEmails),
        Some(list) => {
            if list.len() == 0 {
                Err(ConfigError::NoIssuerEmails)
            } else {
                Ok(list)
            }
        },
    }
}

impl AppConfig {
    /// The configuration that the values of the environment give.
    pub fn from_env(env: Environment) -> (r: Result<AppConfig, ConfigError>)
        ensures
            match r {
                Ok(config) => settings_from(
                    opt_text(env.mongo_uri),
                    opt_text(env.database),
                    opt_text(env.ollama_model),
                    opt_text(env.frontend_app_url),
                    opt_text(env.issuer_emails),
                ) == Ok::<Settings, ConfigError>(config@),
                Err(e) => settings_from(
                    opt_text(env.mongo_uri),
                    opt_text(env.database),
                    opt_text(env.ollama_model),
                    opt_text(env.frontend_app_url),
                    opt_text(env.issuer_emails),
                ) == Err::<Settings, ConfigError>(e),
            },
    {
        let mongo_uri: String = match env.mongo_uri {
            Some(v) => v,
            None => {
                return Err(ConfigError::MissingMongoUri);
            },
        };
        let database: String = match env.database {
            Some(v) => v,
            None => {
                return Err(ConfigError::MissingDatabase);
            },
        };
        let ollama_model: String = match env.ollama_model {
            Some(v) => v,
            None => {
                return Err(ConfigError::MissingOllamaModel);
            },
        };
        let frontend_app_url: String = match env.frontend_app_url {
            Some(v) => v,
            None => {
                return Err(ConfigError::MissingFrontendAppUrl);
            },
        };
        let raw_issuers: String = match env.issuer_emails {
            Some(v) => v,
            None => {
                return Err(ConfigError::MissingIssuerEmails);
            },
        };
        let parsed: Option<Vec<String>> = match parse_string_list(raw_issuers.as_str()) {
            Ok(list) => Some(list),
            Err(_) => None,
        };
        match check_issuers(parsed) {
            Err(e) => Err(e),
            Ok(issuer_emails) => Ok(
                AppConfig { mongo_uri, database, ollama_model, frontend_app_url, issuer_emails },
            ),
        }
    }
}

} // verus!
