use crate::error::Error;
use vstd::prelude::*;

verus! {

/// The environment the server runs in; it selects the configuration file.
#[derive(Debug, Clone, Copy, PartialEq, Eq, Structural)]
pub enum Env {
    Default,
    Test,
    Development,
    Production,
}

/// The name under which each environment is written.
pub open spec fn env_name(e: Env) -> Seq<char> {
    match e {
        Env::Default => "Default"@,
        Env::Test => "Test"@,
        Env::Development => "Development"@,
        Env::Production => "Production"@,
    }
}

/// The environment a name stands for, if any.
pub open spec fn env_of(s: Seq<char>) -> Option<Env> {
    if s == env_name(Env::Default) {
        Some(Env::Default)
    } else if s == env_name(Env::Test) {
        Some(Env::Test)
    } else if s == env_name(Env::Development) {
        Some(Env::Development)
    } else if s == env_name(Env::Production) {
        Some(Env::Production)
    } else {
        None
    }
}

impl Env {
    /// The environment's name, as it appears in configuration file names.
    pub fn name(&self) -> (r: String)
        ensures
            r@ == env_name(*self),
    {
        match self {
            Env::Default => "Default".to_owned(),
            Env::Test => "Test".to_owned(),
            Env::Development => "Development".to_owned(),
            Env::Production => "Production".to_owned(),
        }
    }

    /// Reads an environment from its exact name; anything else is a
    /// `ServerConfigError` carrying the text.
    pub fn parse(s: &str) -> (r: Result<Env, Error>)
        ensures
            match env_of(s@) {
                Some(e) => r == Ok::<Env, Error>(e),
                None => r matches Err(Error::ServerConfigError(t)) && t@ == s@,
            },
    {
        proof {
            reveal_strlit("Default");
            reveal_strlit("Test");
            reveal_strlit("Development");
            reveal_strlit("Production");
        }
        let t = s.to_owned();
        if t == "Default".to_owned() {
            Ok(Env::Default)
        } else if t == "Test".to_owned() {
            Ok(Env::Test)
        } else if t == "Development".to_owned() {
            Ok(Env::Development)
        } else if t == "Production".to_owned() {
            Ok(Env::Production)
        } else {
            Err(Error::ServerConfigError(t))
        }
    }
}

impl std::str::FromStr for Env {
    type Err = Error;

    fn from_str(s: &str) -> Result<Env, Error> {
        Env::parse(s)
    }
}

/// Where the document database is reached.
pub struct DatabaseSettings {
    pub uri: String,
}

/// Filter rules for the request log.
pub struct LoggerSettings {
    pub rules: Vec<String>,
}

/// The address and port the server binds to.
pub struct ServerSettings {
    pub application_port: u16,
    pub address: String,
}

/// Everything the server reads from its configuration.
pub struct Settings {
    pub environment: Env,
    pub database: DatabaseSettings,
    pub log: Vec<String>,
    pub server: ServerSettings,
}

} // verus!
