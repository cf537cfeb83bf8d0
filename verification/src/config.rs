//! Which service to talk to, and how.
use crate::text::same_text;
use vstd::prelude::*;
use vstd::utf8::*;

verus! {

/// The two services: one for trials, one for real sales.
#[derive(Clone, Copy, Debug, PartialEq, Eq, Structural)]
pub enum Environment {
    Sandbox,
    Production,
}

/// How the program talks to the service.
#[derive(Debug, PartialEq, Eq)]
pub struct Config {
    pub access_token: String,
    pub env: Environment,
    pub requests_per_second: u32,
    pub alert_window_hours: i64,
}

/// Why there is no configuration.
#[derive(Clone, Copy, Debug, PartialEq, Eq, Structural)]
pub enum ConfigError {
    MissingAccessToken,
}

/// The requests per second that a fresh configuration allows.
pub const REQUESTS_PER_SECOND: u32 = 5;

/// The hours within which a promotion counts as expiring, unless set otherwise.
pub const ALERT_WINDOW_HOURS: i64 = 48;

/// What `str::to_lowercase` returns for a text.
pub uninterp spec fn lowercase_text(s: Seq<char>) -> Seq<char>;

/// The lower case of an ASCII character.
pub open spec fn ascii_lowercase(c: char) -> char {
    if 'A' <= c && c <= 'Z' {
        (c as u8 + 32) as u8 as char
    } else {
        c
    }
}

/// `str::to_lowercase`. What it returns has a name. Of a text in ASCII it is
/// the text with `A` to `Z` mapped to `a` to `z`.
#[verifier::external_body]
fn lowercase(s: &str) -> (r: String)
    ensures
        r@ == lowercase_text(s@),
        is_ascii_chars(s@) ==> r@ == Seq::new(s@.len(), |i: int| ascii_lowercase(s@[i])),
{
    s.to_lowercase()
}

/// The environment that a name in lower case stands for.
pub open spec fn environment_of(name: Seq<char>) -> Environment {
    if name == "prod"@ || name == "production"@ {
        Environment::Production
    } else {
        Environment::Sandbox
    }
}

/// The name of an environment.
pub open spec fn environment_name(env: Environment) -> Seq<char> {
    match env {
        Environment::Sandbox => "sandbox"@,
        Environment::Production => "production"@,
    }
}

/// The host of the service in an environment.
pub open spec fn host_of(env: Environment) -> Seq<char> {
    match env {
        Environment::Sandbox => "api.sandbox.ebay.com"@,
        Environment::Production => "api.ebay.com"@,
    }
}

/// The marketplace of an environment.
pub open spec fn marketplace_of(env: Environment) -> Seq<char> {
    match env {
        Environment::Sandbox => "EBAY_AT"@,
        Environment::Production => "EBAY_US"@,
    }
}

impl Environment {
    /// The environment that a name in lower case stands for: `prod` and
    /// `production` for production, everything else for the sandbox.
    pub fn from_lowercase(name: &str) -> (r: Environment)
        ensures
            r == environment_of(name@),
    {
        if same_text(name, "prod") || same_text(name, "production") {
            Environment::Production
        } else {
            Environment::Sandbox
        }
    }

    /// The environment that a name stands for, in whatever case it is written.
    pub fn from_name(name: &str) -> (r: Environment)
        ensures
            r == environment_of(lowercase_text(name@)),
            is_ascii_chars(name@) ==> r == environment_of(
                Seq::new(name@.len(), |i: int| ascii_lowercase(name@[i])),
            ),
    {
        let lower: String = lowercase(name);
        Environment::from_lowercase(lower.as_str())
    }

    /// The name of the environment.
    pub fn name(&self) -> (r: &'static str)
        ensures
            r@ == environment_name(*self),
    {
        match self {
            Environment::Sandbox => "sandbox",
            Environment::Production => "production",
        }
    }

    /// The host of the service.
    pub fn host(&self) -> (r: &'static str)
        ensures
            r@ == host_of(*self),
    {
        match self {
            Environment::Sandbox => "api.sandbox.ebay.com",
            Environment::Production => "api.ebay.com",
        }
    }
}

impl Clone for Config {
    fn clone(&self) -> (r: Config)
        ensures
            r == *self,
    {
        Config {
            access_token: self.access_token.clone(),
            env: self.env,
            requests_per_second: self.requests_per_second,
            alert_window_hours: self.alert_window_hours,
        }
    }
}

impl Config {
    /// The configuration that the values of `EBAY_ACCESS_TOKEN` and
    /// `EBAY_ENVIRONMENT` give. The token has to be there; the environment is
    /// the sandbox where none is named.
    pub fn from_env(access_token: Option<String>, environment: Option<String>) -> (r: Result<
        Config,
        ConfigError,
    >)
        ensures
            match access_token {
                None => r == Err::<Config, ConfigError>(ConfigError::MissingAccessToken),
                Some(token) => {
                    &&& r matches Ok(cfg)
                    &&& cfg.access_token@ == token@
                    &&& cfg.env == match environment {
                        Some(name) => environment_of(lowercase_text(name@)),
                        None => Environment::Sandbox,
                    }
                    &&& cfg.requests_per_second == REQUESTS_PER_SECOND
                    &&& cfg.alert_window_hours == ALERT_WINDOW_HOURS
                    &&& environment matches Some(name) ==> is_ascii_chars(name@) ==> cfg.env
                        == environment_of(
                        Seq::new(name@.len(), |i: int| ascii_lowercase(name@[i])),
                    )
                },
            },
    {
        match access_token {
            None => Err(ConfigError::MissingAccessToken),
            Some(access_token) => {
                let env: Environment = match environment {
                    Some(name) => Environment::from_name(name.as_str()),
                    None => Environment::Sandbox,
                };
                Ok(
                    Config {
                        access_token,
                        env,
                        requests_per_second: REQUESTS_PER_SECOND,
                        alert_window_hours: ALERT_WINDOW_HOURS,
                    },
                )
            },
        }
    }

    /// The host of the marketing service.
    pub fn base_host(&self) -> (r: &'static str)
        ensures
            r@ == host_of(self.env),
    {
        self.env.host()
    }

    /// The marketplace that promotions are listed for.
    pub fn marketplace_id(&self) -> (r: &'static str)
        ensures
            r@ == marketplace_of(self.env),
    {
        match self.env {
            Environment::Sandbox => "EBAY_AT",
            Environment::Production => "EBAY_US",
        }
    }

    /// The host of the identity service.
    pub fn identity_host(&self) -> (r: &'static str)
        ensures
            r@ == host_of(self.env),
    {
        self.env.host()
    }
}

/// Only `prod` and `production` stand for production; every other name stands
/// for the sandbox.
pub proof fn law_production_has_two_names(name: Seq<char>)
    ensures
        environment_of("prod"@) is Production,
        environment_of("production"@) is Production,
        name != "prod"@ && name != "production"@ ==> environment_of(name) is Sandbox,
{
}

/// Each environment has its own name, host and marketplace.
pub proof fn law_environments_have_their_own_places()
    ensures
        environment_name(Environment::Sandbox) == "sandbox"@,
        environment_name(Environment::Production) == "production"@,
        host_of(Environment::Sandbox) == "api.sandbox.ebay.com"@,
        host_of(Environment::Production) == "api.ebay.com"@,
        marketplace_of(Environment::Sandbox) == "EBAY_AT"@,
        marketplace_of(Environment::Production) == "EBAY_US"@,
{
}

/// Lower case maps the 26 capital letters of ASCII to the letters 32 places
/// behind them, and leaves every other character as it is.
pub proof fn law_lower_case_of_ascii(c: char)
    ensures
        'A' <= c && c <= 'Z' ==> ascii_lowercase(c) as int == c as int + 32,
        !('A' <= c && c <= 'Z') ==> ascii_lowercase(c) == c,
{
}

/// A fresh configuration allows five requests per second, and looks 48 hours
/// ahead.
pub proof fn law_fresh_configuration_has_its_limits()
    ensures
        REQUESTS_PER_SECOND == 5,
        ALERT_WINDOW_HOURS == 48,
{
}

} // verus!
