use ebay_marketing_lib::config::ConfigError;
use ebay_marketing_lib::{Config, Environment};

fn config(environment: Option<&str>) -> Config {
    Config::from_env(Some("t".to_string()), environment.map(|e| e.to_string())).unwrap()
}

#[test]
fn token_is_required() {
    assert_eq!(
        Config::from_env(None, Some("prod".to_string())),
        Err(ConfigError::MissingAccessToken)
    );
}

#[test]
fn fresh_configuration_has_defaults() {
    let cfg = config(None);
    assert_eq!(cfg.access_token, "t");
    assert_eq!(cfg.env, Environment::Sandbox);
    assert_eq!(cfg.requests_per_second, 5);
    assert_eq!(cfg.alert_window_hours, 48);
    assert_eq!(cfg.clone(), cfg);
}

#[test]
fn production_is_named_in_any_case() {
    for name in ["prod", "PROD", "production", "Production", "PRODUCTION"] {
        assert_eq!(config(Some(name)).env, Environment::Production);
    }
    for name in ["", "sandbox", "producti", "prod ", "prød"] {
        assert_eq!(config(Some(name)).env, Environment::Sandbox);
    }
    assert_eq!(Environment::from_lowercase("PROD"), Environment::Sandbox);
}

#[test]
fn environments_have_names_and_hosts() {
    assert_eq!(Environment::Sandbox.name(), "sandbox");
    assert_eq!(Environment::Production.name(), "production");
    let sandbox = config(None);
    assert_eq!(sandbox.base_host(), "api.sandbox.ebay.com");
    assert_eq!(sandbox.identity_host(), "api.sandbox.ebay.com");
    assert_eq!(sandbox.marketplace_id(), "EBAY_AT");
    let production = config(Some("prod"));
    assert_eq!(production.base_host(), "api.ebay.com");
    assert_eq!(production.identity_host(), "api.ebay.com");
    assert_eq!(production.marketplace_id(), "EBAY_US");
}
