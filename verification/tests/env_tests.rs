//! The environment-variable port and the adapter settings built from it.

use std::collections::HashMap;
use training_manager::env_config::{
    get_api_key, get_env_var, get_galaxy_url, Config, EnvVarProvider, API_KEY_ENV,
    GALAXY_HOSTNAME_ENV,
};

struct MockEnvVarProvider {
    env_vars: HashMap<String, String>,
}

impl MockEnvVarProvider {
    fn new() -> Self {
        Self { env_vars: HashMap::new() }
    }
}

impl EnvVarProvider for MockEnvVarProvider {
    fn get(&self, key: &str) -> Result<String, String> {
        self.env_vars
            .get(key)
            .map(|v| v.to_string())
            .ok_or_else(|| "environment variable not found".to_string())
    }

    fn set(&mut self, key: &str, value: &str) {
        self.env_vars.insert(key.to_string(), value.to_string());
    }

    fn remove(&mut self, key: &str) {
        self.env_vars.remove(key);
    }
}

#[test]
fn test_get_env_var() {
    let mut provider = MockEnvVarProvider::new();
    let test_key = "test";
    provider.set(test_key, "test");
    assert_eq!(get_env_var("test", &provider).unwrap(), "test");
    provider.set(test_key, "");
    assert!(get_env_var("test", &provider).is_err());
    provider.remove(test_key);
    assert!(get_env_var("test", &provider).is_err());
}

#[test]
fn test_get_api_key() {
    let mut mock_provider = MockEnvVarProvider::new();
    mock_provider.set(API_KEY_ENV, "test");
    assert_eq!(get_api_key(&mock_provider).unwrap(), "test");
}

#[test]
fn test_get_api_key_not_set() {
    let mut mock_provider = MockEnvVarProvider::new();
    mock_provider.remove(API_KEY_ENV);
    assert!(get_api_key(&mock_provider).is_err());
}

#[test]
fn test_get_galaxy_url() {
    let mut mock_provider = MockEnvVarProvider::new();
    mock_provider.set(GALAXY_HOSTNAME_ENV, "test.ca");
    assert_eq!(get_galaxy_url(&mock_provider).unwrap(), "https://test.ca");
}

#[test]
fn test_get_galaxy_url_not_set() {
    let mut mock_provider = MockEnvVarProvider::new();
    mock_provider.remove(GALAXY_HOSTNAME_ENV);
    assert!(get_galaxy_url(&mock_provider).is_err());
}

#[test]
fn test_config_new() {
    let mut mock_provider = MockEnvVarProvider::new();
    mock_provider.set(API_KEY_ENV, "test");
    mock_provider.set(GALAXY_HOSTNAME_ENV, "test.ca");
    let config = Config::new(&mock_provider);
    assert!(config.is_ok());
    let config = config.unwrap();
    assert_eq!(config.galaxy_url, "https://test.ca");
    assert_eq!(config.api_key, "test");
}

#[test]
fn test_config_new_not_set() {
    let mut mock_provider = MockEnvVarProvider::new();
    mock_provider.remove(API_KEY_ENV);
    let config = Config::new(&mock_provider);
    assert!(config.is_err());
}
