use kendra::config_loader::{parse_u64, ConfigLoader, ConfigOverrides, EnvOverrides};
use kendra::profile::AppConfig;

fn provider_and_model(p: &str, m: &str) -> ConfigOverrides {
    ConfigOverrides {
        model_provider: Some(p.to_string()),
        model: Some(m.to_string()),
        ..Default::default()
    }
}

#[test]
fn test_load_defaults() {
    let config = ConfigLoader::load(None, None, &EnvOverrides::default());
    assert_eq!(config.model_provider, "fireworks");
    assert_eq!(config.temperature_millis, 600);
}

#[test]
fn test_load_with_global_settings() {
    let global = provider_and_model("openai", "gpt-4");
    let config = ConfigLoader::load(Some(&global), None, &EnvOverrides::default());
    assert_eq!(config.model_provider, "openai");
    assert_eq!(config.model, "gpt-4");
    assert_eq!(config.temperature_millis, 600);
}

#[test]
fn test_project_overrides_global() {
    let global = provider_and_model("openai", "gpt-4");
    let project = ConfigOverrides {
        model: Some("gpt-4-turbo".to_string()),
        ..Default::default()
    };
    let config = ConfigLoader::load(Some(&global), Some(&project), &EnvOverrides::default());
    assert_eq!(config.model_provider, "openai");
    assert_eq!(config.model, "gpt-4-turbo");
}

#[test]
fn test_merge_preserves_defaults() {
    let overrides = ConfigOverrides {
        verbose: Some(true),
        ..Default::default()
    };
    let merged = ConfigLoader::merge(AppConfig::default(), &overrides);
    assert!(merged.verbose);
    assert_eq!(merged.temperature_millis, 600);
}

#[test]
fn env_overrides_fill_what_settings_leave() {
    let global = ConfigOverrides { model_provider: Some("openai".to_string()), ..Default::default() };
    let env = EnvOverrides {
        model: Some("env-model".to_string()),
        max_tokens: Some("+2048".to_string()),
        verbose: Some("TrUe".to_string()),
        debug: Some("yes".to_string()),
        ..Default::default()
    };
    let config = ConfigLoader::load(Some(&global), None, &env);
    assert_eq!(config.model_provider, "openai");
    assert_eq!(config.model, "env-model");
    assert_eq!(config.max_tokens, 2048);
    assert!(config.verbose);
    assert!(!config.debug_logging);
}

#[test]
fn env_max_tokens_unparsable_kept() {
    let env = EnvOverrides {
        max_tokens: Some("12x".to_string()),
        ..Default::default()
    };
    let config = ConfigLoader::load(None, None, &env);
    assert_eq!(config.max_tokens, 16384);
}

#[test]
fn parse_u64_like_std() {
    for s in ["0", "+7", "18446744073709551615", "", "+", "-1", " 1", "18446744073709551616", "1_0"] {
        assert_eq!(parse_u64(s), s.parse::<u64>().ok(), "input {s:?}");
    }
}

#[test]
fn settings_beat_environment() {
    let project = ConfigOverrides { model: Some("gpt-4-turbo".to_string()), ..Default::default() };
    let global = provider_and_model("openai", "gpt-4");
    let env = EnvOverrides {
        model: Some("env-model".to_string()),
        model_provider: Some("env-provider".to_string()),
        ..Default::default()
    };
    let config = ConfigLoader::load(Some(&global), Some(&project), &env);
    assert_eq!(config.model, "gpt-4-turbo");
    assert_eq!(config.model_provider, "openai");
    let config = ConfigLoader::load(None, None, &env);
    assert_eq!(config.model, "env-model");
}
