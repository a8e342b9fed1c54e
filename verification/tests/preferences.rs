use mofa_studio::preferences::{models_for_sync, Preferences};
use mofa_studio::providers::{get_supported_providers, Provider, ProviderType};

fn create_test_provider(id: &str, is_custom: bool, enabled: bool) -> Provider {
    Provider {
        id: id.to_string(),
        name: format!("Test {}", id),
        url: format!("https://{}.example.com", id),
        api_key: None,
        provider_type: ProviderType::Custom,
        enabled,
        models: vec!["test-model".to_string()],
        is_custom,
        ..Default::default()
    }
}

#[test]
fn test_preferences_default() {
    let prefs = Preferences::default();

    assert!(prefs.providers.is_empty());
    assert!(prefs.default_chat_provider.is_none());
    assert!(prefs.default_tts_provider.is_none());
    assert!(prefs.default_asr_provider.is_none());
    assert!(!prefs.dark_mode);
    assert!(prefs.audio_input_device.is_none());
    assert!(prefs.audio_output_device.is_none());
}

#[test]
fn test_get_provider() {
    let mut prefs = Preferences::default();
    prefs
        .providers
        .push(create_test_provider("provider1", false, true));
    prefs
        .providers
        .push(create_test_provider("provider2", true, false));

    let found = prefs.get_provider("provider1");
    assert!(found.is_some());
    assert_eq!(found.unwrap().id, "provider1");

    assert!(prefs.get_provider("nonexistent").is_none());
}

#[test]
fn test_get_provider_mut() {
    let mut prefs = Preferences::default();
    prefs
        .providers
        .push(create_test_provider("provider1", false, false));

    if let Some(provider) = prefs.get_provider_mut("provider1") {
        provider.enabled = true;
        provider.api_key = Some("secret".to_string());
    }

    let provider = prefs.get_provider("provider1").unwrap();
    assert!(provider.enabled);
    assert_eq!(provider.api_key, Some("secret".to_string()));
}

#[test]
fn test_upsert_provider_insert() {
    let mut prefs = Preferences::default();
    assert!(prefs.providers.is_empty());

    let provider = create_test_provider("new_provider", true, true);
    prefs.upsert_provider(provider);

    assert_eq!(prefs.providers.len(), 1);
    assert_eq!(prefs.providers[0].id, "new_provider");
}

#[test]
fn test_upsert_provider_update() {
    let mut prefs = Preferences::default();
    prefs
        .providers
        .push(create_test_provider("existing", false, false));

    let mut updated = create_test_provider("existing", false, true);
    updated.api_key = Some("new_key".to_string());
    prefs.upsert_provider(updated);

    assert_eq!(prefs.providers.len(), 1);
    assert!(prefs.providers[0].enabled);
    assert_eq!(prefs.providers[0].api_key, Some("new_key".to_string()));
}

#[test]
fn test_remove_provider_custom() {
    let mut prefs = Preferences::default();
    prefs
        .providers
        .push(create_test_provider("custom1", true, false));
    prefs
        .providers
        .push(create_test_provider("builtin1", false, false));

    assert!(prefs.remove_provider("custom1"));
    assert_eq!(prefs.providers.len(), 1);
    assert!(prefs.get_provider("custom1").is_none());
}

#[test]
fn test_remove_provider_builtin() {
    let mut prefs = Preferences::default();
    prefs
        .providers
        .push(create_test_provider("builtin1", false, false));

    assert!(!prefs.remove_provider("builtin1"));
    assert_eq!(prefs.providers.len(), 1);
}

#[test]
fn test_remove_provider_nonexistent() {
    let mut prefs = Preferences::default();

    assert!(!prefs.remove_provider("nonexistent"));
}

#[test]
fn test_get_enabled_providers() {
    let mut prefs = Preferences::default();
    prefs
        .providers
        .push(create_test_provider("enabled1", false, true));
    prefs
        .providers
        .push(create_test_provider("disabled1", false, false));
    prefs
        .providers
        .push(create_test_provider("enabled2", true, true));
    prefs
        .providers
        .push(create_test_provider("disabled2", true, false));

    let enabled = prefs.get_enabled_providers();
    assert_eq!(enabled.len(), 2);
    assert!(enabled.iter().any(|p| p.id == "enabled1"));
    assert!(enabled.iter().any(|p| p.id == "enabled2"));
}

#[test]
fn test_merge_with_supported_providers() {
    let mut prefs = Preferences::default();
    prefs
        .providers
        .push(create_test_provider("my_custom", true, true));

    prefs.merge_with_supported_providers();

    assert!(prefs.providers.len() >= 4);
    assert!(prefs.get_provider("my_custom").is_some());
    assert!(prefs.get_provider("openai").is_some());
    assert!(prefs.get_provider("deepseek").is_some());
    assert!(prefs.get_provider("alibaba_cloud").is_some());
}

#[test]
fn test_merge_does_not_duplicate() {
    let mut prefs = Preferences::default();
    prefs.providers = get_supported_providers();
    let initial_count = prefs.providers.len();

    prefs.merge_with_supported_providers();

    assert_eq!(prefs.providers.len(), initial_count);
}

#[test]
fn merge_twice_equals_merge_once_and_keeps_order() {
    let mut prefs = Preferences::default();
    prefs.providers.push(create_test_provider("deepseek", true, true));
    prefs.merge_with_supported_providers();
    let ids: Vec<String> = prefs.providers.iter().map(|p| p.id.clone()).collect();
    assert_eq!(ids, vec!["deepseek", "openai", "alibaba_cloud", "nvidia"]);
    // The existing provider with a built-in id is kept as it was.
    assert!(prefs.providers[0].is_custom);
    prefs.merge_with_supported_providers();
    assert_eq!(prefs.providers.len(), 4);
}

#[test]
fn upsert_then_get_returns_the_upserted_provider() {
    let mut prefs = Preferences::default();
    prefs.providers.push(create_test_provider("a", false, false));
    prefs.providers.push(create_test_provider("b", false, false));
    let mut p = create_test_provider("b", true, true);
    p.url = "https://new".to_string();
    prefs.upsert_provider(p);
    let got = prefs.get_provider("b").unwrap();
    assert_eq!(got.url, "https://new");
    assert!(got.enabled);
    assert_eq!(prefs.providers.len(), 2);
}

#[test]
fn remove_takes_only_the_first_custom_match() {
    let mut prefs = Preferences::default();
    prefs.providers.push(create_test_provider("x", false, false));
    prefs.providers.push(create_test_provider("x", true, false));
    prefs.providers.push(create_test_provider("x", true, true));
    assert!(prefs.remove_provider("x"));
    assert_eq!(prefs.providers.len(), 2);
    assert!(!prefs.providers[0].is_custom);
    assert!(prefs.providers[1].enabled);
}

#[test]
fn apply_settings_clears_empty_key() {
    let mut prefs = Preferences::default();
    prefs.providers = get_supported_providers();
    assert!(prefs.apply_provider_settings("openai", "https://h".to_string(), "k1".to_string()));
    assert_eq!(prefs.get_provider("openai").unwrap().api_key, Some("k1".to_string()));
    assert_eq!(prefs.get_provider("openai").unwrap().url, "https://h");
    assert!(prefs.apply_provider_settings("openai", "https://h2".to_string(), String::new()));
    assert_eq!(prefs.get_provider("openai").unwrap().api_key, None);
    assert!(!prefs.apply_provider_settings("zzz", String::new(), String::new()));
}

#[test]
fn sync_models_needs_a_key_and_reports_count() {
    let mut prefs = Preferences::default();
    prefs.providers = get_supported_providers();
    let s = prefs.sync_models(Some("deepseek"), "");
    assert_eq!(s, "Enter API key to sync models");
    assert_eq!(prefs.get_provider("deepseek").unwrap().models.len(), 2);
    let s = prefs.sync_models(Some("openai"), "key");
    assert_eq!(s, "Found 5 models");
    assert_eq!(
        prefs.get_provider("openai").unwrap().models,
        vec!["gpt-4o", "gpt-4o-mini", "gpt-4-turbo", "gpt-4", "gpt-3.5-turbo"]
    );
    let s = prefs.sync_models(None, "key");
    assert_eq!(s, "No models found");
    let s = prefs.sync_models(Some("mine"), "key");
    assert_eq!(s, "Found 1 models");
    assert_eq!(models_for_sync(Some("mine")), vec!["custom-model"]);
}

#[test]
fn api_key_env_vars_maps_ids_to_variables() {
    let mut prefs = Preferences::default();
    prefs.providers = get_supported_providers();
    prefs.get_provider_mut("openai").unwrap().api_key = Some("o".to_string());
    prefs.get_provider_mut("alibaba_cloud").unwrap().api_key = Some("a".to_string());
    prefs.get_provider_mut("deepseek").unwrap().api_key = Some(String::new());
    let mut custom = create_test_provider("my-llm", true, true);
    custom.api_key = Some("c".to_string());
    prefs.add_custom_provider(custom);
    let env = prefs.api_key_env_vars();
    assert_eq!(env.get("OPENAI_API_KEY"), Some("o"));
    assert_eq!(env.get("ALIBABA_CLOUD_API_KEY"), Some("a"));
    assert_eq!(env.get("DASHSCOPE_API_KEY"), Some("a"));
    assert_eq!(env.get("DEEPSEEK_API_KEY"), None);
    assert_eq!(env.get("MY_LLM_API_KEY"), Some("c"));
    assert_eq!(env.len(), 4);
}
