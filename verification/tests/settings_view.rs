use mofa_studio::preferences::Preferences;
use mofa_studio::providers::{get_supported_providers, Provider, ProviderType};
use mofa_studio::settings_view::{
    provider_form, provider_from_form, sync_status_label, Highlight, ProvidersPanelState, CUSTOM_SLOTS,
};

fn custom(id: &str, name: &str) -> Provider {
    Provider {
        id: id.to_string(),
        name: name.to_string(),
        url: format!("https://{}.example.com", id),
        provider_type: ProviderType::Custom,
        is_custom: true,
        ..Default::default()
    }
}

#[test]
fn form_of_unconfigured_provider_uses_defaults() {
    let f = provider_form(None, "deepseek");
    assert_eq!(f.name, "DeepSeek");
    assert_eq!(f.url, "https://api.deepseek.com");
    assert_eq!(f.api_key, "");
    assert!(!f.has_api_key && !f.is_custom && f.models.is_empty());
    assert_eq!(sync_status_label(&f), "Enter API key to sync models");

    let prefs = Preferences::default();
    let g = provider_form(Some(&prefs), "my-llm");
    assert_eq!(g.name, "my-llm");
    assert_eq!(g.url, "");
}

#[test]
fn form_of_configured_provider() {
    let mut prefs = Preferences::default();
    prefs.providers = get_supported_providers();
    prefs.providers[0].api_key = Some("sk-1".to_string());
    let f = provider_form(Some(&prefs), "openai");
    assert_eq!(f.name, "OpenAI");
    assert_eq!(f.api_key, "sk-1");
    assert!(f.has_api_key);
    assert_eq!(f.models.len(), 3);
    assert_eq!(sync_status_label(&f), "3 models");

    let mut c = custom("local", "Local");
    c.api_key = Some(String::new());
    prefs.providers.push(c);
    let g = provider_form(Some(&prefs), "local");
    assert!(g.is_custom);
    assert!(!g.has_api_key);
    assert_eq!(sync_status_label(&g), "Enter API key to sync models");

    prefs.providers[4].api_key = Some("k".to_string());
    let h = provider_form(Some(&prefs), "local");
    assert_eq!(sync_status_label(&h), "");
}

#[test]
fn custom_section_opens_when_loaded() {
    let mut prefs = Preferences::default();
    prefs.providers = get_supported_providers();
    let mut panel = ProvidersPanelState::new();
    panel.load_custom(&prefs);
    assert!(panel.custom.is_empty());
    assert!(!panel.custom_expanded);
    prefs.providers.push(custom("a", "Alpha"));
    prefs.providers.push(custom("b", "Beta"));
    panel.load_custom(&prefs);
    assert!(panel.custom_expanded);
    assert_eq!(panel.custom_slot_name(1), Some("Beta"));
    assert_eq!(panel.custom_slot_name(2), None);
    assert_eq!(panel.toggle_custom_section(), ("Show More", ">"));
    assert_eq!(panel.toggle_custom_section(), ("Show Less", "^"));
}

#[test]
fn clicks_change_selection_once() {
    let mut prefs = Preferences::default();
    prefs.providers.push(custom("a", "Alpha"));
    let mut panel = ProvidersPanelState::new();
    panel.load_custom(&prefs);
    assert_eq!(panel.highlighted(), Highlight::Nothing);
    assert_eq!(panel.click_builtin("nvidia_item"), Some("nvidia".to_string()));
    assert_eq!(panel.click_builtin("nvidia_item"), None);
    assert_eq!(panel.highlighted(), Highlight::Builtin(3));
    assert_eq!(panel.click_builtin("unknown_item"), None);
    assert_eq!(panel.selected.as_deref(), Some("nvidia"));
    assert_eq!(panel.click_custom(0), Some("a".to_string()));
    assert_eq!(panel.highlighted(), Highlight::Custom(0));
    assert_eq!(panel.click_custom(1), None);
    assert_eq!(panel.click_custom(CUSTOM_SLOTS), None);
    panel.select("gone");
    assert_eq!(panel.highlighted(), Highlight::Nothing);
}

#[test]
fn add_provider_dialog() {
    assert!(provider_from_form(String::new(), "http://h".to_string(), String::new()).is_none());
    assert!(provider_from_form("My LLM".to_string(), String::new(), String::new()).is_none());
    let p = provider_from_form("My Local-LLM".to_string(), "http://localhost:8080".to_string(), String::new())
        .unwrap();
    assert_eq!(p.id, "my_local_llm");
    assert_eq!(p.name, "My Local-LLM");
    assert_eq!(p.url, "http://localhost:8080");
    assert!(p.api_key.is_none());
    assert!(p.enabled && p.is_custom);
    assert_eq!(p.provider_type, ProviderType::Custom);
    let k = provider_from_form("X".to_string(), "h".to_string(), "sk".to_string()).unwrap();
    assert_eq!(k.api_key.as_deref(), Some("sk"));
}
