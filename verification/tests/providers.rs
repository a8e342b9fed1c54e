use mofa_studio::providers::{
    button_to_provider_id, get_supported_providers, item_to_provider_id, Provider,
    ProviderConnectionStatus, ProviderType,
};

#[test]
fn test_provider_type_display_name() {
    assert_eq!(ProviderType::OpenAi.display_name(), "OpenAI");
    assert_eq!(ProviderType::DeepSeek.display_name(), "DeepSeek");
    assert_eq!(ProviderType::AlibabaCloud.display_name(), "Alibaba Cloud");
    assert_eq!(ProviderType::Nvidia.display_name(), "NVIDIA");
    assert_eq!(ProviderType::Custom.display_name(), "Custom");
}

#[test]
fn test_provider_type_default() {
    let default = ProviderType::default();
    assert_eq!(default, ProviderType::OpenAi);
}

#[test]
fn test_connection_status_display_text() {
    assert_eq!(
        ProviderConnectionStatus::Disconnected.display_text(),
        "Disconnected"
    );
    assert_eq!(
        ProviderConnectionStatus::Connecting.display_text(),
        "Connecting..."
    );
    assert_eq!(
        ProviderConnectionStatus::Connected.display_text(),
        "Connected"
    );
    assert_eq!(
        ProviderConnectionStatus::Error("API key invalid".to_string()).display_text(),
        "API key invalid"
    );
}

#[test]
fn test_connection_status_is_connected() {
    assert!(!ProviderConnectionStatus::Disconnected.is_connected());
    assert!(!ProviderConnectionStatus::Connecting.is_connected());
    assert!(ProviderConnectionStatus::Connected.is_connected());
    assert!(!ProviderConnectionStatus::Error("error".to_string()).is_connected());
}

#[test]
fn test_generate_id() {
    assert_eq!(Provider::generate_id("OpenAI"), "openai");
    assert_eq!(Provider::generate_id("Deep Seek"), "deep_seek");
    assert_eq!(
        Provider::generate_id("Alibaba Cloud (Qwen)"),
        "alibaba_cloud__qwen_"
    );
    assert_eq!(
        Provider::generate_id("My-Custom-Provider"),
        "my_custom_provider"
    );
    assert_eq!(Provider::generate_id("Test123"), "test123");
}

#[test]
fn test_status_color_disabled() {
    let provider = Provider {
        enabled: false,
        connection_status: ProviderConnectionStatus::Connected,
        ..Default::default()
    };
    // Disabled providers are always gray regardless of connection status
    assert_eq!(provider.status_color(), "#9ca3af");
}

#[test]
fn test_status_color_enabled() {
    let mut provider = Provider {
        enabled: true,
        ..Default::default()
    };

    provider.connection_status = ProviderConnectionStatus::Connected;
    assert_eq!(provider.status_color(), "#22c55e");

    provider.connection_status = ProviderConnectionStatus::Connecting;
    assert_eq!(provider.status_color(), "#f59e0b");

    provider.connection_status = ProviderConnectionStatus::Disconnected;
    assert_eq!(provider.status_color(), "#6b7280");

    provider.connection_status = ProviderConnectionStatus::Error("error".to_string());
    assert_eq!(provider.status_color(), "#ef4444");
}

#[test]
fn test_new_custom_provider() {
    let provider = Provider::new_custom(
        "My Provider".to_string(),
        "https://api.example.com".to_string(),
        ProviderType::Custom,
    );

    assert_eq!(provider.id, "my_provider");
    assert_eq!(provider.name, "My Provider");
    assert_eq!(provider.url, "https://api.example.com");
    assert!(provider.is_custom);
    assert!(!provider.enabled);
    assert!(provider.models.is_empty());
    assert_eq!(provider.provider_type, ProviderType::Custom);
}

#[test]
fn test_get_supported_providers() {
    let providers = get_supported_providers();

    assert_eq!(providers.len(), 4);

    let openai = providers.iter().find(|p| p.id == "openai").unwrap();
    assert_eq!(openai.name, "OpenAI");
    assert_eq!(openai.provider_type, ProviderType::OpenAi);
    assert!(!openai.is_custom);
    assert!(openai.models.contains(&"gpt-4o".to_string()));

    let deepseek = providers.iter().find(|p| p.id == "deepseek").unwrap();
    assert_eq!(deepseek.name, "DeepSeek");
    assert_eq!(deepseek.provider_type, ProviderType::DeepSeek);

    let alibaba = providers.iter().find(|p| p.id == "alibaba_cloud").unwrap();
    assert_eq!(alibaba.name, "Alibaba Cloud (Qwen)");
    assert_eq!(alibaba.provider_type, ProviderType::AlibabaCloud);

    let nvidia = providers.iter().find(|p| p.id == "nvidia").unwrap();
    assert_eq!(nvidia.name, "NVIDIA");
    assert_eq!(nvidia.provider_type, ProviderType::Nvidia);
    assert_eq!(nvidia.url, "https://integrate.api.nvidia.com/v1");
    assert!(nvidia
        .models
        .contains(&"deepseek-ai/deepseek-r1".to_string()));
}

#[test]
fn test_provider_default() {
    let provider = Provider::default();

    assert!(provider.id.is_empty());
    assert!(provider.name.is_empty());
    assert!(provider.url.is_empty());
    assert!(provider.api_key.is_none());
    assert_eq!(provider.provider_type, ProviderType::OpenAi);
    assert!(!provider.enabled);
    assert!(provider.models.is_empty());
    assert!(!provider.is_custom);
    assert_eq!(
        provider.connection_status,
        ProviderConnectionStatus::Disconnected
    );
}

#[test]
fn generate_id_keeps_non_ascii_letters_and_lowercases_them() {
    // Unicode letters are alphanumeric; the uppercase Greek letter is lowered.
    assert_eq!(Provider::generate_id("Ωmega Ünit"), "ωmega_ünit");
    assert_eq!(Provider::generate_id(""), "");
    assert_eq!(Provider::generate_id("a.b/c"), "a_b_c");
}

#[test]
fn provider_clone_and_equality_of_status() {
    let p = Provider::new_custom("X Y".to_string(), "u".to_string(), ProviderType::Nvidia);
    let q = p.clone();
    assert_eq!(q.id, "x_y");
    assert_eq!(q.provider_type, ProviderType::Nvidia);
    assert_eq!(
        ProviderConnectionStatus::Error("a".to_string()),
        ProviderConnectionStatus::Error("a".to_string())
    );
    assert_ne!(
        ProviderConnectionStatus::Error("a".to_string()),
        ProviderConnectionStatus::Error("b".to_string())
    );
    assert_ne!(ProviderConnectionStatus::Connected, ProviderConnectionStatus::Connecting);
}

#[test]
fn item_names_map_to_builtin_ids() {
    assert_eq!(item_to_provider_id("openai_item"), Some("openai".to_string()));
    assert_eq!(item_to_provider_id("deepseek_item"), Some("deepseek".to_string()));
    assert_eq!(item_to_provider_id("alibaba_item"), Some("alibaba_cloud".to_string()));
    assert_eq!(item_to_provider_id("nvidia_item"), Some("nvidia".to_string()));
    assert_eq!(item_to_provider_id("other"), None);
    assert_eq!(button_to_provider_id("nvidia_item"), Some("nvidia".to_string()));
}
