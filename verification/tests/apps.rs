use mofa_studio::apps::{MoFaASRApp, MoFaDebateApp, MoFaFMApp, MoFaSettingsApp, MoFaUIGeneratorApp};

#[test]
fn app_listings() {
    let asr = MoFaASRApp::info();
    assert_eq!(asr.name, "MoFA ASR");
    assert_eq!(asr.id, "mofa-asr");
    assert_eq!(asr.tab_id, Some("mofa_asr_tab"));
    assert_eq!(asr.page_id, Some("asr_page"));
    assert!(asr.show_in_sidebar);
    let settings = MoFaSettingsApp::info();
    assert_eq!(settings.id, "mofa-settings");
    assert!(!settings.show_in_sidebar);
    assert_eq!(MoFaFMApp::info().page_id, Some("fm_page"));
    assert_eq!(MoFaDebateApp::info().tab_id, Some("debate_tab"));
    assert_eq!(MoFaUIGeneratorApp::info().description, "AI-powered Makepad UI Generator");
}
