//! The apps of the studio shell and how each one is listed: its name,
//! identifier, description, the identifiers of its tab and page widgets, and
//! whether the sidebar shows it. Registering the apps' widgets is done by
//! the shell.

use vstd::prelude::*;
use vstd::string::*;

verus! {

/// How an app is listed in the shell. The tab and page identifiers are the
/// names of the widgets the shell switches to.
#[derive(Debug, Clone, Copy)]
pub struct AppInfo {
    pub name: &'static str,
    pub id: &'static str,
    pub description: &'static str,
    pub tab_id: Option<&'static str>,
    pub page_id: Option<&'static str>,
    pub show_in_sidebar: bool,
}

/// The listing of an app, by characters.
pub struct AppInfoView {
    pub name: Seq<char>,
    pub id: Seq<char>,
    pub description: Seq<char>,
    pub tab_id: Option<Seq<char>>,
    pub page_id: Option<Seq<char>>,
    pub show_in_sidebar: bool,
}

/// The view of an optional static string.
pub open spec fn opt_static(a: Option<&'static str>) -> Option<Seq<char>> {
    match a {
        Some(s) => Some(s@),
        None => None,
    }
}

impl View for AppInfo {
    type V = AppInfoView;

    open spec fn view(&self) -> AppInfoView {
        AppInfoView {
            name: self.name@,
            id: self.id@,
            description: self.description@,
            tab_id: opt_static(self.tab_id),
            page_id: opt_static(self.page_id),
            show_in_sidebar: self.show_in_sidebar,
        }
    }
}

/// A listing with a tab and a page.
pub open spec fn listing(
    name: Seq<char>,
    id: Seq<char>,
    description: Seq<char>,
    tab: Seq<char>,
    page: Seq<char>,
    sidebar: bool,
) -> AppInfoView {
    AppInfoView {
        name,
        id,
        description,
        tab_id: Some(tab),
        page_id: Some(page),
        show_in_sidebar: sidebar,
    }
}

/// Speech recognition app.
pub struct MoFaASRApp;

impl MoFaASRApp {
    pub fn info() -> (r: AppInfo)
        ensures
            r@ == listing(
                "MoFA ASR"@,
                "mofa-asr"@,
                "Speech recognition with MLX-based ASR engines"@,
                "mofa_asr_tab"@,
                "asr_page"@,
                true,
            ),
    {
        AppInfo {
            name: "MoFA ASR",
            id: "mofa-asr",
            description: "Speech recognition with MLX-based ASR engines",
            tab_id: Some("mofa_asr_tab"),
            page_id: Some("asr_page"),
            show_in_sidebar: true,
        }
    }
}

/// Debate app.
pub struct MoFaDebateApp;

impl MoFaDebateApp {
    pub fn info() -> (r: AppInfo)
        ensures
            r@ == listing(
                "MoFA Debate"@,
                "mofa-debate"@,
                "AI-powered audio streaming and voice interface"@,
                "debate_tab"@,
                "debate_page"@,
                true,
            ),
    {
        AppInfo {
            name: "MoFA Debate",
            id: "mofa-debate",
            description: "AI-powered audio streaming and voice interface",
            tab_id: Some("debate_tab"),
            page_id: Some("debate_page"),
            show_in_sidebar: true,
        }
    }
}

/// Voice chat app.
pub struct MoFaFMApp;

impl MoFaFMApp {
    pub fn info() -> (r: AppInfo)
        ensures
            r@ == listing(
                "MoFA FM"@,
                "mofa-fm"@,
                "AI-powered audio streaming and voice interface"@,
                "mofa_fm_tab"@,
                "fm_page"@,
                true,
            ),
    {
        AppInfo {
            name: "MoFA FM",
            id: "mofa-fm",
            description: "AI-powered audio streaming and voice interface",
            tab_id: Some("mofa_fm_tab"),
            page_id: Some("fm_page"),
            show_in_sidebar: true,
        }
    }
}

/// Provider settings app; the shell shows it apart from the sidebar.
pub struct MoFaSettingsApp;

impl MoFaSettingsApp {
    pub fn info() -> (r: AppInfo)
        ensures
            r@ == listing(
                "Settings"@,
                "mofa-settings"@,
                "Provider configuration and preferences"@,
                "settings_tab"@,
                "settings_page"@,
                false,
            ),
    {
        AppInfo {
            name: "Settings",
            id: "mofa-settings",
            description: "Provider configuration and preferences",
            tab_id: Some("settings_tab"),
            page_id: Some("settings_page"),
            show_in_sidebar: false,
        }
    }
}

/// UI generator app.
pub struct MoFaUIGeneratorApp;

impl MoFaUIGeneratorApp {
    pub fn info() -> (r: AppInfo)
        ensures
            r@ == listing(
                "UI Generator"@,
                "mofa-ui-generator"@,
                "AI-powered Makepad UI Generator"@,
                "ui_generator_tab"@,
                "ui_generator_page"@,
                true,
            ),
    {
        AppInfo {
            name: "UI Generator",
            id: "mofa-ui-generator",
            description: "AI-powered Makepad UI Generator",
            tab_id: Some("ui_generator_tab"),
            page_id: Some("ui_generator_page"),
            show_in_sidebar: true,
        }
    }
}

} // verus!
