//! What the settings screen shows: the form of the selected provider and
//! the state of the providers list (selection, custom providers and their
//! collapsible section). The widgets are driven by the caller.

use vstd::prelude::*;
use vstd::string::*;
use crate::providers::{
    Provider, ProviderView, ProviderType, ProviderConnectionStatus, StatusView, strings_view,
    clone_strings, item_provider, item_to_provider_id, supported_catalogue,
};
use crate::preferences::{
    Preferences, has_id, first_with_id, usable_key, lemma_first_unique, missing_key_text,
};
use crate::text::{
    str_eq, decimal, decimal_string, opt_view, lowercase_of, str_to_lowercase,
    replaced, replace_char, all_ascii, ascii_lower,
};

verus! {

/// The name shown for a provider that is not configured.
pub open spec fn default_provider_name(id: Seq<char>) -> Seq<char> {
    if id == "openai"@ {
        "OpenAI"@
    } else if id == "deepseek"@ {
        "DeepSeek"@
    } else if id == "alibaba_cloud"@ {
        "Alibaba Cloud (Qwen)"@
    } else if id == "nvidia"@ {
        "NVIDIA"@
    } else {
        id
    }
}

/// The API host shown for a provider that is not configured.
pub open spec fn default_provider_url(id: Seq<char>) -> Seq<char> {
    if id == "openai"@ {
        "https://api.openai.com/v1"@
    } else if id == "deepseek"@ {
        "https://api.deepseek.com"@
    } else if id == "alibaba_cloud"@ {
        "https://dashscope.aliyuncs.com/compatible-mode/v1"@
    } else if id == "nvidia"@ {
        "https://integrate.api.nvidia.com/v1"@
    } else {
        ""@
    }
}

/// The provider form of the settings screen.
#[derive(Debug)]
pub struct ProviderForm {
    pub name: String,
    pub url: String,
    /// The API key text (empty when none is set).
    pub api_key: String,
    pub models: Vec<String>,
    /// A non-empty API key is set: model sync is possible.
    pub has_api_key: bool,
    /// The provider can be removed.
    pub is_custom: bool,
}

/// The value of a provider form.
pub struct ProviderFormView {
    pub name: Seq<char>,
    pub url: Seq<char>,
    pub api_key: Seq<char>,
    pub models: Seq<Seq<char>>,
    pub has_api_key: bool,
    pub is_custom: bool,
}

impl View for ProviderForm {
    type V = ProviderFormView;

    open spec fn view(&self) -> ProviderFormView {
        ProviderFormView {
            name: self.name@,
            url: self.url@,
            api_key: self.api_key@,
            models: strings_view(self.models@),
            has_api_key: self.has_api_key,
            is_custom: self.is_custom,
        }
    }
}

/// The form filled from a configured provider.
pub open spec fn form_of(p: ProviderView) -> ProviderFormView {
    ProviderFormView {
        name: p.name,
        url: p.url,
        api_key: match p.api_key {
            Some(k) => k,
            None => ""@,
        },
        models: p.models,
        has_api_key: usable_key(p) is Some,
        is_custom: p.is_custom,
    }
}

/// The form of a provider that is not configured.
pub open spec fn default_form(id: Seq<char>) -> ProviderFormView {
    ProviderFormView {
        name: default_provider_name(id),
        url: default_provider_url(id),
        api_key: ""@,
        models: Seq::empty(),
        has_api_key: false,
        is_custom: false,
    }
}

/// The form shown for a provider: from the first configured provider with
/// that identifier, or the defaults when there is none (or no preferences).
pub open spec fn provider_form_spec(ps: Option<Seq<ProviderView>>, id: Seq<char>) -> ProviderFormView {
    match ps {
        Some(s) => if has_id(s, id) {
            form_of(s[choose|i: int| first_with_id(s, id, i)])
        } else {
            default_form(id)
        },
        None => default_form(id),
    }
}

/// The providers of the preferences, when loaded.
pub open spec fn loaded_providers(prefs: Option<&Preferences>) -> Option<Seq<ProviderView>> {
    match prefs {
        Some(p) => Some(p.pv()),
        None => None,
    }
}

/// The form for the default values of an unconfigured provider.
fn default_form_for(id: &str) -> (r: ProviderForm)
    ensures
        r@ == default_form(id@),
{
    let (name, url) = if str_eq(id, "openai") {
        ("OpenAI", "https://api.openai.com/v1")
    } else if str_eq(id, "deepseek") {
        ("DeepSeek", "https://api.deepseek.com")
    } else if str_eq(id, "alibaba_cloud") {
        ("Alibaba Cloud (Qwen)", "https://dashscope.aliyuncs.com/compatible-mode/v1")
    } else if str_eq(id, "nvidia") {
        ("NVIDIA", "https://integrate.api.nvidia.com/v1")
    } else {
        (id, "")
    };
    let r = ProviderForm {
        name: name.to_owned(),
        url: url.to_owned(),
        api_key: "".to_owned(),
        models: Vec::new(),
        has_api_key: false,
        is_custom: false,
    };
    assert(r@.models =~= Seq::<Seq<char>>::empty());
    r
}

/// An unconfigured built-in provider shows the catalogue's name and host,
/// except that DeepSeek's host is shown without the catalogue's `/v1`; the
/// four built-in hosts are distinct, and any other id shows no host.
pub proof fn lemma_default_form_matches_catalogue(id: Seq<char>)
    ensures
        forall|k: int|
            0 <= k < supported_catalogue().len() ==> #[trigger] default_provider_name(
                supported_catalogue()[k].0,
            ) == supported_catalogue()[k].1,
        forall|k: int|
            0 <= k < supported_catalogue().len() && k != 1 ==> #[trigger] default_provider_url(
                supported_catalogue()[k].0,
            ) == supported_catalogue()[k].2,
        supported_catalogue()[1].2 == default_provider_url(supported_catalogue()[1].0) + "/v1"@,
        forall|k: int, m: int|
            0 <= k < m < supported_catalogue().len() ==> #[trigger] default_provider_url(
                supported_catalogue()[k].0,
            ) != #[trigger] default_provider_url(supported_catalogue()[m].0),
        (forall|k: int| 0 <= k < supported_catalogue().len() ==> id != #[trigger] supported_catalogue()[k].0)
            ==> default_provider_url(id) == ""@ && default_provider_name(id) == id,
{
    reveal_strlit("openai");
    reveal_strlit("deepseek");
    reveal_strlit("alibaba_cloud");
    reveal_strlit("nvidia");
    reveal_strlit("https://api.openai.com/v1");
    reveal_strlit("https://api.deepseek.com");
    reveal_strlit("https://api.deepseek.com/v1");
    reveal_strlit("/v1");
    reveal_strlit("https://dashscope.aliyuncs.com/compatible-mode/v1");
    reveal_strlit("https://integrate.api.nvidia.com/v1");
    let c = supported_catalogue();
    assert(c[0].0 == "openai"@);
    assert(c[1].0 == "deepseek"@);
    assert(c[2].0 == "alibaba_cloud"@);
    assert(c[3].0 == "nvidia"@);
    assert("openai"@[0] != "nvidia"@[0]);
    assert("deepseek"@.len() != "openai"@.len() && "deepseek"@.len() != "nvidia"@.len());
    assert("alibaba_cloud"@.len() != "openai"@.len() && "alibaba_cloud"@.len() != "nvidia"@.len()
        && "alibaba_cloud"@.len() != "deepseek"@.len());
    assert forall|k: int| 0 <= k < c.len() implies #[trigger] default_provider_name(c[k].0) == c[k].1 by {
        if k == 0 {} else if k == 1 {} else if k == 2 {} else {}
    }
    assert forall|k: int| 0 <= k < c.len() && k != 1 implies #[trigger] default_provider_url(c[k].0) == c[k].2 by {
        if k == 0 {} else if k == 2 {} else {}
    }
    assert("https://api.deepseek.com"@ + "/v1"@ =~= "https://api.deepseek.com/v1"@);
    assert("https://api.openai.com/v1"@[12] != "https://integrate.api.nvidia.com/v1"@[12]);
    assert("https://api.openai.com/v1"@[12] != "https://dashscope.aliyuncs.com/compatible-mode/v1"@[12]);
    assert("https://api.openai.com/v1"@[12] != "https://api.deepseek.com"@[12]);
}

/// The form of the provider selected in the settings screen.
pub fn provider_form(prefs: Option<&Preferences>, provider_id: &str) -> (r: ProviderForm)
    ensures
        r@ == provider_form_spec(loaded_providers(prefs), provider_id@),
{
    match prefs {
        Some(p) => match p.get_provider(provider_id) {
            Some(prov) => {
                proof {
                    let ps = p.pv();
                    let i = choose|i: int| first_with_id(ps, provider_id@, i) && prov@ == ps[i];
                    let c = choose|c: int| first_with_id(ps, provider_id@, c);
                    lemma_first_unique(ps, provider_id@, i, c);
                }
                let key = match &prov.api_key {
                    Some(k) => k.clone(),
                    None => "".to_owned(),
                };
                let has_key = match &prov.api_key {
                    Some(k) => k.as_str().unicode_len() > 0,
                    None => false,
                };
                ProviderForm {
                    name: prov.name.clone(),
                    url: prov.url.clone(),
                    api_key: key,
                    models: clone_strings(&prov.models),
                    has_api_key: has_key,
                    is_custom: prov.is_custom,
                }
            },
            None => default_form_for(provider_id),
        },
        None => default_form_for(provider_id),
    }
}

/// The sync status line of a form: the model count, nothing when models
/// can be synced, or a request for an API key.
pub open spec fn sync_status_spec(f: ProviderFormView) -> Seq<char> {
    if f.models.len() > 0 {
        decimal(f.models.len()) + " models"@
    } else if f.has_api_key {
        ""@
    } else {
        missing_key_text()
    }
}

/// The sync status line shown under a provider form.
pub fn sync_status_label(form: &ProviderForm) -> (r: String)
    ensures
        r@ == sync_status_spec(form@),
{
    let n = form.models.len();
    if n > 0 {
        let mut r = decimal_string(n as u64);
        r.append(" models");
        r
    } else if form.has_api_key {
        "".to_owned()
    } else {
        "Enter API key to sync models".to_owned()
    }
}

/// The identifier the add-provider dialog gives a provider name: lowercase,
/// with spaces and hyphens turned into underscores.
pub open spec fn form_provider_id(name: Seq<char>) -> Seq<char> {
    replaced(replaced(lowercase_of(name), ' ', '_'), '-', '_')
}

/// The identifier of an ASCII name in the add-provider dialog: letters
/// lowercased, spaces and hyphens turned into underscores.
pub open spec fn ascii_form_id(name: Seq<char>) -> Seq<char> {
    name.map_values(|c: char| if c == ' ' || c == '-' { '_' } else { ascii_lower(c) })
}

/// The provider the add-provider dialog creates: none unless both the name
/// and the host are filled in; an empty key means no key.
pub open spec fn provider_from_form_spec(name: Seq<char>, host: Seq<char>, key: Seq<char>) -> Option<
    ProviderView,
> {
    if name.len() == 0 || host.len() == 0 {
        None
    } else {
        Some(
            ProviderView {
                id: form_provider_id(name),
                name: name,
                url: host,
                api_key: if key.len() == 0 {
                    None
                } else {
                    Some(key)
                },
                provider_type: ProviderType::Custom,
                enabled: true,
                models: Seq::empty(),
                is_custom: true,
                connection_status: StatusView::Disconnected,
            },
        )
    }
}

/// The provider of the add-provider dialog's name, host and key fields.
pub fn provider_from_form(name: String, host: String, key: String) -> (r: Option<Provider>)
    ensures
        match r {
            Some(p) => provider_from_form_spec(name@, host@, key@) == Some(p@),
            None => provider_from_form_spec(name@, host@, key@) is None,
        },
        all_ascii(name@) ==> match r {
            Some(p) => p@.id == ascii_form_id(name@),
            None => true,
        },
{
    if name.as_str().unicode_len() == 0 || host.as_str().unicode_len() == 0 {
        return None;
    }
    let lowered = str_to_lowercase(name.as_str());
    let spaced = replace_char(lowered.as_str(), ' ', '_');
    let id = replace_char(spaced.as_str(), '-', '_');
    assert(all_ascii(name@) ==> id@ =~= ascii_form_id(name@));
    let api_key = if key.as_str().unicode_len() == 0 {
        None
    } else {
        Some(key)
    };
    let p = Provider {
        id,
        name,
        url: host,
        api_key,
        provider_type: ProviderType::Custom,
        enabled: true,
        models: Vec::new(),
        is_custom: true,
        connection_status: ProviderConnectionStatus::Disconnected,
    };
    assert(p@.models =~= Seq::<Seq<char>>::empty());
    Some(p)
}

/// Number of custom provider entries the providers list can show.
pub const CUSTOM_SLOTS: usize = 10;

/// The custom providers, in order.
pub open spec fn custom_spec(ps: Seq<ProviderView>) -> Seq<ProviderView> {
    ps.filter(|p: ProviderView| p.is_custom)
}

/// The texts of the collapsible section header: its label and arrow.
pub open spec fn section_labels_spec(expanded: bool) -> (Seq<char>, Seq<char>) {
    if expanded {
        ("Show Less"@, "^"@)
    } else {
        ("Show More"@, ">"@)
    }
}

/// The entry of the providers list drawn as selected.
#[derive(Debug, Clone, Copy, PartialEq, Eq, Structural)]
pub enum Highlight {
    /// The built-in provider entry at this position (OpenAI, DeepSeek, Alibaba Cloud, NVIDIA).
    Builtin(usize),
    /// The custom provider entry at this position.
    Custom(usize),
    /// No entry.
    Nothing,
}

/// The position of a built-in provider in the list.
pub open spec fn builtin_position(id: Seq<char>) -> Option<usize> {
    if id == "openai"@ {
        Some(0)
    } else if id == "deepseek"@ {
        Some(1)
    } else if id == "alibaba_cloud"@ {
        Some(2)
    } else if id == "nvidia"@ {
        Some(3)
    } else {
        None
    }
}

/// The state of the providers list.
#[derive(Debug)]
pub struct ProvidersPanelState {
    pub selected: Option<String>,
    pub custom: Vec<Provider>,
    pub custom_expanded: bool,
}

impl ProvidersPanelState {
    /// The custom providers by their views.
    pub open spec fn custom_view(&self) -> Seq<ProviderView> {
        self.custom@.map_values(|p: Provider| p@)
    }

    /// Nothing selected, no custom providers, section collapsed.
    pub fn new() -> (r: Self)
        ensures
            r.selected is None,
            r.custom_view() == Seq::<ProviderView>::empty(),
            !r.custom_expanded,
    {
        let r = ProvidersPanelState { selected: None, custom: Vec::new(), custom_expanded: false };
        assert(r.custom_view() =~= Seq::<ProviderView>::empty());
        r
    }

    /// Reloads the custom providers; the section opens when there are any.
    pub fn load_custom(&mut self, prefs: &Preferences)
        ensures
            final(self).custom_view() == custom_spec(prefs.pv()),
            final(self).custom_expanded == (old(self).custom_expanded || custom_spec(prefs.pv()).len()
                > 0),
            opt_view(final(self).selected) == opt_view(old(self).selected),
    {
        let ghost pv = prefs.pv();
        let mut custom: Vec<Provider> = Vec::new();
        let mut i: usize = 0;
        assert(pv.take(0) =~= Seq::<ProviderView>::empty());
        while i < prefs.providers.len()
            invariant
                pv == prefs.pv(),
                i <= prefs.providers.len(),
                custom@.map_values(|p: Provider| p@) == custom_spec(pv.take(i as int)),
            decreases prefs.providers.len() - i,
        {
            assert(pv.take(i + 1).drop_last() =~= pv.take(i as int));
            assert(pv[i as int] == prefs.providers@[i as int]@);
            reveal_with_fuel(Seq::filter, 1);
            if prefs.providers[i].is_custom {
                let p = prefs.providers[i].clone();
                custom.push(p);
                assert(custom@.map_values(|p: Provider| p@) =~= custom_spec(pv.take(i as int)).push(
                    pv[i as int],
                ));
            }
            i = i + 1;
        }
        assert(pv.take(prefs.providers.len() as int) =~= pv);
        let has_custom = custom.len() > 0;
        self.custom = custom;
        if has_custom {
            self.custom_expanded = true;
        }
    }

    /// The name shown in a custom provider entry, if the entry is in use.
    pub fn custom_slot_name(&self, slot: usize) -> (r: Option<&str>)
        ensures
            match r {
                Some(n) => slot < CUSTOM_SLOTS && slot < self.custom_view().len() && n@
                    == self.custom_view()[slot as int].name,
                None => slot >= CUSTOM_SLOTS || slot >= self.custom_view().len(),
            },
    {
        if slot < CUSTOM_SLOTS && slot < self.custom.len() {
            Some(self.custom[slot].name.as_str())
        } else {
            None
        }
    }

    /// Opens or closes the custom section; returns the header's new label and arrow.
    pub fn toggle_custom_section(&mut self) -> (r: (&'static str, &'static str))
        ensures
            final(self).custom_expanded == !old(self).custom_expanded,
            (r.0@, r.1@) == section_labels_spec(final(self).custom_expanded),
            opt_view(final(self).selected) == opt_view(old(self).selected),
            final(self).custom_view() == old(self).custom_view(),
    {
        self.custom_expanded = !self.custom_expanded;
        if self.custom_expanded {
            ("Show Less", "^")
        } else {
            ("Show More", ">")
        }
    }

    /// Selects a provider.
    pub fn select(&mut self, provider_id: &str)
        ensures
            opt_view(final(self).selected) == Some(provider_id@),
            final(self).custom_view() == old(self).custom_view(),
            final(self).custom_expanded == old(self).custom_expanded,
    {
        self.selected = Some(provider_id.to_owned());
    }

    /// Selects `id` unless it is already selected; returns it when the
    /// selection changed.
    fn change_selection(&mut self, id: String) -> (r: Option<String>)
        ensures
            final(self).custom_view() == old(self).custom_view(),
            final(self).custom_expanded == old(self).custom_expanded,
            opt_view(old(self).selected) == Some(id@) ==> r is None && opt_view(final(self).selected)
                == opt_view(old(self).selected),
            opt_view(old(self).selected) != Some(id@) ==> opt_view(r) == Some(id@) && opt_view(
                final(self).selected,
            ) == Some(id@),
    {
        let same = match &self.selected {
            Some(s) => str_eq(s.as_str(), id.as_str()),
            None => false,
        };
        if same {
            None
        } else {
            self.selected = Some(id.clone());
            Some(id)
        }
    }

    /// A click on a built-in provider entry: selects its provider unless it
    /// is already selected, and returns the provider newly selected.
    pub fn click_builtin(&mut self, item: &str) -> (r: Option<String>)
        ensures
            final(self).custom_view() == old(self).custom_view(),
            final(self).custom_expanded == old(self).custom_expanded,
            match item_provider(item@) {
                Some(id) => if opt_view(old(self).selected) == Some(id) {
                    r is None && opt_view(final(self).selected) == opt_view(old(self).selected)
                } else {
                    opt_view(r) == Some(id) && opt_view(final(self).selected) == Some(id)
                },
                None => r is None && opt_view(final(self).selected) == opt_view(old(self).selected),
            },
    {
        match item_to_provider_id(item) {
            Some(id) => self.change_selection(id),
            None => None,
        }
    }

    /// A click on a custom provider entry: selects its provider unless it is
    /// already selected, and returns the provider newly selected.
    pub fn click_custom(&mut self, slot: usize) -> (r: Option<String>)
        ensures
            final(self).custom_view() == old(self).custom_view(),
            final(self).custom_expanded == old(self).custom_expanded,
            slot < CUSTOM_SLOTS && slot < old(self).custom_view().len() ==> {
                let id = old(self).custom_view()[slot as int].id;
                if opt_view(old(self).selected) == Some(id) {
                    r is None && opt_view(final(self).selected) == opt_view(old(self).selected)
                } else {
                    opt_view(r) == Some(id) && opt_view(final(self).selected) == Some(id)
                }
            },
            !(slot < CUSTOM_SLOTS && slot < old(self).custom_view().len()) ==> r is None && opt_view(
                final(self).selected,
            ) == opt_view(old(self).selected),
    {
        if slot < CUSTOM_SLOTS && slot < self.custom.len() {
            let id = self.custom[slot].id.clone();
            assert(self.custom_view()[slot as int] == self.custom@[slot as int]@);
            self.change_selection(id)
        } else {
            None
        }
    }

    /// The entry drawn as selected: the built-in entry of a built-in
    /// provider, otherwise the first shown custom entry with the selected
    /// identifier.
    pub fn highlighted(&self) -> (r: Highlight)
        ensures
            match opt_view(self.selected) {
                None => r == Highlight::Nothing,
                Some(id) => match builtin_position(id) {
                    Some(k) => r == Highlight::Builtin(k),
                    None => match r {
                        Highlight::Custom(i) => i < CUSTOM_SLOTS && i < self.custom_view().len()
                            && self.custom_view()[i as int].id == id && forall|j: int|
                            0 <= j < i ==> (#[trigger] self.custom_view()[j]).id != id,
                        Highlight::Nothing => forall|j: int|
                            0 <= j < self.custom_view().len() && j < CUSTOM_SLOTS ==> (
                            #[trigger] self.custom_view()[j]).id != id,
                        Highlight::Builtin(_) => false,
                    },
                },
            },
    {
        match &self.selected {
            None => Highlight::Nothing,
            Some(sel) => {
                let id = sel.as_str();
                if str_eq(id, "openai") {
                    Highlight::Builtin(0)
                } else if str_eq(id, "deepseek") {
                    Highlight::Builtin(1)
                } else if str_eq(id, "alibaba_cloud") {
                    Highlight::Builtin(2)
                } else if str_eq(id, "nvidia") {
                    Highlight::Builtin(3)
                } else {
                    let mut i: usize = 0;
                    while i < self.custom.len() && i < CUSTOM_SLOTS
                        invariant
                            i <= self.custom.len(),
                            i <= CUSTOM_SLOTS,
                            opt_view(self.selected) == Some(id@),
                            builtin_position(id@) is None,
                            forall|j: int| 0 <= j < i ==> (#[trigger] self.custom_view()[j]).id != id@,
                        decreases self.custom.len() - i,
                    {
                        assert(self.custom_view()[i as int] == self.custom@[i as int]@);
                        if str_eq(self.custom[i].id.as_str(), id) {
                            return Highlight::Custom(i);
                        }
                        i = i + 1;
                    }
                    Highlight::Nothing
                }
            },
        }
    }
}

} // verus!
