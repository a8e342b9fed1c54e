//! Provider data models: the AI service providers that the settings app
//! configures, their connection status and the built-in catalogue.

use vstd::prelude::*;
use vstd::string::*;
use crate::text::{
    all_ascii, ascii_alphanumeric, ascii_lower, lowercase_of, char_alphanumeric, str_to_lowercase, is_alphanumeric, chars_of, string_from_chars, str_eq, opt_view, clone_opt_string};

verus! {

/// Type of AI provider API.
#[derive(Clone, Copy, Debug, PartialEq, Eq, Structural)]
pub enum ProviderType {
    OpenAi,
    DeepSeek,
    AlibabaCloud,
    Nvidia,
    Custom,
}

impl Default for ProviderType {
    fn default() -> (r: Self)
        ensures
            r == ProviderType::OpenAi,
    {
        ProviderType::OpenAi
    }
}

/// The label shown for a provider type.
pub open spec fn provider_type_label(t: ProviderType) -> Seq<char> {
    match t {
        ProviderType::OpenAi => "OpenAI"@,
        ProviderType::DeepSeek => "DeepSeek"@,
        ProviderType::AlibabaCloud => "Alibaba Cloud"@,
        ProviderType::Nvidia => "NVIDIA"@,
        ProviderType::Custom => "Custom"@,
    }
}

impl ProviderType {
    pub fn display_name(&self) -> (r: &'static str)
        ensures
            r@ == provider_type_label(*self),
    {
        match self {
            ProviderType::OpenAi => "OpenAI",
            ProviderType::DeepSeek => "DeepSeek",
            ProviderType::AlibabaCloud => "Alibaba Cloud",
            ProviderType::Nvidia => "NVIDIA",
            ProviderType::Custom => "Custom",
        }
    }
}

/// Connection status of a provider.
#[derive(Debug)]
pub enum ProviderConnectionStatus {
    Disconnected,
    Connecting,
    Connected,
    Error(String),
}

/// The view of a connection status: the error message is taken by its characters.
pub enum StatusView {
    Disconnected,
    Connecting,
    Connected,
    Error(Seq<char>),
}

impl View for ProviderConnectionStatus {
    type V = StatusView;

    open spec fn view(&self) -> StatusView {
        match self {
            ProviderConnectionStatus::Disconnected => StatusView::Disconnected,
            ProviderConnectionStatus::Connecting => StatusView::Connecting,
            ProviderConnectionStatus::Connected => StatusView::Connected,
            ProviderConnectionStatus::Error(m) => StatusView::Error(m@),
        }
    }
}

impl PartialEq for ProviderConnectionStatus {
    fn eq(&self, other: &Self) -> (r: bool) {
        match (self, other) {
            (ProviderConnectionStatus::Disconnected, ProviderConnectionStatus::Disconnected) => true,
            (ProviderConnectionStatus::Connecting, ProviderConnectionStatus::Connecting) => true,
            (ProviderConnectionStatus::Connected, ProviderConnectionStatus::Connected) => true,
            (ProviderConnectionStatus::Error(a), ProviderConnectionStatus::Error(b)) => str_eq(
                a.as_str(),
                b.as_str(),
            ),
            _ => false,
        }
    }
}

impl vstd::std_specs::cmp::PartialEqSpecImpl for ProviderConnectionStatus {
    open spec fn obeys_eq_spec() -> bool {
        true
    }

    open spec fn eq_spec(&self, other: &Self) -> bool {
        self@ == other@
    }
}

impl Clone for ProviderConnectionStatus {
    fn clone(&self) -> (r: Self)
        ensures
            r@ == self@,
    {
        match self {
            ProviderConnectionStatus::Disconnected => ProviderConnectionStatus::Disconnected,
            ProviderConnectionStatus::Connecting => ProviderConnectionStatus::Connecting,
            ProviderConnectionStatus::Connected => ProviderConnectionStatus::Connected,
            ProviderConnectionStatus::Error(m) => ProviderConnectionStatus::Error(m.clone()),
        }
    }
}

impl Default for ProviderConnectionStatus {
    fn default() -> (r: Self)
        ensures
            r@ == StatusView::Disconnected,
    {
        ProviderConnectionStatus::Disconnected
    }
}

/// The text shown for a connection status.
pub open spec fn status_text(s: StatusView) -> Seq<char> {
    match s {
        StatusView::Disconnected => "Disconnected"@,
        StatusView::Connecting => "Connecting..."@,
        StatusView::Connected => "Connected"@,
        StatusView::Error(m) => m,
    }
}

impl ProviderConnectionStatus {
    pub fn display_text(&self) -> (r: &str)
        ensures
            r@ == status_text(self@),
    {
        match self {
            ProviderConnectionStatus::Disconnected => "Disconnected",
            ProviderConnectionStatus::Connecting => "Connecting...",
            ProviderConnectionStatus::Connected => "Connected",
            ProviderConnectionStatus::Error(msg) => msg.as_str(),
        }
    }

    pub fn is_connected(&self) -> (r: bool)
        ensures
            r == (self@ is Connected),
    {
        match self {
            ProviderConnectionStatus::Connected => true,
            _ => false,
        }
    }
}

/// A configured AI provider.
#[derive(Debug)]
pub struct Provider {
    pub id: String,
    pub name: String,
    pub url: String,
    pub api_key: Option<String>,
    pub provider_type: ProviderType,
    pub enabled: bool,
    pub models: Vec<String>,
    pub is_custom: bool,
    pub connection_status: ProviderConnectionStatus,
}

/// The mathematical value of a provider: every string taken by its characters.
pub struct ProviderView {
    pub id: Seq<char>,
    pub name: Seq<char>,
    pub url: Seq<char>,
    pub api_key: Option<Seq<char>>,
    pub provider_type: ProviderType,
    pub enabled: bool,
    pub models: Seq<Seq<char>>,
    pub is_custom: bool,
    pub connection_status: StatusView,
}

/// The characters of each string in a vector.
pub open spec fn strings_view(v: Seq<String>) -> Seq<Seq<char>> {
    v.map_values(|s: String| s@)
}

impl View for Provider {
    type V = ProviderView;

    open spec fn view(&self) -> ProviderView {
        ProviderView {
            id: self.id@,
            name: self.name@,
            url: self.url@,
            api_key: opt_view(self.api_key),
            provider_type: self.provider_type,
            enabled: self.enabled,
            models: strings_view(self.models@),
            is_custom: self.is_custom,
            connection_status: self.connection_status@,
        }
    }
}

/// A copy of a vector of strings.
pub fn clone_strings(v: &Vec<String>) -> (r: Vec<String>)
    ensures
        strings_view(r@) == strings_view(v@),
{
    let mut r: Vec<String> = Vec::new();
    let mut i: usize = 0;
    while i < v.len()
        invariant
            i <= v.len(),
            r@ == v@.take(i as int),
        decreases v.len() - i,
    {
        let s = v[i].clone();
        r.push(s);
        i = i + 1;
        assert(r@ =~= v@.take(i as int));
    }
    assert(v@.take(v.len() as int) =~= v@);
    r
}

impl Clone for Provider {
    fn clone(&self) -> (r: Self)
        ensures
            r@ == self@,
    {
        Provider {
            id: self.id.clone(),
            name: self.name.clone(),
            url: self.url.clone(),
            api_key: clone_opt_string(&self.api_key),
            provider_type: self.provider_type,
            enabled: self.enabled,
            models: clone_strings(&self.models),
            is_custom: self.is_custom,
            connection_status: self.connection_status.clone(),
        }
    }
}

impl Default for Provider {
    fn default() -> (r: Self)
        ensures
            r@.id == Seq::<char>::empty(),
            r@.name == Seq::<char>::empty(),
            r@.url == Seq::<char>::empty(),
            r@.api_key is None,
            r@.provider_type == ProviderType::OpenAi,
            !r@.enabled,
            r@.models == Seq::<Seq<char>>::empty(),
            !r@.is_custom,
            r@.connection_status == StatusView::Disconnected,
    {
        let r = Provider {
            id: String::new(),
            name: String::new(),
            url: String::new(),
            api_key: None,
            provider_type: ProviderType::OpenAi,
            enabled: false,
            models: Vec::new(),
            is_custom: false,
            connection_status: ProviderConnectionStatus::Disconnected,
        };
        assert(r@.models =~= Seq::<Seq<char>>::empty());
        r
    }
}

/// Each character kept if alphanumeric, otherwise replaced by `_`.
pub open spec fn sanitized(s: Seq<char>) -> Seq<char> {
    s.map_values(|c: char| if char_alphanumeric(c) { c } else { '_' })
}

/// The identifier derived from a provider name: lowercase, with every
/// character that is not alphanumeric replaced by `_`.
pub open spec fn id_of_name(name: Seq<char>) -> Seq<char> {
    sanitized(lowercase_of(name))
}

/// Each ASCII character kept if it is a letter or digit, otherwise `_`.
pub open spec fn ascii_sanitized(s: Seq<char>) -> Seq<char> {
    s.map_values(|c: char| if ascii_alphanumeric(c) { c } else { '_' })
}

/// The identifier of an ASCII name: letters lowercased, digits kept, every
/// other character turned into `_`.
pub open spec fn ascii_id_of_name(name: Seq<char>) -> Seq<char> {
    name.map_values(|c: char| if ascii_alphanumeric(c) { ascii_lower(c) } else { '_' })
}

/// Replaces every character of an already lowercased name that is not
/// alphanumeric by `_`.
pub fn sanitize_id(lowered: &str) -> (r: String)
    ensures
        r@ == sanitized(lowered@),
        all_ascii(lowered@) ==> r@ == ascii_sanitized(lowered@),
{
    let cs = chars_of(lowered);
    let mut out: Vec<char> = Vec::new();
    let mut i: usize = 0;
    while i < cs.len()
        invariant
            cs@ == lowered@,
            i <= cs.len(),
            out@ == sanitized(cs@.take(i as int)),
            all_ascii(lowered@) ==> out@ == ascii_sanitized(cs@.take(i as int)),
        decreases cs.len() - i,
    {
        let c = cs[i];
        assert(all_ascii(lowered@) ==> crate::text::is_ascii_char(cs@[i as int]));
        if is_alphanumeric(c) {
            out.push(c);
        } else {
            out.push('_');
        }
        i = i + 1;
        assert(out@ =~= sanitized(cs@.take(i as int)));
        assert(all_ascii(lowered@) ==> out@ =~= ascii_sanitized(cs@.take(i as int)));
    }
    assert(cs@.take(cs.len() as int) =~= cs@);
    string_from_chars(&out)
}

/// The status colours, as hex strings.
pub open spec fn status_color_of(enabled: bool, s: StatusView) -> Seq<char> {
    if !enabled {
        "#9ca3af"@
    } else {
        match s {
            StatusView::Connected => "#22c55e"@,
            StatusView::Connecting => "#f59e0b"@,
            StatusView::Disconnected => "#6b7280"@,
            StatusView::Error(_) => "#ef4444"@,
        }
    }
}

impl Provider {
    pub fn new_custom(name: String, url: String, provider_type: ProviderType) -> (r: Self)
        ensures
            r@.id == id_of_name(name@),
            all_ascii(name@) ==> r@.id == ascii_id_of_name(name@),
            r@.name == name@,
            r@.url == url@,
            r@.api_key is None,
            r@.provider_type == provider_type,
            !r@.enabled,
            r@.models == Seq::<Seq<char>>::empty(),
            r@.is_custom,
            r@.connection_status == StatusView::Disconnected,
    {
        let id = Self::generate_id(name.as_str());
        let r = Provider {
            id,
            name,
            url,
            api_key: None,
            provider_type,
            enabled: false,
            models: Vec::new(),
            is_custom: true,
            connection_status: ProviderConnectionStatus::Disconnected,
        };
        assert(r@.models =~= Seq::<Seq<char>>::empty());
        r
    }

    pub fn generate_id(name: &str) -> (r: String)
        ensures
            r@ == id_of_name(name@),
            all_ascii(name@) ==> r@ == ascii_id_of_name(name@),
    {
        let lowered = str_to_lowercase(name);
        proof {
            if all_ascii(name@) {
                assert forall|i: int| 0 <= i < lowered@.len() implies crate::text::is_ascii_char(
                    #[trigger] lowered@[i],
                ) by {
                    assert(crate::text::is_ascii_char(name@[i]));
                }
            }
        }
        let r = sanitize_id(lowered.as_str());
        assert(all_ascii(name@) ==> r@ =~= ascii_id_of_name(name@));
        r
    }

    pub fn status_color(&self) -> (r: &'static str)
        ensures
            r@ == status_color_of(self.enabled, self.connection_status@),
    {
        if !self.enabled {
            "#9ca3af"
        } else {
            match &self.connection_status {
                ProviderConnectionStatus::Connected => "#22c55e",
                ProviderConnectionStatus::Connecting => "#f59e0b",
                ProviderConnectionStatus::Disconnected => "#6b7280",
                ProviderConnectionStatus::Error(_) => "#ef4444",
            }
        }
    }
}

/// The provider selected by a list item of the providers panel.
pub open spec fn item_provider(name: Seq<char>) -> Option<Seq<char>> {
    if name == "openai_item"@ {
        Some("openai"@)
    } else if name == "deepseek_item"@ {
        Some("deepseek"@)
    } else if name == "alibaba_item"@ {
        Some("alibaba_cloud"@)
    } else if name == "nvidia_item"@ {
        Some("nvidia"@)
    } else {
        None
    }
}

/// Map a providers-panel item name to a provider ID.
pub fn item_to_provider_id(name: &str) -> (r: Option<String>)
    ensures
        opt_view(r) == item_provider(name@),
{
    if str_eq(name, "openai_item") {
        Some("openai".to_owned())
    } else if str_eq(name, "deepseek_item") {
        Some("deepseek".to_owned())
    } else if str_eq(name, "alibaba_item") {
        Some("alibaba_cloud".to_owned())
    } else if str_eq(name, "nvidia_item") {
        Some("nvidia".to_owned())
    } else {
        None
    }
}

/// Map a button name to a provider ID (same names as the list items).
pub fn button_to_provider_id(name: &str) -> (r: Option<String>)
    ensures
        opt_view(r) == item_provider(name@),
{
    item_to_provider_id(name)
}

/// Builds a vector of owned strings from string literals.
pub(crate) fn strings_from(items: &[&str]) -> (r: Vec<String>)
    ensures
        r@.len() == items@.len(),
        forall|i: int| 0 <= i < items@.len() ==> #[trigger] r@[i]@ == items@[i]@,
{
    let mut r: Vec<String> = Vec::new();
    let mut i: usize = 0;
    while i < items.len()
        invariant
            i <= items@.len(),
            r@.len() == i,
            forall|j: int| 0 <= j < i ==> #[trigger] r@[j]@ == items@[j]@,
        decreases items@.len() - i,
    {
        r.push(items[i].to_owned());
        i = i + 1;
    }
    r
}

/// A built-in (non-custom, disabled, keyless) provider.
fn builtin(id: &str, name: &str, url: &str, provider_type: ProviderType, models: &[&str]) -> (r:
    Provider)
    ensures
        r@.id == id@,
        r@.name == name@,
        r@.url == url@,
        r@.api_key is None,
        r@.provider_type == provider_type,
        !r@.enabled,
        r@.models == models@.map_values(|m: &str| m@),
        !r@.is_custom,
        r@.connection_status == StatusView::Disconnected,
{
    let ms = strings_from(models);
    let r = Provider {
        id: id.to_owned(),
        name: name.to_owned(),
        url: url.to_owned(),
        api_key: None,
        provider_type,
        enabled: false,
        models: ms,
        is_custom: false,
        connection_status: ProviderConnectionStatus::Disconnected,
    };
    assert(r@.models =~= models@.map_values(|m: &str| m@));
    r
}

/// The built-in catalogue, as (id, name, url, type, models).
pub open spec fn supported_catalogue() -> Seq<
    (Seq<char>, Seq<char>, Seq<char>, ProviderType, Seq<Seq<char>>),
> {
    seq![
        (
            "openai"@,
            "OpenAI"@,
            "https://api.openai.com/v1"@,
            ProviderType::OpenAi,
            seq!["gpt-4o"@, "gpt-4o-mini"@, "o1-mini"@],
        ),
        (
            "deepseek"@,
            "DeepSeek"@,
            "https://api.deepseek.com/v1"@,
            ProviderType::DeepSeek,
            seq!["deepseek-chat"@, "deepseek-reasoner"@],
        ),
        (
            "alibaba_cloud"@,
            "Alibaba Cloud (Qwen)"@,
            "https://dashscope.aliyuncs.com/compatible-mode/v1"@,
            ProviderType::AlibabaCloud,
            seq!["qwen-plus"@, "qwen-turbo"@, "qwen-max"@],
        ),
        (
            "nvidia"@,
            "NVIDIA"@,
            "https://integrate.api.nvidia.com/v1"@,
            ProviderType::Nvidia,
            seq![
                "deepseek-ai/deepseek-r1"@,
                "deepseek-ai/deepseek-v3.2"@,
                "moonshotai/kimi-k2-thinking"@,
                "minimaxai/minimax-m2"@,
                "meta/llama-3.3-70b-instruct"@,
            ],
        ),
    ]
}

/// The provider value described by a catalogue entry: built in, disabled,
/// without an API key and disconnected.
pub open spec fn builtin_view(
    e: (Seq<char>, Seq<char>, Seq<char>, ProviderType, Seq<Seq<char>>),
) -> ProviderView {
    ProviderView {
        id: e.0,
        name: e.1,
        url: e.2,
        api_key: None,
        provider_type: e.3,
        enabled: false,
        models: e.4,
        is_custom: false,
        connection_status: StatusView::Disconnected,
    }
}

/// The built-in providers, in catalogue order.
pub open spec fn supported_views() -> Seq<ProviderView> {
    supported_catalogue().map_values(
        |e: (Seq<char>, Seq<char>, Seq<char>, ProviderType, Seq<Seq<char>>)| builtin_view(e),
    )
}

/// The views of a sequence of providers.
pub open spec fn providers_view(ps: Seq<Provider>) -> Seq<ProviderView> {
    ps.map_values(|p: Provider| p@)
}

/// Pre-configured supported providers.
pub fn get_supported_providers() -> (r: Vec<Provider>)
    ensures
        providers_view(r@) == supported_views(),
{
    let mut r: Vec<Provider> = Vec::new();
    let p0 = builtin(
        "openai",
        "OpenAI",
        "https://api.openai.com/v1",
        ProviderType::OpenAi,
        &["gpt-4o", "gpt-4o-mini", "o1-mini"],
    );
    assert(p0@.models =~= seq!["gpt-4o"@, "gpt-4o-mini"@, "o1-mini"@]);
    let ghost v0 = p0@;
    r.push(p0);
    let p1 = builtin(
        "deepseek",
        "DeepSeek",
        "https://api.deepseek.com/v1",
        ProviderType::DeepSeek,
        &["deepseek-chat", "deepseek-reasoner"],
    );
    assert(p1@.models =~= seq!["deepseek-chat"@, "deepseek-reasoner"@]);
    let ghost v1 = p1@;
    r.push(p1);
    let p2 = builtin(
        "alibaba_cloud",
        "Alibaba Cloud (Qwen)",
        "https://dashscope.aliyuncs.com/compatible-mode/v1",
        ProviderType::AlibabaCloud,
        &["qwen-plus", "qwen-turbo", "qwen-max"],
    );
    assert(p2@.models =~= seq!["qwen-plus"@, "qwen-turbo"@, "qwen-max"@]);
    let ghost v2 = p2@;
    r.push(p2);
    let p3 = builtin(
        "nvidia",
        "NVIDIA",
        "https://integrate.api.nvidia.com/v1",
        ProviderType::Nvidia,
        &[
            "deepseek-ai/deepseek-r1",
            "deepseek-ai/deepseek-v3.2",
            "moonshotai/kimi-k2-thinking",
            "minimaxai/minimax-m2",
            "meta/llama-3.3-70b-instruct",
        ],
    );
    assert(p3@.models =~= seq![
        "deepseek-ai/deepseek-r1"@,
        "deepseek-ai/deepseek-v3.2"@,
        "moonshotai/kimi-k2-thinking"@,
        "minimaxai/minimax-m2"@,
        "meta/llama-3.3-70b-instruct"@,
    ]);
    let ghost v3 = p3@;
    r.push(p3);
    assert(providers_view(r@) =~= seq![v0, v1, v2, v3]);
    assert(seq![v0, v1, v2, v3] =~= supported_views());
    r
}

} // verus!
