//! User preferences: the configured providers and the user's defaults.
//! Reading and writing the preferences file is done by the caller; this
//! module holds every rule applied to the loaded value.

use vstd::prelude::*;
use vstd::string::*;
use crate::providers::{
    Provider, ProviderView, providers_view, supported_views, get_supported_providers, strings_view,
    strings_from,
};
use crate::text::{
    all_ascii, ascii_upper,
    str_eq, opt_view, decimal, decimal_string, uppercase_of, str_to_uppercase,
    replaced, replace_char, StringMap, lookup,
};

verus! {

/// Some provider in `ps` has identifier `id`.
pub open spec fn has_id(ps: Seq<ProviderView>, id: Seq<char>) -> bool {
    exists|i: int| 0 <= i < ps.len() && (#[trigger] ps[i]).id == id
}

/// `i` is the first position in `ps` whose provider has identifier `id`.
pub open spec fn first_with_id(ps: Seq<ProviderView>, id: Seq<char>, i: int) -> bool {
    &&& 0 <= i < ps.len()
    &&& ps[i].id == id
    &&& forall|j: int| 0 <= j < i ==> (#[trigger] ps[j]).id != id
}

/// `i` is the first position in `ps` holding a custom provider with identifier `id`.
pub open spec fn first_custom_with_id(ps: Seq<ProviderView>, id: Seq<char>, i: int) -> bool {
    &&& 0 <= i < ps.len()
    &&& ps[i].id == id
    &&& ps[i].is_custom
    &&& forall|j: int| 0 <= j < i ==> !((#[trigger] ps[j]).id == id && ps[j].is_custom)
}

/// Some custom provider in `ps` has identifier `id`.
pub open spec fn has_custom_id(ps: Seq<ProviderView>, id: Seq<char>) -> bool {
    exists|i: int| 0 <= i < ps.len() && (#[trigger] ps[i]).id == id && ps[i].is_custom
}

/// The provider list after an upsert: the first provider with the same
/// identifier is replaced, or the provider is appended.
pub open spec fn upsert_spec(ps: Seq<ProviderView>, p: ProviderView) -> Seq<ProviderView> {
    if has_id(ps, p.id) {
        ps.update(choose|i: int| first_with_id(ps, p.id, i), p)
    } else {
        ps.push(p)
    }
}

/// The provider list after merging in the built-in providers `sup`, in order:
/// each one whose identifier is not present yet is appended.
pub open spec fn merge_spec(ps: Seq<ProviderView>, sup: Seq<ProviderView>) -> Seq<
    ProviderView,
>
    decreases sup.len(),
{
    if sup.len() == 0 {
        ps
    } else {
        let prev = merge_spec(ps, sup.drop_last());
        if has_id(prev, sup.last().id) {
            prev
        } else {
            prev.push(sup.last())
        }
    }
}

/// The enabled providers, in order.
pub open spec fn enabled_spec(ps: Seq<ProviderView>) -> Seq<ProviderView> {
    ps.filter(|p: ProviderView| p.enabled)
}

/// The first position is unique.
pub proof fn lemma_first_unique(ps: Seq<ProviderView>, id: Seq<char>, i: int, k: int)
    requires
        first_with_id(ps, id, i),
        first_with_id(ps, id, k),
    ensures
        i == k,
{
    if i < k {
        assert(ps[i].id == id);
    } else if k < i {
        assert(ps[k].id == id);
    }
}

/// Where an identifier occurs, there is a first occurrence.
pub proof fn lemma_first_exists(ps: Seq<ProviderView>, id: Seq<char>)
    requires
        has_id(ps, id),
    ensures
        exists|i: int| first_with_id(ps, id, i),
    decreases ps.len(),
{
    let k = choose|k: int| 0 <= k < ps.len() && (#[trigger] ps[k]).id == id;
    if ps[0].id == id {
        assert(first_with_id(ps, id, 0));
    } else {
        let rest = ps.drop_first();
        assert(rest[k - 1] == ps[k]);
        lemma_first_exists(rest, id);
        let j = choose|j: int| first_with_id(rest, id, j);
        assert forall|m: int| 0 <= m < j + 1 implies (#[trigger] ps[m]).id != id by {
            if m > 0 {
                assert(ps[m] == rest[m - 1]);
            }
        }
        assert(first_with_id(ps, id, j + 1));
    }
}

/// After an upsert of `p`, looking `p`'s identifier up finds `p` itself.
pub proof fn lemma_upsert_then_get(ps: Seq<ProviderView>, p: ProviderView)
    ensures
        exists|i: int| first_with_id(upsert_spec(ps, p), p.id, i) && upsert_spec(ps, p)[i] == p,
{
    if has_id(ps, p.id) {
        lemma_first_exists(ps, p.id);
        let i = choose|i: int| first_with_id(ps, p.id, i);
        let r = upsert_spec(ps, p);
        assert(first_with_id(r, p.id, i));
    } else {
        let r = upsert_spec(ps, p);
        assert(first_with_id(r, p.id, ps.len() as int));
    }
}

/// An upsert never changes how many providers there are, unless the
/// identifier was new, in which case exactly one is added.
pub proof fn lemma_upsert_len(ps: Seq<ProviderView>, p: ProviderView)
    ensures
        upsert_spec(ps, p).len() == if has_id(ps, p.id) { ps.len() } else { ps.len() + 1 },
{
    if has_id(ps, p.id) {
        lemma_first_exists(ps, p.id);
    }
}

/// Merging keeps every provider that was already there, at its place.
pub proof fn lemma_merge_keeps_existing(ps: Seq<ProviderView>, sup: Seq<ProviderView>)
    ensures
        merge_spec(ps, sup).len() >= ps.len(),
        merge_spec(ps, sup).take(ps.len() as int) == ps,
    decreases sup.len(),
{
    if sup.len() > 0 {
        lemma_merge_keeps_existing(ps, sup.drop_last());
        let prev = merge_spec(ps, sup.drop_last());
        assert(prev.push(sup.last()).take(ps.len() as int) =~= prev.take(ps.len() as int));
    }
}

/// After a merge, every built-in identifier is present.
pub proof fn lemma_merge_contains_all(ps: Seq<ProviderView>, sup: Seq<ProviderView>)
    ensures
        forall|k: int| 0 <= k < sup.len() ==> has_id(merge_spec(ps, sup), (#[trigger] sup[k]).id),
    decreases sup.len(),
{
    if sup.len() > 0 {
        let init = sup.drop_last();
        lemma_merge_contains_all(ps, init);
        let prev = merge_spec(ps, init);
        let m = merge_spec(ps, sup);
        assert forall|k: int| 0 <= k < sup.len() implies has_id(m, (#[trigger] sup[k]).id) by {
            if k < sup.len() - 1 {
                assert(sup[k] == init[k]);
                assert(has_id(prev, init[k].id));
                let j = choose|j: int| 0 <= j < prev.len() && (#[trigger] prev[j]).id == init[k].id;
                if !has_id(prev, sup.last().id) {
                    assert(m[j] == prev[j]);
                }
            } else {
                if !has_id(prev, sup.last().id) {
                    assert(m[prev.len() as int] == sup.last());
                }
            }
        }
    }
}

/// Merging into a list that already holds every built-in identifier adds nothing.
pub proof fn lemma_merge_no_duplicates(ps: Seq<ProviderView>, sup: Seq<ProviderView>)
    requires
        forall|k: int| 0 <= k < sup.len() ==> has_id(ps, (#[trigger] sup[k]).id),
    ensures
        merge_spec(ps, sup) == ps,
    decreases sup.len(),
{
    if sup.len() > 0 {
        let init = sup.drop_last();
        assert forall|k: int| 0 <= k < init.len() implies has_id(ps, (#[trigger] init[k]).id) by {
            assert(init[k] == sup[k]);
        }
        lemma_merge_no_duplicates(ps, init);
        assert(has_id(ps, sup[sup.len() - 1].id));
    }
}

/// Merging twice is the same as merging once.
pub proof fn lemma_merge_idempotent(ps: Seq<ProviderView>, sup: Seq<ProviderView>)
    ensures
        merge_spec(merge_spec(ps, sup), sup) == merge_spec(ps, sup),
{
    lemma_merge_contains_all(ps, sup);
    lemma_merge_no_duplicates(merge_spec(ps, sup), sup);
}

/// Every provider that `get_enabled_providers` lists is enabled, and every
/// enabled provider is listed.
pub proof fn lemma_enabled_exact(ps: Seq<ProviderView>)
    ensures
        forall|i: int| 0 <= i < enabled_spec(ps).len() ==> (#[trigger] enabled_spec(ps)[i]).enabled,
        forall|i: int| 0 <= i < ps.len() && (#[trigger] ps[i]).enabled ==> enabled_spec(ps).contains(ps[i]),
{
    broadcast use vstd::seq_lib::group_filter_ensures;
    assert forall|i: int| 0 <= i < enabled_spec(ps).len() implies (#[trigger] enabled_spec(ps)[i]).enabled by {
    }
    assert forall|i: int| 0 <= i < ps.len() && (#[trigger] ps[i]).enabled implies enabled_spec(ps).contains(ps[i]) by {
        assert(ps.contains(ps[i]));
    }
}

/// The models listed after a model sync, by selected provider.
pub open spec fn sync_catalogue(id: Option<Seq<char>>) -> Seq<Seq<char>> {
    match id {
        None => Seq::empty(),
        Some(x) => if x == "openai"@ {
            seq!["gpt-4o"@, "gpt-4o-mini"@, "gpt-4-turbo"@, "gpt-4"@, "gpt-3.5-turbo"@]
        } else if x == "deepseek"@ {
            seq!["deepseek-chat"@, "deepseek-coder"@]
        } else if x == "alibaba_cloud"@ {
            seq!["qwen-turbo"@, "qwen-plus"@, "qwen-max"@]
        } else if x == "nvidia"@ {
            seq![
                "deepseek-ai/deepseek-r1"@,
                "deepseek-ai/deepseek-v3.2"@,
                "moonshotai/kimi-k2-thinking"@,
                "minimaxai/minimax-m2"@,
                "meta/llama-3.3-70b-instruct"@,
            ]
        } else {
            seq!["custom-model"@]
        },
    }
}

/// The status line shown after a model sync that found `n` models.
pub open spec fn sync_status_text(n: nat) -> Seq<char> {
    if n == 0 {
        "No models found"@
    } else {
        "Found "@ + decimal(n) + " models"@
    }
}

/// The status line shown when no API key is entered.
pub open spec fn missing_key_text() -> Seq<char> {
    "Enter API key to sync models"@
}

/// The view of an optional string slice.
pub open spec fn opt_str(a: Option<&str>) -> Option<Seq<char>> {
    match a {
        Some(x) => Some(x@),
        None => None,
    }
}

/// The models a sync lists for the selected provider.
pub fn models_for_sync(provider_id: Option<&str>) -> (r: Vec<String>)
    ensures
        strings_view(r@) == sync_catalogue(opt_str(provider_id)),
{
    let r = match provider_id {
        None => Vec::new(),
        Some(id) => if str_eq(id, "openai") {
            strings_from(&["gpt-4o", "gpt-4o-mini", "gpt-4-turbo", "gpt-4", "gpt-3.5-turbo"])
        } else if str_eq(id, "deepseek") {
            strings_from(&["deepseek-chat", "deepseek-coder"])
        } else if str_eq(id, "alibaba_cloud") {
            strings_from(&["qwen-turbo", "qwen-plus", "qwen-max"])
        } else if str_eq(id, "nvidia") {
            strings_from(
                &[
                    "deepseek-ai/deepseek-r1",
                    "deepseek-ai/deepseek-v3.2",
                    "moonshotai/kimi-k2-thinking",
                    "minimaxai/minimax-m2",
                    "meta/llama-3.3-70b-instruct",
                ],
            )
        } else {
            strings_from(&["custom-model"])
        },
    };
    assert(strings_view(r@) =~= sync_catalogue(opt_str(provider_id)));
    r
}

/// The environment variable that carries a provider's API key.
pub open spec fn env_var_name(id: Seq<char>) -> Seq<char> {
    if id == "openai"@ {
        "OPENAI_API_KEY"@
    } else if id == "deepseek"@ {
        "DEEPSEEK_API_KEY"@
    } else if id == "alibaba_cloud"@ {
        "ALIBABA_CLOUD_API_KEY"@
    } else if id == "nvidia"@ {
        "NVIDIA_API_KEY"@
    } else if all_ascii(id) {
        ascii_env_name(id)
    } else {
        replaced(uppercase_of(id), '-', '_') + "_API_KEY"@
    }
}

/// The variable of an ASCII provider id: the id uppercased, `-` turned into
/// `_`, then `_API_KEY`.
pub open spec fn ascii_env_name(id: Seq<char>) -> Seq<char> {
    id.map_values(|c: char| if c == '-' { '_' } else { ascii_upper(c) }) + "_API_KEY"@
}

/// Every ASCII provider id, built in or not, names its key variable the same
/// way: the id uppercased, `-` turned into `_`, then `_API_KEY`.
pub proof fn lemma_env_var_name_rule(id: Seq<char>)
    requires
        all_ascii(id),
    ensures
        env_var_name(id) == id.map_values(|c: char| if c == '-' { '_' } else { ascii_upper(c) })
            + "_API_KEY"@,
{
    reveal_strlit("openai");
    reveal_strlit("deepseek");
    reveal_strlit("alibaba_cloud");
    reveal_strlit("nvidia");
    reveal_strlit("OPENAI_API_KEY");
    reveal_strlit("DEEPSEEK_API_KEY");
    reveal_strlit("ALIBABA_CLOUD_API_KEY");
    reveal_strlit("NVIDIA_API_KEY");
    reveal_strlit("_API_KEY");
    let f = |c: char| if c == '-' { '_' } else { ascii_upper(c) };
    if id == "openai"@ {
        assert(id.map_values(f) + "_API_KEY"@ =~= "OPENAI_API_KEY"@);
    } else if id == "deepseek"@ {
        assert(id.map_values(f) + "_API_KEY"@ =~= "DEEPSEEK_API_KEY"@);
    } else if id == "alibaba_cloud"@ {
        assert(id.map_values(f) + "_API_KEY"@ =~= "ALIBABA_CLOUD_API_KEY"@);
    } else if id == "nvidia"@ {
        assert(id.map_values(f) + "_API_KEY"@ =~= "NVIDIA_API_KEY"@);
    }
}

/// The API key of a provider when it is set and not empty.
pub open spec fn usable_key(p: ProviderView) -> Option<Seq<char>> {
    match p.api_key {
        Some(k) => if k.len() > 0 {
            Some(k)
        } else {
            None
        },
        None => None,
    }
}

/// The environment built from the providers' keys, in order (a later
/// provider with the same variable name wins).
pub open spec fn key_env_map(ps: Seq<ProviderView>) -> Map<Seq<char>, Seq<char>>
    decreases ps.len(),
{
    if ps.len() == 0 {
        Map::empty()
    } else {
        let m = key_env_map(ps.drop_last());
        match usable_key(ps.last()) {
            Some(k) => m.insert(env_var_name(ps.last().id), k),
            None => m,
        }
    }
}

/// The environment for the ASR dataflow: every usable key under its
/// variable, plus the Alibaba Cloud key again as `DASHSCOPE_API_KEY`.
pub open spec fn api_env_map(ps: Seq<ProviderView>) -> Map<Seq<char>, Seq<char>> {
    let m = key_env_map(ps);
    if has_id(ps, "alibaba_cloud"@) {
        let p = ps[choose|i: int| first_with_id(ps, "alibaba_cloud"@, i)];
        match usable_key(p) {
            Some(k) => m.insert("DASHSCOPE_API_KEY"@, k),
            None => m,
        }
    } else {
        m
    }
}

/// Every provider with a non-empty key contributes it under its variable,
/// unless a later provider with a key uses the same variable.
pub proof fn lemma_key_env_map_contains(ps: Seq<ProviderView>, i: int)
    requires
        0 <= i < ps.len(),
        usable_key(ps[i]) is Some,
        forall|j: int|
            i < j < ps.len() && usable_key(ps[j]) is Some ==> env_var_name(#[trigger] ps[j].id)
                != env_var_name(ps[i].id),
    ensures
        key_env_map(ps).dom().contains(env_var_name(ps[i].id)),
        key_env_map(ps)[env_var_name(ps[i].id)] == usable_key(ps[i])->Some_0,
    decreases ps.len(),
{
    if i < ps.len() - 1 {
        let init = ps.drop_last();
        assert forall|j: int|
            i < j < init.len() && usable_key(init[j]) is Some implies env_var_name(#[trigger] init[j].id)
                != env_var_name(init[i].id) by {
            assert(init[j] == ps[j]);
        }
        assert(init[i] == ps[i]);
        lemma_key_env_map_contains(init, i);
    }
}

/// The value of a key in a map, if present.
pub open spec fn map_get(m: Map<Seq<char>, Seq<char>>, k: Seq<char>) -> Option<Seq<char>> {
    if m.dom().contains(k) {
        Some(m[k])
    } else {
        None
    }
}

/// The environment variable name for a provider's key.
fn env_name_for(id: &str) -> (r: String)
    ensures
        r@ == env_var_name(id@),
{
    if str_eq(id, "openai") {
        "OPENAI_API_KEY".to_owned()
    } else if str_eq(id, "deepseek") {
        "DEEPSEEK_API_KEY".to_owned()
    } else if str_eq(id, "alibaba_cloud") {
        "ALIBABA_CLOUD_API_KEY".to_owned()
    } else if str_eq(id, "nvidia") {
        "NVIDIA_API_KEY".to_owned()
    } else {
        let upper = str_to_uppercase(id);
        let mut r = replace_char(upper.as_str(), '-', '_');
        r.append("_API_KEY");
        assert(all_ascii(id@) ==> r@ =~= ascii_env_name(id@));
        r
    }
}

/// The key of a provider if set and not empty.
fn usable_key_of(p: &Provider) -> (r: Option<String>)
    ensures
        opt_view(r) == usable_key(p@),
{
    match &p.api_key {
        Some(k) => if k.as_str().unicode_len() > 0 {
            Some(k.clone())
        } else {
            None
        },
        None => None,
    }
}

/// User preferences for the dashboard.
#[derive(Debug)]
pub struct Preferences {
    pub providers: Vec<Provider>,
    pub default_chat_provider: Option<String>,
    pub default_tts_provider: Option<String>,
    pub default_asr_provider: Option<String>,
    pub audio_input_device: Option<String>,
    pub audio_output_device: Option<String>,
    /// Dark mode preference (true = dark, false = light).
    pub dark_mode: bool,
}

impl Preferences {
    /// The providers, each by its view.
    pub open spec fn pv(&self) -> Seq<ProviderView> {
        providers_view(self.providers@)
    }

    /// Everything but the provider list is the same in both values.
    pub open spec fn same_settings(&self, other: &Preferences) -> bool {
        &&& opt_view(self.default_chat_provider) == opt_view(other.default_chat_provider)
        &&& opt_view(self.default_tts_provider) == opt_view(other.default_tts_provider)
        &&& opt_view(self.default_asr_provider) == opt_view(other.default_asr_provider)
        &&& opt_view(self.audio_input_device) == opt_view(other.audio_input_device)
        &&& opt_view(self.audio_output_device) == opt_view(other.audio_output_device)
        &&& self.dark_mode == other.dark_mode
    }
}

impl Default for Preferences {
    fn default() -> (r: Self)
        ensures
            r.pv() == Seq::<ProviderView>::empty(),
            r.default_chat_provider is None,
            r.default_tts_provider is None,
            r.default_asr_provider is None,
            r.audio_input_device is None,
            r.audio_output_device is None,
            !r.dark_mode,
    {
        let r = Preferences {
            providers: Vec::new(),
            default_chat_provider: None,
            default_tts_provider: None,
            default_asr_provider: None,
            audio_input_device: None,
            audio_output_device: None,
            dark_mode: false,
        };
        assert(r.pv() =~= Seq::<ProviderView>::empty());
        r
    }
}

/// The first position of a provider with the given identifier.
fn position_of(ps: &Vec<Provider>, id: &str) -> (r: Option<usize>)
    ensures
        match r {
            Some(i) => first_with_id(providers_view(ps@), id@, i as int),
            None => !has_id(providers_view(ps@), id@),
        },
{
    let ghost pv = providers_view(ps@);
    let mut i: usize = 0;
    while i < ps.len()
        invariant
            pv == providers_view(ps@),
            i <= ps.len(),
            forall|j: int| 0 <= j < i ==> (#[trigger] pv[j]).id != id@,
        decreases ps.len() - i,
    {
        if str_eq(ps[i].id.as_str(), id) {
            assert(pv[i as int] == ps@[i as int]@);
            return Some(i);
        }
        assert(pv[i as int] == ps@[i as int]@);
        i = i + 1;
    }
    None
}

/// The first position of a custom provider with the given identifier.
fn custom_position_of(ps: &Vec<Provider>, id: &str) -> (r: Option<usize>)
    ensures
        match r {
            Some(i) => first_custom_with_id(providers_view(ps@), id@, i as int),
            None => !has_custom_id(providers_view(ps@), id@),
        },
{
    let ghost pv = providers_view(ps@);
    let mut i: usize = 0;
    while i < ps.len()
        invariant
            pv == providers_view(ps@),
            i <= ps.len(),
            forall|j: int| 0 <= j < i ==> !((#[trigger] pv[j]).id == id@ && pv[j].is_custom),
        decreases ps.len() - i,
    {
        assert(pv[i as int] == ps@[i as int]@);
        if str_eq(ps[i].id.as_str(), id) && ps[i].is_custom {
            return Some(i);
        }
        i = i + 1;
    }
    None
}

impl Preferences {
    /// Merge loaded preferences with supported providers.
    pub fn merge_with_supported_providers(&mut self)
        ensures
            final(self).pv() == merge_spec(old(self).pv(), supported_views()),
            final(self).same_settings(old(self)),
    {
        let supported = get_supported_providers();
        let ghost sup = supported_views();
        let ghost start = self.pv();
        let ghost before = *self;
        let mut i: usize = 0;
        assert(sup.take(0) =~= Seq::<ProviderView>::empty());
        while i < supported.len()
            invariant
                providers_view(supported@) == sup,
                i <= supported.len(),
                self.pv() == merge_spec(start, sup.take(i as int)),
                self.same_settings(&before),
            decreases supported.len() - i,
        {
            let p = supported[i].clone();
            assert(p@ == sup[i as int]);
            assert(sup.take(i + 1).drop_last() =~= sup.take(i as int));
            assert(sup.take(i + 1).last() == sup[i as int]);
            match position_of(&self.providers, p.id.as_str()) {
                Some(_) => {},
                None => {
                    self.providers.push(p);
                    assert(self.pv() =~= merge_spec(start, sup.take(i as int)).push(sup[i as int]));
                },
            }
            i = i + 1;
        }
        assert(sup.take(supported.len() as int) =~= sup);
    }

    /// Records the API host and key entered for a provider (an empty key
    /// clears it). Returns whether the provider exists.
    pub fn apply_provider_settings(&mut self, id: &str, api_host: String, api_key: String) -> (found:
        bool)
        ensures
            found == has_id(old(self).pv(), id@),
            found ==> exists|i: int|
                first_with_id(old(self).pv(), id@, i) && final(self).pv() == old(self).pv().update(
                    i,
                    ProviderView {
                        url: api_host@,
                        api_key: if api_key@.len() == 0 {
                            None
                        } else {
                            Some(api_key@)
                        },
                        ..old(self).pv()[i]
                    },
                ),
            !found ==> final(self).pv() == old(self).pv(),
            final(self).same_settings(old(self)),
    {
        let ghost old_pv = self.pv();
        match position_of(&self.providers, id) {
            Some(i) => {
                let key = if api_key.as_str().unicode_len() == 0 {
                    None
                } else {
                    Some(api_key)
                };
                let mut p = self.providers.remove(i);
                p.url = api_host;
                p.api_key = key;
                self.providers.insert(i, p);
                assert(self.pv() =~= old_pv.update(i as int, p@));
                true
            },
            None => false,
        }
    }

    /// Adds a custom provider at the end of the list.
    pub fn add_custom_provider(&mut self, provider: Provider)
        ensures
            final(self).pv() == old(self).pv().push(provider@),
            final(self).same_settings(old(self)),
    {
        let ghost old_pv = self.pv();
        self.providers.push(provider);
        assert(self.pv() =~= old_pv.push(provider@));
    }

    /// Syncs the model list of the selected provider: without an API key
    /// nothing changes and the user is asked for one; otherwise the
    /// provider's models are replaced by the catalogue's. Returns the status
    /// line to show.
    pub fn sync_models(&mut self, selected: Option<&str>, api_key: &str) -> (status: String)
        ensures
            final(self).same_settings(old(self)),
            api_key@.len() == 0 ==> status@ == missing_key_text() && final(self).pv() == old(
                self,
            ).pv(),
            api_key@.len() > 0 ==> {
                let ms = sync_catalogue(opt_str(selected));
                &&& status@ == sync_status_text(ms.len())
                &&& match selected {
                    Some(id) => if has_id(old(self).pv(), id@) {
                        exists|i: int|
                            first_with_id(old(self).pv(), id@, i) && final(self).pv() == old(
                                self,
                            ).pv().update(i, ProviderView { models: ms, ..old(self).pv()[i] })
                    } else {
                        final(self).pv() == old(self).pv()
                    },
                    None => final(self).pv() == old(self).pv(),
                }
            },
    {
        if api_key.unicode_len() == 0 {
            return "Enter API key to sync models".to_owned();
        }
        let models = models_for_sync(selected);
        let n = models.len();
        let ghost old_pv = self.pv();
        let ghost ms = strings_view(models@);
        match selected {
            Some(id) => match position_of(&self.providers, id) {
                Some(i) => {
                    let mut p = self.providers.remove(i);
                    p.models = models;
                    self.providers.insert(i, p);
                    assert(self.pv() =~= old_pv.update(i as int, p@));
                },
                None => {},
            },
            None => {},
        }
        if n == 0 {
            "No models found".to_owned()
        } else {
            let mut r = "Found ".to_owned();
            let count = decimal_string(n as u64);
            r.append(count.as_str());
            r.append(" models");
            r
        }
    }

    /// The API keys to pass to the ASR dataflow as environment variables.
    pub fn api_key_env_vars(&self) -> (r: StringMap)
        ensures
            forall|k: Seq<char>| #[trigger] lookup(r@, k) == map_get(api_env_map(self.pv()), k),
    {
        let ghost pv = self.pv();
        let mut r = StringMap::new();
        let mut i: usize = 0;
        assert(pv.take(0) =~= Seq::<ProviderView>::empty());
        while i < self.providers.len()
            invariant
                pv == self.pv(),
                i <= self.providers.len(),
                forall|k: Seq<char>| #[trigger] lookup(r@, k) == map_get(key_env_map(pv.take(i as int)), k),
            decreases self.providers.len() - i,
        {
            let p = &self.providers[i];
            assert(pv.take(i + 1).drop_last() =~= pv.take(i as int));
            assert(pv.take(i + 1).last() == p@);
            match usable_key_of(p) {
                Some(k) => {
                    let name = env_name_for(p.id.as_str());
                    r.insert(name, k);
                },
                None => {},
            }
            i = i + 1;
        }
        assert(pv.take(self.providers.len() as int) =~= pv);
        match position_of(&self.providers, "alibaba_cloud") {
            Some(j) => {
                proof {
                    let c = choose|c: int| first_with_id(pv, "alibaba_cloud"@, c);
                    lemma_first_unique(pv, "alibaba_cloud"@, j as int, c);
                }
                assert(pv[j as int] == self.providers@[j as int]@);
                match usable_key_of(&self.providers[j]) {
                    Some(k) => {
                        r.insert("DASHSCOPE_API_KEY".to_owned(), k);
                    },
                    None => {},
                }
            },
            None => {},
        }
        r
    }

    /// Get a provider by ID.
    pub fn get_provider(&self, id: &str) -> (r: Option<&Provider>)
        ensures
            match r {
                Some(p) => exists|i: int| first_with_id(self.pv(), id@, i) && p@ == self.pv()[i],
                None => !has_id(self.pv(), id@),
            },
    {
        match position_of(&self.providers, id) {
            Some(i) => {
                assert(self.pv()[i as int] == self.providers@[i as int]@);
                Some(&self.providers[i])
            },
            None => None,
        }
    }

    /// Get a mutable provider by ID.
    pub fn get_provider_mut(&mut self, id: &str) -> (r: Option<&mut Provider>)
        ensures
            match r {
                Some(p) => exists|i: int|
                    first_with_id(old(self).pv(), id@, i) && (*p)@ == old(self).pv()[i]
                        && final(self).pv() == old(self).pv().update(i, (*final(p))@),
                None => !has_id(old(self).pv(), id@) && final(self).pv() == old(self).pv(),
            },
            final(self).same_settings(old(self)),
    {
        match position_of(&self.providers, id) {
            Some(i) => {
                assert(self.pv()[i as int] == self.providers@[i as int]@);
                Some(&mut self.providers[i])
            },
            None => None,
        }
    }

    /// Update or insert a provider.
    pub fn upsert_provider(&mut self, provider: Provider)
        ensures
            final(self).pv() == upsert_spec(old(self).pv(), provider@),
            final(self).same_settings(old(self)),
    {
        let ghost old_pv = self.pv();
        match position_of(&self.providers, provider.id.as_str()) {
            Some(i) => {
                proof {
                    let c = choose|k: int| first_with_id(old_pv, provider@.id, k);
                    lemma_first_unique(old_pv, provider@.id, i as int, c);
                }
                self.providers.set(i, provider);
                assert(self.pv() =~= old_pv.update(i as int, provider@));
            },
            None => {
                self.providers.push(provider);
                assert(self.pv() =~= old_pv.push(provider@));
            },
        }
    }

    /// Remove a custom provider.
    pub fn remove_provider(&mut self, id: &str) -> (r: bool)
        ensures
            r == has_custom_id(old(self).pv(), id@),
            r ==> exists|i: int|
                first_custom_with_id(old(self).pv(), id@, i) && final(self).pv() == old(
                    self,
                ).pv().remove(i),
            !r ==> final(self).pv() == old(self).pv(),
            final(self).same_settings(old(self)),
    {
        let ghost old_pv = self.pv();
        match custom_position_of(&self.providers, id) {
            Some(i) => {
                self.providers.remove(i);
                assert(self.pv() =~= old_pv.remove(i as int));
                true
            },
            None => false,
        }
    }

    /// Get all enabled providers.
    pub fn get_enabled_providers(&self) -> (r: Vec<&Provider>)
        ensures
            r@.map_values(|p: &Provider| p@) == enabled_spec(self.pv()),
    {
        let ghost pv = self.pv();
        let mut r: Vec<&Provider> = Vec::new();
        let mut i: usize = 0;
        assert(pv.take(0) =~= Seq::<ProviderView>::empty());
        while i < self.providers.len()
            invariant
                pv == self.pv(),
                i <= self.providers.len(),
                r@.map_values(|p: &Provider| p@) == enabled_spec(pv.take(i as int)),
            decreases self.providers.len() - i,
        {
            let p = &self.providers[i];
            assert(pv.take(i + 1).drop_last() =~= pv.take(i as int));
            assert(pv[i as int] == p@);
            reveal_with_fuel(Seq::filter, 1);
            if p.enabled {
                r.push(p);
                assert(r@.map_values(|p: &Provider| p@) =~= enabled_spec(pv.take(i as int)).push(
                    p@,
                ));
            }
            i = i + 1;
        }
        assert(pv.take(self.providers.len() as int) =~= pv);
        r
    }
}

} // verus!
