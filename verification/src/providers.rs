//! Provider configuration: the rules by which the local bridge lists, adds,
//! edits, copies, removes and activates model providers.
use vstd::prelude::*;
use crate::strmap::{StrMap, has_key, inserted, sorted_keys};
use crate::text::{trim, trim_spec, lower_eq, lower_seq, owned, str_eq, take_spec};

verus! {

broadcast use vstd::string::group_string_axioms;

/// The views of a list of strings.
pub open spec fn strs_view(v: Seq<String>) -> Seq<Seq<char>> {
    v.map_values(|s: String| s@)
}

/// The view of an optional string.
pub open spec fn opt_view(o: Option<String>) -> Option<Seq<char>> {
    match o {
        Some(s) => Some(s@),
        None => None,
    }
}

/// The view of an optional list of strings.
pub open spec fn opt_strs_view(o: Option<Vec<String>>) -> Option<Seq<Seq<char>>> {
    match o {
        Some(v) => Some(strs_view(v@)),
        None => None,
    }
}

/// A provider's settings, as the bridge reads and writes them.
pub struct ProviderSettings {
    pub display: String,
    pub provider_type: String,
    pub tool_protocol: Option<String>,
    pub context_window: Option<u64>,
    pub base_url: String,
    pub model: String,
    pub fast_model: Option<String>,
    pub api_key: String,
    pub supports_web_search: bool,
    /// The string entries of the `models` list kept with the provider, if any.
    pub models: Option<Vec<String>>,
}

/// The abstract value of `ProviderSettings`.
pub struct ProviderSettingsView {
    pub display: Seq<char>,
    pub provider_type: Seq<char>,
    pub tool_protocol: Option<Seq<char>>,
    pub context_window: Option<u64>,
    pub base_url: Seq<char>,
    pub model: Seq<char>,
    pub fast_model: Option<Seq<char>>,
    pub api_key: Seq<char>,
    pub supports_web_search: bool,
    pub models: Option<Seq<Seq<char>>>,
}

impl View for ProviderSettings {
    type V = ProviderSettingsView;

    open spec fn view(&self) -> ProviderSettingsView {
        ProviderSettingsView {
            display: self.display@,
            provider_type: self.provider_type@,
            tool_protocol: opt_view(self.tool_protocol),
            context_window: self.context_window,
            base_url: self.base_url@,
            model: self.model@,
            fast_model: opt_view(self.fast_model),
            api_key: self.api_key@,
            supports_web_search: self.supports_web_search,
            models: opt_strs_view(self.models),
        }
    }
}

/// Settings of a provider that has none yet: every field empty or unset.
pub open spec fn default_settings_view() -> ProviderSettingsView {
    ProviderSettingsView {
        display: Seq::empty(),
        provider_type: Seq::empty(),
        tool_protocol: None,
        context_window: None,
        base_url: Seq::empty(),
        model: Seq::empty(),
        fast_model: None,
        api_key: Seq::empty(),
        supports_web_search: false,
        models: None,
    }
}

/// A copy of a list of strings.
pub fn clone_strs(v: &Vec<String>) -> (r: Vec<String>)
    ensures
        strs_view(r@) == strs_view(v@),
{
    let mut r: Vec<String> = Vec::new();
    let mut i: usize = 0;
    while i < v.len()
        invariant
            i <= v@.len(),
            r@.len() == i,
            strs_view(r@) =~= strs_view(v@).take(i as int),
        decreases v@.len() - i,
    {
        let c = v[i].clone();
        assert(c@ == v@[i as int]@);
        let ghost old_r = r@;
        r.push(c);
        assert forall|j: int| 0 <= j < i + 1 implies strs_view(r@)[j] == strs_view(v@).take(i + 1)[j] by {
            if j < i {
                assert(r@[j] == old_r[j]);
                assert(strs_view(old_r)[j] == strs_view(v@).take(i as int)[j]);
            }
        }
        assert(strs_view(r@) =~= strs_view(v@).take(i + 1));
        i = i + 1;
    }
    assert(strs_view(v@).take(v@.len() as int) =~= strs_view(v@));
    r
}

/// A copy of an optional string.
pub fn clone_opt(o: &Option<String>) -> (r: Option<String>)
    ensures
        opt_view(r) == opt_view(*o),
{
    match o {
        Some(s) => Some(s.clone()),
        None => None,
    }
}

impl ProviderSettings {
    /// Settings with every field empty or unset.
    pub fn empty() -> (r: Self)
        ensures
            r@ == default_settings_view(),
    {
        ProviderSettings {
            display: String::new(),
            provider_type: String::new(),
            tool_protocol: None,
            context_window: None,
            base_url: String::new(),
            model: String::new(),
            fast_model: None,
            api_key: String::new(),
            supports_web_search: false,
            models: None,
        }
    }

    /// A copy with the same abstract value.
    pub fn duplicate(&self) -> (r: Self)
        ensures
            r@ == self@,
    {
        ProviderSettings {
            display: self.display.clone(),
            provider_type: self.provider_type.clone(),
            tool_protocol: clone_opt(&self.tool_protocol),
            context_window: self.context_window,
            base_url: self.base_url.clone(),
            model: self.model.clone(),
            fast_model: clone_opt(&self.fast_model),
            api_key: self.api_key.clone(),
            supports_web_search: self.supports_web_search,
            models: match &self.models {
                Some(v) => Some(clone_strs(v)),
                None => None,
            },
        }
    }
}

/// `mask_key`: an empty key stays empty; otherwise four asterisks and the
/// key's last four characters (all of it when shorter).
pub open spec fn mask_key_spec(key: Seq<char>) -> Seq<char> {
    if key.len() == 0 {
        Seq::empty()
    } else if key.len() <= 4 {
        "****"@ + key
    } else {
        "****"@ + key.subrange(key.len() - 4, key.len() as int)
    }
}

/// A masked key is empty for an empty key; otherwise it is four asterisks
/// followed by the key's last four characters (the whole key when shorter).
pub proof fn lemma_mask_shows_tail(key: Seq<char>)
    ensures
        key.len() == 0 ==> mask_key_spec(key).len() == 0,
        key.len() > 0 ==> {
            let tail = if key.len() <= 4 { key.len() as int } else { 4 };
            &&& mask_key_spec(key).len() == 4 + tail
            &&& forall|i: int| 0 <= i < 4 ==> #[trigger] mask_key_spec(key)[i] == '*'
            &&& mask_key_spec(key).subrange(4, 4 + tail) == key.subrange(key.len() - tail, key.len() as int)
        },
{
    reveal_strlit("****");
    assert("****"@.len() == 4);
    if key.len() > 0 {
        let tail: int = if key.len() <= 4 { key.len() as int } else { 4 };
        assert(mask_key_spec(key).subrange(4, 4 + tail) =~= key.subrange(key.len() - tail, key.len() as int));
    }
}

/// The masked form never gives a key away: a key of more than four
/// characters, none of them `*`, does not occur in its masked form.
pub proof fn lemma_masked_key_hides_key(key: Seq<char>)
    requires
        key.len() > 4,
        !key.contains('*'),
    ensures
        !crate::text::contains_spec(mask_key_spec(key), key),
{
    reveal_strlit("****");
    let m = mask_key_spec(key);
    assert(m.len() == 8);
    if crate::text::contains_spec(m, key) {
        let i = choose|i: int| crate::text::occurs_at(m, key, i);
        assert(i <= 3);
        assert(m.subrange(i, i + key.len())[0] == key[0]);
        assert(m[i] == '*');
        assert(key[0] == '*');
        assert(key.contains('*'));
    }
}

/// Shows only the tail of an API key.
pub fn mask_key(key: &str) -> (r: String)
    ensures
        r@ == mask_key_spec(key@),
{
    let n = key.unicode_len();
    if n == 0 {
        return String::new();
    }
    let start = if n <= 4 { 0 } else { n - 4 };
    let mut out = owned("****");
    out.append(key.substring_char(start, n));
    proof {
        if n <= 4 {
            assert(key@.subrange(0, n as int) =~= key@);
        }
    }
    out
}

/// The endpoint base URL known for well-known provider ids (compared
/// ignoring ASCII case); empty for any other id.
pub open spec fn default_base_url_spec(id: Seq<char>) -> Seq<char> {
    let l = lower_seq(id);
    if l == "openai"@ {
        "https://api.openai.com/v1"@
    } else if l == "anthropic"@ {
        "https://api.anthropic.com/v1"@
    } else if l == "google"@ || l == "gemini"@ {
        "https://generativelanguage.googleapis.com/v1beta"@
    } else if l == "deepseek"@ {
        "https://api.deepseek.com/v1"@
    } else if l == "zhipu"@ {
        "https://open.bigmodel.cn/api/paas/v4"@
    } else if l == "minimax"@ {
        "https://api.minimaxi.com/v1"@
    } else {
        Seq::empty()
    }
}

/// The base URL used when a provider is saved without one.
pub fn default_base_url(id: &str) -> (r: String)
    ensures
        r@ == default_base_url_spec(id@),
{
    if lower_eq(id, "openai") {
        owned("https://api.openai.com/v1")
    } else if lower_eq(id, "anthropic") {
        owned("https://api.anthropic.com/v1")
    } else if lower_eq(id, "google") || lower_eq(id, "gemini") {
        owned("https://generativelanguage.googleapis.com/v1beta")
    } else if lower_eq(id, "deepseek") {
        owned("https://api.deepseek.com/v1")
    } else if lower_eq(id, "zhipu") {
        owned("https://open.bigmodel.cn/api/paas/v4")
    } else if lower_eq(id, "minimax") {
        owned("https://api.minimaxi.com/v1")
    } else {
        String::new()
    }
}

/// Each entry trimmed, empty ones dropped, order kept.
pub open spec fn clean_list(xs: Seq<Seq<char>>) -> Seq<Seq<char>>
    decreases xs.len(),
{
    if xs.len() == 0 {
        Seq::empty()
    } else {
        let rest = clean_list(xs.drop_last());
        let t = trim_spec(xs.last());
        if t.len() > 0 {
            rest.push(t)
        } else {
            rest
        }
    }
}

/// Trims each entry and drops the empty ones.
pub fn clean_strs(xs: &Vec<String>) -> (r: Vec<String>)
    ensures
        strs_view(r@) == clean_list(strs_view(xs@)),
{
    let mut r: Vec<String> = Vec::new();
    let mut i: usize = 0;
    while i < xs.len()
        invariant
            i <= xs@.len(),
            strs_view(r@) == clean_list(strs_view(xs@).take(i as int)),
        decreases xs@.len() - i,
    {
        let t = trim(xs[i].as_str());
        assert(strs_view(xs@).take(i + 1).drop_last() =~= strs_view(xs@).take(i as int));
        assert(strs_view(xs@).take(i + 1).last() == xs@[i as int]@);
        if t.unicode_len() > 0 {
            r.push(t);
            assert(strs_view(r@) =~= clean_list(strs_view(xs@).take(i as int)).push(t@));
        }
        i = i + 1;
    }
    assert(strs_view(xs@).take(xs@.len() as int) =~= strs_view(xs@));
    r
}

/// `m` is added unless it is empty or already listed.
pub open spec fn add_unique(list: Seq<Seq<char>>, m: Seq<char>) -> Seq<Seq<char>> {
    if m.len() > 0 && !list.contains(m) {
        list.push(m)
    } else {
        list
    }
}

/// The models a provider offers: its stored list (trimmed, non-empty), then
/// its main model and its fast model where they are set and not yet listed.
pub open spec fn provider_models_spec(p: ProviderSettingsView) -> Seq<Seq<char>> {
    let stored = match p.models {
        Some(ms) => clean_list(ms),
        None => Seq::empty(),
    };
    let with_main = add_unique(stored, p.model);
    match p.fast_model {
        Some(f) => add_unique(with_main, f),
        None => with_main,
    }
}

/// Whether `list` holds `m`.
pub fn strs_contain(list: &Vec<String>, m: &str) -> (r: bool)
    ensures
        r == strs_view(list@).contains(m@),
{
    let mut i: usize = 0;
    while i < list.len()
        invariant
            i <= list@.len(),
            forall|j: int| 0 <= j < i ==> list@[j]@ != m@,
        decreases list@.len() - i,
    {
        if str_eq(list[i].as_str(), m) {
            assert(strs_view(list@)[i as int] == m@);
            return true;
        }
        i = i + 1;
    }
    assert(!strs_view(list@).contains(m@)) by {
        if strs_view(list@).contains(m@) {
            let j = choose|j: int| 0 <= j < strs_view(list@).len() && strs_view(list@)[j] == m@;
            assert(list@[j]@ == m@);
        }
    }
    false
}

/// Adds `m` unless it is empty or already listed.
pub fn push_unique(list: &mut Vec<String>, m: &str)
    ensures
        strs_view(final(list)@) == add_unique(strs_view(old(list)@), m@),
{
    if m.unicode_len() > 0 && !strs_contain(list, m) {
        list.push(owned(m));
        assert(strs_view(list@) =~= strs_view(old(list)@).push(m@));
    }
}

/// The models a provider offers.
pub fn provider_models(p: &ProviderSettings) -> (r: Vec<String>)
    ensures
        strs_view(r@) == provider_models_spec(p@),
{
    let mut models = match &p.models {
        Some(ms) => clean_strs(ms),
        None => Vec::new(),
    };
    proof {
        if p.models is None {
            assert(strs_view(models@) =~= Seq::<Seq<char>>::empty());
        }
    }
    push_unique(&mut models, p.model.as_str());
    match &p.fast_model {
        Some(f) => push_unique(&mut models, f.as_str()),
        None => {},
    }
    models
}


/// The HTTP status of a refused request.
#[derive(PartialEq, Eq, Structural, Clone, Copy, Debug)]
pub enum ApiStatus {
    BadRequest,
    NotFound,
    BadGateway,
}

/// A refused request: its status and the message shown to the browser.
pub struct ApiError {
    pub status: ApiStatus,
    pub message: String,
}

/// `e` is an error with this status and message.
pub open spec fn api_error_is(e: ApiError, status: ApiStatus, message: Seq<char>) -> bool {
    e.status == status && e.message@ == message
}

impl ApiError {
    /// A 400 answer.
    pub fn bad_request(message: &str) -> (e: Self)
        ensures
            api_error_is(e, ApiStatus::BadRequest, message@),
    {
        ApiError { status: ApiStatus::BadRequest, message: owned(message) }
    }

    /// A 404 answer.
    pub fn not_found(message: &str) -> (e: Self)
        ensures
            api_error_is(e, ApiStatus::NotFound, message@),
    {
        ApiError { status: ApiStatus::NotFound, message: owned(message) }
    }

    /// A 502 answer.
    pub fn bad_gateway(message: &str) -> (e: Self)
        ensures
            api_error_is(e, ApiStatus::BadGateway, message@),
    {
        ApiError { status: ApiStatus::BadGateway, message: owned(message) }
    }

    /// The numeric HTTP status.
    pub fn status_code(&self) -> (c: u16)
        ensures
            self.status == ApiStatus::BadRequest ==> c == 400,
            self.status == ApiStatus::NotFound ==> c == 404,
            self.status == ApiStatus::BadGateway ==> c == 502,
    {
        match self.status {
            ApiStatus::BadRequest => 400,
            ApiStatus::NotFound => 404,
            ApiStatus::BadGateway => 502,
        }
    }
}

/// All configured providers and the id of the active one.
pub struct ProviderDocument {
    pub active: String,
    pub providers: StrMap<ProviderSettings>,
}

/// A document with no provider.
pub fn empty_provider_document() -> (d: ProviderDocument)
    ensures
        d.active@.len() == 0,
        d.providers@.len() == 0,
{
    ProviderDocument { active: String::new(), providers: StrMap::new() }
}

/// The settings stored under `id`, if any.
pub open spec fn lookup(s: Seq<(Seq<char>, ProviderSettings)>, id: Seq<char>) -> Option<ProviderSettingsView> {
    if has_key(s, id) {
        Some(crate::strmap::value_of(s, id)@)
    } else {
        None
    }
}

/// The fields of an add-or-edit request, as the browser sent them
/// (string fields untrimmed; `models` holds the string entries of the list).
pub struct ProviderInput {
    pub id: Option<String>,
    pub name: Option<String>,
    pub provider_type: Option<String>,
    pub tool_protocol: Option<String>,
    pub context_window: Option<u64>,
    pub base_url: Option<String>,
    pub models: Vec<String>,
    pub model: Option<String>,
    pub fast_model: Option<String>,
    pub api_key: Option<String>,
    pub supports_web_search: Option<bool>,
    pub activate: Option<bool>,
}

/// A string field of the request, trimmed.
pub open spec fn field_spec(o: Option<String>) -> Option<Seq<char>> {
    match o {
        Some(s) => Some(trim_spec(s@)),
        None => None,
    }
}

/// A present, non-empty value.
pub open spec fn filled(o: Option<Seq<char>>) -> Option<Seq<char>> {
    match o {
        Some(s) => if s.len() > 0 { Some(s) } else { None },
        None => None,
    }
}

/// The four wire protocols a provider may speak.
pub open spec fn valid_provider_type(t: Seq<char>) -> bool {
    t == "openai_compatible"@ || t == "openai_responses"@ || t == "anthropic_messages"@
        || t == "gemini_native"@
}

/// The three context window sizes offered.
pub open spec fn valid_context_window(v: u64) -> bool {
    v == 128_000 || v == 256_000 || v == 512_000
}

/// The settings an add-or-edit request leads to, or the message of the
/// 400 answer that refuses it.
pub open spec fn upserted_settings(
    existing: Option<ProviderSettingsView>,
    id: Seq<char>,
    input: ProviderInput,
) -> Result<ProviderSettingsView, Seq<char>> {
    let base = match existing {
        Some(e) => e,
        None => default_settings_view(),
    };
    let display = match field_spec(input.name) {
        Some(n) => if n.len() > 0 { n } else { id },
        None => if base.display.len() > 0 { base.display } else { id },
    };
    let provider_type = match filled(field_spec(input.provider_type)) {
        Some(t) => t,
        None => base.provider_type,
    };
    let tool_protocol = match field_spec(input.tool_protocol) {
        Some(t) => Some(t),
        None => Some(provider_type),
    };
    if !valid_provider_type(provider_type) {
        Err("unsupported provider compatibility mode"@)
    } else if input.context_window is Some && !valid_context_window(input.context_window->0) {
        Err("context window must be 128000, 256000, or 512000"@)
    } else {
        let context_window = match input.context_window {
            Some(v) => Some(v),
            None => match base.context_window {
                Some(c) => Some(c),
                None => Some(256_000u64),
            },
        };
        let base_url = match filled(field_spec(input.base_url)) {
            Some(u) => u,
            None => default_base_url_spec(id),
        };
        let models = clean_list(strs_view(input.models@));
        let stored = if models.len() > 0 { Some(models) } else { base.models };
        let model = match filled(field_spec(input.model)) {
            Some(m) => m,
            None => if models.len() > 0 { models[0] } else { base.model },
        };
        let fast_model = match filled(field_spec(input.fast_model)) {
            Some(m) => Some(m),
            None => if models.len() > 1 { Some(models[1]) } else { None },
        };
        let api_key = match filled(field_spec(input.api_key)) {
            Some(k) => k,
            None => base.api_key,
        };
        let supports_web_search = match input.supports_web_search {
            Some(b) => b,
            None => base.supports_web_search,
        };
        if model.len() == 0 {
            Err("at least one model is required"@)
        } else if base_url.len() == 0 {
            Err("base URL is required"@)
        } else {
            Ok(ProviderSettingsView {
                display,
                provider_type,
                tool_protocol,
                context_window,
                base_url,
                model,
                fast_model,
                api_key,
                supports_web_search,
                models: stored,
            })
        }
    }
}

/// A rename is never ignored: when the request names the provider with
/// text that is not blank, the saved display name is that text, trimmed,
/// whatever display name the provider had before.
pub proof fn lemma_upsert_renames(existing: Option<ProviderSettingsView>, id: Seq<char>, input: ProviderInput)
    requires
        input.name is Some,
        trim_spec(input.name->0@).len() > 0,
    ensures
        upserted_settings(existing, id, input) matches Ok(sv) ==> sv.display == trim_spec(input.name->0@),
{
}

/// What a saved provider holds after an add-or-edit request: a non-blank
/// key in the request replaces the stored key and a blank or missing one
/// keeps it; an explicit model or base URL wins; a context window given is
/// one of the three sizes and is stored, and a new provider without one
/// gets 256000; a saved provider always has a model and a base URL and
/// speaks one of the four protocols.
pub proof fn lemma_upsert_fields(existing: Option<ProviderSettingsView>, id: Seq<char>, input: ProviderInput)
    ensures
        upserted_settings(existing, id, input) matches Ok(sv) ==> {
            let old_key = match existing { Some(e) => e.api_key, None => Seq::<char>::empty() };
            &&& input.api_key is Some && trim_spec(input.api_key->0@).len() > 0 ==> sv.api_key == trim_spec(input.api_key->0@)
            &&& !(input.api_key is Some && trim_spec(input.api_key->0@).len() > 0) ==> sv.api_key == old_key
            &&& input.model is Some && trim_spec(input.model->0@).len() > 0 ==> sv.model == trim_spec(input.model->0@)
            &&& input.base_url is Some && trim_spec(input.base_url->0@).len() > 0 ==> sv.base_url == trim_spec(input.base_url->0@)
            &&& input.context_window is Some ==> sv.context_window == input.context_window
                && (input.context_window->0 == 128_000 || input.context_window->0 == 256_000 || input.context_window->0 == 512_000)
            &&& (input.context_window is None && existing is None ==> sv.context_window == Some(256_000u64))
            &&& sv.model.len() > 0
            &&& sv.base_url.len() > 0
            &&& (sv.provider_type == "openai_compatible"@ || sv.provider_type == "openai_responses"@
                || sv.provider_type == "anthropic_messages"@ || sv.provider_type == "gemini_native"@)
            &&& sv.tool_protocol == Some(match input.tool_protocol { Some(t) => trim_spec(t@), None => sv.provider_type })
        },
        input.context_window is Some && !(input.context_window->0 == 128_000 || input.context_window->0 == 256_000
            || input.context_window->0 == 512_000) ==> upserted_settings(existing, id, input) is Err,
{
}

/// The active provider after an add-or-edit: the edited one when none was
/// active or activation was asked for, the former one otherwise.
pub proof fn lemma_upsert_active(active: Seq<char>, id: Seq<char>, activate: Option<bool>)
    ensures
        (active.len() == 0 || activate == Some(true)) ==> active_after_upsert(active, id, activate) == id,
        (active.len() > 0 && activate != Some(true)) ==> active_after_upsert(active, id, activate) == active,
{
}

/// Trims an optional string field.
pub fn string_field(o: &Option<String>) -> (r: Option<String>)
    ensures
        opt_view(r) == field_spec(*o),
{
    match o {
        Some(s) => Some(trim(s.as_str())),
        None => None,
    }
}

/// Keeps a value only when it is not empty.
pub fn non_empty(o: Option<String>) -> (r: Option<String>)
    ensures
        opt_view(r) == filled(opt_view(o)),
{
    match o {
        Some(s) => if s.unicode_len() > 0 { Some(s) } else { None },
        None => None,
    }
}

/// Whether `t` is one of the supported wire protocols.
pub fn is_valid_provider_type(t: &str) -> (r: bool)
    ensures
        r == valid_provider_type(t@),
{
    str_eq(t, "openai_compatible") || str_eq(t, "openai_responses") || str_eq(
        t,
        "anthropic_messages",
    ) || str_eq(t, "gemini_native")
}

/// The settings a request leads to (see `upserted_settings`).
pub fn build_settings(existing: Option<&ProviderSettings>, id: &String, input: &ProviderInput) -> (r: Result<ProviderSettings, ApiError>)
    ensures
        match upserted_settings(
            match existing { Some(e) => Some(e@), None => None },
            id@,
            *input,
        ) {
            Ok(sv) => r matches Ok(s) && s@ == sv,
            Err(m) => r matches Err(e) && api_error_is(e, ApiStatus::BadRequest, m),
        },
{
    let mut settings = match existing {
        Some(e) => e.duplicate(),
        None => ProviderSettings::empty(),
    };
    let display = match string_field(&input.name) {
        Some(n) => if n.unicode_len() > 0 { n } else { id.clone() },
        None => if settings.display.unicode_len() > 0 { settings.display.clone() } else { id.clone() },
    };
    let provider_type = match non_empty(string_field(&input.provider_type)) {
        Some(t) => t,
        None => settings.provider_type.clone(),
    };
    let tool_protocol = match string_field(&input.tool_protocol) {
        Some(t) => Some(t),
        None => Some(provider_type.clone()),
    };
    if !is_valid_provider_type(provider_type.as_str()) {
        return Err(ApiError::bad_request("unsupported provider compatibility mode"));
    }
    let context_window = match input.context_window {
        Some(v) => {
            if v == 128_000 || v == 256_000 || v == 512_000 {
                Some(v)
            } else {
                return Err(ApiError::bad_request("context window must be 128000, 256000, or 512000"));
            }
        },
        None => match settings.context_window {
            Some(c) => Some(c),
            None => Some(256_000),
        },
    };
    let base_url = match non_empty(string_field(&input.base_url)) {
        Some(u) => u,
        None => default_base_url(id.as_str()),
    };
    let models = clean_strs(&input.models);
    let model = match non_empty(string_field(&input.model)) {
        Some(m) => m,
        None => if models.len() > 0 { models[0].clone() } else { settings.model.clone() },
    };
    let fast_model = match non_empty(string_field(&input.fast_model)) {
        Some(m) => Some(m),
        None => if models.len() > 1 { Some(models[1].clone()) } else { None },
    };
    if let Some(k) = non_empty(string_field(&input.api_key)) {
        settings.api_key = k;
    }
    if let Some(b) = input.supports_web_search {
        settings.supports_web_search = b;
    }
    if model.unicode_len() == 0 {
        return Err(ApiError::bad_request("at least one model is required"));
    }
    if base_url.unicode_len() == 0 {
        return Err(ApiError::bad_request("base URL is required"));
    }
    if models.len() > 0 {
        settings.models = Some(models);
    }
    settings.display = display;
    settings.provider_type = provider_type;
    settings.tool_protocol = tool_protocol;
    settings.context_window = context_window;
    settings.base_url = base_url;
    settings.model = model;
    settings.fast_model = fast_model;
    Ok(settings)
}

/// The active id after a successful add-or-edit of `id`.
pub open spec fn active_after_upsert(active: Seq<char>, id: Seq<char>, activate: Option<bool>) -> Seq<char> {
    if active.len() == 0 || activate == Some(true) {
        id
    } else {
        active
    }
}

/// Adds a provider or edits one (the body of `POST /api/providers`).
pub fn upsert_provider(doc: ProviderDocument, input: &ProviderInput) -> (r: Result<ProviderDocument, ApiError>)
    ensures
        filled(field_spec(input.id)) is None ==> (r matches Err(e) && api_error_is(
            e,
            ApiStatus::BadRequest,
            "provider id is required"@,
        )),
        filled(field_spec(input.id)) matches Some(id) ==> match upserted_settings(
            lookup(doc.providers@, id),
            id,
            *input,
        ) {
            Err(m) => r matches Err(e) && api_error_is(e, ApiStatus::BadRequest, m),
            Ok(sv) => r matches Ok(d) && (exists|v: ProviderSettings|
                v@ == sv && #[trigger] inserted(doc.providers@, id, v, d.providers@))
                && d.active@ == active_after_upsert(doc.active@, id, input.activate),
        },
{
    let id = match non_empty(string_field(&input.id)) {
        Some(id) => id,
        None => return Err(ApiError::bad_request("provider id is required")),
    };
    let ghost sid = filled(field_spec(input.id))->0;
    assert(id@ == sid);
    let mut doc = doc;
    let existing = doc.providers.get(id.as_str());
    assert(match existing { Some(e) => Some(e@), None => None } == lookup(doc.providers@, sid));
    let settings = match build_settings(existing, &id, input) {
        Ok(s) => s,
        Err(e) => return Err(e),
    };
    assert(upserted_settings(lookup(doc.providers@, sid), sid, *input) == Ok::<ProviderSettingsView, Seq<char>>(settings@));
    let ghost v = settings;
    let ghost settings_view = settings@;
    let ghost old_active = doc.active@;
    let ghost old_providers = doc.providers@;
    doc.providers.insert(id.clone(), settings);
    let activate = match input.activate {
        Some(b) => b,
        None => false,
    };
    if doc.active.unicode_len() == 0 || activate {
        doc.active = id;
    }
    assert(inserted(old_providers, id@, v, doc.providers@));
    assert(v@ == settings_view);
    assert(exists|w: ProviderSettings| w@ == settings_view && #[trigger] inserted(old_providers, sid, w, doc.providers@));
    assert(doc.active@ == active_after_upsert(old_active, sid, input.activate));
    let ghost new_providers = doc.providers@;
    let r: Result<ProviderDocument, ApiError> = Ok(doc);
    assert(r matches Ok(d) && d.providers@ == new_providers);
    assert(r matches Ok(d) && d.active@ == active_after_upsert(old_active, sid, input.activate));
    assert(upserted_settings(lookup(old_providers, sid), sid, *input) == Ok::<ProviderSettingsView, Seq<char>>(settings_view));
    assert(match upserted_settings(lookup(old_providers, sid), sid, *input) {
            Err(m) => r matches Err(e) && api_error_is(e, ApiStatus::BadRequest, m),
            Ok(sv) => r matches Ok(d) && (exists|v: ProviderSettings|
                v@ == sv && #[trigger] inserted(old_providers, sid, v, d.providers@))
                && d.active@ == active_after_upsert(old_active, sid, input.activate),
        });
    r
}


/// The active id after `id` was removed from a document whose remaining
/// entries are `rest`: the first remaining id when `id` was active.
pub open spec fn active_after_delete(active: Seq<char>, id: Seq<char>, rest: Seq<(Seq<char>, ProviderSettings)>) -> Seq<char> {
    if active == id {
        if rest.len() > 0 { rest[0].0 } else { Seq::empty() }
    } else {
        active
    }
}

/// Removes a provider (the body of `DELETE /api/providers/{id}`).
pub fn delete_provider(doc: ProviderDocument, id: &str) -> (r: Result<ProviderDocument, ApiError>)
    ensures
        !has_key(doc.providers@, id@) ==> (r matches Err(e) && api_error_is(
            e,
            ApiStatus::NotFound,
            "provider not found"@,
        )),
        has_key(doc.providers@, id@) && doc.providers@.len() == 1 ==> (r matches Err(e)
            && api_error_is(e, ApiStatus::BadRequest, "at least one provider must remain configured"@)),
        has_key(doc.providers@, id@) && doc.providers@.len() != 1 ==> (r matches Ok(d)
            && d.providers@ == doc.providers@.remove(crate::strmap::key_index(doc.providers@, id@))
            && d.active@ == active_after_delete(doc.active@, id@, d.providers@)
            && (doc.active@ != id@ ==> d.active@ == doc.active@)
            && (doc.active@ == id@ ==> d.active@ == d.providers@[0].0)),
{
    if !doc.providers.contains_key(id) {
        return Err(ApiError::not_found("provider not found"));
    }
    if doc.providers.len() == 1 {
        return Err(ApiError::bad_request("at least one provider must remain configured"));
    }
    let mut doc = doc;
    let _ = doc.providers.remove(id);
    if str_eq(doc.active.as_str(), id) {
        doc.active = match doc.providers.first_key() {
            Some(k) => k.clone(),
            None => String::new(),
        };
    }
    Ok(doc)
}

/// The active id names a configured provider, or no provider is active.
pub open spec fn active_configured(active: Seq<char>, providers: Seq<(Seq<char>, ProviderSettings)>) -> bool {
    active.len() == 0 || has_key(providers, active)
}

/// Adding or editing a provider keeps the active id pointing at a
/// configured provider.
pub proof fn lemma_upsert_keeps_active_configured(
    active: Seq<char>,
    providers: Seq<(Seq<char>, ProviderSettings)>,
    id: Seq<char>,
    v: ProviderSettings,
    updated: Seq<(Seq<char>, ProviderSettings)>,
    activate: Option<bool>,
)
    requires
        sorted_keys(providers),
        sorted_keys(updated),
        inserted(providers, id, v, updated),
        active_configured(active, providers),
    ensures
        has_key(updated, id),
        active_configured(active_after_upsert(active, id, activate), updated),
{
    crate::strmap::lemma_insert_get(providers, id, v, updated, active);
}

/// Deleting a provider never removes the last one, removes exactly the
/// deleted id, and keeps the active id pointing at a configured provider.
pub proof fn lemma_delete_keeps_a_configured_active(
    active: Seq<char>,
    providers: Seq<(Seq<char>, ProviderSettings)>,
    id: Seq<char>,
)
    requires
        sorted_keys(providers),
        has_key(providers, id),
        providers.len() != 1,
        active_configured(active, providers),
    ensures
        ({
            let rest = providers.remove(crate::strmap::key_index(providers, id));
            &&& rest.len() >= 1
            &&& !has_key(rest, id)
            &&& forall|k: Seq<char>| k != id ==> has_key(rest, k) == has_key(providers, k)
            &&& active_configured(active_after_delete(active, id, rest), rest)
        }),
{
    let idx = crate::strmap::key_index(providers, id);
    let rest = providers.remove(idx);
    assert(providers[idx].0 == id);
    assert forall|k: Seq<char>| k != id implies has_key(rest, k) == has_key(providers, k) by {
        if has_key(providers, k) {
            let j = choose|j: int| 0 <= j < providers.len() && #[trigger] providers[j].0 == k;
            if j < idx {
                assert(rest[j].0 == k);
            } else {
                assert(j != idx);
                assert(rest[j - 1].0 == k);
            }
        }
        if has_key(rest, k) {
            let j = choose|j: int| 0 <= j < rest.len() && #[trigger] rest[j].0 == k;
            if j < idx {
                assert(providers[j].0 == k);
            } else {
                assert(providers[j + 1].0 == k);
            }
        }
    }
    if has_key(rest, id) {
        let j = choose|j: int| 0 <= j < rest.len() && #[trigger] rest[j].0 == id;
        let oj = if j < idx { j } else { j + 1 };
        assert(providers[oj].0 == id);
        crate::strmap::lemma_key_unique(providers, oj);
        crate::strmap::lemma_key_unique(providers, idx);
    }
    if active == id {
        assert(rest[0].0 == rest[0].0);
        assert(has_key(rest, rest[0].0));
    }
}

/// Activating a provider or picking a model for it makes that provider
/// the active one; neither leaves the active id dangling.
pub proof fn lemma_activation_targets_configured(
    providers: Seq<(Seq<char>, ProviderSettings)>,
    id: Seq<char>,
    v: ProviderSettings,
    updated: Seq<(Seq<char>, ProviderSettings)>,
)
    requires
        sorted_keys(providers),
        sorted_keys(updated),
        has_key(providers, id),
        inserted(providers, id, v, updated),
    ensures
        active_configured(id, providers),
        active_configured(id, updated),
{
    crate::strmap::lemma_insert_get(providers, id, v, updated, id);
}

/// A copy is stored under a fresh id: every provider that was configured
/// stays configured with its settings, and the active id is unchanged.
pub proof fn lemma_copy_keeps_providers(
    active: Seq<char>,
    providers: Seq<(Seq<char>, ProviderSettings)>,
    copied: Seq<char>,
    v: ProviderSettings,
    updated: Seq<(Seq<char>, ProviderSettings)>,
)
    requires
        sorted_keys(providers),
        sorted_keys(updated),
        !has_key(providers, copied),
        inserted(providers, copied, v, updated),
        active_configured(active, providers),
    ensures
        updated.len() == providers.len() + 1,
        forall|k: Seq<char>| has_key(providers, k) ==> has_key(updated, k),
        active_configured(active, updated),
{
    assert forall|k: Seq<char>| has_key(providers, k) implies has_key(updated, k) by {
        crate::strmap::lemma_insert_get(providers, copied, v, updated, k);
    }
}

/// Deleting a provider other than the active one leaves the active id as
/// it was; deleting the active one makes the first remaining id active.
pub proof fn lemma_delete_moves_only_a_deleted_active(
    active: Seq<char>,
    providers: Seq<(Seq<char>, ProviderSettings)>,
    id: Seq<char>,
)
    requires
        has_key(providers, id),
        providers.len() != 1,
    ensures
        ({
            let rest = providers.remove(crate::strmap::key_index(providers, id));
            &&& active != id ==> active_after_delete(active, id, rest) == active
            &&& active == id ==> active_after_delete(active, id, rest) == rest[0].0
        }),
{
    assert(providers.len() >= 2);
}

/// Makes a provider the active one (the body of `POST /api/providers/{id}/activate`).
pub fn activate_provider(doc: ProviderDocument, id: &str) -> (r: Result<ProviderDocument, ApiError>)
    ensures
        !has_key(doc.providers@, id@) ==> (r matches Err(e) && api_error_is(
            e,
            ApiStatus::NotFound,
            "provider not found"@,
        )),
        has_key(doc.providers@, id@) ==> (r matches Ok(d) && d.providers@ == doc.providers@
            && d.active@ == id@),
{
    if !doc.providers.contains_key(id) {
        return Err(ApiError::not_found("provider not found"));
    }
    let mut doc = doc;
    doc.active = owned(id);
    Ok(doc)
}

/// The API key of a provider (the body of `POST /api/providers/{id}/reveal`).
pub fn reveal_provider_key(doc: &ProviderDocument, id: &str) -> (r: Result<String, ApiError>)
    ensures
        !has_key(doc.providers@, id@) ==> (r matches Err(e) && api_error_is(
            e,
            ApiStatus::NotFound,
            "provider not found"@,
        )),
        has_key(doc.providers@, id@) ==> (r matches Ok(k) && k@ == lookup(doc.providers@, id@)->0.api_key),
{
    match doc.providers.get(id) {
        Some(p) => Ok(p.api_key.clone()),
        None => Err(ApiError::not_found("provider not found")),
    }
}

/// The `n`-th name tried for a copy of `id`: `{id}-copy`, then
/// `{id}-copy-2`, `{id}-copy-3`, ...
pub open spec fn copy_candidate(id: Seq<char>, n: nat) -> Seq<char> {
    if n <= 1 {
        id + "-copy"@
    } else {
        id + "-copy-"@ + crate::text::decimal_spec(n)
    }
}

/// The keys of a document, as a set.
pub open spec fn key_set(s: Seq<(Seq<char>, ProviderSettings)>) -> Set<Seq<char>> {
    s.map_values(|e: (Seq<char>, ProviderSettings)| e.0).to_set()
}

proof fn lemma_key_set(s: Seq<(Seq<char>, ProviderSettings)>, k: Seq<char>)
    ensures
        key_set(s).contains(k) == has_key(s, k),
        key_set(s).finite(),
        key_set(s).len() <= s.len(),
{
    let ks = s.map_values(|e: (Seq<char>, ProviderSettings)| e.0);
    ks.lemma_cardinality_of_set();
    vstd::seq_lib::seq_to_set_is_finite(ks);
    if has_key(s, k) {
        let i = choose|i: int| 0 <= i < s.len() && #[trigger] s[i].0 == k;
        assert(ks[i] == k);
        assert(ks.contains(k));
    }
    if key_set(s).contains(k) {
        assert(ks.contains(k));
        let i = choose|i: int| 0 <= i < ks.len() && ks[i] == k;
        assert(s[i].0 == k);
    }
}

proof fn lemma_candidates_distinct(id: Seq<char>, m: nat, n: nat)
    requires
        1 <= m,
        1 <= n,
        m != n,
    ensures
        copy_candidate(id, m) != copy_candidate(id, n),
        copy_candidate(id, n) != id,
{
    reveal_strlit("-copy");
    reveal_strlit("-copy-");
    crate::text::lemma_decimal_len(n);
    crate::text::lemma_decimal_len(m);
    let cm = copy_candidate(id, m);
    let cn = copy_candidate(id, n);
    assert(cn.len() > id.len());
    if m >= 2 && n >= 2 && cm == cn {
        assert(cm.subrange(id.len() + 6int, cm.len() as int) =~= crate::text::decimal_spec(m));
        assert(cn.subrange(id.len() + 6int, cn.len() as int) =~= crate::text::decimal_spec(n));
        crate::text::lemma_decimal_injective(m, n);
    }
    if m <= 1 && n >= 2 {
        assert(cm.len() != cn.len());
    }
    if n <= 1 && m >= 2 {
        assert(cm.len() != cn.len());
    }
}

/// Duplicates a provider under the first free copy name (the body of
/// `POST /api/providers/{id}/copy`); gives back the new id.
pub fn copy_provider(doc: ProviderDocument, id: &str) -> (r: Result<(ProviderDocument, String), ApiError>)
    ensures
        !has_key(doc.providers@, id@) ==> (r matches Err(e) && api_error_is(
            e,
            ApiStatus::NotFound,
            "provider not found"@,
        )),
        has_key(doc.providers@, id@) ==> (r matches Ok((d, copied)) && exists|n: nat| {
            &&& 1 <= n
            &&& copied@ == copy_candidate(id@, n)
            &&& !has_key(doc.providers@, copy_candidate(id@, n))
            &&& forall|m: nat| 1 <= m < n ==> has_key(doc.providers@, #[trigger] copy_candidate(id@, m))
        } && (exists|v: ProviderSettings| v@ == lookup(doc.providers@, id@)->0 && #[trigger] inserted(
            doc.providers@,
            copied@,
            v,
            d.providers@,
        )) && d.active@ == doc.active@),
{
    let source = match doc.providers.get(id) {
        Some(p) => p.duplicate(),
        None => return Err(ApiError::not_found("provider not found")),
    };
    proof {
        use_type_invariant(&doc.providers);
        reveal_strlit("-copy");
        reveal_strlit("-copy-");
        reveal_strlit("-");
    }
    let ghost s = doc.providers@;
    let total = doc.providers.len();
    let mut base = owned(id);
    base.append("-copy");
    let mut copied = base.clone();
    let mut n: usize = 1;
    let ghost mut seen: Set<Seq<char>> = set![id@];
    proof {
        lemma_key_set(s, id@);
        assert(seen.len() == 1) by {
            assert(seen =~= Set::<Seq<char>>::empty().insert(id@));
        }
    }
    while doc.providers.contains_key(copied.as_str())
        invariant
            s == doc.providers@,
            has_key(s, id@),
            base@ == id@ + "-copy"@,
            1 <= n,
            copied@ == copy_candidate(id@, n as nat),
            forall|m: nat| 1 <= m < n ==> has_key(s, #[trigger] copy_candidate(id@, m)),
            seen.finite(),
            seen.len() == n,
            seen.subset_of(key_set(s)),
            forall|x: Seq<char>| seen.contains(x) ==> x == id@ || exists|m: nat| 1 <= m < n && x == #[trigger] copy_candidate(id@, m),
            key_set(s).finite(),
            key_set(s).len() <= s.len(),
            s.len() == doc.providers@.len(),
            s.len() == total,
        decreases s.len() - n,
    {
        proof {
            lemma_key_set(s, copied@);
            assert(!seen.contains(copied@)) by {
                if seen.contains(copied@) {
                    if copied@ == id@ {
                        lemma_candidates_distinct(id@, n as nat + 1, n as nat);
                    } else {
                        let m = choose|m: nat| 1 <= m < n && copied@ == #[trigger] copy_candidate(id@, m);
                        lemma_candidates_distinct(id@, m, n as nat);
                    }
                }
            }
            let old_seen = seen;
            seen = seen.insert(copied@);
            assert(seen.len() == n + 1);
            vstd::set_lib::lemma_len_subset(seen, key_set(s));
            assert forall|x: Seq<char>| seen.contains(x) implies x == id@ || exists|m: nat| 1 <= m < n + 1 && x == #[trigger] copy_candidate(id@, m) by {
                if old_seen.contains(x) && x != id@ {
                    let m = choose|m: nat| 1 <= m < n && x == #[trigger] copy_candidate(id@, m);
                    assert(1 <= m < n + 1);
                } else if x != id@ {
                    assert(x == copy_candidate(id@, n as nat));
                }
            }
        }
        n = n + 1;
        let mut next = base.clone();
        next.append("-");
        crate::text::append_decimal(&mut next, n as u64);
        proof {
            reveal_strlit("-copy");
            reveal_strlit("-copy-");
            reveal_strlit("-");
            assert(next@ =~= id@ + "-copy-"@ + crate::text::decimal_spec(n as nat));
        }
        copied = next;
    }
    let mut doc = doc;
    let ghost v = source;
    let ghost old_providers = doc.providers@;
    doc.providers.insert(copied.clone(), source);
    assert(inserted(old_providers, copied@, v, doc.providers@));
    Ok((doc, copied))
}


/// The settings of `provider` after the browser picked `model` for it.
pub open spec fn with_selected_model(p: ProviderSettingsView, model: Seq<char>) -> ProviderSettingsView {
    let chosen = ProviderSettingsView { model, ..p };
    let models = provider_models_spec(chosen);
    if models.contains(model) {
        chosen
    } else {
        ProviderSettingsView { models: Some(models.push(model)), ..chosen }
    }
}

/// Makes `model` of `provider` the one in use (the `select_model` command);
/// `None` when no such provider is configured.
pub fn select_model(doc: ProviderDocument, provider: &str, model: &str) -> (r: Option<ProviderDocument>)
    ensures
        !has_key(doc.providers@, provider@) ==> r is None,
        has_key(doc.providers@, provider@) ==> (r matches Some(d) && d.active@ == provider@
            && exists|v: ProviderSettings| v@ == with_selected_model(lookup(doc.providers@, provider@)->0, model@)
                && #[trigger] inserted(doc.providers@, provider@, v, d.providers@)),
{
    let mut settings = match doc.providers.get(provider) {
        Some(p) => p.duplicate(),
        None => return None,
    };
    settings.model = owned(model);
    let models = provider_models(&settings);
    if !strs_contain(&models, model) {
        let mut expanded = models;
        expanded.push(owned(model));
        assert(strs_view(expanded@) =~= provider_models_spec(settings@).push(model@));
        settings.models = Some(expanded);
    }
    let ghost target = with_selected_model(lookup(doc.providers@, provider@)->0, model@);
    assert(settings@ == target);
    let mut doc = doc;
    let ghost v = settings;
    let ghost old_providers = doc.providers@;
    doc.providers.insert(owned(provider), settings);
    assert(inserted(old_providers, provider@, v, doc.providers@));
    doc.active = owned(provider);
    let ghost new_providers = doc.providers@;
    let r = Some(doc);
    assert(r matches Some(d) && d.providers@ == new_providers && d.active@ == provider@);
    assert(exists|w: ProviderSettings| w@ == target && #[trigger] inserted(old_providers, provider@, w, new_providers));
    r
}

/// What the browser is shown of a provider: never its key, only a masked tail.
pub struct ProviderView {
    pub id: String,
    pub name: String,
    pub api_key_masked: String,
    pub has_key: bool,
    pub models: Vec<String>,
    pub base_url: String,
    pub provider_type: String,
    pub model: String,
    pub fast_model: Option<String>,
    pub tool_protocol: Option<String>,
    pub context_window: u64,
    pub supports_web_search: bool,
    pub active: bool,
}

/// `v` shows provider `p` stored under `id`.
pub open spec fn shows_provider(v: ProviderView, id: Seq<char>, p: ProviderSettingsView, active: bool) -> bool {
    &&& v.id@ == id
    &&& v.name@ == (if p.display.len() == 0 { id } else { p.display })
    &&& v.api_key_masked@ == mask_key_spec(p.api_key)
    &&& v.has_key == (p.api_key.len() > 0)
    &&& strs_view(v.models@) == provider_models_spec(p)
    &&& v.base_url@ == p.base_url
    &&& v.provider_type@ == p.provider_type
    &&& v.model@ == p.model
    &&& opt_view(v.fast_model) == p.fast_model
    &&& opt_view(v.tool_protocol) == p.tool_protocol
    &&& v.context_window == (match p.context_window { Some(c) => c, None => 256_000u64 })
    &&& v.supports_web_search == p.supports_web_search
    &&& v.active == active
}

/// What the health endpoint reports of the providers.
pub struct ProviderHealth {
    /// `ok` when an active provider is configured, `setup_required` otherwise.
    pub status: String,
    /// An active provider is configured.
    pub initialized: bool,
    /// The active provider's main model.
    pub llm: Option<String>,
}

/// The providers part of `GET /api/runtime/health`.
pub fn provider_health(doc: &ProviderDocument) -> (h: ProviderHealth)
    ensures
        h.initialized == has_key(doc.providers@, doc.active@),
        h.initialized ==> h.status@ == "ok"@ && (h.llm matches Some(m) && m@ == lookup(doc.providers@, doc.active@)->0.model),
        !h.initialized ==> h.status@ == "setup_required"@ && h.llm is None,
{
    match doc.providers.get(doc.active.as_str()) {
        Some(p) => ProviderHealth { status: owned("ok"), initialized: true, llm: Some(p.model.clone()) },
        None => ProviderHealth { status: owned("setup_required"), initialized: false, llm: None },
    }
}

/// The browser's view of one provider.
pub fn provider_view(id: &str, p: &ProviderSettings, active: bool) -> (v: ProviderView)
    ensures
        shows_provider(v, id@, p@, active),
{
    ProviderView {
        id: owned(id),
        name: if p.display.unicode_len() == 0 { owned(id) } else { p.display.clone() },
        api_key_masked: mask_key(p.api_key.as_str()),
        has_key: p.api_key.unicode_len() > 0,
        models: provider_models(p),
        base_url: p.base_url.clone(),
        provider_type: p.provider_type.clone(),
        model: p.model.clone(),
        fast_model: clone_opt(&p.fast_model),
        tool_protocol: clone_opt(&p.tool_protocol),
        context_window: match p.context_window {
            Some(c) => c,
            None => 256_000,
        },
        supports_web_search: p.supports_web_search,
        active,
    }
}

/// The browser's view of every provider, in id order (the body of
/// `GET /api/providers`).
pub fn list_providers(doc: &ProviderDocument) -> (r: Vec<ProviderView>)
    ensures
        r@.len() == doc.providers@.len(),
        forall|i: int| 0 <= i < r@.len() ==> shows_provider(
            #[trigger] r@[i],
            doc.providers@[i].0,
            doc.providers@[i].1@,
            doc.providers@[i].0 == doc.active@,
        ),
{
    let mut out: Vec<ProviderView> = Vec::new();
    let mut i: usize = 0;
    while i < doc.providers.len()
        invariant
            i <= doc.providers@.len(),
            out@.len() == i,
            forall|j: int| 0 <= j < i ==> shows_provider(
                #[trigger] out@[j],
                doc.providers@[j].0,
                doc.providers@[j].1@,
                doc.providers@[j].0 == doc.active@,
            ),
        decreases doc.providers@.len() - i,
    {
        let id = doc.providers.key_at(i);
        let active = str_eq(id.as_str(), doc.active.as_str());
        out.push(provider_view(id.as_str(), doc.providers.value_at(i), active));
        i = i + 1;
    }
    out
}

/// The provider whose models are to be discovered.
pub fn discovery_target(doc: &ProviderDocument, id: &str) -> (r: Result<ProviderSettings, ApiError>)
    ensures
        !has_key(doc.providers@, id@) ==> (r matches Err(e) && api_error_is(
            e,
            ApiStatus::NotFound,
            "provider not found"@,
        )),
        has_key(doc.providers@, id@) ==> (r matches Ok(p) && p@ == lookup(doc.providers@, id@)->0),
{
    match doc.providers.get(id) {
        Some(p) => Ok(p.duplicate()),
        None => Err(ApiError::not_found("provider not found")),
    }
}

/// `str::trim_end_matches('/')`.
pub open spec fn trim_slashes_spec(s: Seq<char>) -> Seq<char>
    decreases s.len(),
{
    if s.len() > 0 && s.last() == '/' {
        trim_slashes_spec(s.drop_last())
    } else {
        s
    }
}

/// The length of `s` without its trailing slashes.
fn trimmed_len(s: &str) -> (j: usize)
    ensures
        j <= s@.len(),
        trim_slashes_spec(s@) == s@.subrange(0, j as int),
{
    let cs = crate::text::chars_of(s);
    let mut j: usize = cs.len();
    assert(s@.subrange(0, j as int) =~= s@);
    while j > 0 && cs[j - 1] == '/'
        invariant
            cs@ == s@,
            j <= cs@.len(),
            trim_slashes_spec(s@) == trim_slashes_spec(s@.subrange(0, j as int)),
        decreases j,
    {
        assert(s@.subrange(0, j as int).drop_last() =~= s@.subrange(0, j - 1));
        j = j - 1;
    }
    proof {
        let t = s@.subrange(0, j as int);
        if t.len() > 0 {
            assert(t.last() == cs@[j - 1]);
        }
    }
    j
}

/// The model list endpoint of a base URL: trailing slashes dropped, then
/// `/models`; a 400 answer when nothing is left of the base.
pub fn models_endpoint(base_url: &str) -> (r: Result<String, ApiError>)
    ensures
        trim_slashes_spec(base_url@).len() == 0 ==> (r matches Err(e) && api_error_is(
            e,
            ApiStatus::BadRequest,
            "base URL is required"@,
        )),
        trim_slashes_spec(base_url@).len() > 0 ==> (r matches Ok(u) && u@ == trim_slashes_spec(base_url@) + "/models"@),
{
    let j = trimmed_len(base_url);
    if j == 0 {
        return Err(ApiError::bad_request("base URL is required"));
    }
    let mut out = owned(base_url.substring_char(0, j));
    out.append("/models");
    Ok(out)
}

/// How a model discovery request authenticates.
pub enum DiscoveryAuth {
    /// The key goes in the `key` query parameter (Gemini).
    QueryKey(String),
    /// The key goes in `x-api-key`, with `anthropic-version: 2023-06-01`.
    AnthropicKey(String),
    /// The key is sent as a bearer token.
    Bearer(String),
    /// No credentials are sent.
    Anonymous,
}

/// The authentication style for a provider type and key.
pub fn discovery_auth(provider_type: &str, api_key: &str) -> (r: DiscoveryAuth)
    ensures
        crate::text::contains_spec(provider_type@, "gemini"@) ==> (r matches DiscoveryAuth::QueryKey(k) && k@ == api_key@),
        !crate::text::contains_spec(provider_type@, "gemini"@) && crate::text::contains_spec(provider_type@, "anthropic"@)
            ==> (r matches DiscoveryAuth::AnthropicKey(k) && k@ == api_key@),
        !crate::text::contains_spec(provider_type@, "gemini"@) && !crate::text::contains_spec(provider_type@, "anthropic"@)
            && api_key@.len() > 0 ==> (r matches DiscoveryAuth::Bearer(k) && k@ == api_key@),
        !crate::text::contains_spec(provider_type@, "gemini"@) && !crate::text::contains_spec(provider_type@, "anthropic"@)
            && api_key@.len() == 0 ==> r is Anonymous,
{
    if crate::text::contains(provider_type, "gemini") {
        DiscoveryAuth::QueryKey(owned(api_key))
    } else if crate::text::contains(provider_type, "anthropic") {
        DiscoveryAuth::AnthropicKey(owned(api_key))
    } else if api_key.unicode_len() > 0 {
        DiscoveryAuth::Bearer(owned(api_key))
    } else {
        DiscoveryAuth::Anonymous
    }
}

/// At most the first 1000 characters, with `...` when more were cut.
pub open spec fn preview_spec(s: Seq<char>) -> Seq<char> {
    if s.len() > 1000 {
        s.take(1000) + "..."@
    } else {
        s
    }
}

/// A short excerpt of a response or tool output.
pub fn preview(value: &str) -> (r: String)
    ensures
        r@ == preview_spec(value@),
{
    let mut out = crate::text::take_chars(value, 1000);
    if value.unicode_len() > 1000 {
        out.append("...");
    }
    out
}

/// The 502 answer for a model list request the provider refused.
pub fn discovery_failure(status: &str, body: &str) -> (e: ApiError)
    ensures
        api_error_is(e, ApiStatus::BadGateway, "model discovery returned HTTP "@ + status@ + ": "@ + preview_spec(body@)),
{
    let mut message = owned("model discovery returned HTTP ");
    message.append(status);
    message.append(": ");
    let p = preview(body);
    message.append(p.as_str());
    ApiError { status: ApiStatus::BadGateway, message }
}

/// A model id as listed: a leading `models/` is dropped.
pub open spec fn model_name_spec(s: Seq<char>) -> Seq<char> {
    if crate::text::starts_with_spec(s, "models/"@) {
        s.subrange(7, s.len() as int)
    } else {
        s
    }
}

/// The models a discovery answer names: `models/` prefixes dropped, empty
/// names left out.
pub open spec fn discovered_names(raw: Seq<Seq<char>>) -> Set<Seq<char>> {
    Set::new(|m: Seq<char>| m.len() > 0 && exists|i: int| 0 <= i < raw.len() && model_name_spec(raw[i]) == m)
}

/// Drops a leading `models/`.
pub fn model_name(s: &str) -> (r: String)
    ensures
        r@ == model_name_spec(s@),
{
    proof {
        reveal_strlit("models/");
    }
    if crate::text::starts_with(s, "models/") {
        owned(s.substring_char(7, s.unicode_len()))
    } else {
        owned(s)
    }
}

/// The discovered model ids, sorted and without repeats.
pub fn normalize_models(raw: &Vec<String>) -> (r: Vec<String>)
    ensures
        crate::order::sorted_strs(strs_view(r@)),
        strs_view(r@).to_set() == discovered_names(strs_view(raw@)),
{
    let mut names: StrMap<()> = StrMap::new();
    let mut i: usize = 0;
    while i < raw.len()
        invariant
            i <= raw@.len(),
            forall|m: Seq<char>| has_key(names@, m) <==> (m.len() > 0 && exists|k: int| 0 <= k < i && #[trigger] model_name_spec(raw@[k]@) == m),
        decreases raw@.len() - i,
    {
        let name = model_name(raw[i].as_str());
        if name.unicode_len() > 0 {
            let ghost before = names@;
            let ghost nm = name@;
            proof {
                use_type_invariant(&names);
            }
            names.insert(name, ());
            proof {
                use_type_invariant(&names);
                assert forall|m: Seq<char>| has_key(names@, m) <==> (m.len() > 0 && exists|k: int| 0 <= k < i + 1 && #[trigger] model_name_spec(raw@[k]@) == m) by {
                    crate::strmap::lemma_insert_get(before, nm, (), names@, m);
                    if m == nm {
                        assert(model_name_spec(raw@[i as int]@) == m);
                    } else if m.len() > 0 && exists|k: int| 0 <= k < i + 1 && #[trigger] model_name_spec(raw@[k]@) == m {
                        let k = choose|k: int| 0 <= k < i + 1 && #[trigger] model_name_spec(raw@[k]@) == m;
                        assert(k < i);
                    }
                }
            }
        } else {
            proof {
                assert forall|m: Seq<char>| has_key(names@, m) <==> (m.len() > 0 && exists|k: int| 0 <= k < i + 1 && #[trigger] model_name_spec(raw@[k]@) == m) by {
                    if m.len() > 0 && exists|k: int| 0 <= k < i + 1 && #[trigger] model_name_spec(raw@[k]@) == m {
                        let k = choose|k: int| 0 <= k < i + 1 && #[trigger] model_name_spec(raw@[k]@) == m;
                        assert(k < i);
                    }
                }
            }
        }
        i = i + 1;
    }
    proof {
        use_type_invariant(&names);
    }
    let mut out: Vec<String> = Vec::new();
    let mut j: usize = 0;
    while j < names.len()
        invariant
            j <= names@.len(),
            out@.len() == j,
            forall|k: int| 0 <= k < j ==> #[trigger] out@[k]@ == names@[k].0,
        decreases names@.len() - j,
    {
        out.push(names.key_at(j).clone());
        j = j + 1;
    }
    proof {
        assert(strs_view(out@) =~= names@.map_values(|e: (Seq<char>, ())| e.0));
        assert forall|a: int, b: int| 0 <= a < b < strs_view(out@).len() implies crate::order::seq_lt(
            #[trigger] strs_view(out@)[a],
            #[trigger] strs_view(out@)[b],
        ) by {
            assert(strs_view(out@)[a] == names@[a].0);
            assert(strs_view(out@)[b] == names@[b].0);
        }
        assert forall|m: Seq<char>| #[trigger] strs_view(out@).to_set().contains(m) == discovered_names(strs_view(raw@)).contains(m) by {
            if strs_view(out@).to_set().contains(m) {
                let k = choose|k: int| 0 <= k < strs_view(out@).len() && strs_view(out@)[k] == m;
                assert(names@[k].0 == m);
                assert(has_key(names@, m));
                let q = choose|q: int| 0 <= q < raw@.len() && #[trigger] model_name_spec(raw@[q]@) == m;
                assert(strs_view(raw@)[q] == raw@[q]@);
            }
            if discovered_names(strs_view(raw@)).contains(m) {
                let q = choose|q: int| 0 <= q < strs_view(raw@).len() && model_name_spec(strs_view(raw@)[q]) == m;
                assert(strs_view(raw@)[q] == raw@[q]@);
                assert(has_key(names@, m));
                let k = choose|k: int| 0 <= k < names@.len() && #[trigger] names@[k].0 == m;
                assert(strs_view(out@)[k] == m);
                assert(strs_view(out@).contains(m));
            }
        }
        assert(strs_view(out@).to_set() =~= discovered_names(strs_view(raw@)));
    }
    out
}

/// A text member of a JSON object, as the model list reader sees it.
pub enum TextMember {
    /// The member is not there (or the value is not an object).
    Absent,
    /// The member is there but is not a string.
    NotText,
    Text(String),
}

/// One entry of a model list: its `id` and `name` members.
pub struct ModelEntry {
    pub id: TextMember,
    pub name: TextMember,
}

/// A list member of the model list answer.
pub enum ListMember {
    /// The member is not there (or the answer is not an object).
    Absent,
    /// The member is there but is not a list.
    NotList,
    List(Vec<ModelEntry>),
}

/// The parts of a model list answer that are read: `data` and `models`.
pub struct ModelListing {
    pub data: ListMember,
    pub models: ListMember,
}

/// The name an entry gives: `id` when present (a string or nothing),
/// otherwise `name`.
pub open spec fn entry_name(e: ModelEntry) -> Option<Seq<char>> {
    match e.id {
        TextMember::Text(s) => Some(s@),
        TextMember::NotText => None,
        TextMember::Absent => match e.name {
            TextMember::Text(s) => Some(s@),
            _ => None,
        },
    }
}

/// The entries of the answer: `data` when present (a list or nothing),
/// otherwise `models`.
pub open spec fn listing_entries(l: ModelListing) -> Option<Seq<ModelEntry>> {
    match l.data {
        ListMember::List(v) => Some(v@),
        ListMember::NotList => None,
        ListMember::Absent => match l.models {
            ListMember::List(v) => Some(v@),
            _ => None,
        },
    }
}

/// The names the entries give, in order, entries without one left out.
pub open spec fn entry_names(es: Seq<ModelEntry>) -> Seq<Seq<char>>
    decreases es.len(),
{
    if es.len() == 0 {
        Seq::empty()
    } else {
        let rest = entry_names(es.drop_last());
        match entry_name(es.last()) {
            Some(n) => rest.push(n),
            None => rest,
        }
    }
}

/// The name of one entry.
fn entry_name_of(e: &ModelEntry) -> (r: Option<String>)
    ensures
        opt_view(r) == entry_name(*e),
{
    match &e.id {
        TextMember::Text(s) => Some(s.clone()),
        TextMember::NotText => None,
        TextMember::Absent => match &e.name {
            TextMember::Text(s) => Some(s.clone()),
            _ => None,
        },
    }
}

/// The models a discovery answer lists, sorted, without repeats, without
/// `models/` prefixes and empty names; a 502 answer when it has neither a
/// `data` nor a `models` list.
pub fn discovered_models(listing: &ModelListing) -> (r: Result<Vec<String>, ApiError>)
    ensures
        listing_entries(*listing) is None ==> (r matches Err(e) && api_error_is(
            e,
            ApiStatus::BadGateway,
            "model response has no data/models array"@,
        )),
        listing_entries(*listing) matches Some(es) ==> (r matches Ok(v)
            && crate::order::sorted_strs(strs_view(v@))
            && strs_view(v@).to_set() == discovered_names(entry_names(es))),
{
    let entries = match &listing.data {
        ListMember::List(v) => v,
        ListMember::NotList => return Err(ApiError::bad_gateway("model response has no data/models array")),
        ListMember::Absent => match &listing.models {
            ListMember::List(v) => v,
            _ => return Err(ApiError::bad_gateway("model response has no data/models array")),
        },
    };
    let mut raw: Vec<String> = Vec::new();
    let mut i: usize = 0;
    while i < entries.len()
        invariant
            i <= entries@.len(),
            strs_view(raw@) == entry_names(entries@.take(i as int)),
        decreases entries@.len() - i,
    {
        let ghost before = raw@;
        let name = entry_name_of(&entries[i]);
        assert(entries@.take(i + 1).drop_last() =~= entries@.take(i as int));
        assert(entries@.take(i + 1).last() == entries@[i as int]);
        match name {
            Some(n) => {
                let ghost nv = n@;
                raw.push(n);
                assert(strs_view(raw@) =~= strs_view(before).push(nv));
            },
            None => {},
        }
        i = i + 1;
    }
    assert(entries@.take(entries@.len() as int) =~= entries@);
    Ok(normalize_models(&raw))
}

/// Stores the discovered models with the provider; a 400 answer when the
/// provider listed none.
pub fn record_discovered_models(doc: ProviderDocument, id: &str, models: Vec<String>) -> (r: Result<ProviderDocument, ApiError>)
    ensures
        models@.len() == 0 ==> (r matches Err(e) && api_error_is(
            e,
            ApiStatus::BadRequest,
            "provider returned no available models"@,
        )),
        models@.len() > 0 && !has_key(doc.providers@, id@) ==> (r matches Ok(d) && d.providers@ == doc.providers@ && d.active@ == doc.active@),
        models@.len() > 0 && has_key(doc.providers@, id@) ==> (r matches Ok(d) && d.active@ == doc.active@
            && exists|v: ProviderSettings| v@ == (ProviderSettingsView { models: Some(strs_view(models@)), ..lookup(doc.providers@, id@)->0 })
                && #[trigger] inserted(doc.providers@, id@, v, d.providers@)),
{
    if models.len() == 0 {
        return Err(ApiError::bad_request("provider returned no available models"));
    }
    let mut settings = match doc.providers.get(id) {
        Some(p) => p.duplicate(),
        None => return Ok(doc),
    };
    let ghost target = ProviderSettingsView { models: Some(strs_view(models@)), ..lookup(doc.providers@, id@)->0 };
    settings.models = Some(models);
    assert(settings@ == target);
    let mut doc = doc;
    let ghost v = settings;
    let ghost old_providers = doc.providers@;
    let ghost old_active = doc.active@;
    doc.providers.insert(owned(id), settings);
    assert(inserted(old_providers, id@, v, doc.providers@));
    let ghost new_providers = doc.providers@;
    let r: Result<ProviderDocument, ApiError> = Ok(doc);
    assert(r matches Ok(d) && d.providers@ == new_providers && d.active@ == old_active);
    assert(exists|w: ProviderSettings| w@ == target && #[trigger] inserted(old_providers, id@, w, new_providers));
    r
}

} // verus!
