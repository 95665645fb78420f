use coomi::providers::{
    activate_provider, copy_provider, default_base_url, delete_provider, discovered_models,
    discovery_auth, discovery_failure, empty_provider_document, list_providers, mask_key,
    model_name, models_endpoint, normalize_models, preview, provider_models, provider_view,
    provider_health, record_discovered_models, reveal_provider_key, select_model, upsert_provider, ApiStatus,
    DiscoveryAuth, ListMember, ModelEntry, ModelListing, ProviderDocument, ProviderInput,
    ProviderSettings, TextMember,
};

fn settings(model: &str) -> ProviderSettings {
    let mut p = ProviderSettings::empty();
    p.provider_type = "openai_compatible".into();
    p.base_url = "https://example.test/v1".into();
    p.model = model.into();
    p
}

fn input(id: &str) -> ProviderInput {
    ProviderInput {
        id: Some(id.into()),
        name: None,
        provider_type: Some("openai_compatible".into()),
        tool_protocol: None,
        context_window: None,
        base_url: None,
        models: Vec::new(),
        model: Some("m".into()),
        fast_model: None,
        api_key: None,
        supports_web_search: None,
        activate: None,
    }
}

fn document(ids: &[&str], active: &str) -> ProviderDocument {
    let mut doc = empty_provider_document();
    for id in ids {
        doc.providers.insert(id.to_string(), settings("m"));
    }
    doc.active = active.into();
    doc
}

#[test]
fn provider_json_never_exposes_secret() {
    let mut provider = ProviderSettings::empty();
    provider.display = "Primary".into();
    provider.api_key = "secret-123456".into();
    provider.base_url = "https://example.test/v1".into();
    provider.model = "main".into();
    provider.fast_model = Some("fast".into());
    let value = provider_view("primary", &provider, true);
    assert_eq!(value.api_key_masked, "****3456");
    assert_eq!(value.models, vec!["main".to_string(), "fast".to_string()]);
    assert_eq!(value.context_window, 256_000);
    let shown = [
        &value.id, &value.name, &value.api_key_masked, &value.base_url, &value.provider_type,
        &value.model,
    ];
    assert!(shown.iter().all(|field| !field.contains("secret-123456")));
    assert!(value.models.iter().all(|m| !m.contains("secret-123456")));
    assert!(value.has_key);
    assert!(value.active);
    assert_eq!(value.name, "Primary");
}

#[test]
fn masking_keeps_only_the_last_four_characters() {
    assert_eq!(mask_key(""), "");
    assert_eq!(mask_key("abc"), "****abc");
    assert_eq!(mask_key("abcdef"), "****cdef");
    assert_eq!(mask_key("ключ-секрет"), "****крет");
}

#[test]
fn well_known_providers_have_default_urls() {
    assert_eq!(default_base_url("OpenAI"), "https://api.openai.com/v1");
    assert_eq!(default_base_url("gemini"), "https://generativelanguage.googleapis.com/v1beta");
    assert_eq!(default_base_url("Google"), "https://generativelanguage.googleapis.com/v1beta");
    assert_eq!(default_base_url("zhipu"), "https://open.bigmodel.cn/api/paas/v4");
    assert_eq!(default_base_url("custom"), "");
}

#[test]
fn provider_models_lists_stored_then_main_then_fast() {
    let mut p = settings("main");
    p.models = Some(vec![" a ".into(), "".into(), "main".into()]);
    p.fast_model = Some("fast".into());
    assert_eq!(provider_models(&p), vec!["a".to_string(), "main".to_string(), "fast".to_string()]);
}

#[test]
fn upsert_creates_and_activates_the_first_provider() {
    let doc = upsert_provider(empty_provider_document(), &input("openai")).ok().expect("saved");
    assert_eq!(doc.active, "openai");
    let saved = doc.providers.get("openai").expect("stored");
    assert_eq!(saved.display, "openai");
    assert_eq!(saved.base_url, "https://api.openai.com/v1");
    assert_eq!(saved.context_window, Some(256_000));
    assert_eq!(saved.tool_protocol.as_deref(), Some("openai_compatible"));
    assert_eq!(saved.model, "m");
}

#[test]
fn upsert_refuses_invalid_requests() {
    let mut no_id = input("x");
    no_id.id = Some("   ".into());
    let e = upsert_provider(empty_provider_document(), &no_id).err().expect("refused");
    assert_eq!(e.status, ApiStatus::BadRequest);
    assert_eq!(e.status_code(), 400);
    assert_eq!(e.message, "provider id is required");

    let mut bad_type = input("x");
    bad_type.provider_type = Some("soap".into());
    let e = upsert_provider(empty_provider_document(), &bad_type).err().expect("refused");
    assert_eq!(e.message, "unsupported provider compatibility mode");

    let mut bad_window = input("openai");
    bad_window.context_window = Some(1000);
    let e = upsert_provider(empty_provider_document(), &bad_window).err().expect("refused");
    assert_eq!(e.message, "context window must be 128000, 256000, or 512000");

    let mut no_model = input("openai");
    no_model.model = None;
    let e = upsert_provider(empty_provider_document(), &no_model).err().expect("refused");
    assert_eq!(e.message, "at least one model is required");

    let no_url = input("custom");
    let e = upsert_provider(empty_provider_document(), &no_url).err().expect("refused");
    assert_eq!(e.message, "base URL is required");
}

#[test]
fn upsert_takes_models_from_the_list_and_keeps_the_key() {
    let mut first = input("openai");
    first.api_key = Some("k1".into());
    let doc = upsert_provider(empty_provider_document(), &first).ok().expect("saved");
    let mut edit = input("openai");
    edit.model = None;
    edit.models = vec![" big ".into(), "small".into()];
    edit.api_key = Some("".into());
    let doc = upsert_provider(doc, &edit).ok().expect("saved");
    let saved = doc.providers.get("openai").expect("stored");
    assert_eq!(saved.model, "big");
    assert_eq!(saved.fast_model.as_deref(), Some("small"));
    assert_eq!(saved.api_key, "k1");
    assert_eq!(saved.models, Some(vec!["big".to_string(), "small".to_string()]));
}

#[test]
fn upsert_activates_only_when_asked() {
    let doc = document(&["a"], "a");
    let mut second = input("b");
    second.base_url = Some("https://b.test".into());
    let doc = upsert_provider(doc, &second).ok().expect("saved");
    assert_eq!(doc.active, "a");
    let mut third = input("c");
    third.base_url = Some("https://c.test".into());
    third.activate = Some(true);
    let doc = upsert_provider(doc, &third).ok().expect("saved");
    assert_eq!(doc.active, "c");
}

#[test]
fn delete_keeps_one_provider_and_moves_the_active_one() {
    let e = delete_provider(document(&["a"], "a"), "a").err().expect("refused");
    assert_eq!(e.message, "at least one provider must remain configured");
    let e = delete_provider(document(&["a", "b"], "a"), "zz").err().expect("refused");
    assert_eq!(e.status, ApiStatus::NotFound);
    assert_eq!(e.status_code(), 404);
    let doc = delete_provider(document(&["b", "a", "c"], "a"), "a").ok().expect("deleted");
    assert_eq!(doc.active, "b");
    assert_eq!(doc.providers.len(), 2);
    assert!(!doc.providers.contains_key("a"));
    let doc = delete_provider(document(&["a", "b"], "b"), "a").ok().expect("deleted");
    assert_eq!(doc.active, "b");
}

#[test]
fn activate_and_reveal_need_a_configured_provider() {
    let doc = activate_provider(document(&["a", "b"], "a"), "b").ok().expect("activated");
    assert_eq!(doc.active, "b");
    assert!(activate_provider(document(&["a"], "a"), "x").is_err());
    let mut doc = document(&["a"], "a");
    let mut keyed = settings("m");
    keyed.api_key = "sk-1".into();
    doc.providers.insert("a".into(), keyed);
    assert_eq!(reveal_provider_key(&doc, "a").ok().as_deref(), Some("sk-1"));
    assert_eq!(reveal_provider_key(&doc, "b").err().map(|e| e.status), Some(ApiStatus::NotFound));
}

#[test]
fn copies_take_the_first_free_name() {
    let (doc, id) = copy_provider(document(&["a"], "a"), "a").ok().expect("copied");
    assert_eq!(id, "a-copy");
    let (doc, id) = copy_provider(doc, "a").ok().expect("copied");
    assert_eq!(id, "a-copy-2");
    let (doc, id) = copy_provider(doc, "a").ok().expect("copied");
    assert_eq!(id, "a-copy-3");
    assert_eq!(doc.providers.len(), 4);
    assert_eq!(doc.active, "a");
    assert!(copy_provider(doc, "nope").is_err());
}

#[test]
fn selecting_a_model_activates_its_provider() {
    let doc = select_model(document(&["a", "b"], "a"), "b", "new").expect("selected");
    assert_eq!(doc.active, "b");
    let b = doc.providers.get("b").expect("kept");
    assert_eq!(b.model, "new");
    assert_eq!(b.models, None);
    assert_eq!(provider_models(b), vec!["new".to_string()]);
    assert!(select_model(document(&["a"], "a"), "z", "m").is_none());
}

#[test]
fn listing_marks_the_active_provider() {
    let list = list_providers(&document(&["b", "a"], "b"));
    assert_eq!(list.len(), 2);
    assert_eq!(list[0].id, "a");
    assert!(!list[0].active);
    assert_eq!(list[1].id, "b");
    assert!(list[1].active);
    assert!(!list[1].has_key);
    assert_eq!(list[1].api_key_masked, "");
}

#[test]
fn discovery_request_shape() {
    assert_eq!(models_endpoint("https://x.test/v1//").ok().as_deref(), Some("https://x.test/v1/models"));
    assert_eq!(models_endpoint("///").err().map(|e| e.message), Some("base URL is required".to_string()));
    assert!(matches!(discovery_auth("gemini_native", "k"), DiscoveryAuth::QueryKey(k) if k == "k"));
    assert!(matches!(discovery_auth("anthropic_messages", "k"), DiscoveryAuth::AnthropicKey(k) if k == "k"));
    assert!(matches!(discovery_auth("openai_compatible", "k"), DiscoveryAuth::Bearer(k) if k == "k"));
    assert!(matches!(discovery_auth("openai_compatible", ""), DiscoveryAuth::Anonymous));
}

#[test]
fn discovery_answers_are_normalized() {
    assert_eq!(model_name("models/gemini-pro"), "gemini-pro");
    assert_eq!(model_name("gpt"), "gpt");
    let raw = vec!["b".to_string(), "models/a".to_string(), "".to_string(), "b".to_string(), "models/".to_string()];
    assert_eq!(normalize_models(&raw), vec!["a".to_string(), "b".to_string()]);
    let listing = ModelListing {
        data: ListMember::Absent,
        models: ListMember::List(vec![
            ModelEntry { id: TextMember::Absent, name: TextMember::Text("models/z".into()) },
            ModelEntry { id: TextMember::Text("y".into()), name: TextMember::Text("ignored".into()) },
            ModelEntry { id: TextMember::NotText, name: TextMember::Text("skipped".into()) },
        ]),
    };
    assert_eq!(discovered_models(&listing).ok(), Some(vec!["y".to_string(), "z".to_string()]));
    let no_list = ModelListing { data: ListMember::NotList, models: ListMember::List(Vec::new()) };
    let e = discovered_models(&no_list).err().expect("refused");
    assert_eq!(e.status, ApiStatus::BadGateway);
    assert_eq!(e.status_code(), 502);
    assert_eq!(e.message, "model response has no data/models array");
}

#[test]
fn discovery_failures_show_a_preview() {
    let long = "x".repeat(1_500);
    let p = preview(&long);
    assert_eq!(p.chars().count(), 1_003);
    assert!(p.ends_with("..."));
    assert_eq!(preview("short"), "short");
    let e = discovery_failure("401 Unauthorized", "nope");
    assert_eq!(e.message, "model discovery returned HTTP 401 Unauthorized: nope");
}

#[test]
fn discovered_models_are_stored_with_the_provider() {
    let e = record_discovered_models(document(&["a"], "a"), "a", Vec::new()).err().expect("refused");
    assert_eq!(e.message, "provider returned no available models");
    let doc = record_discovered_models(document(&["a"], "a"), "a", vec!["x".into()]).ok().expect("stored");
    assert_eq!(doc.providers.get("a").and_then(|p| p.models.clone()), Some(vec!["x".to_string()]));
}

#[test]
fn health_reports_the_active_model() {
    let h = provider_health(&document(&["a"], "a"));
    assert!(h.initialized);
    assert_eq!(h.status, "ok");
    assert_eq!(h.llm.as_deref(), Some("m"));
    let h = provider_health(&document(&["a"], "gone"));
    assert!(!h.initialized);
    assert_eq!(h.status, "setup_required");
    assert_eq!(h.llm, None);
}
