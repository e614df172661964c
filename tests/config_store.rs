use harbor_bridge::config::{
    get_provider_display_name, LegacyLlmConfig, LegacyProviderSettings, LlmConfig, ModelAlias, ProviderInstance,
};
use harbor_bridge::llm::{
    is_local_type, message_role, needs_api_key, MessageRole,
    choose_model, chunk_kind, get_provider_config_for_model, get_type_display_name, is_local_model,
    resolve_provider_type, ConfigStore, StreamEventKind, StreamForwarder,
};
use harbor_bridge::messages::{classify_incoming, console_message, route_stdio_rpc, IncomingKind, RpcRoute};
use harbor_bridge::text::{decimal, hex, prefix_before_colon, suffix_after_colon};

fn legacy(enabled: bool, key: Option<&str>) -> LegacyProviderSettings {
    LegacyProviderSettings { enabled, api_key: key.map(|k| k.to_string()), base_url: None }
}

#[test]
fn migration_makes_one_default_instance_per_type() {
    let old = LegacyLlmConfig {
        default_model: Some("openai:gpt-4o".to_string()),
        providers: vec![
            ("openai".to_string(), legacy(true, Some("sk"))),
            ("ollama".to_string(), legacy(false, None)),
        ],
    };
    let cfg = LlmConfig::migrate_from_legacy(old);
    assert_eq!(cfg.version, 2);
    assert_eq!(cfg.providers.entries.len(), 2);
    let openai = cfg.get_instance("openai").unwrap();
    assert_eq!(openai.id, "openai");
    assert_eq!(openai.name, "OpenAI");
    assert!(openai.is_type_default);
    assert_eq!(openai.api_key.as_deref(), Some("sk"));
    assert!(cfg.get_instance("ollama").unwrap().is_type_default);
    assert!(!cfg.is_provider_enabled("ollama"));
    assert_eq!(cfg.default_provider.as_deref(), Some("openai"));
    assert_eq!(cfg.default_model.as_deref(), Some("openai:gpt-4o"));
}

#[test]
fn migration_without_matching_default() {
    let old = LegacyLlmConfig {
        default_model: Some("groq:llama".to_string()),
        providers: vec![("custom".to_string(), legacy(true, None))],
    };
    let cfg = LlmConfig::migrate_from_legacy(old);
    assert_eq!(cfg.default_provider, None);
    assert_eq!(cfg.get_instance("custom").unwrap().name, "Custom");
}

#[test]
fn display_names() {
    assert_eq!(get_provider_display_name("lmstudio"), "LM Studio");
    assert_eq!(get_provider_display_name("openai"), "OpenAI");
    assert_eq!(get_provider_display_name("deepseek"), "Deepseek");
    assert_eq!(get_provider_display_name(""), "");
    assert_eq!(get_type_display_name("ßx"), "SSx");
}

#[test]
fn instances_and_defaults() {
    let mut cfg = LlmConfig::default();
    let a = cfg.add_instance(ProviderInstance::with_id("openai-a", "openai", "A"));
    let b = cfg.add_instance(ProviderInstance::with_id("openai-b", "openai", "B"));
    assert_eq!(a, "openai-a");
    assert_eq!(b, "openai-b");
    assert!(cfg.get_instance("openai-a").unwrap().is_type_default);
    assert!(!cfg.get_instance("openai-b").unwrap().is_type_default);
    assert_eq!(cfg.default_provider.as_deref(), Some("openai-a"));
    assert_eq!(cfg.get_instances_by_type("openai").len(), 2);
    assert_eq!(cfg.get_type_default("openai").unwrap().id, "openai-a");
    assert_eq!(cfg.resolve_provider("openai").unwrap().id, "openai-a");
    assert_eq!(cfg.resolve_provider("openai-b").unwrap().id, "openai-b");
    assert!(cfg.resolve_provider("anthropic").is_none());
    assert!(cfg.set_type_default("openai-b"));
    assert!(!cfg.get_instance("openai-a").unwrap().is_type_default);
    assert!(cfg.get_instance("openai-b").unwrap().is_type_default);
    assert!(!cfg.set_type_default("missing"));
    assert!(cfg.set_global_default("openai-b"));
    assert!(!cfg.set_global_default("missing"));
    assert_eq!(cfg.get_global_default().unwrap().id, "openai-b");
    let gone = cfg.remove_instance("openai-b").unwrap();
    assert_eq!(gone.id, "openai-b");
    assert_eq!(cfg.default_provider.as_deref(), Some("openai-a"));
    assert!(cfg.get_instance("openai-a").unwrap().is_type_default);
    assert!(cfg.remove_instance("openai-b").is_none());
    if let Some(p) = cfg.get_instance_mut("openai-a") {
        p.enabled = false;
    }
    assert!(!cfg.is_provider_enabled("openai-a"));
}

#[test]
fn generated_instance_ids() {
    let p = ProviderInstance::new("ollama", "Local");
    assert!(p.id.starts_with("ollama-"));
    assert!(p.id.len() > "ollama-".len());
    assert!(p.enabled);
    assert_eq!(hex(255), "ff");
    assert_eq!(decimal(0), "0");
    assert_eq!(decimal(1203), "1203");
}

#[test]
fn model_aliases() {
    let mut cfg = LlmConfig::default();
    assert_eq!(cfg.add_model("ollama:llama3.2:latest", None), "llama3.2");
    assert_eq!(cfg.add_model("ollama:llama3.2:8b", None), "llama3.2-2");
    assert_eq!(cfg.add_model("other:llama3.2", None), "llama3.2-3");
    assert_eq!(cfg.add_model("plain", Some("mine")), "mine");
    assert_eq!(cfg.add_model("x", None), "x");
    assert!(cfg.get_models()[0].is_default);
    assert!(!cfg.get_models()[1].is_default);
    assert_eq!(cfg.get_model("mine").unwrap().model_id, "plain");
    assert_eq!(cfg.resolve_model("mine"), Some("plain".to_string()));
    assert_eq!(cfg.resolve_model("raw:id"), Some("raw:id".to_string()));
    assert_eq!(cfg.get_default_model().unwrap().name, "llama3.2");
    assert!(cfg.set_default_model_by_name("mine"));
    assert!(!cfg.set_default_model_by_name("nope"));
    assert_eq!(cfg.get_default_model().unwrap().name, "mine");
    assert!(cfg.remove_model("mine"));
    assert!(!cfg.remove_model("mine"));
    assert_eq!(cfg.get_default_model().unwrap().name, "llama3.2");
    assert!(cfg.get_models()[0].is_default);
}

#[test]
fn sync_default_model_from_aliases() {
    let mut cfg = LlmConfig::default();
    cfg.models.push(ModelAlias { name: "a".to_string(), model_id: "ollama:a".to_string(), is_default: false });
    cfg.models.push(ModelAlias { name: "b".to_string(), model_id: "openai:b".to_string(), is_default: true });
    cfg.sync_default_model();
    assert_eq!(cfg.default_model.as_deref(), Some("openai:b"));
}

#[test]
fn store_and_provider_lookup() {
    let mut store = ConfigStore::new();
    assert!(store.get_config().is_none());
    let mut cfg = LlmConfig::default();
    let mut inst = ProviderInstance::with_id("work", "openai", "Work");
    inst.api_key = Some("k".to_string());
    cfg.add_instance(inst);
    store.set_config(cfg);
    let got = store.get_config();
    assert_eq!(resolve_provider_type(&got, "work"), Some("openai".to_string()));
    assert_eq!(resolve_provider_type(&got, "anthropic"), Some("anthropic".to_string()));
    assert_eq!(resolve_provider_type(&None, "work"), None);
    let settings = get_provider_config_for_model(&got, "openai:gpt-4o").unwrap();
    assert_eq!(settings.api_key.as_deref(), Some("k"));
    assert!(get_provider_config_for_model(&got, "groq:x").is_none());
    assert!(is_local_model("ollama:llama3"));
    assert!(is_local_model("llamafile:x"));
    assert!(!is_local_model("openai:gpt"));
}

#[test]
fn chat_model_choice_and_stream_end() {
    assert_eq!(choose_model(Some("m".to_string()), &None).unwrap(), "m");
    let e = choose_model(None, &None).unwrap_err();
    assert_eq!(e.code, -32602);
    assert_eq!(e.message, "No model specified and no default model configured");
    let mut f = StreamForwarder::new();
    assert!(f.admit_event(chunk_kind(false, false)));
    assert!(f.admit_event(chunk_kind(false, true)));
    assert!(!f.admit_event(StreamEventKind::Token));
    assert_eq!(chunk_kind(true, true).as_str(), "error");
}

#[test]
fn transport_decisions() {
    assert_eq!(classify_incoming("ping"), IncomingKind::Ping);
    assert_eq!(classify_incoming("host_response"), IncomingKind::HostResponse);
    assert_eq!(classify_incoming("weird"), IncomingKind::Unknown);
    assert_eq!(route_stdio_rpc("llm.chat_stream"), RpcRoute::Stream);
    assert_eq!(route_stdio_rpc("js.call"), RpcRoute::CallWithHost);
    assert_eq!(route_stdio_rpc("system.health"), RpcRoute::Dispatch);
    let m = console_message("g", None, &vec!["a".to_string(), "b c".to_string()]);
    assert_eq!(m.level, "log");
    assert_eq!(m.message, "a b c");
    assert_eq!(prefix_before_colon("a:b:c"), "a");
    assert_eq!(suffix_after_colon("a:b:c"), Some("b:c".to_string()));
    assert_eq!(suffix_after_colon("abc"), None);
}

fn update(id: Option<&str>, provider: Option<&str>) -> harbor_bridge::config::ProviderUpdate {
    harbor_bridge::config::ProviderUpdate {
        id: id.map(String::from),
        provider_type: provider.map(String::from),
        name: None,
        api_key: None,
        base_url: None,
        base_url_present: false,
        enabled: true,
    }
}

#[test]
fn configure_provider_creates_updates_and_rejects() {
    let mut cfg = LlmConfig::default();
    let mut u = update(None, Some("groq"));
    u.api_key = Some("g".to_string());
    let id = cfg.configure_provider(u).unwrap();
    assert!(id.starts_with("groq-"));
    let inst = cfg.get_instance(&id).unwrap();
    assert_eq!(inst.name, "Groq");
    assert_eq!(inst.api_key.as_deref(), Some("g"));
    assert!(inst.is_type_default);
    assert_eq!(cfg.default_provider.as_deref(), Some(id.as_str()));

    let mut again = update(None, Some("groq"));
    again.name = Some("Fast".to_string());
    again.enabled = false;
    assert_eq!(cfg.configure_provider(again).unwrap(), id);
    let inst = cfg.get_instance(&id).unwrap();
    assert_eq!(inst.name, "Fast");
    assert_eq!(inst.api_key.as_deref(), Some("g"));
    assert!(!inst.enabled);

    let mut by_id = update(Some(&id), None);
    by_id.base_url = None;
    by_id.base_url_present = true;
    assert_eq!(cfg.configure_provider(by_id).unwrap(), id);
    assert!(cfg.get_instance(&id).unwrap().enabled);

    let missing = cfg.configure_provider(update(Some("nope"), None)).unwrap_err();
    assert_eq!(missing.code, -32602);
    assert_eq!(missing.message, "Provider instance 'nope' not found");
    let neither = cfg.configure_provider(update(None, None)).unwrap_err();
    assert_eq!(neither.message, "Missing 'provider' or 'id' parameter");
}

#[test]
fn provider_type_traits() {
    assert!(needs_api_key("anthropic"));
    assert!(!needs_api_key("ollama"));
    assert!(is_local_type("lmstudio"));
    assert!(!is_local_type("openai"));
}

#[test]
fn chat_roles() {
    assert_eq!(message_role("system"), MessageRole::System);
    assert_eq!(message_role("assistant"), MessageRole::Assistant);
    assert_eq!(message_role("tool"), MessageRole::Tool);
    assert_eq!(message_role("user"), MessageRole::User);
    assert_eq!(message_role("narrator"), MessageRole::User);
}
