use ccswitch_live::dsh_config::{
    dsh_document, dsh_refs_slot_is_mapping, dsh_slots_are_mappings, get_dsh_credentials_path,
    get_dsh_dir, get_dsh_settings_path, read_dsh_live_settings, read_yaml_mapping,
    validate_dsh_settings, write_dsh_credential, write_dsh_provider_live,
};
use ccswitch_live::error::AppError;
use ccswitch_live::json::{JsonNumber, JsonValue};
use ccswitch_live::kimicode_config::{
    get_kimicode_config_path, get_kimicode_dir, get_kimicode_mcp_path, kimicode_document,
    kimicode_slots_are_tables, parse_toml, read_kimicode_live_settings,
    validate_kimicode_settings, write_kimicode_provider_live, DEFAULT_MAX_CONTEXT_SIZE,
};

fn from_serde(v: serde_json::Value) -> JsonValue {
    match v {
        serde_json::Value::Null => JsonValue::Null,
        serde_json::Value::Bool(b) => JsonValue::Bool(b),
        serde_json::Value::Number(n) => JsonValue::Number(match (n.as_u64(), n.as_i64()) {
            (Some(u), _) => JsonNumber::PosInt(u),
            (None, Some(i)) => JsonNumber::NegInt(i),
            (None, None) => JsonNumber::Float(n.to_string()),
        }),
        serde_json::Value::String(s) => JsonValue::String(s),
        serde_json::Value::Array(a) => JsonValue::Array(a.into_iter().map(from_serde).collect()),
        serde_json::Value::Object(m) => {
            JsonValue::Object(m.into_iter().map(|(k, v)| (k, from_serde(v))).collect())
        }
    }
}

fn j(text: &str) -> JsonValue {
    from_serde(serde_json::from_str(text).expect("test JSON"))
}

fn field<'a>(v: &'a JsonValue, key: &str) -> &'a str {
    v.get(key).and_then(|x| x.as_str()).unwrap_or("<missing>")
}

fn key_of(e: &AppError) -> String {
    e.key()
}

fn dsh_sample() -> JsonValue {
    j(r#"{
        "providerId": "moonshotai",
        "displayName": "Moonshot AI (Kimi)",
        "api": "openai-completions",
        "baseURL": "https://api.moonshot.ai/v1",
        "apiKeyEnv": "MOONSHOT_API_KEY",
        "apiKey": "sk-test",
        "models": [{ "id": "kimi-k2", "name": "Kimi K2", "contextWindow": 262144 }],
        "defaultModel": "kimi-k2"
    }"#)
}

fn kimi_sample() -> JsonValue {
    j(r#"{
        "providerKey": "moonshot",
        "type": "kimi",
        "baseUrl": "https://api.moonshot.ai/v1",
        "apiKey": "sk-test",
        "modelAlias": "kimi-code/kimi-for-coding",
        "modelId": "kimi-for-coding",
        "maxContextSize": 262144
    }"#)
}

#[test]
fn dsh_config_rejects_settings_without_required_fields() {
    let bad = j(r#"{ "providerId": "", "defaultModel": "" }"#);
    assert!(validate_dsh_settings(&bad).is_err());
}

#[test]
fn kimicode_config_rejects_settings_without_required_fields() {
    let bad = j(r#"{ "providerKey": "", "type": "kimi" }"#);
    assert!(validate_kimicode_settings(&bad).is_err());
}

#[test]
fn dsh_config_writes_then_reads_roundtrip() {
    let settings = dsh_sample();
    validate_dsh_settings(&settings).expect("valid settings");
    let root = dsh_document(None, "settings.yaml").expect("new document");
    assert!(dsh_slots_are_mappings(&root, "moonshotai"));
    let written = write_dsh_provider_live(&settings, root).expect("write live config");
    assert!(written.settings_yaml.contains("agent-default-model"));
    assert!(written.settings_yaml.contains("moonshotai"));

    let (env, key) = written.credential.as_ref().expect("credential to store");
    let creds_root = dsh_document(None, ".credentials.yaml").expect("new store");
    assert!(dsh_refs_slot_is_mapping(&creds_root));
    let creds_text = write_dsh_credential(creds_root, env, key).expect("store key");
    assert!(creds_text.contains("MOONSHOT_API_KEY"));
    assert!(creds_text.contains("sk-test"));

    let read_back =
        read_dsh_live_settings(&written.settings_yaml, Some(&creds_text)).expect("read back");
    assert_eq!(field(&read_back, "providerId"), "moonshotai");
    assert_eq!(field(&read_back, "defaultModel"), "kimi-k2");
    assert_eq!(field(&read_back, "apiKey"), "sk-test");
    assert_eq!(field(&read_back, "baseURL"), "https://api.moonshot.ai/v1");
    assert_eq!(field(&read_back, "displayName"), "Moonshot AI (Kimi)");
    assert_eq!(field(&read_back, "api"), "openai-completions");
    assert_eq!(field(&read_back, "apiKeyEnv"), "MOONSHOT_API_KEY");
    let models = read_back.get("models").expect("models");
    match models {
        JsonValue::Array(items) => {
            assert_eq!(items.len(), 1);
            assert_eq!(field(&items[0], "id"), "kimi-k2");
        }
        _ => panic!("models must be an array"),
    }
}

#[test]
fn preserves_unrelated_settings_namespaces() {
    let existing = "web-search-deepseek:\n  model: qwen3\n";
    let root = dsh_document(Some(existing), "settings.yaml").expect("existing document");
    let written = write_dsh_provider_live(&dsh_sample(), root).expect("write live config");
    assert!(written.settings_yaml.contains("web-search-deepseek"), "unrelated namespace preserved");
    assert!(written.settings_yaml.contains("qwen3"));
    let read_back = read_dsh_live_settings(&written.settings_yaml, None).expect("read back");
    assert_eq!(field(&read_back, "providerId"), "moonshotai");
    assert_eq!(field(&read_back, "apiKey"), "");
}

#[test]
fn dsh_credential_keeps_other_refs_and_version() {
    let existing = "version: 3\nrefs:\n  OTHER_KEY: keep-me\n";
    let root = dsh_document(Some(existing), ".credentials.yaml").expect("store");
    let text = write_dsh_credential(root, "MOONSHOT_API_KEY", "sk-new").expect("store key");
    let again = read_yaml_mapping(&text, ".credentials.yaml").expect("valid YAML");
    let refs = again.get("refs").expect("refs");
    assert_eq!(refs.get("OTHER_KEY").and_then(|v| v.as_str()), Some("keep-me"));
    assert_eq!(refs.get("MOONSHOT_API_KEY").and_then(|v| v.as_str()), Some("sk-new"));
    assert!(text.contains("version: 3"));
}

#[test]
fn dsh_credential_adds_version_to_new_store() {
    let root = dsh_document(None, ".credentials.yaml").expect("store");
    let text = write_dsh_credential(root, "K", "v").expect("store key");
    assert!(text.contains("version: 1"));
}

#[test]
fn dsh_validation_errors() {
    let e = validate_dsh_settings(&j("[1, 2]")).unwrap_err();
    assert_eq!(key_of(&e), "provider.dsh.settings.not_object");
    assert_eq!(e.message(), "DeepSeek Harness configuration must be a JSON object");

    let e = validate_dsh_settings(&j(r#"{ "providerId": "  ", "defaultModel": "m" }"#)).unwrap_err();
    assert_eq!(key_of(&e), "provider.dsh.field.missing");
    assert_eq!(e.message(), "DeepSeek Harness configuration is missing a valid providerId field");

    let e = validate_dsh_settings(&j(r#"{ "providerId": "p" }"#)).unwrap_err();
    assert_eq!(e.message(), "DeepSeek Harness configuration is missing a valid defaultModel field");

    assert!(validate_dsh_settings(&j(r#"{ "providerId": " p ", "defaultModel": "m" }"#)).is_ok());
}

#[test]
fn dsh_write_without_credential_fields_stores_none() {
    let settings = j(r#"{ "providerId": "p", "defaultModel": "m", "apiKey": "k" }"#);
    let root = dsh_document(None, "settings.yaml").expect("new document");
    let written = write_dsh_provider_live(&settings, root).expect("write");
    assert!(written.credential.is_none());
    let e = write_dsh_provider_live(&j(r#"{ "providerId": "p" }"#), dsh_document(None, "x").unwrap())
        .unwrap_err();
    assert_eq!(key_of(&e), "provider.dsh.field.missing");
}

#[test]
fn dsh_document_errors() {
    let e = read_yaml_mapping("- a\n- b\n", "settings.yaml").unwrap_err();
    assert_eq!(key_of(&e), "provider.dsh.config.not_mapping");
    assert_eq!(e.message(), "DeepSeek Harness settings.yaml must be a YAML mapping");

    let e = read_yaml_mapping("a: [1, 2\n", "settings.yaml").unwrap_err();
    assert_eq!(key_of(&e), "provider.dsh.config.invalid_yaml");
    assert!(e.message().starts_with("Invalid DeepSeek Harness settings.yaml: "));

    let blank = read_yaml_mapping("  \n", "settings.yaml").expect("blank is empty");
    assert!(blank.is_mapping());
}

#[test]
fn dsh_read_requires_default_provider() {
    let e = read_dsh_live_settings("agent-default-model:\n  model: m\n", None).unwrap_err();
    assert_eq!(key_of(&e), "provider.dsh.default_model.missing");
    assert_eq!(e.message(), "DeepSeek Harness configuration is missing agent-default-model.provider");

    let ok = read_dsh_live_settings("agent-default-model:\n  provider: ' p '\n", None).expect("read");
    assert_eq!(field(&ok, "providerId"), "p");
    assert_eq!(field(&ok, "baseURL"), "");
    assert_eq!(ok.get("models").map(|m| matches!(m, JsonValue::Array(a) if a.is_empty())), Some(true));
}

#[test]
fn dsh_slots_must_be_mappings() {
    let root = dsh_document(Some("llm-pi-ai: 3\n"), "settings.yaml").unwrap();
    assert!(!dsh_slots_are_mappings(&root, "p"));
    let root = dsh_document(Some("llm-pi-ai:\n  providers:\n    p: {}\n"), "settings.yaml").unwrap();
    assert!(dsh_slots_are_mappings(&root, "p"));
    let creds = dsh_document(Some("refs: nope\n"), ".credentials.yaml").unwrap();
    assert!(!dsh_refs_slot_is_mapping(&creds));
}

#[test]
fn dsh_paths() {
    assert_eq!(get_dsh_dir(None, None, "/home/u"), "/home/u/.dsh");
    assert_eq!(get_dsh_dir(None, Some("  /opt/dsh  ".to_string()), "/home/u"), "/opt/dsh");
    assert_eq!(get_dsh_dir(None, Some("   ".to_string()), "/home/u"), "/home/u/.dsh");
    assert_eq!(get_dsh_dir(Some("/cfg".to_string()), Some("/opt".to_string()), "/home/u"), "/cfg");
    assert_eq!(get_dsh_settings_path("/home/u/.dsh"), "/home/u/.dsh/settings.yaml");
    assert_eq!(get_dsh_credentials_path("/home/u/.dsh/"), "/home/u/.dsh/.credentials.yaml");
}

#[test]
fn kimicode_paths() {
    assert_eq!(get_kimicode_dir(None, None, "/home/u"), "/home/u/.kimi-code");
    assert_eq!(get_kimicode_dir(None, Some(" /k ".to_string()), "/home/u"), "/k");
    assert_eq!(get_kimicode_config_path("/home/u/.kimi-code"), "/home/u/.kimi-code/config.toml");
    assert_eq!(get_kimicode_mcp_path("/home/u/.kimi-code"), "/home/u/.kimi-code/mcp.json");
}

#[test]
fn kimicode_config_writes_then_reads_roundtrip() {
    let mut doc = kimicode_document(None).expect("new document");
    assert!(kimicode_slots_are_tables(&doc));
    let text = write_kimicode_provider_live(&kimi_sample(), &mut doc).expect("write live config");
    assert!(text.parse::<toml::Value>().is_ok(), "output must be valid TOML: {text}");

    let read_back = read_kimicode_live_settings(&text).expect("read back");
    assert_eq!(field(&read_back, "providerKey"), "moonshot");
    assert_eq!(field(&read_back, "modelAlias"), "kimi-code/kimi-for-coding");
    assert_eq!(field(&read_back, "modelId"), "kimi-for-coding");
    assert_eq!(read_back.get("maxContextSize").and_then(|v| v.as_i64()), Some(262144));
    assert_eq!(field(&read_back, "type"), "kimi");
    assert_eq!(field(&read_back, "baseUrl"), "https://api.moonshot.ai/v1");
    assert_eq!(field(&read_back, "apiKey"), "sk-test");
}

#[test]
fn preserves_unrelated_sections() {
    let existing = "[thinking]\nenabled = true\neffort = \"high\"\n\n[providers.managed]\ntype = \"kimi\"\napi_key = \"oauth\"\n";
    let mut doc = kimicode_document(Some(existing)).expect("existing document");
    assert!(kimicode_slots_are_tables(&doc));
    let text = write_kimicode_provider_live(&kimi_sample(), &mut doc).expect("write live config");
    assert!(text.contains("[thinking]"), "unrelated section preserved: {text}");
    assert!(text.contains("managed"), "oauth provider preserved: {text}");
    let read_back = read_kimicode_live_settings(&text).expect("read back");
    assert_eq!(field(&read_back, "providerKey"), "moonshot");
}

#[test]
fn kimicode_defaults_on_read() {
    let text = "default_model = \"alias\"\n[models.alias]\nprovider = \"p\"\nmodel = \"m\"\nmax_context_size = 0\n";
    let read_back = read_kimicode_live_settings(text).expect("read");
    assert_eq!(read_back.get("maxContextSize").and_then(|v| v.as_i64()), Some(DEFAULT_MAX_CONTEXT_SIZE));
    assert_eq!(field(&read_back, "type"), "kimi");
    assert_eq!(field(&read_back, "providerKey"), "p");
    assert_eq!(field(&read_back, "baseUrl"), "");
}

#[test]
fn kimicode_write_uses_default_context_size() {
    let settings = j(r#"{ "providerKey": "p", "type": "t", "modelAlias": "a", "modelId": "m", "maxContextSize": -5 }"#);
    let mut doc = kimicode_document(None).unwrap();
    let text = write_kimicode_provider_live(&settings, &mut doc).expect("write");
    let back = read_kimicode_live_settings(&text).expect("read");
    assert_eq!(back.get("maxContextSize").and_then(|v| v.as_i64()), Some(262144));
    assert!(!text.contains("base_url"));
    assert!(!text.contains("api_key"));
}

#[test]
fn kimicode_errors() {
    let e = read_kimicode_live_settings("x = = 1").unwrap_err();
    assert_eq!(key_of(&e), "provider.kimicode.config.invalid_toml");
    assert!(e.message().starts_with("Invalid Kimi Code config.toml: "));

    let e = read_kimicode_live_settings("a = 1\n").unwrap_err();
    assert_eq!(key_of(&e), "provider.kimicode.default_model.missing");
    assert_eq!(e.message(), "Kimi Code configuration is missing default_model");

    assert!(parse_toml("a = 1").is_ok());
    assert!(kimicode_document(Some("[[[")).is_err());

    let e = validate_kimicode_settings(&j("\"text\"")).unwrap_err();
    assert_eq!(key_of(&e), "provider.kimicode.settings.not_object");
    let e = validate_kimicode_settings(&j(r#"{ "providerKey": "k", "type": "t", "modelAlias": "a" }"#))
        .unwrap_err();
    assert_eq!(e.message(), "Kimi Code configuration is missing a valid modelId field");
}

#[test]
fn kimicode_slots_must_be_tables() {
    let doc = kimicode_document(Some("providers = 3\n")).unwrap();
    assert!(!kimicode_slots_are_tables(&doc));
    let doc = kimicode_document(Some("models = { a = 1 }\n")).unwrap();
    assert!(!kimicode_slots_are_tables(&doc));
}

#[test]
fn dsh_settings_never_hold_the_key() {
    let root = dsh_document(None, "settings.yaml").expect("new document");
    let written = write_dsh_provider_live(&dsh_sample(), root).expect("write");
    assert!(!written.settings_yaml.contains("sk-test"));
    assert!(written.settings_yaml.contains("MOONSHOT_API_KEY"));
}
