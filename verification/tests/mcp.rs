use ccswitch_live::app_config::{McpApps, McpConfig, McpRoot, McpServer, MultiAppConfig};
use ccswitch_live::json::{JsonNumber, JsonValue};
use ccswitch_live::kimicode_config::{read_mcp_servers_map, set_mcp_servers_map};
use ccswitch_live::mcp::kimicode::{
    collect_enabled_servers, import_from_kimicode, remove_server_from_kimicode,
    should_sync_kimicode_mcp, sync_enabled_to_kimicode, sync_single_server_to_kimicode,
};
use ccswitch_live::mcp::validation::{extract_server_spec, validate_server_spec};

fn from_serde(v: serde_json::Value) -> JsonValue {
    match v {
        serde_json::Value::Null => JsonValue::Null,
        serde_json::Value::Bool(b) => JsonValue::Bool(b),
        serde_json::Value::Number(n) => JsonValue::Number(match (n.as_u64(), n.as_i64()) {
            (Some(u), _) => JsonNumber::PosInt(u),
            (None, Some(i)) => JsonNumber::NegInt(i),
            (None, None) => JsonNumber::Float(n.to_string()),
        }),
        serde_json::Value::String(s) => JsonValue::String(s),
        serde_json::Value::Array(a) => JsonValue::Array(a.into_iter().map(from_serde).collect()),
        serde_json::Value::Object(m) => {
            JsonValue::Object(m.into_iter().map(|(k, v)| (k, from_serde(v))).collect())
        }
    }
}

fn j(text: &str) -> JsonValue {
    from_serde(serde_json::from_str(text).expect("test JSON"))
}

fn entries(text: &str) -> Vec<(String, JsonValue)> {
    match j(text) {
        JsonValue::Object(e) => e,
        _ => panic!("test JSON must be an object"),
    }
}

fn keys(e: &[(String, JsonValue)]) -> Vec<String> {
    e.iter().map(|(k, _)| k.clone()).collect()
}

fn no_apps() -> McpApps {
    McpApps {
        claude: true,
        codex: false,
        gemini: false,
        grokbuild: false,
        opencode: false,
        hermes: false,
        kimicode: false,
    }
}

fn config_with(claude: &str, servers: Option<Vec<(String, McpServer)>>) -> MultiAppConfig {
    MultiAppConfig {
        mcp: McpRoot { claude: McpConfig { servers: entries(claude) }, servers },
    }
}

fn existing_server(id: &str, kimicode: bool) -> McpServer {
    let mut apps = no_apps();
    apps.kimicode = kimicode;
    McpServer {
        id: id.to_string(),
        name: format!("{id} name"),
        server: j(r#"{"command":"old"}"#),
        apps,
        description: Some("kept".to_string()),
        homepage: None,
        docs: None,
        tags: vec!["t".to_string()],
    }
}

#[test]
fn sync_only_when_kimicode_is_set_up() {
    assert!(!should_sync_kimicode_mcp(false, false));
    assert!(should_sync_kimicode_mcp(true, false));
    assert!(should_sync_kimicode_mcp(false, true));
}

#[test]
fn enabled_servers_are_collected() {
    let cfg = config_with(
        r#"{
            "a": {"enabled": true, "server": {"type": "stdio", "command": "npx"}},
            "b": {"enabled": false, "server": {"command": "x"}},
            "c": {"enabled": true, "server": "not an object"},
            "d": {"server": {"command": "y"}},
            "e": {"enabled": true, "server": {"url": "http://e"}}
        }"#,
        None,
    );
    let out = collect_enabled_servers(&cfg.mcp.claude);
    assert_eq!(keys(&out), vec!["a".to_string(), "e".to_string()]);
    assert_eq!(out[0].1.get("command").and_then(|v| v.as_str()), Some("npx"));
    let synced = sync_enabled_to_kimicode(&cfg);
    assert_eq!(keys(&synced), vec!["a".to_string(), "e".to_string()]);
}

#[test]
fn single_server_set_and_removed() {
    let current = entries(r#"{"a": {"command": "1"}, "b": {"command": "2"}}"#);
    let spec = j(r#"{"url": "http://new", "type": "http"}"#);
    let set = sync_single_server_to_kimicode(&current, "a", &spec);
    assert_eq!(keys(&set), vec!["a".to_string(), "b".to_string()]);
    assert_eq!(set[0].1.get("url").and_then(|v| v.as_str()), Some("http://new"));
    let added = sync_single_server_to_kimicode(&current, "z", &spec);
    assert_eq!(keys(&added), vec!["a".to_string(), "b".to_string(), "z".to_string()]);
    let removed = remove_server_from_kimicode(&current, "a");
    assert_eq!(keys(&removed), vec!["b".to_string()]);
    let untouched = remove_server_from_kimicode(&current, "missing");
    assert_eq!(keys(&untouched), vec!["a".to_string(), "b".to_string()]);
}

#[test]
fn import_adds_and_enables_servers() {
    let mut config = config_with(
        "{}",
        Some(vec![
            ("known".to_string(), existing_server("known", false)),
            ("already".to_string(), existing_server("already", true)),
        ]),
    );
    let map = entries(
        r#"{
            "already": {"command": "a"},
            "bad": {"type": "ws", "url": "x"},
            "known": {"command": "k"},
            "new": {"type": "sse", "url": "http://n"}
        }"#,
    );
    let changed = import_from_kimicode(&mut config, &map);
    assert_eq!(changed, 2);
    let servers = config.mcp.servers.as_ref().expect("servers");
    assert_eq!(servers.len(), 3);
    let known = &servers[0].1;
    assert!(known.apps.kimicode);
    assert!(known.apps.claude);
    assert_eq!(known.name, "known name");
    assert_eq!(known.server.get("command").and_then(|v| v.as_str()), Some("old"));
    assert_eq!(known.description.as_deref(), Some("kept"));
    let new = &servers[2];
    assert_eq!(new.0, "new");
    assert_eq!(new.1.id, "new");
    assert_eq!(new.1.name, "new");
    assert!(new.1.apps.kimicode);
    assert!(!new.1.apps.claude);
    assert!(new.1.tags.is_empty());
    assert_eq!(new.1.server.get("url").and_then(|v| v.as_str()), Some("http://n"));
}

#[test]
fn import_of_nothing_changes_nothing() {
    let mut config = config_with("{}", None);
    assert_eq!(import_from_kimicode(&mut config, &Vec::new()), 0);
    assert!(config.mcp.servers.is_none());
    let mut config = config_with("{}", None);
    assert_eq!(import_from_kimicode(&mut config, &entries(r#"{"x": {"command": " "}}"#)), 0);
    assert!(config.mcp.servers.as_ref().map(|s| s.is_empty()).unwrap_or(false));
}

#[test]
fn server_spec_validation() {
    assert!(validate_server_spec(&j(r#"{"command": "npx"}"#)).is_ok());
    assert!(validate_server_spec(&j(r#"{"type": "stdio", "command": "npx"}"#)).is_ok());
    assert!(validate_server_spec(&j(r#"{"type": "http", "url": "http://x"}"#)).is_ok());
    assert!(validate_server_spec(&j(r#"{"type": "sse"}"#)).is_err());
    assert!(validate_server_spec(&j(r#"{"type": "ws", "url": "x"}"#)).is_err());
    assert!(validate_server_spec(&j(r#"{"command": "  "}"#)).is_err());
    assert!(validate_server_spec(&j("[]")).is_err());
    assert!(extract_server_spec(&j(r#"{"server": {"command": "c"}}"#)).is_ok());
    assert!(extract_server_spec(&j(r#"{"server": 1}"#)).is_err());
    assert!(extract_server_spec(&j(r#"{"enabled": true}"#)).is_err());

    let message = |r: Result<(), ccswitch_live::error::AppError>| r.unwrap_err().message();
    assert_eq!(message(validate_server_spec(&j("[]"))), "MCP server definition must be a JSON object");
    assert_eq!(
        message(validate_server_spec(&j(r#"{"type": "ws"}"#))),
        "MCP server type must be 'stdio', 'http' or 'sse' (or omitted for stdio)"
    );
    assert_eq!(message(validate_server_spec(&j(r#"{"type": "stdio"}"#))), "stdio MCP server is missing command");
    assert_eq!(message(validate_server_spec(&j(r#"{"type": "sse", "url": " "}"#))), "http/sse MCP server is missing url");
    assert_eq!(
        extract_server_spec(&j(r#"{"enabled": true}"#)).unwrap_err().message(),
        "MCP server entry is missing server"
    );
    assert_eq!(extract_server_spec(&j("1")).unwrap_err().message(), "MCP server entry must be a JSON object");
    assert_eq!(
        extract_server_spec(&j(r#"{"server": []}"#)).unwrap_err().message(),
        "MCP server field must be a JSON object"
    );
}

#[test]
fn mcp_json_read_and_written() {
    assert!(read_mcp_servers_map(None).unwrap().is_empty());
    assert!(read_mcp_servers_map(Some("   ")).unwrap().is_empty());
    assert!(read_mcp_servers_map(Some(r#"{"mcpServers": 3}"#)).unwrap().is_empty());
    let map = read_mcp_servers_map(Some(r#"{"other": 1, "mcpServers": {"a": {"command": "x"}}}"#)).unwrap();
    assert_eq!(keys(&map), vec!["a".to_string()]);
    let e = read_mcp_servers_map(Some("{oops")).unwrap_err();
    assert_eq!(e.key(), "provider.kimicode.mcp.invalid_json");
    assert!(e.message().starts_with("Invalid Kimi Code mcp.json: "));

    let servers = entries(r#"{"b": {"url": "http://b", "type": "http"}}"#);
    let text = set_mcp_servers_map(Some(r#"{"other": 1, "mcpServers": {"a": {}}}"#), &servers).unwrap();
    let back: serde_json::Value = serde_json::from_str(&text).expect("pretty JSON");
    assert_eq!(back["other"], 1);
    assert_eq!(back["mcpServers"]["b"]["url"], "http://b");
    assert!(back["mcpServers"].get("a").is_none());
    assert!(text.contains("\n  "));

    let text = set_mcp_servers_map(None, &servers).unwrap();
    let back: serde_json::Value = serde_json::from_str(&text).expect("pretty JSON");
    assert_eq!(back["mcpServers"]["b"]["type"], "http");

    let e = set_mcp_servers_map(Some("[1]"), &servers).unwrap_err();
    assert_eq!(e.key(), "provider.kimicode.mcp.not_object");
    assert_eq!(e.message(), "Kimi Code mcp.json must be a JSON object");
}

#[test]
fn import_twice_changes_nothing_more() {
    let mut config = config_with("{}", Some(vec![("known".to_string(), existing_server("known", false))]));
    let map = entries(r#"{"known": {"command": "k"}, "new": {"command": "n"}}"#);
    assert_eq!(import_from_kimicode(&mut config, &map), 2);
    assert_eq!(import_from_kimicode(&mut config, &map), 0);
    assert_eq!(config.mcp.servers.as_ref().map(|s| s.len()), Some(2));
}

#[test]
fn set_then_remove_restores_others() {
    let current = entries(r#"{"a": {"command": "1"}, "b": {"command": "2"}}"#);
    let set = sync_single_server_to_kimicode(&current, "z", &j(r#"{"command": "3"}"#));
    let removed = remove_server_from_kimicode(&set, "z");
    assert_eq!(keys(&removed), vec!["a".to_string(), "b".to_string()]);
    assert_eq!(removed[1].1.get("command").and_then(|v| v.as_str()), Some("2"));
}
