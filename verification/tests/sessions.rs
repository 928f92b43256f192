use ccswitch_live::json::{JsonNumber, JsonValue};
use ccswitch_live::session_manager::providers::dsh;
use ccswitch_live::session_manager::providers::dsh::{
    decoded_text, looks_like_session_log, message_from_log, parent_project_dir, read_maybe_zstd,
    session_id, SessionFile, ZstdFailure,
};
use ccswitch_live::session_manager::providers::kimicode;
use ccswitch_live::session_manager::providers::kimicode::{
    build_session_meta, message_from_wire, session_dir_for_delete, SessionDir,
};
use ccswitch_live::session_manager::providers::utils::{
    extract_text, parse_timestamp_to_ms, truncate_summary, TITLE_MAX_CHARS,
};

fn from_serde(v: serde_json::Value) -> JsonValue {
    match v {
        serde_json::Value::Null => JsonValue::Null,
        serde_json::Value::Bool(b) => JsonValue::Bool(b),
        serde_json::Value::Number(n) => JsonValue::Number(match (n.as_u64(), n.as_i64()) {
            (Some(u), _) => JsonNumber::PosInt(u),
            (None, Some(i)) => JsonNumber::NegInt(i),
            (None, None) => JsonNumber::Float(n.to_string()),
        }),
        serde_json::Value::String(s) => JsonValue::String(s),
        serde_json::Value::Array(a) => JsonValue::Array(a.into_iter().map(from_serde).collect()),
        serde_json::Value::Object(m) => {
            JsonValue::Object(m.into_iter().map(|(k, v)| (k, from_serde(v))).collect())
        }
    }
}

fn j(text: &str) -> JsonValue {
    from_serde(serde_json::from_str(text).expect("test JSON"))
}

#[test]
fn loads_plain_jsonl_messages() {
    let text = "{\"type\":\"user\",\"content\":\"hi\",\"ts\":1771061953000}\n\
         {\"type\":\"message\",\"role\":\"assistant\",\"content\":[{\"type\":\"text\",\"text\":\"yo\"}]}\n\
         {\"type\":\"session_meta\",\"id\":\"abc\"}\n";
    let messages = dsh::load_messages(text.as_bytes()).expect("load");
    assert_eq!(messages.len(), 2);
    assert_eq!(messages[0].role, "user");
    assert_eq!(messages[0].content, "hi");
    assert_eq!(messages[1].role, "assistant");
    assert_eq!(messages[1].content, "yo");
}

#[test]
fn loads_zstd_jsonl_messages() {
    let raw = "{\"type\":\"user\",\"content\":\"compressed hi\"}\n";
    let compressed =
        zstd::stream::encode_all(std::io::Cursor::new(raw.as_bytes()), 0).expect("compress");
    let messages = dsh::load_messages(&compressed).expect("load");
    assert_eq!(messages.len(), 1);
    assert_eq!(messages[0].content, "compressed hi");
}

#[test]
fn loads_wire_jsonl_messages() {
    let text = "{\"role\":\"user\",\"content\":\"hello\",\"timestamp\":1771061953000}\n\
         {\"role\":\"assistant\",\"content\":[{\"type\":\"text\",\"text\":\"world\"}]}\n";
    let messages = kimicode::load_messages(text);
    assert_eq!(messages.len(), 2);
    assert_eq!(messages[0].role, "user");
    assert_eq!(messages[0].content, "hello");
    assert_eq!(messages[1].role, "assistant");
    assert_eq!(messages[1].content, "world");
}

#[test]
fn dsh_log_skips_blank_and_broken_lines() {
    let text = "\r\n   \nnot json\n{\"role\":\"human\",\"text\":\"  a  \",\"created_at\":5}\r\n{\"role\":\"system\",\"content\":\"x\"}\n{\"type\":\"tool_call\",\"parts\":[\"p1\",{\"text\":\"p2\"},{\"content\":\"p3\"},\"  \"]}";
    let messages = dsh::load_messages(text.as_bytes()).expect("load");
    assert_eq!(messages.len(), 2);
    assert_eq!(messages[0].role, "user");
    assert_eq!(messages[0].content, "  a  ");
    assert_eq!(messages[0].ts, Some(5));
    assert_eq!(messages[1].role, "tool");
    assert_eq!(messages[1].content, "p1\np2\np3");
}

#[test]
fn dsh_log_reads_invalid_utf8_lossily() {
    let mut bytes = b"{\"type\":\"user\",\"content\":\"a".to_vec();
    bytes.push(0xFF);
    bytes.extend_from_slice(b"b\"}\n");
    let messages = dsh::load_messages(&bytes).expect("load");
    assert_eq!(messages.len(), 1);
    assert_eq!(messages[0].content, "a\u{FFFD}b");
}

#[test]
fn dsh_broken_zstd_fails_with_message() {
    let bytes = [0x28u8, 0xB5, 0x2F, 0xFD, 0x00, 0x01, 0x02];
    let e = read_maybe_zstd(&bytes).unwrap_err();
    assert!(e.starts_with("Failed to decompress zstd session: ") || e.starts_with("Failed to open zstd session: "));
    assert!(dsh::load_messages(&bytes).is_err());
    assert_eq!(read_maybe_zstd(b"plain").unwrap(), "plain");
}

#[test]
fn decoded_text_messages() {
    assert_eq!(
        decoded_text(Err(ZstdFailure::Open("boom".to_string()))).unwrap_err(),
        "Failed to open zstd session: boom"
    );
    assert_eq!(
        decoded_text(Err(ZstdFailure::Decompress("bad frame".to_string()))).unwrap_err(),
        "Failed to decompress zstd session: bad frame"
    );
    assert_eq!(decoded_text(Ok(b"ok".to_vec())).unwrap(), "ok");
}

#[test]
fn dsh_message_payload_and_roles() {
    let m = message_from_log(&j(r#"{"type":"message","message":{"content":"nested"},"time":7}"#)).unwrap();
    assert_eq!(m.role, "assistant");
    assert_eq!(m.content, "nested");
    assert_eq!(m.ts, Some(7));
    assert!(message_from_log(&j(r#"{"role":5,"type":"user","content":"x"}"#)).is_none());
    assert!(message_from_log(&j(r#"{"type":"user","content":"   "}"#)).is_none());
    let m = message_from_log(&j(r#"{"type":"ai","content":{"text":"obj"},"timestamp":"soon"}"#)).unwrap();
    assert_eq!(m.content, "obj");
    assert_eq!(m.ts, None);
}

#[test]
fn wire_message_roles_and_keys() {
    let m = message_from_wire(&j(r#"{"type":"tool_result","message":"done","ts":3}"#)).unwrap();
    assert_eq!(m.role, "tool");
    assert_eq!(m.content, "done");
    assert_eq!(m.ts, Some(3));
    assert!(message_from_wire(&j(r#"{"role":"message","content":"x"}"#)).is_none());
    assert!(message_from_wire(&j(r#"{"role":"tool_call","content":"x"}"#)).is_none());
    let m = message_from_wire(&j(r#"{"role":"model","text":"t","time":9}"#)).unwrap();
    assert_eq!(m.role, "assistant");
    assert_eq!(m.ts, None);
}

#[test]
fn session_log_names() {
    assert!(looks_like_session_log("/s/p/abc.jsonl"));
    assert!(looks_like_session_log("/s/p/ABC.JSONL.ZST"));
    assert!(looks_like_session_log("/s/p/x.json"));
    assert!(looks_like_session_log("/s/p/x.jsonl.bak"));
    assert!(!looks_like_session_log("/s/p/.hidden.jsonl"));
    assert!(!looks_like_session_log("/s/p/notes.txt"));
    assert!(!looks_like_session_log("/s/p/x.json.bak"));
    assert!(!looks_like_session_log("/"));
}

#[test]
fn session_ids_and_dirs() {
    assert_eq!(session_id("/s/p/abc.jsonl"), "abc");
    assert_eq!(session_id("/s/p/def.jsonl.zst"), "def");
    assert_eq!(session_id("/s/p/a.json.json"), "a");
    assert_eq!(session_id("/s/proj/.json.zst"), "proj");
    assert_eq!(session_id(".jsonl.zst"), "session");
    assert_eq!(parent_project_dir("/s/proj/a.jsonl"), Some("proj".to_string()));
    assert_eq!(parent_project_dir("a.jsonl"), None);
    assert_eq!(parent_project_dir("/a.jsonl"), None);
}

#[test]
fn dsh_scan_lists_logs_once() {
    let files = vec![
        SessionFile { path: "/h/.dsh/sessions/proj/abc.jsonl".to_string(), mtime_ms: Some(5) },
        SessionFile { path: "/h/.dsh/sessions/proj/.hidden.jsonl".to_string(), mtime_ms: None },
        SessionFile { path: "/h/.dsh/sessions/proj/notes.txt".to_string(), mtime_ms: None },
        SessionFile { path: "/h/.dsh/sessions/proj/abc.jsonl".to_string(), mtime_ms: Some(9) },
        SessionFile { path: "/h/.dsh/sessions/x/def.jsonl.zst".to_string(), mtime_ms: None },
    ];
    let sessions = dsh::scan_sessions(&files);
    assert_eq!(sessions.len(), 2);
    let a = &sessions[0];
    assert_eq!(a.provider_id, "dsh");
    assert_eq!(a.session_id, "abc");
    assert_eq!(a.title, None);
    assert_eq!(a.summary.as_deref(), Some("proj"));
    assert_eq!(a.project_dir.as_deref(), Some("proj"));
    assert_eq!(a.created_at, Some(5));
    assert_eq!(a.last_active_at, Some(5));
    assert_eq!(a.source_path.as_deref(), Some("/h/.dsh/sessions/proj/abc.jsonl"));
    assert_eq!(a.resume_command.as_deref(), Some("dsh --resume abc"));
    assert_eq!(sessions[1].session_id, "def");
    assert_eq!(sessions[1].resume_command.as_deref(), Some("dsh --resume def"));
}

#[test]
fn dsh_summary_is_cut() {
    let dir = "d".repeat(90);
    let files = vec![SessionFile { path: format!("/s/{dir}/a.jsonl"), mtime_ms: None }];
    let sessions = dsh::scan_sessions(&files);
    let expected = format!("{}...", "d".repeat(80));
    assert_eq!(sessions[0].summary.as_deref(), Some(expected.as_str()));
    assert_eq!(sessions[0].project_dir.as_deref(), Some(dir.as_str()));
}

#[test]
fn session_roots_join_sessions() {
    assert_eq!(dsh::session_roots("/h/.dsh"), vec!["/h/.dsh/sessions".to_string()]);
    assert_eq!(kimicode::session_roots("/h/.kimi-code/"), vec!["/h/.kimi-code/sessions".to_string()]);
}

#[test]
fn summary_truncation() {
    assert_eq!(truncate_summary("  short  ", TITLE_MAX_CHARS), "short");
    assert_eq!(truncate_summary("abcdef", 3), "abc...");
    assert_eq!(truncate_summary("abc", 3), "abc");
    assert_eq!(truncate_summary("ééééé", 2), "éé...");
}

#[test]
fn content_text_forms() {
    assert_eq!(extract_text(&j("\"plain\"")), "plain");
    assert_eq!(extract_text(&j(r#"["a", {"text":"b"}, {"other":1}, "c"]"#)), "a\nb\nc");
    assert_eq!(extract_text(&j(r#"{"text":"t"}"#)), "t");
    assert_eq!(extract_text(&j("42")), "");
    assert_eq!(parse_timestamp_to_ms(&j("12")), Some(12));
    assert_eq!(parse_timestamp_to_ms(&j("-3")), Some(-3));
    assert_eq!(parse_timestamp_to_ms(&j("1.5")), None);
    assert_eq!(parse_timestamp_to_ms(&j("18446744073709551615")), None);
}

fn dir(path: &str, wire: bool, state: bool, text: Option<&str>, wm: Option<i64>, sm: Option<i64>) -> SessionDir {
    SessionDir {
        path: path.to_string(),
        wire_exists: wire,
        state_exists: state,
        state_text: text.map(|t| t.to_string()),
        wire_mtime_ms: wm,
        state_mtime_ms: sm,
    }
}

#[test]
fn kimi_session_meta_from_state() {
    let d = dir(
        "/k/sessions/w/sid",
        true,
        true,
        Some(r#"{"title":"  Fix bug ","createdAt":100,"updatedAt":200}"#),
        Some(300),
        Some(400),
    );
    let m = build_session_meta(&d);
    assert_eq!(m.provider_id, "kimicode");
    assert_eq!(m.session_id, "sid");
    assert_eq!(m.title.as_deref(), Some("Fix bug"));
    assert_eq!(m.summary.as_deref(), Some("Fix bug"));
    assert_eq!(m.project_dir, None);
    assert_eq!(m.created_at, Some(100));
    assert_eq!(m.last_active_at, Some(200));
    assert_eq!(m.source_path.as_deref(), Some("/k/sessions/w/sid/agents/main/wire.jsonl"));
    assert_eq!(m.resume_command.as_deref(), Some("kimi --session sid"));
}

#[test]
fn kimi_session_meta_falls_back_to_file_times() {
    let d = dir("/k/sessions/w/s2", false, true, Some(r#"{"lastPrompt":"hello","title":5}"#), None, Some(400));
    let m = build_session_meta(&d);
    assert_eq!(m.title, None);
    assert_eq!(m.created_at, Some(400));
    assert_eq!(m.last_active_at, Some(400));
    assert_eq!(m.source_path.as_deref(), Some("/k/sessions/w/s2/state.json"));

    let d = dir("/k/sessions/w/s3", true, false, Some("not json"), Some(7), None);
    let m = build_session_meta(&d);
    assert_eq!(m.title, None);
    assert_eq!(m.last_active_at, Some(7));
    assert_eq!(m.created_at, Some(7));

    let d = dir("/k/sessions/w/s4", true, true, Some(r#"{"lastPrompt":"  last  "}"#), None, None);
    let m = build_session_meta(&d);
    assert_eq!(m.title.as_deref(), Some("last"));
    assert_eq!(m.last_active_at, None);
    assert_eq!(m.created_at, None);
}

#[test]
fn kimi_scan_skips_empty_dirs() {
    let dirs = vec![
        dir("/k/sessions/w/a", true, false, None, Some(1), None),
        dir("/k/sessions/w/b", false, false, None, None, None),
        dir("/k/sessions/w/c", false, true, Some("{}"), None, Some(2)),
    ];
    let sessions = kimicode::scan_sessions(&dirs);
    assert_eq!(sessions.len(), 2);
    assert_eq!(sessions[0].session_id, "a");
    assert_eq!(sessions[1].session_id, "c");
}

#[test]
fn kimi_delete_target() {
    assert_eq!(
        session_dir_for_delete("/k/sessions/w/sid/agents/main/wire.jsonl", "sid"),
        Some("/k/sessions/w/sid".to_string())
    );
    assert_eq!(session_dir_for_delete("/k/sessions/w/sid/agents/main/wire.jsonl", "other"), None);
    assert_eq!(session_dir_for_delete("/k/sessions/w/sid/state.json", "sid"), None);
    assert_eq!(session_dir_for_delete("wire.jsonl", "sid"), None);
}
