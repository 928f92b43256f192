use ccswitch_live::paths::{file_stem_of, join_path};
use ccswitch_live::session_manager::providers::dsh::{looks_like_session_log, parent_project_dir, session_id};
use ccswitch_live::session_manager::providers::kimicode::session_dir_for_delete;

#[test]
fn path_joining() {
    assert_eq!(join_path("/a", "b"), "/a/b");
    assert_eq!(join_path("/a/", "b"), "/a/b");
    assert_eq!(join_path("", "b"), "b");
    assert_eq!(join_path("/a", "/abs"), "/abs");
}

#[test]
fn path_components_as_std_reads_them() {
    assert_eq!(parent_project_dir("/a/b/c.jsonl"), Some("b".to_string()));
    assert_eq!(parent_project_dir("/a/b/./c.jsonl"), Some("b".to_string()));
    assert_eq!(parent_project_dir("/a//b//c.jsonl"), Some("b".to_string()));
    assert_eq!(parent_project_dir("/a/../c.jsonl"), None);
    assert!(looks_like_session_log("/s/x.jsonl/."));
    assert!(looks_like_session_log("/s/x.jsonl/"));
    assert!(!looks_like_session_log("/s/x.jsonl/.."));
    assert_eq!(session_id("/s/proj/abc.jsonl/."), "abc");
    assert_eq!(
        session_dir_for_delete("/k/sessions/w/sid/./agents/main/wire.jsonl", "sid"),
        Some("/k/sessions/w/sid".to_string())
    );
    assert_eq!(file_stem_of("x.tar.gz"), "x.tar");
    assert_eq!(file_stem_of(".hidden"), ".hidden");
    assert_eq!(file_stem_of("plain"), "plain");
}
