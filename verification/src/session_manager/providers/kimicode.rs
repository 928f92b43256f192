//! Kimi Code CLI sessions: `<kimi dir>/sessions/<workDirKey>/<sessionId>/`,
//! with `state.json` (title, last prompt, times) and the main agent's message
//! log `agents/main/wire.jsonl`.
//!
//! The walk over the directories and the reading of files are the caller's;
//! this module decides what each session directory is listed as and what a
//! log's text holds as messages.
use vstd::prelude::*;
use crate::json::{json_get, json_str, JsonV, JsonValue};
use crate::json_text::{json_parse_outcome, parse_json};
use crate::paths::{file_name, join_path, joined, parent, path_file_name, path_parent};
use crate::session_manager::{
    messages_view, metas_view, SessionMessage, SessionMessageV, SessionMeta, SessionMetaV,
};
use crate::session_manager::providers::utils::{
    content_or_empty, extract_text, first2, first3, first4, get_first2, get_first3, get_first4,
    parse_timestamp_to_ms, timestamp_or_none, truncate_summary, truncated, TITLE_MAX_CHARS,
};
use crate::text::{
    concat, is_blank, lines_of, owned, str_eq, str_is_blank, str_lines, str_trim, trimmed,
};

verus! {

/// The directories that hold Kimi Code sessions: `sessions` under its
/// directory.
pub fn session_roots(kimicode_dir: &str) -> (r: Vec<String>)
    ensures
        r@.len() == 1,
        r@[0]@ == joined(kimicode_dir@, "sessions"@),
{
    let mut v: Vec<String> = Vec::new();
    v.push(join_path(kimicode_dir, "sessions"));
    v
}

/// The role a wire entry's raw role or type stands for.
pub open spec fn wire_role(raw: Seq<char>) -> Option<Seq<char>> {
    if raw == "user"@ || raw == "human"@ {
        Some("user"@)
    } else if raw == "assistant"@ || raw == "agent"@ || raw == "model"@ || raw == "ai"@ {
        Some("assistant"@)
    } else if raw == "tool"@ || raw == "tool_result"@ {
        Some("tool"@)
    } else {
        None
    }
}

fn wire_role_of(raw: &str) -> (r: Option<String>)
    ensures
        match r {
            Some(s) => wire_role(raw@) == Some(s@),
            None => wire_role(raw@) is None,
        },
{
    if str_eq(raw, "user") || str_eq(raw, "human") {
        Some(owned("user"))
    } else if str_eq(raw, "assistant") || str_eq(raw, "agent") || str_eq(raw, "model") || str_eq(
        raw,
        "ai",
    ) {
        Some(owned("assistant"))
    } else if str_eq(raw, "tool") || str_eq(raw, "tool_result") {
        Some(owned("tool"))
    } else {
        None
    }
}

/// The message a wire entry holds: its role from `role`, else `type`; its text
/// from `content`, `message`, `text` or `parts`; its time from `timestamp`,
/// `ts` or `created_at`. Entries of another role, or whose text is blank, hold
/// none.
pub open spec fn wire_message(v: JsonV) -> Option<SessionMessageV> {
    match json_str(first2(v, "role"@, "type"@)) {
        None => None,
        Some(raw) => match wire_role(raw) {
            None => None,
            Some(role) => {
                let content = content_or_empty(
                    first4(v, "content"@, "message"@, "text"@, "parts"@),
                );
                if is_blank(content) {
                    None
                } else {
                    Some(
                        SessionMessageV {
                            role: role,
                            content: content,
                            ts: timestamp_or_none(first3(v, "timestamp"@, "ts"@, "created_at"@)),
                        },
                    )
                }
            },
        },
    }
}

/// The message that one entry of a wire log holds, as `wire_message` says;
/// nothing for other roles and blank texts.
pub fn message_from_wire(value: &JsonValue) -> (r: Option<SessionMessage>)
    ensures
        match r {
            Some(m) => wire_message(value@) == Some(m@),
            None => wire_message(value@) is None,
        },
{
    let raw = match get_first2(value, "role", "type") {
        Some(x) => match x.as_str() {
            Some(s) => s,
            None => return None,
        },
        None => return None,
    };
    let role = match wire_role_of(raw) {
        Some(r) => r,
        None => return None,
    };
    let content = match get_first4(value, "content", "message", "text", "parts") {
        Some(c) => extract_text(c),
        None => String::new(),
    };
    if str_is_blank(content.as_str()) {
        return None;
    }
    let ts = match get_first3(value, "timestamp", "ts", "created_at") {
        Some(t) => parse_timestamp_to_ms(t),
        None => None,
    };
    Some(SessionMessage { role: role, content: content, ts: ts })
}

/// The message of one line of a wire log: none for a blank line or one that
/// is not JSON.
pub open spec fn wire_line_message(line: Seq<char>) -> Option<SessionMessageV> {
    let t = trimmed(line);
    if t.len() == 0 {
        None
    } else {
        match json_parse_outcome(t) {
            Ok(v) => wire_message(v),
            Err(_) => None,
        }
    }
}

/// The messages of the lines of a wire log, in order.
pub open spec fn wire_messages(lines: Seq<Seq<char>>) -> Seq<SessionMessageV>
    decreases lines.len(),
{
    if lines.len() == 0 {
        Seq::empty()
    } else {
        let prev = wire_messages(lines.drop_last());
        match wire_line_message(lines.last()) {
            Some(m) => prev.push(m),
            None => prev,
        }
    }
}

/// `load_messages`, on the text of a wire log.
pub fn load_messages(text: &str) -> (r: Vec<SessionMessage>)
    ensures
        messages_view(r@) == wire_messages(lines_of(text@)),
{
    let lines = str_lines(text);
    let ghost lv = lines_of(text@);
    let mut out: Vec<SessionMessage> = Vec::new();
    let mut i: usize = 0;
    assert(lv.take(0) =~= Seq::<Seq<char>>::empty());
    assert(messages_view(out@) =~= Seq::<SessionMessageV>::empty());
    while i < lines.len()
        invariant
            i <= lines@.len(),
            lv == lines_of(text@),
            lines@.len() == lv.len(),
            forall|j: int| 0 <= j < lines@.len() ==> #[trigger] lines@[j]@ == lv[j],
            messages_view(out@) == wire_messages(lv.take(i as int)),
        decreases lines@.len() - i,
    {
        assert(lv.take(i + 1).drop_last() =~= lv.take(i as int));
        assert(lv.take(i + 1).last() == lines@[i as int]@);
        let t = str_trim(lines[i].as_str());
        if t.unicode_len() > 0 {
            match parse_json(t) {
                Ok(v) => match message_from_wire(&v) {
                    Some(m) => {
                        let ghost before = out@;
                        out.push(m);
                        assert(messages_view(out@) =~= messages_view(before).push(out@.last()@));
                    },
                    None => {},
                },
                Err(_) => {},
            }
        }
        i = i + 1;
    }
    assert(lv.take(lines@.len() as int) =~= lv);
    out
}

/// A session directory found under the session roots, with what the caller
/// found in it: whether the wire log and the state file exist, the text of the
/// state file where it could be read, and their modification times in
/// milliseconds where they are known.
#[derive(Debug)]
pub struct SessionDir {
    pub path: String,
    pub wire_exists: bool,
    pub state_exists: bool,
    pub state_text: Option<String>,
    pub wire_mtime_ms: Option<i64>,
    pub state_mtime_ms: Option<i64>,
}

pub struct SessionDirV {
    pub path: Seq<char>,
    pub wire_exists: bool,
    pub state_exists: bool,
    pub state_text: Option<Seq<char>>,
    pub wire_mtime_ms: Option<i64>,
    pub state_mtime_ms: Option<i64>,
}

impl View for SessionDir {
    type V = SessionDirV;

    open spec fn view(&self) -> SessionDirV {
        SessionDirV {
            path: self.path@,
            wire_exists: self.wire_exists,
            state_exists: self.state_exists,
            state_text: match self.state_text {
                Some(t) => Some(t@),
                None => None,
            },
            wire_mtime_ms: self.wire_mtime_ms,
            state_mtime_ms: self.state_mtime_ms,
        }
    }
}

pub open spec fn dirs_view(d: Seq<SessionDir>) -> Seq<SessionDirV> {
    Seq::new(d.len(), |i: int| d[i]@)
}

/// The main agent's message log of a session directory.
pub open spec fn wire_path_of(dir: Seq<char>) -> Seq<char> {
    joined(joined(joined(dir, "agents"@), "main"@), "wire.jsonl"@)
}

/// The state file of a session directory.
pub open spec fn state_path_of(dir: Seq<char>) -> Seq<char> {
    joined(dir, "state.json"@)
}

/// The value of a state file's text, where it is JSON.
pub open spec fn state_value(text: Option<Seq<char>>) -> Option<JsonV> {
    match text {
        Some(t) => match json_parse_outcome(t) {
            Ok(v) => Some(v),
            Err(_) => None,
        },
        None => None,
    }
}

/// The title of a session: its `title`, else its `lastPrompt`, where that is a
/// string that is not blank, cut to the title length.
pub open spec fn state_title(state: Option<JsonV>) -> Option<Seq<char>> {
    match state {
        Some(v) => match json_str(first2(v, "title"@, "lastPrompt"@)) {
            Some(t) => if is_blank(t) {
                None
            } else {
                Some(truncated(t, TITLE_MAX_CHARS as nat))
            },
            None => None,
        },
        None => None,
    }
}

/// The time under the first of three keys of the state that is present.
pub open spec fn state_time(state: Option<JsonV>, a: Seq<char>, b: Seq<char>, c: Seq<char>) -> Option<
    i64,
> {
    match state {
        Some(v) => timestamp_or_none(first3(v, a, b, c)),
        None => None,
    }
}

pub open spec fn or_time(a: Option<i64>, b: Option<i64>) -> Option<i64> {
    match a {
        Some(x) => Some(x),
        None => b,
    }
}

/// When a session was last active: the state's `updatedAt`, `updated_at` or
/// `lastActiveAt`, else the time of the wire log, else that of the state file.
pub open spec fn last_active_of(d: SessionDirV) -> Option<i64> {
    or_time(
        or_time(
            state_time(state_value(d.state_text), "updatedAt"@, "updated_at"@, "lastActiveAt"@),
            d.wire_mtime_ms,
        ),
        d.state_mtime_ms,
    )
}

/// What a session directory is listed as: its name as id; the title as title
/// and summary; its creation time (`createdAt`, `created_at` or `created`),
/// else its last-active time; the wire log as source where it exists, else the
/// state file; and the command that resumes it.
pub open spec fn kimi_meta(d: SessionDirV) -> SessionMetaV {
    let id = match path_file_name(d.path) {
        Some(n) => n,
        None => Seq::empty(),
    };
    let state = state_value(d.state_text);
    let title = state_title(state);
    let last = last_active_of(d);
    SessionMetaV {
        provider_id: "kimicode"@,
        session_id: id,
        title: title,
        summary: title,
        project_dir: None,
        created_at: or_time(state_time(state, "createdAt"@, "created_at"@, "created"@), last),
        last_active_at: last,
        source_path: Some(
            if d.wire_exists {
                wire_path_of(d.path)
            } else {
                state_path_of(d.path)
            },
        ),
        resume_command: Some("kimi --session "@ + id),
    }
}

fn state_time_of(state: &Option<JsonValue>, a: &str, b: &str, c: &str) -> (r: Option<i64>)
    ensures
        r == state_time(
            match state {
                Some(v) => Some(v@),
                None => None,
            },
            a@,
            b@,
            c@,
        ),
{
    match state {
        Some(v) => match get_first3(v, a, b, c) {
            Some(t) => parse_timestamp_to_ms(t),
            None => None,
        },
        None => None,
    }
}

/// What one session directory is listed as, from its state file's text and
/// the times of its files, as `kimi_meta` says.
pub fn build_session_meta(dir: &SessionDir) -> (r: SessionMeta)
    ensures
        r@ == kimi_meta(dir@),
{
    let path = dir.path.as_str();
    let id = match file_name(path) {
        Some(n) => n,
        None => String::new(),
    };
    let state: Option<JsonValue> = match &dir.state_text {
        Some(t) => match parse_json(t.as_str()) {
            Ok(v) => Some(v),
            Err(_) => None,
        },
        None => None,
    };
    let ghost sv = match &state {
        Some(v) => Some(v@),
        None => None,
    };
    assert(sv == state_value(dir@.state_text));
    let title = match &state {
        Some(v) => match get_first2(v, "title", "lastPrompt") {
            Some(x) => match x.as_str() {
                Some(t) => if str_is_blank(t) {
                    None
                } else {
                    Some(truncate_summary(t, TITLE_MAX_CHARS))
                },
                None => None,
            },
            None => None,
        },
        None => None,
    };
    let summary = match &title {
        Some(t) => Some(owned(t.as_str())),
        None => None,
    };
    let updated = state_time_of(&state, "updatedAt", "updated_at", "lastActiveAt");
    let last = match updated {
        Some(t) => Some(t),
        None => match dir.wire_mtime_ms {
            Some(t) => Some(t),
            None => dir.state_mtime_ms,
        },
    };
    let created = match state_time_of(&state, "createdAt", "created_at", "created") {
        Some(t) => Some(t),
        None => last,
    };
    let source = if dir.wire_exists {
        let a = join_path(path, "agents");
        let b = join_path(a.as_str(), "main");
        join_path(b.as_str(), "wire.jsonl")
    } else {
        join_path(path, "state.json")
    };
    let resume = concat("kimi --session ", id.as_str());
    SessionMeta {
        provider_id: owned("kimicode"),
        session_id: id,
        title: title,
        summary: summary,
        project_dir: None,
        created_at: created,
        last_active_at: last,
        source_path: Some(source),
        resume_command: Some(resume),
    }
}

/// The sessions of a list of session directories, in order: one for each
/// directory where the wire log or the state file exists.
pub open spec fn kimi_scan(dirs: Seq<SessionDirV>) -> Seq<SessionMetaV>
    decreases dirs.len(),
{
    if dirs.len() == 0 {
        Seq::empty()
    } else {
        let prev = kimi_scan(dirs.drop_last());
        let d = dirs.last();
        if d.wire_exists || d.state_exists {
            prev.push(kimi_meta(d))
        } else {
            prev
        }
    }
}

/// `scan_sessions`: the sessions of the directories found under the session
/// roots, in the order they were found.
pub fn scan_sessions(dirs: &Vec<SessionDir>) -> (r: Vec<SessionMeta>)
    ensures
        metas_view(r@) == kimi_scan(dirs_view(dirs@)),
{
    let ghost dv = dirs_view(dirs@);
    let mut out: Vec<SessionMeta> = Vec::new();
    let mut i: usize = 0;
    assert(dv.take(0) =~= Seq::<SessionDirV>::empty());
    assert(metas_view(out@) =~= Seq::<SessionMetaV>::empty());
    while i < dirs.len()
        invariant
            i <= dirs@.len(),
            dv == dirs_view(dirs@),
            metas_view(out@) == kimi_scan(dv.take(i as int)),
        decreases dirs@.len() - i,
    {
        assert(dv.take(i + 1).drop_last() =~= dv.take(i as int));
        assert(dv.take(i + 1).last() == dirs@[i as int]@);
        let d = &dirs[i];
        if d.wire_exists || d.state_exists {
            let m = build_session_meta(d);
            let ghost before = out@;
            out.push(m);
            assert(metas_view(out@) =~= metas_view(before).push(out@.last()@));
        }
        i = i + 1;
    }
    assert(dv.take(dirs@.len() as int) =~= dv);
    out
}

/// The directory to delete with a session: the third ancestor of its file,
/// where that directory is named by the session id.
pub open spec fn delete_dir_of(path: Seq<char>, session_id: Seq<char>) -> Option<Seq<char>> {
    match path_parent(path) {
        Some(a) => match path_parent(a) {
            Some(b) => match path_parent(b) {
                Some(c) => if path_file_name(c) == Some(session_id) {
                    Some(c)
                } else {
                    None
                },
                None => None,
            },
            None => None,
        },
        None => None,
    }
}

/// The session directory that `delete_session` removes as a whole, where the
/// file lies inside one; otherwise the file alone is removed.
pub fn session_dir_for_delete(path: &str, session_id: &str) -> (r: Option<String>)
    ensures
        match r {
            Some(d) => delete_dir_of(path@, session_id@) == Some(d@),
            None => delete_dir_of(path@, session_id@) is None,
        },
{
    let a = match parent(path) {
        Some(a) => a,
        None => return None,
    };
    let b = match parent(a.as_str()) {
        Some(b) => b,
        None => return None,
    };
    let c = match parent(b.as_str()) {
        Some(c) => c,
        None => return None,
    };
    match file_name(c.as_str()) {
        Some(n) => if str_eq(n.as_str(), session_id) {
            Some(c)
        } else {
            None
        },
        None => None,
    }
}

/// A listed session always has a last-active time when its wire log or its
/// state file has a modification time, and a creation time whenever it has a
/// last-active time; its summary is its title.
pub proof fn law_kimi_session_times(d: SessionDirV)
    ensures
        (d.wire_mtime_ms is Some || d.state_mtime_ms is Some) ==> kimi_meta(d).last_active_at is Some,
        kimi_meta(d).last_active_at is Some ==> kimi_meta(d).created_at is Some,
        kimi_meta(d).summary == kimi_meta(d).title,
{
}

/// Each session directory with a wire log or a state file is listed, in the
/// order found, and nothing else is.
pub proof fn law_kimi_scan_lists_each_session_dir(dirs: Seq<SessionDirV>)
    ensures
        forall|i: int|
            0 <= i < kimi_scan(dirs).len() ==> exists|k: int|
                0 <= k < dirs.len() && (dirs[k].wire_exists || dirs[k].state_exists)
                    && #[trigger] kimi_scan(dirs)[i] == kimi_meta(dirs[k]),
        (forall|k: int| 0 <= k < dirs.len() ==> dirs[k].wire_exists || dirs[k].state_exists)
            ==> kimi_scan(dirs) == Seq::new(dirs.len(), |k: int| kimi_meta(dirs[k])),
    decreases dirs.len(),
{
    if dirs.len() > 0 {
        let rest = dirs.drop_last();
        law_kimi_scan_lists_each_session_dir(rest);
        let prev = kimi_scan(rest);
        let out = kimi_scan(dirs);
        assert forall|i: int| 0 <= i < out.len() implies exists|k: int|
            0 <= k < dirs.len() && (dirs[k].wire_exists || dirs[k].state_exists)
                && #[trigger] out[i] == kimi_meta(dirs[k]) by {
            if i < prev.len() {
                assert(out[i] == prev[i]);
                let k = choose|k: int|
                    0 <= k < rest.len() && (rest[k].wire_exists || rest[k].state_exists)
                        && prev[i] == kimi_meta(rest[k]);
                assert(rest[k] == dirs[k]);
            } else {
                assert(dirs[dirs.len() - 1] == dirs.last());
            }
        }
        if forall|k: int| 0 <= k < dirs.len() ==> dirs[k].wire_exists || dirs[k].state_exists {
            assert forall|k: int| 0 <= k < rest.len() implies rest[k].wire_exists
                || rest[k].state_exists by {
                assert(rest[k] == dirs[k]);
            }
            assert(dirs.last().wire_exists || dirs.last().state_exists) by {
                assert(dirs[dirs.len() - 1] == dirs.last());
            }
            assert(out =~= Seq::new(dirs.len(), |k: int| kimi_meta(dirs[k])));
        }
    }
}

/// Every message read from a wire log has one of the three roles and a text
/// that is not blank.
pub proof fn law_kimi_messages_are_conversation(v: JsonV)
    ensures
        wire_message(v) matches Some(m) ==> (m.role == "user"@ || m.role == "assistant"@ || m.role
            == "tool"@) && !is_blank(m.content),
{
}

/// A wire entry with a non-blank string `content` is a message with that
/// content, whose role is `user` for the raw roles `user` and `human`;
/// `assistant` for `assistant`, `agent`, `model` and `ai`; and `tool` for
/// `tool` and `tool_result`.
pub proof fn law_wire_message_roles(v: JsonV, raw: Seq<char>, c: Seq<char>)
    requires
        crate::session_manager::providers::dsh::raw_role_is(v, raw),
        json_get(v, "content"@) == Some(JsonV::Str(c)),
        !is_blank(c),
    ensures
        (raw == "user"@ || raw == "human"@) ==> (wire_message(v) matches Some(m) && m.role
            == "user"@ && m.content == c),
        (raw == "assistant"@ || raw == "agent"@ || raw == "model"@ || raw == "ai"@) ==> (
        wire_message(v) matches Some(m) && m.role == "assistant"@ && m.content == c),
        (raw == "tool"@ || raw == "tool_result"@) ==> (wire_message(v) matches Some(m) && m.role
            == "tool"@ && m.content == c),
{
    reveal_strlit("user");
    reveal_strlit("human");
    reveal_strlit("assistant");
    reveal_strlit("agent");
    reveal_strlit("model");
    reveal_strlit("ai");
    reveal_strlit("tool");
    reveal_strlit("tool_result");
    crate::session_manager::providers::dsh::lemma_role_literals();
    assert("user"@[0] == 'u' && "human"@[0] == 'h');
    assert("assistant"@[0] == 'a' && "agent"@[0] == 'a' && "ai"@[0] == 'a' && "model"@[0] == 'm');
    assert("tool"@[0] == 't' && "tool_result"@[0] == 't');
    assert(json_str(first2(v, "role"@, "type"@)) == Some(raw));
}

} // verus!
