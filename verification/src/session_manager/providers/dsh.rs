//! DeepSeek Harness (`dsh`) sessions: append-only JSONL logs under
//! `<dsh dir>/sessions/`, some of them compressed as Zstandard frames.
//!
//! The walk over the directory and the reading of files are the caller's; this
//! module decides which files are session logs, what each one is listed as, and
//! what a log's bytes hold as messages.
use vstd::prelude::*;
use crate::json::{json_get, json_str, JsonV, JsonValue};
use crate::json_text::{json_parse_outcome, parse_json};
use crate::paths::{
    file_name, file_stem_of, join_path, joined, name_stem, parent, path_file_name, path_parent,
};
use crate::session_manager::{messages_view, metas_view, SessionMessage, SessionMessageV, SessionMeta, SessionMetaV};
use crate::session_manager::providers::utils::{
    content_or_empty, extract_text, first2, first3, first4, get_first2, get_first3, get_first4,
    parse_timestamp_to_ms, timestamp_or_none, truncate_summary, truncated, TITLE_MAX_CHARS,
};
use crate::text::{
    ascii_lowercase, concat, is_blank, lines_of, owned, seq_contains, seq_ends_with,
    seq_starts_with, str_contains, str_ends_with, str_eq, str_is_blank, str_lines,
    str_starts_with, str_to_ascii_lowercase, str_trim, str_trim_end_matches, trim_end_pattern,
    trimmed,
};

verus! {

/// The directories that hold dsh sessions: `sessions` under the dsh directory.
pub fn session_roots(dsh_dir: &str) -> (r: Vec<String>)
    ensures
        r@.len() == 1,
        r@[0]@ == joined(dsh_dir@, "sessions"@),
{
    let mut v: Vec<String> = Vec::new();
    v.push(join_path(dsh_dir, "sessions"));
    v
}

/// A file is taken for a session log when its name, in ASCII lower case, does
/// not start with a dot and holds `.jsonl` or ends with `.json` or `.zst`.
pub open spec fn is_session_log(path: Seq<char>) -> bool {
    match path_file_name(path) {
        None => false,
        Some(name) => {
            let lower = ascii_lowercase(name);
            &&& !seq_starts_with(lower, "."@)
            &&& (seq_contains(lower, ".jsonl"@) || seq_ends_with(lower, ".json"@) || seq_ends_with(
                lower,
                ".zst"@,
            ))
        },
    }
}

/// Whether a file is taken for a session log, as `is_session_log` says.
pub fn looks_like_session_log(path: &str) -> (r: bool)
    ensures
        r == is_session_log(path@),
{
    match file_name(path) {
        None => false,
        Some(name) => {
            let lower = str_to_ascii_lowercase(name.as_str());
            if str_starts_with(lower.as_str(), ".") {
                false
            } else {
                str_contains(lower.as_str(), ".jsonl") || str_ends_with(lower.as_str(), ".json")
                    || str_ends_with(lower.as_str(), ".zst")
            }
        },
    }
}

/// The name of the directory that holds a file, where it has one.
pub open spec fn project_dir_of(path: Seq<char>) -> Option<Seq<char>> {
    match path_parent(path) {
        Some(p) => path_file_name(p),
        None => None,
    }
}

/// The name of the directory that holds a file, which the listing shows as
/// the session's project; nothing where the path has no such name.
pub fn parent_project_dir(path: &str) -> (r: Option<String>)
    ensures
        match r {
            Some(d) => project_dir_of(path@) == Some(d@) && d@.len() > 0,
            None => project_dir_of(path@) is None,
        },
{
    match parent(path) {
        Some(p) => file_name(p.as_str()),
        None => None,
    }
}

/// The id of the session a log holds: its file stem without `.jsonl` and then
/// `.json` at the end; where that leaves nothing, the name of its directory;
/// else `session`.
pub open spec fn session_id_of(path: Seq<char>) -> Seq<char> {
    let stem = match path_file_name(path) {
        Some(name) => trim_end_pattern(trim_end_pattern(name_stem(name), ".jsonl"@), ".json"@),
        None => Seq::empty(),
    };
    if stem.len() > 0 {
        stem
    } else {
        match project_dir_of(path) {
            Some(d) => d,
            None => "session"@,
        }
    }
}

/// The session id of a log file.
pub fn session_id(path: &str) -> (r: String)
    ensures
        r@ == session_id_of(path@),
{
    let stem = match file_name(path) {
        Some(name) => {
            let s = file_stem_of(name.as_str());
            proof {
                reveal_strlit(".jsonl");
                reveal_strlit(".json");
            }
            let a = str_trim_end_matches(s.as_str(), ".jsonl");
            let b = str_trim_end_matches(a, ".json");
            owned(b)
        },
        None => String::new(),
    };
    if stem.as_str().unicode_len() > 0 {
        stem
    } else {
        match parent_project_dir(path) {
            Some(d) => d,
            None => owned("session"),
        }
    }
}

/// How deep the walk over a session root goes: it reads the root and the
/// directories up to this many levels below it.
pub const MAX_DEPTH: usize = 5;

/// What the walk does with an entry of a directory it reads.
#[derive(Debug)]
pub enum WalkStep {
    /// Read the entry, a directory, at this depth below the root.
    Descend(usize),
    /// Take the entry, a file, as a candidate session log.
    Collect,
}

/// The walk reads a directory `depth` levels below the root.
pub open spec fn walk_reads_at(depth: nat) -> bool {
    depth <= MAX_DEPTH
}

/// Whether the walk reads a directory `depth` levels below the root.
pub fn walk_reads(depth: usize) -> (r: bool)
    ensures
        r == walk_reads_at(depth as nat),
{
    depth <= MAX_DEPTH
}

/// What the walk does with an entry of a directory that it reads `depth`
/// levels below the root: a directory is read one level deeper, a file is
/// collected.
pub fn walk_step(depth: usize, is_dir: bool) -> (r: WalkStep)
    requires
        walk_reads_at(depth as nat),
    ensures
        is_dir ==> r == WalkStep::Descend((depth + 1) as usize),
        !is_dir ==> r == WalkStep::Collect,
{
    if is_dir {
        WalkStep::Descend(depth + 1)
    } else {
        WalkStep::Collect
    }
}

/// A file that lies `k` directory levels below a session root is collected
/// exactly when the walk reads every directory on its way, which is when `k`
/// is at most `MAX_DEPTH`.
pub proof fn law_walk_collects_up_to_max_depth(k: nat)
    ensures
        (forall|d: nat| d <= k ==> #[trigger] walk_reads_at(d)) <==> k <= MAX_DEPTH,
{
    if k > MAX_DEPTH {
        assert(!walk_reads_at(k));
    }
}

/// A file found under the session roots, with its modification time in
/// milliseconds where it is known.
#[derive(Debug)]
pub struct SessionFile {
    pub path: String,
    pub mtime_ms: Option<i64>,
}

pub struct SessionFileV {
    pub path: Seq<char>,
    pub mtime_ms: Option<i64>,
}

impl View for SessionFile {
    type V = SessionFileV;

    open spec fn view(&self) -> SessionFileV {
        SessionFileV { path: self.path@, mtime_ms: self.mtime_ms }
    }
}

pub open spec fn files_view(f: Seq<SessionFile>) -> Seq<SessionFileV> {
    Seq::new(f.len(), |i: int| f[i]@)
}

/// What a log file is listed as: its session id, its directory as project and
/// (cut to the title length) as summary, its time as both times, and the
/// command that resumes it.
pub open spec fn dsh_meta(path: Seq<char>, mtime: Option<i64>) -> SessionMetaV {
    let id = session_id_of(path);
    let dir = project_dir_of(path);
    SessionMetaV {
        provider_id: "dsh"@,
        session_id: id,
        title: None,
        summary: match dir {
            Some(d) => Some(truncated(d, TITLE_MAX_CHARS as nat)),
            None => None,
        },
        project_dir: dir,
        created_at: mtime,
        last_active_at: mtime,
        source_path: Some(path),
        resume_command: Some("dsh --resume "@ + id),
    }
}

/// The key by which a listed session is told apart: its id, a colon, and the
/// path of its file.
pub open spec fn meta_key(m: SessionMetaV) -> Seq<char> {
    m.session_id + ":"@ + match m.source_path {
        Some(p) => p,
        None => Seq::empty(),
    }
}

pub open spec fn meta_keys(ms: Seq<SessionMetaV>) -> Seq<Seq<char>> {
    Seq::new(ms.len(), |i: int| meta_key(ms[i]))
}

/// The sessions of a list of files, in order: each session log, unless a
/// session with the same key is listed already.
pub open spec fn dsh_scan(files: Seq<SessionFileV>) -> Seq<SessionMetaV>
    decreases files.len(),
{
    if files.len() == 0 {
        Seq::empty()
    } else {
        let prev = dsh_scan(files.drop_last());
        let f = files.last();
        let m = dsh_meta(f.path, f.mtime_ms);
        if is_session_log(f.path) && !meta_keys(prev).contains(meta_key(m)) {
            prev.push(m)
        } else {
            prev
        }
    }
}

pub open spec fn strings_view(v: Seq<String>) -> Seq<Seq<char>> {
    Seq::new(v.len(), |i: int| v[i]@)
}

fn contains_string(v: &Vec<String>, s: &str) -> (r: bool)
    ensures
        r == strings_view(v@).contains(s@),
{
    let mut i: usize = 0;
    while i < v.len()
        invariant
            i <= v@.len(),
            forall|j: int| 0 <= j < i ==> v@[j]@ != s@,
        decreases v@.len() - i,
    {
        if str_eq(v[i].as_str(), s) {
            assert(strings_view(v@)[i as int] == s@);
            return true;
        }
        i = i + 1;
    }
    assert(!strings_view(v@).contains(s@)) by {
        if strings_view(v@).contains(s@) {
            let j = choose|j: int| 0 <= j < strings_view(v@).len() && strings_view(v@)[j] == s@;
            assert(v@[j]@ == s@);
        }
    }
    false
}

/// What one log file is listed as.
pub fn session_meta(file: &SessionFile) -> (r: SessionMeta)
    ensures
        r@ == dsh_meta(file.path@, file.mtime_ms),
{
    let path = file.path.as_str();
    let id = session_id(path);
    let dir = parent_project_dir(path);
    let summary = match &dir {
        Some(d) => Some(truncate_summary(d.as_str(), TITLE_MAX_CHARS)),
        None => None,
    };
    let resume = concat("dsh --resume ", id.as_str());
    SessionMeta {
        provider_id: owned("dsh"),
        session_id: id,
        title: None,
        summary: summary,
        project_dir: dir,
        created_at: file.mtime_ms,
        last_active_at: file.mtime_ms,
        source_path: Some(owned(path)),
        resume_command: Some(resume),
    }
}

/// `scan_sessions`: the sessions of the files found under the session roots,
/// in the order they were found.
pub fn scan_sessions(files: &Vec<SessionFile>) -> (r: Vec<SessionMeta>)
    ensures
        metas_view(r@) == dsh_scan(files_view(files@)),
{
    let ghost fv = files_view(files@);
    let mut out: Vec<SessionMeta> = Vec::new();
    let mut seen: Vec<String> = Vec::new();
    let mut i: usize = 0;
    assert(fv.take(0) =~= Seq::<SessionFileV>::empty());
    assert(metas_view(out@) =~= Seq::<SessionMetaV>::empty());
    while i < files.len()
        invariant
            i <= files@.len(),
            fv == files_view(files@),
            metas_view(out@) == dsh_scan(fv.take(i as int)),
            strings_view(seen@) == meta_keys(metas_view(out@)),
        decreases files@.len() - i,
    {
        assert(fv.take(i + 1).drop_last() =~= fv.take(i as int));
        assert(fv.take(i + 1).last() == files@[i as int]@);
        let f = &files[i];
        if looks_like_session_log(f.path.as_str()) {
            let m = session_meta(f);
            let key = concat(
                concat(m.session_id.as_str(), ":").as_str(),
                f.path.as_str(),
            );
            assert(key@ == meta_key(m@));
            if !contains_string(&seen, key.as_str()) {
                let ghost before = out@;
                let ghost seen_before = seen@;
                let ghost mv = m@;
                let ghost kv = key@;
                out.push(m);
                seen.push(key);
                assert(metas_view(out@) =~= metas_view(before).push(mv));
                assert(strings_view(seen@) =~= strings_view(seen_before).push(kv));
                assert(meta_keys(metas_view(before).push(mv)) =~= meta_keys(
                    metas_view(before),
                ).push(meta_key(mv)));
            }
        }
        i = i + 1;
    }
    assert(fv.take(files@.len() as int) =~= fv);
    out
}

/// The role a log entry's raw role or type stands for; nothing for entries
/// that are no conversation message (headers, projections).
pub open spec fn dsh_role(raw: Seq<char>) -> Option<Seq<char>> {
    if raw == "user"@ || raw == "human"@ {
        Some("user"@)
    } else if raw == "assistant"@ || raw == "agent"@ || raw == "model"@ || raw == "ai"@ || raw
        == "message"@ {
        Some("assistant"@)
    } else if raw == "tool"@ || raw == "tool_result"@ || raw == "tool_call"@ {
        Some("tool"@)
    } else {
        None
    }
}

fn dsh_role_of(raw: &str) -> (r: Option<String>)
    ensures
        match r {
            Some(s) => dsh_role(raw@) == Some(s@),
            None => dsh_role(raw@) is None,
        },
{
    if str_eq(raw, "user") || str_eq(raw, "human") {
        Some(owned("user"))
    } else if str_eq(raw, "assistant") || str_eq(raw, "agent") || str_eq(raw, "model") || str_eq(
        raw,
        "ai",
    ) || str_eq(raw, "message") {
        Some(owned("assistant"))
    } else if str_eq(raw, "tool") || str_eq(raw, "tool_result") || str_eq(raw, "tool_call") {
        Some(owned("tool"))
    } else {
        None
    }
}

/// The message a log entry holds: its role from `role`, else `type`; its text
/// from `content`, `text` or `parts` of the nested `message` where there is
/// one, else of the entry; its time from `timestamp`, `ts`, `created_at` or
/// `time`. Entries of another role, or whose text is blank, hold none.
pub open spec fn dsh_message(v: JsonV) -> Option<SessionMessageV> {
    match json_str(first2(v, "role"@, "type"@)) {
        None => None,
        Some(raw) => match dsh_role(raw) {
            None => None,
            Some(role) => {
                let payload = match json_get(v, "message"@) {
                    Some(p) => p,
                    None => v,
                };
                let content = content_or_empty(first3(payload, "content"@, "text"@, "parts"@));
                if is_blank(content) {
                    None
                } else {
                    Some(
                        SessionMessageV {
                            role: role,
                            content: content,
                            ts: timestamp_or_none(
                                first4(v, "timestamp"@, "ts"@, "created_at"@, "time"@),
                            ),
                        },
                    )
                }
            },
        },
    }
}

/// The message that one entry of a dsh log holds, as `dsh_message` says;
/// nothing for headers, projections, other roles and blank texts.
pub fn message_from_log(value: &JsonValue) -> (r: Option<SessionMessage>)
    ensures
        match r {
            Some(m) => dsh_message(value@) == Some(m@),
            None => dsh_message(value@) is None,
        },
{
    let raw = match get_first2(value, "role", "type") {
        Some(x) => match x.as_str() {
            Some(s) => s,
            None => return None,
        },
        None => return None,
    };
    let role = match dsh_role_of(raw) {
        Some(r) => r,
        None => return None,
    };
    let payload = match value.get("message") {
        Some(p) => p,
        None => value,
    };
    let content = match get_first3(payload, "content", "text", "parts") {
        Some(c) => extract_text(c),
        None => String::new(),
    };
    if str_is_blank(content.as_str()) {
        return None;
    }
    let ts = match get_first4(value, "timestamp", "ts", "created_at", "time") {
        Some(t) => parse_timestamp_to_ms(t),
        None => None,
    };
    Some(SessionMessage { role: role, content: content, ts: ts })
}

/// The message of one line of a log: none for a blank line or one that is not
/// JSON.
pub open spec fn dsh_line_message(line: Seq<char>) -> Option<SessionMessageV> {
    let t = trimmed(line);
    if t.len() == 0 {
        None
    } else {
        match json_parse_outcome(t) {
            Ok(v) => dsh_message(v),
            Err(_) => None,
        }
    }
}

/// The messages of the lines of a log, in order.
pub open spec fn dsh_log_messages(lines: Seq<Seq<char>>) -> Seq<SessionMessageV>
    decreases lines.len(),
{
    if lines.len() == 0 {
        Seq::empty()
    } else {
        let prev = dsh_log_messages(lines.drop_last());
        match dsh_line_message(lines.last()) {
            Some(m) => prev.push(m),
            None => prev,
        }
    }
}

/// The messages of the text of a log.
pub fn messages_from_text(text: &str) -> (r: Vec<SessionMessage>)
    ensures
        messages_view(r@) == dsh_log_messages(lines_of(text@)),
{
    let lines = str_lines(text);
    let ghost lv = lines_of(text@);
    let mut out: Vec<SessionMessage> = Vec::new();
    let mut i: usize = 0;
    assert(lv.take(0) =~= Seq::<Seq<char>>::empty());
    assert(messages_view(out@) =~= Seq::<SessionMessageV>::empty());
    while i < lines.len()
        invariant
            i <= lines@.len(),
            lv == lines_of(text@),
            lines@.len() == lv.len(),
            forall|j: int| 0 <= j < lines@.len() ==> #[trigger] lines@[j]@ == lv[j],
            messages_view(out@) == dsh_log_messages(lv.take(i as int)),
        decreases lines@.len() - i,
    {
        assert(lv.take(i + 1).drop_last() =~= lv.take(i as int));
        assert(lv.take(i + 1).last() == lines@[i as int]@);
        let t = str_trim(lines[i].as_str());
        if t.unicode_len() > 0 {
            match parse_json(t) {
                Ok(v) => match message_from_log(&v) {
                    Some(m) => {
                        let ghost before = out@;
                        out.push(m);
                        assert(messages_view(out@) =~= messages_view(before).push(out@.last()@));
                    },
                    None => {},
                },
                Err(_) => {},
            }
        }
        i = i + 1;
    }
    assert(lv.take(lines@.len() as int) =~= lv);
    out
}

/// A log starts with the magic number of a Zstandard frame.
pub open spec fn has_zstd_magic(b: Seq<u8>) -> bool {
    &&& b.len() >= 4
    &&& b[0] == 0x28u8
    &&& b[1] == 0xB5u8
    &&& b[2] == 0x2Fu8
    &&& b[3] == 0xFDu8
}

/// Why the Zstandard decoder gave up: it could not be set up, or the frames
/// could not be decompressed. Each holds the message of the error.
#[derive(Debug)]
pub enum ZstdFailure {
    Open(String),
    Decompress(String),
}

/// What the Zstandard frames of `bytes` decompress to, one after the other.
pub uninterp spec fn zstd_decoded(bytes: Seq<u8>) -> Seq<u8>;

/// The bytes are Zstandard frames that zstd's stream decoder decompresses
/// without error.
pub uninterp spec fn zstd_decodes(bytes: Seq<u8>) -> bool;

/// The text of `bytes` read as UTF-8, with each invalid sequence replaced by
/// U+FFFD.
pub uninterp spec fn utf8_lossy(bytes: Seq<u8>) -> Seq<char>;

/// zstd's stream `Decoder` over the bytes, read to the end. Claimed: whether
/// it succeeds (`zstd_decodes`) and what it yields (`zstd_decoded`) are
/// functions of the bytes alone; setting the decoder up does not fail (a
/// context that cannot be allocated panics in zstd-safe instead), so a
/// failure comes from reading the frames. The messages are zstd's.
#[verifier::external_body]
fn zstd_decompress(bytes: &[u8]) -> (r: Result<Vec<u8>, ZstdFailure>)
    ensures
        r is Ok <==> zstd_decodes(bytes@),
        r matches Ok(out) ==> out@ == zstd_decoded(bytes@),
{
    let mut decoder = match zstd::stream::Decoder::new(std::io::Cursor::new(bytes)) {
        Ok(d) => d,
        Err(e) => return Err(ZstdFailure::Open(e.to_string())),
    };
    let mut out = Vec::new();
    match std::io::Read::read_to_end(&mut decoder, &mut out) {
        Ok(_) => Ok(out),
        Err(e) => Err(ZstdFailure::Decompress(e.to_string())),
    }
}

/// `String::from_utf8_lossy`, made an owned string. Claimed: the text is a
/// function of the bytes alone (`utf8_lossy`).
#[verifier::external_body]
fn utf8_lossy_string(bytes: &[u8]) -> (r: String)
    ensures
        r@ == utf8_lossy(bytes@),
{
    String::from_utf8_lossy(bytes).into_owned()
}

/// The text of a decompressed log, or the message for why it could not be
/// decompressed.
pub fn decoded_text(outcome: Result<Vec<u8>, ZstdFailure>) -> (r: Result<String, String>)
    ensures
        match outcome {
            Ok(out) => r matches Ok(t) && t@ == utf8_lossy(out@),
            Err(ZstdFailure::Open(m)) => r matches Err(e) && e@ == "Failed to open zstd session: "@
                + m@,
            Err(ZstdFailure::Decompress(m)) => r matches Err(e) && e@
                == "Failed to decompress zstd session: "@ + m@,
        },
{
    match outcome {
        Ok(out) => Ok(utf8_lossy_string(out.as_slice())),
        Err(ZstdFailure::Open(m)) => Err(concat("Failed to open zstd session: ", m.as_str())),
        Err(ZstdFailure::Decompress(m)) => Err(
            concat("Failed to decompress zstd session: ", m.as_str()),
        ),
    }
}

/// The text of a log's bytes: decompressed first where they are Zstandard
/// frames.
pub open spec fn log_text(bytes: Seq<u8>) -> Seq<char> {
    if has_zstd_magic(bytes) {
        utf8_lossy(zstd_decoded(bytes))
    } else {
        utf8_lossy(bytes)
    }
}

/// The message of a failed decompression names what failed.
pub open spec fn is_zstd_failure_message(e: Seq<char>) -> bool {
    seq_starts_with(e, "Failed to open zstd session: "@) || seq_starts_with(
        e,
        "Failed to decompress zstd session: "@,
    )
}

/// `read_maybe_zstd`, on the bytes of a log file: the text of the log,
/// decompressed first where the bytes start with the Zstandard magic number;
/// an error only where such bytes do not decompress.
pub fn read_maybe_zstd(bytes: &[u8]) -> (r: Result<String, String>)
    ensures
        match r {
            Ok(t) => t@ == log_text(bytes@),
            Err(e) => has_zstd_magic(bytes@) && !zstd_decodes(bytes@) && is_zstd_failure_message(
                e@,
            ),
        },
        r is Ok <==> (!has_zstd_magic(bytes@) || zstd_decodes(bytes@)),
{
    if bytes.len() >= 4 && bytes[0] == 0x28u8 && bytes[1] == 0xB5u8 && bytes[2] == 0x2Fu8
        && bytes[3] == 0xFDu8 {
        let outcome = zstd_decompress(bytes);
        let r = decoded_text(outcome);
        proof {
            reveal_strlit("Failed to open zstd session: ");
            reveal_strlit("Failed to decompress zstd session: ");
            match &r {
                Err(e) => {
                    let p1 = "Failed to open zstd session: "@;
                    let p2 = "Failed to decompress zstd session: "@;
                    if e@.len() >= p1.len() && e@.subrange(0, p1.len() as int) =~= p1 {
                    } else {
                        assert(e@.subrange(0, p2.len() as int) =~= p2);
                    }
                },
                Ok(_) => {},
            }
        }
        r
    } else {
        Ok(utf8_lossy_string(bytes))
    }
}

/// `load_messages`, on the bytes of a log file: the messages of its text, or
/// the message for why it could not be decompressed.
pub fn load_messages(bytes: &[u8]) -> (r: Result<Vec<SessionMessage>, String>)
    ensures
        match r {
            Ok(ms) => messages_view(ms@) == dsh_log_messages(lines_of(log_text(bytes@))),
            Err(e) => has_zstd_magic(bytes@) && !zstd_decodes(bytes@) && is_zstd_failure_message(
                e@,
            ),
        },
        r is Ok <==> (!has_zstd_magic(bytes@) || zstd_decodes(bytes@)),
{
    match read_maybe_zstd(bytes) {
        Ok(text) => Ok(messages_from_text(text.as_str())),
        Err(e) => Err(e),
    }
}

/// No session is listed twice: the sessions of any list of files have
/// distinct keys, and each of them is the listing of a session log among the
/// files.
pub proof fn law_dsh_scan_lists_each_log_once(files: Seq<SessionFileV>)
    ensures
        forall|i: int, j: int|
            0 <= i < j < dsh_scan(files).len() ==> meta_key(#[trigger] dsh_scan(files)[i])
                != meta_key(#[trigger] dsh_scan(files)[j]),
        forall|i: int|
            0 <= i < dsh_scan(files).len() ==> exists|k: int|
                0 <= k < files.len() && is_session_log(files[k].path) && #[trigger] dsh_scan(
                    files,
                )[i] == dsh_meta(files[k].path, files[k].mtime_ms),
    decreases files.len(),
{
    if files.len() > 0 {
        let rest = files.drop_last();
        law_dsh_scan_lists_each_log_once(rest);
        let prev = dsh_scan(rest);
        let f = files.last();
        let m = dsh_meta(f.path, f.mtime_ms);
        let out = dsh_scan(files);
        if is_session_log(f.path) && !meta_keys(prev).contains(meta_key(m)) {
            assert(out == prev.push(m));
            assert forall|i: int, j: int| 0 <= i < j < out.len() implies meta_key(
                #[trigger] out[i],
            ) != meta_key(#[trigger] out[j]) by {
                if j == out.len() - 1 {
                    assert(meta_keys(prev)[i] == meta_key(out[i]));
                } else {
                    assert(out[i] == prev[i] && out[j] == prev[j]);
                }
            }
            assert forall|i: int| 0 <= i < out.len() implies exists|k: int|
                0 <= k < files.len() && is_session_log(files[k].path) && #[trigger] out[i]
                    == dsh_meta(files[k].path, files[k].mtime_ms) by {
                if i == out.len() - 1 {
                    assert(files[files.len() - 1] == f);
                } else {
                    assert(out[i] == prev[i]);
                    let k = choose|k: int|
                        0 <= k < rest.len() && is_session_log(rest[k].path) && prev[i] == dsh_meta(
                            rest[k].path,
                            rest[k].mtime_ms,
                        );
                    assert(rest[k] == files[k]);
                }
            }
        } else {
            assert(out == prev);
            assert forall|i: int| 0 <= i < out.len() implies exists|k: int|
                0 <= k < files.len() && is_session_log(files[k].path) && #[trigger] out[i]
                    == dsh_meta(files[k].path, files[k].mtime_ms) by {
                let k = choose|k: int|
                    0 <= k < rest.len() && is_session_log(rest[k].path) && prev[i] == dsh_meta(
                        rest[k].path,
                        rest[k].mtime_ms,
                    );
                assert(rest[k] == files[k]);
            }
        }
    }
}

/// Every message read from a log has one of the three roles and a text that is
/// not blank.
pub proof fn law_dsh_messages_are_conversation(v: JsonV)
    ensures
        dsh_message(v) matches Some(m) ==> (m.role == "user"@ || m.role == "assistant"@ || m.role
            == "tool"@) && !is_blank(m.content),
{
}

/// The raw role of a log entry: its `role` string, or, where it has no
/// `role`, its `type` string.
pub open spec fn raw_role_is(v: JsonV, raw: Seq<char>) -> bool {
    json_get(v, "role"@) == Some(JsonV::Str(raw)) || (json_get(v, "role"@) is None && json_get(
        v,
        "type"@,
    ) == Some(JsonV::Str(raw)))
}

pub proof fn lemma_role_literals()
    ensures
        "user"@ != "assistant"@,
        "user"@ != "tool"@,
        "assistant"@ != "tool"@,
{
    reveal_strlit("user");
    reveal_strlit("assistant");
    reveal_strlit("tool");
    assert("user"@.len() != "assistant"@.len());
    assert("user"@[0] != "tool"@[0]);
    assert("assistant"@.len() != "tool"@.len());
}

/// A log entry with a non-blank string `content` (and no nested `message`)
/// is a message with that content, whose role is `user` for the raw roles
/// `user` and `human`; `assistant` for `assistant`, `agent`, `model`, `ai` and
/// `message`; and `tool` for `tool`, `tool_result` and `tool_call`.
pub proof fn law_dsh_message_roles(v: JsonV, raw: Seq<char>, c: Seq<char>)
    requires
        raw_role_is(v, raw),
        json_get(v, "message"@) is None,
        json_get(v, "content"@) == Some(JsonV::Str(c)),
        !is_blank(c),
    ensures
        (raw == "user"@ || raw == "human"@) ==> (dsh_message(v) matches Some(m) && m.role == "user"@
            && m.content == c),
        (raw == "assistant"@ || raw == "agent"@ || raw == "model"@ || raw == "ai"@ || raw
            == "message"@) ==> (dsh_message(v) matches Some(m) && m.role == "assistant"@
            && m.content == c),
        (raw == "tool"@ || raw == "tool_result"@ || raw == "tool_call"@) ==> (dsh_message(v) matches Some(
            m,
        ) && m.role == "tool"@ && m.content == c),
{
    reveal_strlit("user");
    reveal_strlit("human");
    reveal_strlit("assistant");
    reveal_strlit("agent");
    reveal_strlit("model");
    reveal_strlit("ai");
    reveal_strlit("message");
    reveal_strlit("tool");
    reveal_strlit("tool_result");
    reveal_strlit("tool_call");
    lemma_role_literals();
    // the three groups of raw roles start with different letters
    assert("user"@[0] == 'u' && "human"@[0] == 'h');
    assert("assistant"@[0] == 'a' && "agent"@[0] == 'a' && "ai"@[0] == 'a');
    assert("model"@[0] == 'm' && "message"@[0] == 'm');
    assert("tool"@[0] == 't' && "tool_result"@[0] == 't' && "tool_call"@[0] == 't');
    assert(json_str(first2(v, "role"@, "type"@)) == Some(raw));
}

} // verus!
