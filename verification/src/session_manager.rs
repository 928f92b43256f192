pub mod providers;

use vstd::prelude::*;

verus! {

/// A message of a session, as the session manager shows it.
#[derive(Debug)]
pub struct SessionMessage {
    pub role: String,
    pub content: String,
    pub ts: Option<i64>,
}

pub struct SessionMessageV {
    pub role: Seq<char>,
    pub content: Seq<char>,
    pub ts: Option<i64>,
}

impl View for SessionMessage {
    type V = SessionMessageV;

    open spec fn view(&self) -> SessionMessageV {
        SessionMessageV { role: self.role@, content: self.content@, ts: self.ts }
    }
}

/// A session found on disk, as the session manager lists it.
#[derive(Debug)]
pub struct SessionMeta {
    pub provider_id: String,
    pub session_id: String,
    pub title: Option<String>,
    pub summary: Option<String>,
    pub project_dir: Option<String>,
    pub created_at: Option<i64>,
    pub last_active_at: Option<i64>,
    pub source_path: Option<String>,
    pub resume_command: Option<String>,
}

pub struct SessionMetaV {
    pub provider_id: Seq<char>,
    pub session_id: Seq<char>,
    pub title: Option<Seq<char>>,
    pub summary: Option<Seq<char>>,
    pub project_dir: Option<Seq<char>>,
    pub created_at: Option<i64>,
    pub last_active_at: Option<i64>,
    pub source_path: Option<Seq<char>>,
    pub resume_command: Option<Seq<char>>,
}

pub open spec fn opt_view(o: Option<String>) -> Option<Seq<char>> {
    match o {
        Some(s) => Some(s@),
        None => None,
    }
}

impl View for SessionMeta {
    type V = SessionMetaV;

    open spec fn view(&self) -> SessionMetaV {
        SessionMetaV {
            provider_id: self.provider_id@,
            session_id: self.session_id@,
            title: opt_view(self.title),
            summary: opt_view(self.summary),
            project_dir: opt_view(self.project_dir),
            created_at: self.created_at,
            last_active_at: self.last_active_at,
            source_path: opt_view(self.source_path),
            resume_command: opt_view(self.resume_command),
        }
    }
}

/// The views of a list of messages.
pub open spec fn messages_view(m: Seq<SessionMessage>) -> Seq<SessionMessageV> {
    Seq::new(m.len(), |i: int| m[i]@)
}

/// The views of a list of sessions.
pub open spec fn metas_view(m: Seq<SessionMeta>) -> Seq<SessionMetaV> {
    Seq::new(m.len(), |i: int| m[i]@)
}

} // verus!
