//! The errors that the library reports.
use vstd::prelude::*;

verus! {

/// An error of the configuration code: a localized message under a stable
/// key, a failure of the file system at a path, or an invalid MCP server
/// definition.
#[derive(Debug)]
pub enum AppError {
    Localized { key: String, zh: String, en: String },
    Io { path: String, message: String },
    McpValidation(String),
}

/// `e` is the localized error with this key and these two messages.
pub open spec fn is_localized(e: AppError, key: Seq<char>, zh: Seq<char>, en: Seq<char>) -> bool {
    match e {
        AppError::Localized { key: k, zh: z, en: n } => k@ == key && z@ == zh && n@ == en,
        _ => false,
    }
}

/// The key of a localized error.
pub open spec fn error_key(e: AppError) -> Option<Seq<char>> {
    match e {
        AppError::Localized { key, .. } => Some(key@),
        _ => None,
    }
}

impl AppError {
    /// A localized error.
    pub fn localized(key: &str, zh: String, en: String) -> (r: AppError)
        ensures
            is_localized(r, key@, zh@, en@),
    {
        AppError::Localized { key: key.to_owned(), zh, en }
    }

    /// A failure of the file system at `path`.
    pub fn io(path: &str, message: &str) -> (r: AppError)
        ensures
            r matches AppError::Io { path: p, message: m } && p@ == path@ && m@ == message@,
    {
        AppError::Io { path: path.to_owned(), message: message.to_owned() }
    }

    /// The key of a localized error, or an empty string.
    pub fn key(&self) -> (r: String)
        ensures
            r@ == match error_key(*self) {
                Some(k) => k,
                None => Seq::empty(),
            },
    {
        match self {
            AppError::Localized { key, .. } => key.clone(),
            _ => String::new(),
        }
    }

    /// The English message of the error.
    pub fn message(&self) -> (r: String)
        ensures
            match *self {
                AppError::Localized { en, .. } => r@ == en@,
                AppError::Io { message, .. } => r@ == message@,
                AppError::McpValidation(m) => r@ == m@,
            },
    {
        match self {
            AppError::Localized { en, .. } => en.clone(),
            AppError::Io { message, .. } => message.clone(),
            AppError::McpValidation(m) => m.clone(),
        }
    }
}

} // verus!
