//! The error type shared by the whole library.
use vstd::prelude::*;

verus! {

/// Errors of the library, each with the text it is shown with.
#[derive(Debug)]
pub enum ToadError {
    WorkspaceNotFound,
    Io(String),
    Serde(String),
    Toml(String),
    Git(String),
    PathNotFound(String),
    ContextExists(String),
    ContextNotFound(String),
    Config(String),
    OperationFailed(String),
    Discovery(String),
    Anyhow(String),
    Other(String),
}

/// Results whose error is a `ToadError`.
pub type ToadResult<T> = Result<T, ToadError>;

/// How `{:?}` shows a path: `Debug` for `std::path::Path`.
pub uninterp spec fn path_debug_text(p: Seq<char>) -> Seq<char>;

/// Shows a path as `{:?}` does.
///
/// Calls `<Path as Debug>::fmt` through `format!`; the contract says only that
/// the text is a function of the path, named `path_debug_text`.
#[verifier::external_body]
pub(crate) fn path_debug(p: &str) -> (r: String)
    ensures
        r@ == path_debug_text(p@),
{
    format!("{:?}", std::path::Path::new(p))
}

/// The text that an error is shown with.
pub open spec fn error_text(e: ToadError) -> Seq<char> {
    match e {
        ToadError::WorkspaceNotFound => "Workspace not found. Use 'toad home <path>' to anchor a directory."@,
        ToadError::Io(s) => "IO error: "@ + s@,
        ToadError::Serde(s) => "Serialization error: "@ + s@,
        ToadError::Toml(s) => "Toml error: "@ + s@,
        ToadError::Git(s) => "Git error: "@ + s@,
        ToadError::PathNotFound(p) => "Path does not exist: "@ + path_debug_text(p@),
        ToadError::ContextExists(s) => "Context already exists: "@ + s@,
        ToadError::ContextNotFound(s) => "Context not found: "@ + s@,
        ToadError::Config(s) => "Configuration error: "@ + s@,
        ToadError::OperationFailed(s) => "Operation failed: "@ + s@,
        ToadError::Discovery(s) => "Discovery error: "@ + s@,
        ToadError::Anyhow(s) => "Other error: "@ + s@,
        ToadError::Other(s) => s@,
    }
}

/// `prefix` followed by `s`.
pub(crate) fn prefixed(prefix: &str, s: &str) -> (r: String)
    ensures
        r@ == prefix@ + s@,
{
    let mut r = prefix.to_owned();
    r.append(s);
    r
}

impl Clone for ToadError {
    fn clone(&self) -> (r: Self)
        ensures
            r == *self,
    {
        match self {
            ToadError::WorkspaceNotFound => ToadError::WorkspaceNotFound,
            ToadError::Io(s) => ToadError::Io(s.clone()),
            ToadError::Serde(s) => ToadError::Serde(s.clone()),
            ToadError::Toml(s) => ToadError::Toml(s.clone()),
            ToadError::Git(s) => ToadError::Git(s.clone()),
            ToadError::PathNotFound(s) => ToadError::PathNotFound(s.clone()),
            ToadError::ContextExists(s) => ToadError::ContextExists(s.clone()),
            ToadError::ContextNotFound(s) => ToadError::ContextNotFound(s.clone()),
            ToadError::Config(s) => ToadError::Config(s.clone()),
            ToadError::OperationFailed(s) => ToadError::OperationFailed(s.clone()),
            ToadError::Discovery(s) => ToadError::Discovery(s.clone()),
            ToadError::Anyhow(s) => ToadError::Anyhow(s.clone()),
            ToadError::Other(s) => ToadError::Other(s.clone()),
        }
    }
}

impl ToadError {
    /// The text the error is shown with.
    pub fn message(&self) -> (r: String)
        ensures
            r@ == error_text(*self),
    {
        match self {
            ToadError::WorkspaceNotFound => {
                "Workspace not found. Use 'toad home <path>' to anchor a directory.".to_owned()
            },
            ToadError::Io(s) => prefixed("IO error: ", s.as_str()),
            ToadError::Serde(s) => prefixed("Serialization error: ", s.as_str()),
            ToadError::Toml(s) => prefixed("Toml error: ", s.as_str()),
            ToadError::Git(s) => prefixed("Git error: ", s.as_str()),
            ToadError::PathNotFound(p) => {
                let shown = path_debug(p.as_str());
                prefixed("Path does not exist: ", shown.as_str())
            },
            ToadError::ContextExists(s) => prefixed("Context already exists: ", s.as_str()),
            ToadError::ContextNotFound(s) => prefixed("Context not found: ", s.as_str()),
            ToadError::Config(s) => prefixed("Configuration error: ", s.as_str()),
            ToadError::OperationFailed(s) => prefixed("Operation failed: ", s.as_str()),
            ToadError::Discovery(s) => prefixed("Discovery error: ", s.as_str()),
            ToadError::Anyhow(s) => prefixed("Other error: ", s.as_str()),
            ToadError::Other(s) => s.clone(),
        }
    }
}

} // verus!
