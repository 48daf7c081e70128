//! The root path registry and the envelope that answers carry.

use vstd::prelude::*;
use crate::path::{join_path, joined};

verus! {

/// Name of the database file below the storage root.
pub const DEFAULT_DB_FILENAME: &'static str = "docstore.db";

/// Name of the default storage root below the system's temporary directory.
pub const DEFAULT_ROOT_DIRNAME: &'static str = "docstore_files";

/// The default storage root: `docstore_files` below `temp_dir`.
pub fn default_root_path(temp_dir: &str) -> (path: String)
    ensures
        path@ == joined(temp_dir@, DEFAULT_ROOT_DIRNAME@),
{
    join_path(temp_dir, DEFAULT_ROOT_DIRNAME)
}

/// The registry of the storage root: one optional path, below which every
/// client's files live.
pub struct AppState {
    root_path: Option<String>,
}

impl View for AppState {
    type V = Option<Seq<char>>;

    /// The configured root, or `None` while the registry is unset.
    closed spec fn view(&self) -> Option<Seq<char>> {
        match self.root_path {
            Some(path) => Some(path@),
            None => None,
        }
    }
}

impl AppState {
    /// A registry whose root is `default_path`.
    pub fn new(default_path: String) -> (state: AppState)
        ensures
            state@ == Some(default_path@),
    {
        AppState { root_path: Some(default_path) }
    }

    /// The current root, or `None` while the registry is unset.
    pub fn get_root_path(&self) -> (path: Option<String>)
        ensures
            path is Some <==> self@ is Some,
            path is Some ==> path->0@ == self@->0,
    {
        match &self.root_path {
            Some(path) => Some(path.clone()),
            None => None,
        }
    }

    /// Replaces the root by `path`.
    pub fn set_root_path(&mut self, path: String)
        ensures
            final(self)@ == Some(path@),
    {
        self.root_path = Some(path);
    }
}

impl Default for AppState {
    /// The unset registry.
    fn default() -> (state: AppState)
        ensures
            state@ is None,
    {
        AppState { root_path: None }
    }
}

/// The envelope of an answer that carries no record: a status word and a
/// message for the reader.
pub struct ApiResponse {
    pub status: String,
    pub message: String,
}

impl View for ApiResponse {
    type V = (Seq<char>, Seq<char>);

    /// The status and the message.
    open spec fn view(&self) -> (Seq<char>, Seq<char>) {
        (self.status@, self.message@)
    }
}

impl ApiResponse {
    /// The envelope with the given status and message.
    pub fn new(status: &str, message: &str) -> (response: ApiResponse)
        ensures
            response@ == (status@, message@),
    {
        ApiResponse { status: String::from_str(status), message: String::from_str(message) }
    }
}

/// The body of a request to replace the storage root.
pub struct SetRootPathRequest {
    pub path: String,
}

} // verus!
