//! Reading and replacing the storage root.

use vstd::prelude::*;
use crate::config::{ApiResponse, AppState, SetRootPathRequest};

verus! {

/// What the file system says of a candidate root.
pub struct PathProbe {
    /// Whether anything exists at the path.
    pub exists: bool,
    /// Whether the path is a directory.
    pub is_dir: bool,
    /// The canonical absolute form of the path, where it could be had.
    pub canonical: Option<String>,
}

impl PathProbe {
    /// Whether the probed path can serve as a root.
    pub open spec fn accepts(&self) -> bool {
        self.exists && self.is_dir
    }

    /// The form in which an accepted `candidate` is stored: the canonical
    /// one where there is one, else the candidate as it was given.
    pub open spec fn stored_form(&self, candidate: Seq<char>) -> Seq<char> {
        match self.canonical {
            Some(path) => path@,
            None => candidate,
        }
    }
}

/// The sequence `needle` occurs in `text`.
pub open spec fn contains_text(text: Seq<char>, needle: Seq<char>) -> bool {
    exists|i: int|
        0 <= i && i + needle.len() <= text.len() && #[trigger] text.subrange(
            i,
            i + needle.len(),
        ) == needle
}

/// The envelope that reports the current root: `success` with the path, or
/// `not_set` while the registry is unset.
pub fn get_root_path(state: &AppState) -> (response: ApiResponse)
    ensures
        state@ is Some ==> response@ == ("success"@, state@->0),
        state@ is None ==> response@ == ("not_set"@, "Root path has not been set"@),
{
    match state.get_root_path() {
        Some(path) => ApiResponse { status: String::from_str("success"), message: path },
        None => ApiResponse::new("not_set", "Root path has not been set"),
    }
}

/// Replaces the root by the requested path if `probe` found a directory
/// there, and leaves the registry as it was otherwise.
pub fn set_root_path(request: &SetRootPathRequest, probe: &PathProbe, state: &mut AppState) -> (response:
    ApiResponse)
    ensures
        !probe.accepts() ==> final(state)@ == old(state)@,
        !probe.accepts() ==> response@ == ("error"@, "Invalid path: directory does not exist"@),
        !probe.accepts() ==> contains_text(response.message@, "Invalid path"@),
        probe.accepts() ==> final(state)@ == Some(probe.stored_form(request.path@)),
        probe.accepts() ==> response@ == (
            "success"@,
            "Root path set to: "@ + probe.stored_form(request.path@),
        ),
{
    if !probe.exists || !probe.is_dir {
        let response = ApiResponse::new("error", "Invalid path: directory does not exist");
        proof {
            reveal_strlit("Invalid path: directory does not exist");
            reveal_strlit("Invalid path");
            assert(response.message@.subrange(0int, 0int + "Invalid path"@.len()) == "Invalid path"@);
        }
        return response;
    }
    let absolute = match &probe.canonical {
        Some(path) => path.clone(),
        None => request.path.clone(),
    };
    let mut message = String::from_str("Root path set to: ");
    message.append(absolute.as_str());
    state.set_root_path(absolute);
    ApiResponse { status: String::from_str("success"), message }
}

} // verus!
