//! The file store: where a requested file lies, and where uploads go.

use vstd::prelude::*;
use crate::config::{ApiResponse, AppState};
use crate::path::{
    is_below_root, is_file_name, is_plain_file_name, is_separator, join_path, joined,
    lemma_file_lies_in_directory, root_segments, segments, stays_below_root, SEPARATOR,
};
use crate::text::{lemma_texts_push, texts};

verus! {

/// The size, in bytes, up to which the file store accepts an upload unless
/// it is told another limit: 10 MiB.
pub const MAX_UPLOAD_BYTES: u64 = 10485760;

/// The names of the files that an upload saved.
pub struct FileList {
    pub files: Vec<String>,
}

impl View for FileList {
    type V = Seq<Seq<char>>;

    /// The names, in order.
    open spec fn view(&self) -> Seq<Seq<char>> {
        texts(self.files@)
    }
}

/// Why the file store turned a request down.
#[derive(Debug, Clone, Copy, PartialEq, Eq, Structural)]
pub enum FileError {
    /// The registry holds no root.
    RootNotConfigured,
    /// The requested path would leave the root.
    OutsideRoot,
    /// No regular file lies at the requested path.
    NotFound,
    /// The client's directory could not be created.
    DirectoryCreate,
}

impl FileError {
    /// What the error tells the reader.
    pub open spec fn message_text(self) -> Seq<char> {
        match self {
            FileError::RootNotConfigured => "Root path not configured"@,
            FileError::OutsideRoot => "Invalid path: outside the storage root"@,
            FileError::NotFound => "File not found"@,
            FileError::DirectoryCreate => "Failed to create client directory"@,
        }
    }

    /// The envelope that reports the error.
    pub fn response(self) -> (response: ApiResponse)
        ensures
            response@ == ("error"@, self.message_text()),
    {
        match self {
            FileError::RootNotConfigured => ApiResponse::new("error", "Root path not configured"),
            FileError::OutsideRoot => ApiResponse::new(
                "error",
                "Invalid path: outside the storage root",
            ),
            FileError::NotFound => ApiResponse::new("error", "File not found"),
            FileError::DirectoryCreate => ApiResponse::new(
                "error",
                "Failed to create client directory",
            ),
        }
    }
}

/// The envelope that says the service is up.
pub fn index() -> (response: ApiResponse)
    ensures
        response@ == ("success"@, "DocStore API is running"@),
{
    ApiResponse::new("success", "DocStore API is running")
}

/// Where the file that a request names lies: the requested path joined to
/// the root. A path that would leave the root is turned down.
pub fn get_file(path: &str, state: &AppState) -> (resolved: Result<String, FileError>)
    ensures
        match resolved {
            Ok(full) => state@ is Some && stays_below_root(path@) && full@ == joined(
                state@->0,
                path@,
            ),
            Err(FileError::RootNotConfigured) => state@ is None,
            Err(FileError::OutsideRoot) => state@ is Some && !stays_below_root(path@),
            Err(_) => false,
        },
        resolved is Ok ==> state@->0.is_prefix_of(resolved->Ok_0@),
{
    let root = match state.get_root_path() {
        Some(root) => root,
        None => {
            return Err(FileError::RootNotConfigured);
        },
    };
    if !is_below_root(path) {
        return Err(FileError::OutsideRoot);
    }
    Ok(join_path(root.as_str(), path))
}

/// The file to send for a path that `get_file` resolved, given whether a
/// regular file lies there.
pub fn found_file(full: String, is_regular_file: bool) -> (file: Result<String, FileError>)
    ensures
        is_regular_file ==> file == Ok::<String, FileError>(full),
        !is_regular_file ==> file == Err::<String, FileError>(FileError::NotFound),
{
    if is_regular_file {
        Ok(full)
    } else {
        Err(FileError::NotFound)
    }
}

/// One part of an upload as it arrived: the name that the sender suggests
/// for it, if any, and its size in bytes.
pub struct IncomingFile {
    pub file_name: Option<String>,
    pub size: u64,
}

impl IncomingFile {
    /// The part is no larger than `size_limit`.
    pub open spec fn accepted(&self, size_limit: u64) -> bool {
        self.size <= size_limit
    }

    /// The sender suggests a name, and it is one that a file can bear in
    /// the client's directory: a suggestion that is empty, that is `.` or
    /// `..`, or that holds a separator counts as none.
    pub open spec fn suggests_name(&self) -> bool {
        self.file_name is Some && is_file_name(self.file_name->0@)
    }
}

/// The text of a version 4 UUID: 36 characters, lower-case hexadecimal
/// digits in groups of 8, 4, 4, 4 and 12 with a hyphen between groups.
pub open spec fn is_generated_name(name: Seq<char>) -> bool {
    &&& name.len() == 36
    &&& forall|i: int|
        0 <= i < 36 ==> if i == 8 || i == 13 || i == 18 || i == 23 {
            #[trigger] name[i] == '-'
        } else {
            ('0' <= name[i] <= '9') || ('a' <= name[i] <= 'f')
        }
}

/// Calls `uuid::Uuid::new_v4` and renders the identifier by its `Display`
/// impl, which writes the hyphenated lower-case form. Which identifier
/// comes back is left open: the contract claims only the layout of its
/// text. The call panics where the system has no random bytes to give.
#[verifier::external_body]
fn generated_name() -> (name: String)
    ensures
        is_generated_name(name@),
{
    uuid::Uuid::new_v4().to_string()
}

/// A generated name is a file name.
pub proof fn lemma_generated_name_is_file_name(name: Seq<char>)
    requires
        is_generated_name(name),
    ensures
        is_file_name(name),
{
    assert forall|i: int| 0 <= i < name.len() implies !is_separator(#[trigger] name[i]) by {
        if i == 8 || i == 13 || i == 18 || i == 23 {
            assert(name[i] == '-');
        }
    }
    assert(name != seq!['.']);
    assert(name != seq!['.', '.']);
}

/// One file that an upload is to write.
pub struct PlannedWrite {
    /// The position of the part among the incoming ones.
    pub source: usize,
    /// The name under which the file is saved.
    pub file_name: String,
    /// The full path of the file.
    pub target: String,
}

impl PlannedWrite {
    /// The write of part `source` as `file_name` below `client_dir`.
    pub fn new(source: usize, file_name: String, client_dir: &str) -> (write: PlannedWrite)
        ensures
            write.source == source,
            write.file_name@ == file_name@,
            write.target@ == joined(client_dir@, file_name@),
    {
        let target = join_path(client_dir, file_name.as_str());
        PlannedWrite { source, file_name, target }
    }

    /// The write names its file as the store's policy says: by the name that
    /// the sender suggested, or else by a generated one, directly in
    /// `client_dir`.
    pub open spec fn follows_policy(&self, incoming: Seq<IncomingFile>, client_dir: Seq<char>) -> bool {
        &&& self.source < incoming.len()
        &&& is_file_name(self.file_name@)
        &&& incoming[self.source as int].suggests_name() ==> self.file_name@
            == incoming[self.source as int].file_name->0@
        &&& !incoming[self.source as int].suggests_name() ==> is_generated_name(self.file_name@)
        &&& self.target@ == joined(client_dir, self.file_name@)
    }
}

/// The positions, in order, of the parts no larger than `size_limit` among
/// the first `n` of `incoming`.
pub open spec fn accepted_sources(incoming: Seq<IncomingFile>, size_limit: u64, n: int) -> Seq<usize>
    decreases n,
{
    if n <= 0 {
        Seq::empty()
    } else if incoming[n - 1].accepted(size_limit) {
        accepted_sources(incoming, size_limit, n - 1).push((n - 1) as usize)
    } else {
        accepted_sources(incoming, size_limit, n - 1)
    }
}

/// What an upload is to do: the client's directory, which has to exist
/// first, and the files to write into it.
pub struct UploadPlan {
    pub client_dir: String,
    pub writes: Vec<PlannedWrite>,
}

impl UploadPlan {
    /// The parts that the writes take, in order.
    pub open spec fn sources(&self) -> Seq<usize> {
        self.writes@.map_values(|w: PlannedWrite| w.source)
    }

    /// The plan is the one for an upload of `incoming` for `client_id` below
    /// `root`: it writes every part no larger than `size_limit`, in the
    /// order of arrival, under a file name each, into the directory that the
    /// client's id names.
    pub open spec fn serves(
        &self,
        root: Seq<char>,
        client_id: Seq<char>,
        incoming: Seq<IncomingFile>,
        size_limit: u64,
    ) -> bool {
        &&& self.client_dir@ == joined(root, client_id)
        &&& self.sources() == accepted_sources(incoming, size_limit, incoming.len() as int)
        &&& forall|k: int| 0 <= k < self.writes@.len() ==> is_file_name((#[trigger] self.writes@[k]).file_name@)
        &&& forall|k: int|
            0 <= k < self.writes@.len() ==> (#[trigger] self.writes@[k]).follows_policy(
                incoming,
                self.client_dir@,
            )
    }
}

/// Every file of a plan lies directly in the client's directory, which lies
/// directly in the root: the path of the file has the root's segments, then
/// the client's id, then the name of the file, and nothing else.
pub proof fn lemma_upload_stays_in_client_directory(
    plan: UploadPlan,
    root: Seq<char>,
    client_id: Seq<char>,
    incoming: Seq<IncomingFile>,
    size_limit: u64,
    k: int,
)
    requires
        is_file_name(client_id),
        plan.serves(root, client_id, incoming, size_limit),
        0 <= k < plan.writes@.len(),
    ensures
        segments(plan.client_dir@) == root_segments(root).push(client_id),
        segments(plan.writes@[k].target@) == root_segments(root).push(client_id).push(
            plan.writes@[k].file_name@,
        ),
{
    let write = plan.writes@[k];
    lemma_file_lies_in_directory(root, client_id);
    assert(write.follows_policy(incoming, plan.client_dir@));
    lemma_file_lies_in_directory(plan.client_dir@, write.file_name@);
    assert(plan.client_dir@.last() == client_id.last());
    assert(!is_separator(client_id[client_id.len() - 1]));
    assert(plan.client_dir@.last() != SEPARATOR);
}

/// The name under which `file` is saved: the suggested one, or a generated
/// one where the sender suggests none that a file can bear.
fn choose_file_name(file: &IncomingFile) -> (name: String)
    ensures
        file.suggests_name() ==> name@ == file.file_name->0@,
        !file.suggests_name() ==> is_generated_name(name@),
        is_file_name(name@),
{
    match &file.file_name {
        Some(suggested) => {
            if is_plain_file_name(suggested.as_str()) {
                return suggested.clone();
            }
        },
        None => {},
    }
    let name = generated_name();
    proof {
        lemma_generated_name_is_file_name(name@);
    }
    name
}

/// Plans the upload of `incoming` for the client `client_id`. The client's
/// id has to be a file name, so that the client's directory lies directly in
/// the root. Parts larger than `size_limit` are left out; the others are
/// written in the order in which they arrived, each directly into the
/// client's directory: a part whose suggested name is no file name is
/// written under a generated name.
pub fn upload_files(client_id: &str, incoming: &Vec<IncomingFile>, size_limit: u64, state: &AppState) -> (plan:
    Result<UploadPlan, FileError>)
    ensures
        match plan {
            Ok(plan) => state@ is Some && is_file_name(client_id@) && plan.serves(
                state@->0,
                client_id@,
                incoming@,
                size_limit,
            ),
            Err(FileError::RootNotConfigured) => state@ is None,
            Err(FileError::OutsideRoot) => state@ is Some && !is_file_name(client_id@),
            Err(_) => false,
        },
        plan is Ok && incoming@.len() == 0 ==> plan->Ok_0.writes@.len() == 0,
{
    let root = match state.get_root_path() {
        Some(root) => root,
        None => {
            return Err(FileError::RootNotConfigured);
        },
    };
    if !is_plain_file_name(client_id) {
        return Err(FileError::OutsideRoot);
    }
    let client_dir = join_path(root.as_str(), client_id);
    let mut writes: Vec<PlannedWrite> = Vec::new();
    let mut i: usize = 0;
    while i < incoming.len()
        invariant
            i <= incoming@.len(),
            writes@.map_values(|w: PlannedWrite| w.source) == accepted_sources(
                incoming@,
                size_limit,
                i as int,
            ),
            forall|k: int| 0 <= k < writes@.len() ==> is_file_name((#[trigger] writes@[k]).file_name@),
            forall|k: int|
                0 <= k < writes@.len() ==> (#[trigger] writes@[k]).follows_policy(
                    incoming@,
                    client_dir@,
                ),
        decreases incoming@.len() - i,
    {
        let file = &incoming[i];
        if file.size <= size_limit {
            let name = choose_file_name(file);
            let write = PlannedWrite::new(i, name, client_dir.as_str());
            writes.push(write);
        }
        i = i + 1;
    }
    Ok(UploadPlan { client_dir, writes })
}

/// The names of the first `n` writes of `writes` that went through: write
/// `k` counts where `written` holds `true` at `k`.
pub open spec fn saved_names(writes: Seq<PlannedWrite>, written: Seq<bool>, n: int) -> Seq<Seq<char>>
    decreases n,
{
    if n <= 0 {
        Seq::empty()
    } else if n - 1 < written.len() && written[n - 1] {
        saved_names(writes, written, n - 1).push(writes[n - 1].file_name@)
    } else {
        saved_names(writes, written, n - 1)
    }
}

/// What an upload answers once its plan was carried out: the names of the
/// files that were written, in the order of the plan. A write that failed
/// leaves its name out and the others in; without the client's directory the
/// whole upload fails.
pub fn saved_files(plan: &UploadPlan, directory_ready: bool, written: &Vec<bool>) -> (saved: Result<
    FileList,
    FileError,
>)
    ensures
        match saved {
            Ok(list) => directory_ready && list@ == saved_names(
                plan.writes@,
                written@,
                plan.writes@.len() as int,
            ),
            Err(e) => !directory_ready && e == FileError::DirectoryCreate,
        },
{
    if !directory_ready {
        return Err(FileError::DirectoryCreate);
    }
    let mut files: Vec<String> = Vec::new();
    let mut k: usize = 0;
    while k < plan.writes.len()
        invariant
            k <= plan.writes@.len(),
            texts(files@) == saved_names(plan.writes@, written@, k as int),
        decreases plan.writes@.len() - k,
    {
        if k < written.len() && written[k] {
            let name = plan.writes[k].file_name.clone();
            proof {
                lemma_texts_push(files@, name);
            }
            files.push(name);
        }
        k = k + 1;
    }
    Ok(FileList { files })
}

} // verus!
