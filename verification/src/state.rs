//! Where the application keeps its data.
use vstd::prelude::*;
use crate::error::KashshafError;

verus! {

/// A file name that joins onto a directory as one more component: not
/// empty, not `.` or `..`, and without separators or drive prefixes.
pub open spec fn is_plain_file_name(name: Seq<char>) -> bool {
    &&& name.len() > 0
    &&& name != seq!['.']
    &&& name != seq!['.', '.']
    &&& forall|i: int| 0 <= i < name.len() ==> {
        let c = #[trigger] name[i];
        c != '/' && c != '\\' && c != ':'
    }
}

/// A character that every platform reads as a path separator.
pub open spec fn is_separator_char(c: char) -> bool {
    c == '/' || c == '\\'
}

/// A directory onto which a component is joined with one separator in
/// between: not empty, and ending in neither separator nor a drive colon.
pub open spec fn needs_separator(dir: Seq<char>) -> bool {
    dir.len() > 0 && !is_separator_char(dir.last()) && dir.last() != ':'
}

/// Whether a directory starts with the Windows verbatim prefix `\\?\`.
pub open spec fn has_verbatim_prefix(dir: Seq<char>) -> bool {
    dir.len() >= 4 && dir[0] == '\\' && dir[1] == '\\' && dir[2] == '?' && dir[3] == '\\'
}

/// Whether `path` is `dir` with `name` joined on. Onto a directory with a
/// verbatim prefix Windows normalizes the whole path, and nothing is
/// said of the result. Otherwise: onto an empty directory
/// or one ending in `/` the name is appended as it is; onto a directory
/// that needs a separator, one separator character comes first. A
/// directory ending in `\` or `:` is read differently by different
/// platforms: there the path is the directory, at most one character,
/// then the name.
pub open spec fn is_joined(path: Seq<char>, dir: Seq<char>, name: Seq<char>) -> bool {
    if has_verbatim_prefix(dir) {
        true
    } else if dir.len() == 0 || dir.last() == '/' {
        path == dir + name
    } else if needs_separator(dir) {
        &&& path.len() == dir.len() + name.len() + 1
        &&& is_separator_char(path[dir.len() as int])
        &&& path == dir + seq![path[dir.len() as int]] + name
    } else {
        &&& dir.len() + name.len() <= path.len() <= dir.len() + name.len() + 1
        &&& path.take(dir.len() as int) == dir
        &&& path.skip(path.len() - name.len()) == name
    }
}

/// `std::path::Path::join` of a plain file name onto a directory, as
/// text. `PathBuf::push` appends a relative component, first adding the
/// platform's main separator (`/`, or `\` on Windows) unless the
/// directory is empty, already ends in a separator, or is a bare drive
/// such as `C:`. Which of the two separators is added is not stated, nor
/// the result for a directory with a verbatim prefix (`\\?\...`), whose
/// joined path Windows normalizes.
#[verifier::external_body]
fn join_path(dir: &str, name: &str) -> (p: String)
    requires
        is_plain_file_name(name@),
    ensures
        is_joined(p@, dir@, name@),
{
    std::path::Path::new(dir).join(name).to_string_lossy().into_owned()
}

/// The paths of the application's data: the search index, the corpus
/// database, the metadata database and the settings database, all but
/// the last inside the data directory.
pub struct AppState {
    pub data_dir: String,
    pub index_path: String,
    pub db_path: String,
    pub metadata_db_path: String,
    pub settings_db_path: String,
}

impl AppState {
    /// Lays out the data directory. The settings database lives where
    /// `settings_db_path` says when that is known, so that settings
    /// survive corpus updates, and in the data directory otherwise.
    pub fn new(data_dir: String, settings_db_path: Option<String>) -> (s: AppState)
        ensures
            s.data_dir == data_dir,
            is_joined(s.index_path@, data_dir@, "tantivy_index"@),
            is_joined(s.db_path@, data_dir@, "corpus.db"@),
            is_joined(s.metadata_db_path@, data_dir@, "metadata.db"@),
            match settings_db_path {
                Some(p) => s.settings_db_path == p,
                None => is_joined(s.settings_db_path@, data_dir@, "settings.db"@),
            },
    {
        proof {
            reveal_strlit("tantivy_index");
            reveal_strlit("corpus.db");
            reveal_strlit("metadata.db");
            reveal_strlit("settings.db");
            assert(seq!['.'].len() == 1 && seq!['.', '.'].len() == 2);
            assert("tantivy_index"@.len() == 13);
            assert("corpus.db"@.len() == 9);
            assert("metadata.db"@.len() == 11);
            assert("settings.db"@.len() == 11);
        }
        let index_path = join_path(data_dir.as_str(), "tantivy_index");
        let db_path = join_path(data_dir.as_str(), "corpus.db");
        let metadata_db_path = join_path(data_dir.as_str(), "metadata.db");
        let settings_db_path = match settings_db_path {
            Some(p) => p,
            None => join_path(data_dir.as_str(), "settings.db"),
        };
        AppState { data_dir, index_path, db_path, metadata_db_path, settings_db_path }
    }
}

/// The message given while the corpus has not been downloaded.
pub open spec fn corpus_not_ready_message() -> Seq<char> {
    "Corpus data not downloaded. Please download the corpus first."@
}

/// The loaded state, or the error that tells the user to download the
/// corpus first.
pub fn require_state<T>(state: Option<T>) -> (r: Result<T, KashshafError>)
    ensures
        match state {
            Some(s) => r == Ok::<T, KashshafError>(s),
            None => r matches Err(KashshafError::CorpusNotReady(m)) && m@
                == corpus_not_ready_message(),
        },
{
    match state {
        Some(s) => Ok(s),
        None => Err(
            KashshafError::CorpusNotReady(
                String::from_str("Corpus data not downloaded. Please download the corpus first."),
            ),
        ),
    }
}

/// Whether a running download can be cancelled: only when one runs.
pub fn cancel_download_outcome(download_running: bool) -> (r: Result<(), KashshafError>)
    ensures
        download_running ==> r is Ok,
        !download_running ==> (r matches Err(KashshafError::Download(m)) && m@
            == "No download in progress"@),
{
    if download_running {
        Ok(())
    } else {
        Err(KashshafError::Download(String::from_str("No download in progress")))
    }
}

/// Whether the application can be, or must be, updated.
pub struct AppUpdateStatus {
    pub current_version: String,
    pub latest_version: String,
    pub min_supported_version: String,
    pub update_required: bool,
    pub update_available: bool,
    pub release_notes: Option<String>,
    pub download_url: Option<String>,
}

/// The status reported when the update manifest could not be fetched:
/// the running version counts as the latest, nothing is required.
pub fn update_status_unknown(current_version: &str) -> (s: AppUpdateStatus)
    ensures
        s.current_version@ == current_version@,
        s.latest_version@ == current_version@,
        s.min_supported_version@ == current_version@,
        !s.update_required,
        !s.update_available,
        s.release_notes is None,
        s.download_url is None,
{
    AppUpdateStatus {
        current_version: String::from_str(current_version),
        latest_version: String::from_str(current_version),
        min_supported_version: String::from_str(current_version),
        update_required: false,
        update_available: false,
        release_notes: None,
        download_url: None,
    }
}

} // verus!
