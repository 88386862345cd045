//! The pointer to the mounted workspace, and the classification of a
//! candidate workspace directory from what was found on disk.

use vstd::prelude::*;

verus! {

/// The name of the pointer file in the application's data directory.
pub const CONFIG_FILENAME: &'static str = "config.json";

/// The name of the metadata database inside a workspace.
pub const METADATA_DB_FILENAME: &'static str = "mango.db";

/// The one piece of state kept outside the workspace: where it is.
#[derive(Debug, Clone)]
pub struct AppConfig {
    pub workspace_path: String,
}

/// What a candidate workspace directory turned out to be.
#[derive(Debug, Clone, PartialEq, Eq)]
pub enum WorkspaceProbe {
    /// Missing, or an empty directory: safe to initialise.
    Empty,
    /// Holds a metadata database; the project count is best effort (0 when
    /// the database cannot be read).
    ExistingMangoData { project_count: i64 },
    /// A non-empty directory without a metadata database.
    NonEmptyForeign,
    /// Not usable, with the reason.
    Invalid { reason: String },
}

/// What was found at a candidate path, in the order it is looked at.
#[derive(Debug)]
pub struct WorkspaceFacts {
    pub exists: bool,
    pub is_dir: bool,
    /// Whether the metadata database is present, as a file.
    pub has_metadata_db: bool,
    /// The projects counted in that database (0 when it cannot be read).
    pub project_count: i64,
    /// Whether the directory has any entry, or the error reading it gave.
    pub listing: Result<bool, String>,
}

/// The text of an unreadable-directory reason.
pub open spec fn unreadable_reason(detail: Seq<char>) -> Seq<char> {
    "cannot read directory: "@ + detail
}

/// Classifies a candidate workspace directory from what was found there: a
/// missing path is empty; a path that is not a directory is invalid; a
/// directory holding the metadata database is existing data; otherwise an
/// unreadable directory is invalid, a non-empty one foreign, and an empty one
/// empty.
pub fn classify_workspace(facts: WorkspaceFacts) -> (p: WorkspaceProbe)
    ensures
        !facts.exists ==> p == WorkspaceProbe::Empty,
        facts.exists && !facts.is_dir ==> (p is Invalid) && p->reason@ == "path exists but is not a directory"@,
        facts.exists && facts.is_dir && facts.has_metadata_db
            ==> p == (WorkspaceProbe::ExistingMangoData { project_count: facts.project_count }),
        facts.exists && facts.is_dir && !facts.has_metadata_db && facts.listing == Ok::<bool, String>(true)
            ==> p == WorkspaceProbe::NonEmptyForeign,
        facts.exists && facts.is_dir && !facts.has_metadata_db && facts.listing == Ok::<bool, String>(false)
            ==> p == WorkspaceProbe::Empty,
        facts.exists && facts.is_dir && !facts.has_metadata_db && (facts.listing is Err)
            ==> (p is Invalid) && p->reason@ == unreadable_reason(facts.listing->Err_0@),
{
    if !facts.exists {
        return WorkspaceProbe::Empty;
    }
    if !facts.is_dir {
        return WorkspaceProbe::Invalid { reason: "path exists but is not a directory".to_owned() };
    }
    if facts.has_metadata_db {
        return WorkspaceProbe::ExistingMangoData { project_count: facts.project_count };
    }
    match facts.listing {
        Ok(true) => WorkspaceProbe::NonEmptyForeign,
        Ok(false) => WorkspaceProbe::Empty,
        Err(e) => {
            let mut reason = String::new();
            crate::text::push_str(&mut reason, "cannot read directory: ");
            crate::text::push_str(&mut reason, e.as_str());
            WorkspaceProbe::Invalid { reason }
        },
    }
}

} // verus!
