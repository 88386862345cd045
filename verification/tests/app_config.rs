use mango_core::app_config::{classify_workspace, WorkspaceFacts, WorkspaceProbe};

fn facts(exists: bool, is_dir: bool, has_db: bool, count: i64, listing: Result<bool, String>) -> WorkspaceFacts {
    WorkspaceFacts { exists, is_dir, has_metadata_db: has_db, project_count: count, listing }
}

#[test]
fn missing_path_is_empty() {
    assert_eq!(classify_workspace(facts(false, false, false, 0, Ok(false))), WorkspaceProbe::Empty);
}

#[test]
fn file_path_is_invalid() {
    assert_eq!(
        classify_workspace(facts(true, false, false, 0, Ok(false))),
        WorkspaceProbe::Invalid { reason: "path exists but is not a directory".to_string() }
    );
}

#[test]
fn directory_with_database_is_existing_data() {
    assert_eq!(
        classify_workspace(facts(true, true, true, 2, Ok(true))),
        WorkspaceProbe::ExistingMangoData { project_count: 2 }
    );
}

#[test]
fn other_directories_by_contents() {
    assert_eq!(classify_workspace(facts(true, true, false, 0, Ok(true))), WorkspaceProbe::NonEmptyForeign);
    assert_eq!(classify_workspace(facts(true, true, false, 0, Ok(false))), WorkspaceProbe::Empty);
    assert_eq!(
        classify_workspace(facts(true, true, false, 0, Err("permission denied".to_string()))),
        WorkspaceProbe::Invalid { reason: "cannot read directory: permission denied".to_string() }
    );
}
