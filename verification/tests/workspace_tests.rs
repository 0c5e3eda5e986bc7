use ndnm_hermes::workspace::{sanitize_filename, WorkspaceManager};

#[test]
fn test_sanitize_filename() {
    assert_eq!(sanitize_filename("hello world"), "hello_world");
    assert_eq!(sanitize_filename("test/file.txt"), "test_file_txt");
    assert_eq!(sanitize_filename("valid-name_123"), "valid-name_123");
}

#[test]
fn test_sanitize_filename_idempotent_on_samples() {
    let inputs = vec!["hello world", "test/file.txt", "valid-name_123", "a!b@c#d"];
    for input in inputs {
        let once = sanitize_filename(input);
        let twice = sanitize_filename(once.as_str());
        assert_eq!(once, twice);
    }
}

#[test]
fn test_workspace_file_name() {
    let manager = WorkspaceManager::new("./nexus");
    assert_eq!(manager.workspace_file_name("demo"), "demo.json");
    assert_eq!(manager.workspace_file_name("my workspace!"), "my_workspace_.json");
}

#[test]
fn test_workspace_names_from_files_filters_and_sorts() {
    let manager = WorkspaceManager::new("./nexus");
    let names = manager.workspace_names_from_files(vec![
        "beta.json".to_string(),
        "alpha.json".to_string(),
        "notes.txt".to_string(),
        "gamma.json".to_string(),
        "json".to_string(),
    ]);
    assert_eq!(names, vec!["alpha".to_string(), "beta".to_string(), "gamma".to_string()]);
}

#[test]
fn test_workspace_names_from_files_empty() {
    let manager = WorkspaceManager::new("./nexus");
    let names = manager.workspace_names_from_files(vec![]);
    assert_eq!(names.len(), 0);
}
