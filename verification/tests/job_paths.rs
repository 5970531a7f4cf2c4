use squid::jobs::validate_file_path_outcome;
use squid::path_policy::normalize_path;

const WORKSPACE: &str = "/home/user/project";

/// The files of a small project tree, with a system file outside it.
const FILES: [&str; 4] =
    ["/home/user/project/src/main.rs", "/home/user/project/Cargo.toml", "/home/user/project/docs/JOBS.md", "/etc/passwd"];

/// A job's file path checked as the job runner checks it: made absolute against
/// the working directory and resolved in the file tree above (a missing file does
/// not resolve), then validated by the library.
fn validate_file_path(file_path: &str) -> Result<String, String> {
    let absolute = if file_path.starts_with('/') { file_path.to_string() } else { format!("{}/{}", WORKSPACE, file_path) };
    let normal = normalize_path(&absolute);
    let resolved = if FILES.contains(&normal.as_str()) {
        Ok(normal)
    } else {
        Err("No such file or directory (os error 2)".to_string())
    };
    validate_file_path_outcome(file_path, WORKSPACE, resolved)
}

#[test]
fn test_validate_file_path_accepts_workspace_files() {
    assert!(validate_file_path("src/main.rs").is_ok());
    assert!(validate_file_path("./Cargo.toml").is_ok());
    assert!(validate_file_path("docs/JOBS.md").is_ok());
}

#[test]
fn test_validate_file_path_prevents_directory_traversal() {
    assert!(validate_file_path("../../../etc/passwd").is_err());
    assert_eq!(
        validate_file_path("../../../etc/passwd"),
        Err("Access denied: path '../../../etc/passwd' is outside workspace".to_string())
    );
    assert!(validate_file_path("./src/../../secret.txt").is_err());
    assert!(validate_file_path("../../Cargo.toml").is_err());
}

#[test]
fn test_validate_file_path_rejects_absolute_paths_outside_workspace() {
    assert!(validate_file_path("/etc/passwd").is_err());
    assert!(validate_file_path("/tmp/malicious").is_err());
}

#[test]
fn test_validate_file_path_current_dir_failure_handling() {
    match validate_file_path("test.txt") {
        Ok(_) => {}
        Err(e) => assert!(e.contains("Failed to") || e.contains("Access denied")),
    }
}

#[test]
fn test_validate_file_path_hidden_directory_traversal() {
    assert!(validate_file_path("src/../../../etc/passwd").is_err());
    assert!(validate_file_path("./docs/../../../../../../etc/passwd").is_err());
}

#[test]
fn resolved_paths_are_checked_by_component() {
    assert_eq!(validate_file_path_outcome("a.rs", "/work", Ok("/work/a.rs".to_string())), Ok("/work/a.rs".to_string()));
    assert_eq!(
        validate_file_path_outcome("../x", "/work", Ok("/workshop/x".to_string())),
        Err("Access denied: path '../x' is outside workspace".to_string())
    );
    assert_eq!(
        validate_file_path_outcome("gone", "/work", Err("No such file or directory (os error 2)".to_string())),
        Err("Failed to canonicalize path: No such file or directory (os error 2)".to_string())
    );
}
