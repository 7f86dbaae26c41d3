use satty::security::{
    accept_canonical, check_regular_file, classify_file_mode, precheck_image_path,
    CanonicalizeOutcome, PathPrecheck, SecurityError, MAX_PATH_LENGTH,
};
use tempfile::{NamedTempFile, TempDir};

/// Run a path through the validation pipeline, resolving it with the
/// outcome a filesystem canonicalization reported.
fn validate_with(path: &str, outcome: CanonicalizeOutcome) -> Result<String, SecurityError> {
    match precheck_image_path(path)? {
        PathPrecheck::UseStdin => Ok("-".to_string()),
        PathPrecheck::Canonicalize => {
            let canonical = accept_canonical(path, outcome)?;
            check_regular_file(canonical)
        }
    }
}

#[test]
fn test_validate_empty_path() {
    let result = precheck_image_path("");
    assert!(matches!(result, Err(SecurityError::InvalidPath(_))));
}

#[test]
fn test_validate_stdin_marker() {
    let result = precheck_image_path("-");
    assert!(result.is_ok());
    assert_eq!(result.unwrap(), PathPrecheck::UseStdin);
}

#[test]
fn test_validate_long_path() {
    let long_path = "/".to_string() + &"a".repeat(MAX_PATH_LENGTH + 1);
    let result = precheck_image_path(&long_path);
    assert!(matches!(result, Err(SecurityError::InvalidPath(_))));
}

#[test]
fn test_validate_nonexistent_file() {
    let result = validate_with("/nonexistent/path/to/file.png", CanonicalizeOutcome::NotFound);
    assert!(matches!(result, Err(SecurityError::FileNotFound(_))));
}

#[test]
fn test_validate_path_max_length() {
    // A path of 255 name bytes is well under the limit: it passes the
    // syntactic checks and fails only because no such file exists.
    let long_name = "a".repeat(255);
    let long_path = format!("/tmp/{}", long_name);
    let result = validate_with(&long_path, CanonicalizeOutcome::NotFound);
    assert!(matches!(result, Err(SecurityError::FileNotFound(_))));
}

#[test]
fn test_validate_path_at_root() {
    // /tmp always exists and is a directory, not a file.
    let result = validate_with("/tmp", CanonicalizeOutcome::Resolved("/tmp".to_string()));
    assert!(matches!(result, Err(SecurityError::NotAFile(_))));
}

#[test]
fn test_validate_directory() {
    let dir = TempDir::new().unwrap();
    let path = dir.path().to_str().unwrap().to_string();
    let result = validate_with(&path, CanonicalizeOutcome::Resolved(path.clone()));
    assert!(matches!(result, Err(SecurityError::NotAFile(_))));
}

#[test]
fn test_validate_fifo() {
    let dir = TempDir::new().unwrap();
    let fifo_path = dir.path().join("test.fifo");
    nix::unistd::mkfifo(&fifo_path, nix::sys::stat::Mode::S_IRWXU).unwrap();

    let path = fifo_path.to_str().unwrap().to_string();
    let result = validate_with(&path, CanonicalizeOutcome::Resolved(path.clone()));
    assert!(matches!(result, Err(SecurityError::NotAFile(_))));
}

#[test]
fn test_validate_regular_file() {
    let file = NamedTempFile::new().unwrap();
    let path = file.path().to_str().unwrap().to_string();
    let result = validate_with(&path, CanonicalizeOutcome::Resolved(path.clone()));
    assert_eq!(result.unwrap(), path);
}

#[test]
fn test_dots_inside_a_name_are_no_traversal() {
    // Only a whole `..` component is traversal; dots inside a file name
    // pass, and the file itself is then checked as usual.
    let file = NamedTempFile::new().unwrap();
    let dir = file.path().parent().unwrap().to_str().unwrap().to_string();
    let result = accept_canonical(
        &format!("{dir}/a..b.png"),
        CanonicalizeOutcome::Resolved(format!("{dir}/a..b.png")),
    );
    assert_eq!(result.unwrap(), format!("{dir}/a..b.png"));
}

#[test]
fn test_parent_segment_at_either_end_is_traversal() {
    for path in ["/tmp/..", "../tmp/x.png", "/tmp/../x.png"] {
        let result = accept_canonical(path, CanonicalizeOutcome::Resolved(path.to_string()));
        assert!(
            matches!(result, Err(SecurityError::PathTraversal(_))),
            "accepted: {}",
            path
        );
    }
}

#[test]
fn test_traversal_segments_rejected_after_resolution() {
    // A canonicalization result that still contains a parent-directory
    // segment is refused, whatever the filesystem said.
    let result = accept_canonical(
        "/tmp/../etc/passwd",
        CanonicalizeOutcome::Resolved("/tmp/../etc/passwd".to_string()),
    );
    assert!(matches!(result, Err(SecurityError::PathTraversal(_))));
}

#[test]
fn test_resolution_failure_is_io_error() {
    let result = accept_canonical(
        "/tmp/x.png",
        CanonicalizeOutcome::Failed("permission denied".to_string()),
    );
    assert!(matches!(result, Err(SecurityError::Io(_))));
}

#[test]
fn test_classify_file_mode() {
    // A regular-file mode passes the canonical path through; a directory
    // mode is NotAFile; no answer at all is an I/O error.
    let ok = classify_file_mode("/a/b".to_string(), Some(0o100644));
    assert_eq!(ok.unwrap(), "/a/b");
    let dir = classify_file_mode("/a/b".to_string(), Some(0o040755));
    assert!(matches!(dir, Err(SecurityError::NotAFile(p)) if p == "/a/b"));
    let none = classify_file_mode("/a/b".to_string(), None);
    assert!(matches!(none, Err(SecurityError::Io(_))));
}

#[test]
fn test_security_error_messages() {
    assert_eq!(
        SecurityError::FileNotFound("/a".to_string()).message(),
        "File not found: /a"
    );
    assert_eq!(
        SecurityError::NotAFile("/b".to_string()).message(),
        "Path is not a file: /b"
    );
    assert_eq!(
        SecurityError::InvalidPath("empty path".to_string()).message(),
        "Invalid path: empty path"
    );
}
