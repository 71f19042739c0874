use confined_fs::error::{ErrorKind, FsError};
use confined_fs::resolve::{canonical_root, canonical_within, within_root};
use confined_fs::path::Route;

fn found(text: &str) -> Result<String, String> {
    Ok(text.to_string())
}

fn missing(reason: &str) -> Result<String, String> {
    Err(reason.to_string())
}

fn error_of(result: Result<Route, FsError>) -> FsError {
    match result {
        Ok(route) => panic!("expected an error, got {}", route.render()),
        Err(error) => error,
    }
}

#[test]
fn candidate_below_root_is_accepted() {
    let got = canonical_within(&found("/root"), &found("/root/a/x.txt")).unwrap();
    assert_eq!(got.render(), "/root/a/x.txt");
}

#[test]
fn root_itself_is_accepted() {
    let got = canonical_within(&found("/root"), &found("/root")).unwrap();
    assert_eq!(got.render(), "/root");
}

#[test]
fn everything_is_within_the_file_system_root() {
    let got = canonical_within(&found("/"), &found("/etc/passwd")).unwrap();
    assert_eq!(got.render(), "/etc/passwd");
}

#[test]
fn sibling_with_common_text_prefix_is_outside() {
    let err = error_of(canonical_within(&found("/root"), &found("/root-evil")));
    assert_eq!(err.kind, ErrorKind::Escape);
    assert_eq!(err.message, "Path escapes selected root");
    assert_eq!(err.left_behind, None);
    assert!(err.changed_nothing());
}

#[test]
fn parent_of_root_is_outside() {
    let err = error_of(canonical_within(&found("/srv/root"), &found("/srv")));
    assert_eq!(err.kind, ErrorKind::Escape);
}

#[test]
fn unrelated_path_is_outside() {
    let err = error_of(canonical_within(&found("/root"), &found("/etc")));
    assert_eq!(err.kind, ErrorKind::Escape);
}

#[test]
fn unresolved_root_is_invalid_root() {
    let err = error_of(canonical_within(&missing("No such file"), &found("/root/a")));
    assert_eq!(err.kind, ErrorKind::InvalidRoot);
    assert_eq!(err.message, "Failed to canonicalize root: No such file");
}

#[test]
fn unresolved_root_wins_over_unresolved_candidate() {
    let err = error_of(canonical_within(&missing("r"), &missing("c")));
    assert_eq!(err.kind, ErrorKind::InvalidRoot);
}

#[test]
fn unresolved_candidate_is_invalid_path() {
    let err = error_of(canonical_within(&found("/root"), &missing("No such file")));
    assert_eq!(err.kind, ErrorKind::InvalidPath);
    assert_eq!(err.message, "Failed to canonicalize path: No such file");
}

#[test]
fn canonical_root_reads_the_text() {
    assert_eq!(canonical_root("Invalid root: ", &found("/root")).unwrap().render(), "/root");
    let err = error_of(canonical_root("Invalid root: ", &missing("gone")));
    assert_eq!(err.kind, ErrorKind::InvalidRoot);
    assert_eq!(err.message, "Invalid root: gone");
}

#[test]
fn within_root_checks_against_a_known_root() {
    let base = Route::parse("/root");
    assert_eq!(within_root(&base, &found("/root/x")).unwrap().render(), "/root/x");
    assert_eq!(error_of(within_root(&base, &found("/rootx"))).kind, ErrorKind::Escape);
    assert_eq!(error_of(within_root(&base, &missing("e"))).kind, ErrorKind::InvalidPath);
}

#[test]
fn error_records_what_was_left_behind() {
    let err = FsError::new(ErrorKind::MoveFailed, "Move failed: ", "busy");
    assert_eq!(err.message, "Move failed: busy");
    assert!(err.changed_nothing());
    let err = err.after(Some("/root/new".to_string()));
    assert_eq!(err.kind, ErrorKind::MoveFailed);
    assert_eq!(err.message, "Move failed: busy");
    assert_eq!(err.left_behind, Some("/root/new".to_string()));
    assert!(!err.changed_nothing());
}
