use std::path::PathBuf;

use brocode_core_logic::home_dir::{
    after_brocode_home_canonicalize, after_brocode_home_metadata, after_home_dir_lookup,
    begin_brocode_home_lookup, brocode_home_env_value, HomeDirErrorKind, HomeLookup, PathMetadata,
};

fn failure(step: HomeLookup) -> (HomeDirErrorKind, String) {
    match step {
        HomeLookup::Fail(e) => (e.kind, e.message),
        other => panic!("expected a failure, got {other:?}"),
    }
}

#[test]
fn find_brocode_home_env_missing_path_is_fatal() {
    let missing_str = "/tmp/brocode-test-home/missing-brocode-home";
    assert_eq!(
        begin_brocode_home_lookup(Some(missing_str)),
        HomeLookup::InspectPath(missing_str.to_string())
    );
    let (kind, message) = failure(after_brocode_home_metadata(missing_str, PathMetadata::NotFound));
    assert_eq!(kind, HomeDirErrorKind::NotFound);
    assert!(message.contains("BROCODE_HOME"), "unexpected error: {message}");
}

#[test]
fn find_brocode_home_env_file_path_is_fatal() {
    let file_str = "/tmp/brocode-test-home/brocode-home.txt";
    let (kind, message) =
        failure(after_brocode_home_metadata(file_str, PathMetadata::Found { is_dir: false }));
    assert_eq!(kind, HomeDirErrorKind::InvalidInput);
    assert!(message.contains("not a directory"), "unexpected error: {message}");
}

#[test]
fn find_brocode_home_env_valid_directory_canonicalizes() {
    let temp_str = "/tmp/brocode-test-home";
    assert_eq!(
        after_brocode_home_metadata(temp_str, PathMetadata::Found { is_dir: true }),
        HomeLookup::Canonicalize(temp_str.to_string())
    );
    assert_eq!(after_brocode_home_canonicalize(temp_str, None), HomeLookup::UseCanonicalPath);
}

#[test]
fn find_brocode_home_without_env_uses_default_home_dir() {
    assert_eq!(begin_brocode_home_lookup(None), HomeLookup::LocateHomeDir);
    let home = dirs::home_dir().expect("home dir");
    let resolved = match after_home_dir_lookup(true) {
        HomeLookup::UseHomeSubdir(component) => home.join(component),
        other => panic!("expected the default home, got {other:?}"),
    };
    let mut expected: PathBuf = dirs::home_dir().expect("home dir");
    expected.push(".brocode");
    assert_eq!(resolved, expected);
}

#[test]
fn missing_home_directory_is_not_found() {
    let (kind, message) = failure(after_home_dir_lookup(false));
    assert_eq!(kind, HomeDirErrorKind::NotFound);
    assert_eq!(message, "Could not find home directory");
}

#[test]
fn messages_quote_the_path_as_debug_output() {
    let (_, message) = failure(after_brocode_home_metadata("/a \"b\"", PathMetadata::NotFound));
    assert_eq!(message, "BROCODE_HOME points to \"/a \\\"b\\\"\", but that path does not exist");
    let (_, message) =
        failure(after_brocode_home_metadata("/x", PathMetadata::Found { is_dir: false }));
    assert_eq!(message, "BROCODE_HOME points to \"/x\", but that path is not a directory");
}

#[test]
fn read_and_canonicalize_failures_keep_the_error_text() {
    let (kind, message) = failure(after_brocode_home_metadata(
        "/locked",
        PathMetadata::Failed { error: "Permission denied (os error 13)".to_string() },
    ));
    assert_eq!(kind, HomeDirErrorKind::SameAsFailure);
    assert_eq!(message, "failed to read BROCODE_HOME \"/locked\": Permission denied (os error 13)");

    let (kind, message) = failure(after_brocode_home_canonicalize(
        "/loop",
        Some("Too many levels of symbolic links (os error 40)".to_string()),
    ));
    assert_eq!(kind, HomeDirErrorKind::SameAsFailure);
    assert_eq!(
        message,
        "failed to canonicalize BROCODE_HOME \"/loop\": Too many levels of symbolic links (os error 40)"
    );
}

#[test]
fn empty_brocode_home_counts_as_unset() {
    assert_eq!(brocode_home_env_value(Some(String::new())), None);
    assert_eq!(brocode_home_env_value(None), None);
    assert_eq!(brocode_home_env_value(Some("/h".to_string())), Some("/h".to_string()));
}
