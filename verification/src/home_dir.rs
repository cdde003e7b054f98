//! Where the Brocode configuration directory is.
//!
//! It is the value of `BROCODE_HOME` when that is set; the value must then be
//! an existing directory, and it is canonicalized.  Otherwise it is `.brocode`
//! under the user's home directory, which need not exist.
//!
//! Looking it up reads the file system, so it goes by steps: each function
//! here takes what the previous step found and says what to do next, or what
//! the answer is.
use vstd::prelude::*;
use crate::text::text_to_string;

verus! {

/// The debug rendering of a string: quoted, with special characters escaped.
pub uninterp spec fn debug_quoted(s: Seq<char>) -> Seq<char>;

/// The debug rendering of `s`, as `format!("{:?}", s)` gives it.
#[verifier::external_body]
fn debug_quote(s: &str) -> (res: String)
    ensures
        res@ == debug_quoted(s@),
{
    format!("{:?}", s)
}

/// The name of the environment variable that sets the Brocode home.
pub const BROCODE_HOME_VAR: &'static str = "BROCODE_HOME";

/// The directory, under the user's home directory, that is the default Brocode home.
pub const DEFAULT_HOME_SUBDIR: &'static str = ".brocode";

/// The kind of a failure to find the Brocode home.
#[derive(Debug, PartialEq, Eq, Structural, Clone, Copy)]
pub enum HomeDirErrorKind {
    NotFound,
    InvalidInput,
    /// The kind of the error of the file-system operation that failed.
    SameAsFailure,
}

/// A failure to find the Brocode home.
#[derive(Debug, PartialEq)]
pub struct HomeDirError {
    pub kind: HomeDirErrorKind,
    pub message: String,
}

/// What reading the metadata of a path gave.
#[derive(Debug, PartialEq)]
pub enum PathMetadata {
    /// Nothing exists at the path.
    NotFound,
    /// Reading failed otherwise; `error` is the error's text.
    Failed { error: String },
    /// Something exists at the path.
    Found { is_dir: bool },
}

/// The next step of looking up the Brocode home, or its outcome.
#[derive(Debug, PartialEq)]
pub enum HomeLookup {
    /// Read the metadata of this path.
    InspectPath(String),
    /// Canonicalize this path.
    Canonicalize(String),
    /// Find the user's home directory.
    LocateHomeDir,
    /// Done: the Brocode home is the canonicalized path.
    UseCanonicalPath,
    /// Done: the Brocode home is the user's home directory with this component pushed.
    UseHomeSubdir(String),
    /// Done: there is no usable Brocode home.
    Fail(HomeDirError),
}

/// The message when `BROCODE_HOME` names nothing.
pub open spec fn missing_path_message(val: Seq<char>) -> Seq<char> {
    "BROCODE_HOME points to "@ + debug_quoted(val) + ", but that path does not exist"@
}

/// The message when the metadata of `BROCODE_HOME` cannot be read.
pub open spec fn unreadable_path_message(val: Seq<char>, error: Seq<char>) -> Seq<char> {
    "failed to read BROCODE_HOME "@ + debug_quoted(val) + ": "@ + error
}

/// The message when `BROCODE_HOME` names something other than a directory.
pub open spec fn not_a_directory_message(val: Seq<char>) -> Seq<char> {
    "BROCODE_HOME points to "@ + debug_quoted(val) + ", but that path is not a directory"@
}

/// The message when `BROCODE_HOME` cannot be canonicalized.
pub open spec fn canonicalize_failed_message(val: Seq<char>, error: Seq<char>) -> Seq<char> {
    "failed to canonicalize BROCODE_HOME "@ + debug_quoted(val) + ": "@ + error
}

/// A failure of the given kind and message.
pub open spec fn is_failure(step: HomeLookup, kind: HomeDirErrorKind, message: Seq<char>) -> bool {
    step matches HomeLookup::Fail(e) && e.kind == kind && e.message@ == message
}

/// The value of `BROCODE_HOME` that counts: an empty value counts as unset.
pub fn brocode_home_env_value(raw: Option<String>) -> (res: Option<String>)
    ensures
        match raw {
            Some(v) => if v@.len() == 0 {
                res is None
            } else {
                res == Some(v)
            },
            None => res is None,
        },
{
    match raw {
        Some(v) => if v.as_str().is_empty() {
            None
        } else {
            Some(v)
        },
        None => None,
    }
}

/// The first step: with `BROCODE_HOME` set, inspect its path; otherwise find
/// the home directory, without looking at the file system.
pub fn begin_brocode_home_lookup(brocode_home_env: Option<&str>) -> (res: HomeLookup)
    ensures
        match brocode_home_env {
            Some(val) => res matches HomeLookup::InspectPath(p) && p@ == val@,
            None => res is LocateHomeDir,
        },
{
    match brocode_home_env {
        Some(val) => HomeLookup::InspectPath(text_to_string(val)),
        None => HomeLookup::LocateHomeDir,
    }
}

/// The step after reading the metadata of the path `val` of `BROCODE_HOME`:
/// an existing directory is canonicalized next; anything else fails.
pub fn after_brocode_home_metadata(val: &str, metadata: PathMetadata) -> (res: HomeLookup)
    ensures
        match metadata {
            PathMetadata::NotFound => is_failure(res, HomeDirErrorKind::NotFound, missing_path_message(val@)),
            PathMetadata::Failed { error } => is_failure(
                res,
                HomeDirErrorKind::SameAsFailure,
                unreadable_path_message(val@, error@),
            ),
            PathMetadata::Found { is_dir } => if is_dir {
                res matches HomeLookup::Canonicalize(p) && p@ == val@
            } else {
                is_failure(res, HomeDirErrorKind::InvalidInput, not_a_directory_message(val@))
            },
        },
{
    match metadata {
        PathMetadata::NotFound => {
            let mut message = text_to_string("BROCODE_HOME points to ");
            message.append(debug_quote(val).as_str());
            message.append(", but that path does not exist");
            HomeLookup::Fail(HomeDirError { kind: HomeDirErrorKind::NotFound, message })
        },
        PathMetadata::Failed { error } => {
            let mut message = text_to_string("failed to read BROCODE_HOME ");
            message.append(debug_quote(val).as_str());
            message.append(": ");
            message.append(error.as_str());
            HomeLookup::Fail(HomeDirError { kind: HomeDirErrorKind::SameAsFailure, message })
        },
        PathMetadata::Found { is_dir } => {
            if is_dir {
                HomeLookup::Canonicalize(text_to_string(val))
            } else {
                let mut message = text_to_string("BROCODE_HOME points to ");
                message.append(debug_quote(val).as_str());
                message.append(", but that path is not a directory");
                HomeLookup::Fail(HomeDirError { kind: HomeDirErrorKind::InvalidInput, message })
            }
        },
    }
}

/// The step after canonicalizing the path `val` of `BROCODE_HOME`; `failure`
/// is the error's text when that failed.
pub fn after_brocode_home_canonicalize(val: &str, failure: Option<String>) -> (res: HomeLookup)
    ensures
        match failure {
            Some(error) => is_failure(
                res,
                HomeDirErrorKind::SameAsFailure,
                canonicalize_failed_message(val@, error@),
            ),
            None => res is UseCanonicalPath,
        },
{
    match failure {
        Some(error) => {
            let mut message = text_to_string("failed to canonicalize BROCODE_HOME ");
            message.append(debug_quote(val).as_str());
            message.append(": ");
            message.append(error.as_str());
            HomeLookup::Fail(HomeDirError { kind: HomeDirErrorKind::SameAsFailure, message })
        },
        None => HomeLookup::UseCanonicalPath,
    }
}

/// The step after looking for the user's home directory: `.brocode` under it,
/// or a failure when there is none.
pub fn after_home_dir_lookup(found: bool) -> (res: HomeLookup)
    ensures
        if found {
            res matches HomeLookup::UseHomeSubdir(c) && c@ == DEFAULT_HOME_SUBDIR@
        } else {
            is_failure(res, HomeDirErrorKind::NotFound, "Could not find home directory"@)
        },
{
    if found {
        HomeLookup::UseHomeSubdir(text_to_string(DEFAULT_HOME_SUBDIR))
    } else {
        HomeLookup::Fail(
            HomeDirError {
                kind: HomeDirErrorKind::NotFound,
                message: text_to_string("Could not find home directory"),
            },
        )
    }
}

} // verus!
