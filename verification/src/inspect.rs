//! Keeps the hilen inspect server out of every shipped build. The server lets
//! anyone on the network read and drive the app. The engine build script stops
//! a build that has the `inspect` feature while HILEN_RELEASE is set, and
//! `refuse` judges a scan of the built file itself, which also catches a build
//! that never set the mark.
use vstd::prelude::*;
use crate::text::{lossy_text, trim, trimmed, utf8_lossy};

verus! {

broadcast use vstd::string::group_string_axioms;

/// The variable that marks a shipped build; the engine build script refuses
/// the `inspect` feature while it is set.
pub fn release_env() -> (r: &'static str)
    ensures
        r@ == "HILEN_RELEASE"@,
{
    "HILEN_RELEASE"
}

/// The value that `mark_release` gives the variable.
pub fn release_mark() -> (r: &'static str)
    ensures
        r@ == release_mark_text(),
{
    "1"
}

/// The engine's inspect marker, kept in two pieces so that no copy of this
/// code ever matches its own scan.
pub open spec fn marker() -> Seq<char> {
    "hilen-inspect-"@ + "server-compiled-in"@
}

pub fn inspect_marker() -> (r: String)
    ensures
        r@ == marker(),
{
    let mut m = String::new();
    m.append("hilen-inspect-");
    m.append("server-compiled-in");
    m
}

/// A value of the release variable that marks a shipped build: present and
/// not empty.
pub open spec fn marks_release(mark: Option<Seq<char>>) -> bool {
    mark matches Some(m) && m.len() > 0
}

/// The mark that `release_mark` gives.
pub open spec fn release_mark_text() -> Seq<char> {
    "1"@
}

/// A process marked by `mark_release` counts as a shipped build: the value
/// it writes to the release variable is one that `is_release` reads as set.
pub proof fn lemma_marked_process_is_release()
    ensures
        marks_release(Some(release_mark_text())),
{
    reveal_strlit("1");
}

/// Whether the release mark is set: present and not empty. `mark` is the
/// variable's value, `None` when it is unset or not unicode.
pub fn is_release(mark: Option<&str>) -> (r: bool)
    ensures
        r == marks_release(
            match mark {
                Some(m) => Some(m@),
                None => None,
            },
        ),
{
    match mark {
        Some(m) => !m.is_empty(),
        None => false,
    }
}

/// The arguments of the `grep` that scans `path`, a file or every file under
/// a folder, for the marker: list matching files, binary files as text, the
/// marker a fixed string.
pub fn grep_args(path: &str) -> (r: Vec<String>)
    ensures
        r@.len() == 7,
        r@[0]@ == "-r"@,
        r@[1]@ == "-l"@,
        r@[2]@ == "-a"@,
        r@[3]@ == "-F"@,
        r@[4]@ == "--"@,
        r@[5]@ == marker(),
        r@[6]@ == path@,
{
    vec![
        "-r".to_owned(),
        "-l".to_owned(),
        "-a".to_owned(),
        "-F".to_owned(),
        "--".to_owned(),
        inspect_marker(),
        path.to_owned(),
    ]
}

/// Why a built file may not ship.
#[derive(Debug, PartialEq, Eq)]
pub enum InspectError {
    /// These files, one a line, carry the inspect server.
    Carries { files: String },
    /// grep could not scan the path; `detail` is what it wrote to stderr.
    ScanFailed { path: String, detail: String },
}

/// Judges the scan of `path`: grep exits 1 when no file holds the marker, 0
/// when some do, and otherwise could not scan. `code` is its exit code,
/// `None` when a signal ended it.
pub fn refuse(path: &str, code: Option<i32>, stdout: &[u8], stderr: &[u8]) -> (r: Result<
    (),
    InspectError,
>)
    ensures
        r is Ok <==> code == Some(1i32),
        code == Some(0i32) <==> r matches Err(InspectError::Carries { .. }),
        r matches Err(InspectError::Carries { files }) ==> files@ == trimmed(utf8_lossy(stdout@)),
        r matches Err(InspectError::ScanFailed { path: p, detail }) ==> (p@ == path@ && detail@
            == trimmed(utf8_lossy(stderr@))),
{
    match code {
        Some(1i32) => Ok(()),
        Some(0i32) => {
            let out = lossy_text(stdout);
            Err(InspectError::Carries { files: trim(out.as_str()) })
        },
        _ => {
            let err = lossy_text(stderr);
            Err(InspectError::ScanFailed { path: path.to_owned(), detail: trim(err.as_str()) })
        },
    }
}

} // verus!
