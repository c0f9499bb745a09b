//! Where the editor keeps its save folder, and file errors it reports.
use std::path::PathBuf;
use vstd::prelude::*;

verus! {

#[verifier::external_type_specification]
#[verifier::external_body]
pub struct ExPathBuf(std::path::PathBuf);

#[verifier::external_type_specification]
#[verifier::external_body]
pub struct ExErrorKind(std::io::ErrorKind);

/// Why a file could not be picked, read or written.
#[derive(Debug, Clone, Copy)]
pub enum FileError {
    /// The file dialog was closed without a choice.
    DialogClosed,
    /// Reading or writing failed, of this kind.
    IOFailed(std::io::ErrorKind),
}

/// The file that records the chosen save folder.
pub const SAVE_PATH_FILE: &'static str = "./save_path.dat";

/// The text of a path, when the path is valid Unicode.
pub uninterp spec fn path_text(p: PathBuf) -> Option<Seq<char>>;

/// Relies on `PathBuf::from(&str)`: the path holds a copy of the string,
/// so its text is that string.
#[verifier::external_body]
fn path_from(s: &str) -> (r: PathBuf)
    ensures
        path_text(r) == Some(s@),
{
    PathBuf::from(s)
}

/// Relies on `Path::to_str`: the text of the path exactly when it is valid
/// Unicode.
#[verifier::external_body]
fn path_to_str(p: &PathBuf) -> (r: Option<String>)
    ensures
        r is Some <==> path_text(*p) is Some,
        r is Some ==> r->Some_0@ == path_text(*p)->Some_0,
{
    p.to_str().map(|s| s.to_string())
}

/// The path of the file that records the chosen save folder.
pub fn get_save_file_path() -> (r: PathBuf)
    ensures
        path_text(r) == Some(SAVE_PATH_FILE@),
{
    path_from(SAVE_PATH_FILE)
}

/// The text of a path that is valid Unicode.
pub fn pathbuf_to_string(path: &PathBuf) -> (r: String)
    requires
        path_text(*path) is Some,
    ensures
        r@ == path_text(*path)->Some_0,
{
    match path_to_str(path) {
        Some(s) => s,
        None => String::new(),
    }
}

} // verus!
