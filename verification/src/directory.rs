//! The directory that holds everything a swarm writes.
//!
//! A swarm that was given no directory works in a temporary one, which is
//! removed when the swarm goes away.  On demand the directory is kept
//! instead: it stays where it is, and only ceases to be removed.

use vstd::prelude::*;
use std::path::PathBuf;
use tempfile::TempDir;

verus! {

/// `tempfile::TempDir`: a directory that is removed when the value is
/// dropped.  Nothing inside it is seen here; it is only carried along.
#[verifier::external_type_specification]
#[verifier::external_body]
pub struct ExTempDir(tempfile::TempDir);

/// `std::path::PathBuf`: a path.  Nothing inside it is seen here; it is only
/// carried along.
#[verifier::external_type_specification]
#[verifier::external_body]
pub struct ExPathBuf(std::path::PathBuf);

/// The text of a path, as it is displayed.
pub uninterp spec fn path_text(path: PathBuf) -> Seq<char>;

/// The text of the path at which a temporary directory lies.
pub uninterp spec fn temp_dir_text(dir: TempDir) -> Seq<char>;

/// The directory of a swarm.
#[derive(Debug)]
pub enum SwarmDirectory {
    /// A directory that stays.
    Persistent(PathBuf),
    /// A directory that is removed together with this value.
    Temporary(TempDir),
}

/// Calls `TempDir::keep`, which switches the removal off and hands out the
/// path that the directory has: the result is the path of `dir`, the same
/// that `TempDir::path` gave before.
#[verifier::external_body]
fn keep_temp_dir(dir: TempDir) -> (path: PathBuf)
    ensures
        path_text(path) == temp_dir_text(dir),
{
    dir.keep()
}

/// Renders a path as text with `Path::display`.  The text depends on the
/// path alone; what in it is no valid text is replaced as `display`
/// replaces it.
#[verifier::external_body]
fn path_display(path: &PathBuf) -> (text: String)
    ensures
        text@ == path_text(*path),
{
    path.display().to_string()
}

/// Calls `TempDir::path`, which gives the path at which the directory lies,
/// and makes an owned path of it.
#[verifier::external_body]
fn temp_dir_path(dir: &TempDir) -> (path: PathBuf)
    ensures
        path_text(path) == temp_dir_text(*dir),
{
    dir.path().to_path_buf()
}

/// Makes an empty path with `PathBuf::new`.  Nothing is claimed of it.
#[verifier::external_body]
fn empty_path() -> PathBuf {
    PathBuf::new()
}

impl SwarmDirectory {
    /// The text of the path at which the directory lies.
    pub open spec fn location(&self) -> Seq<char> {
        match *self {
            SwarmDirectory::Persistent(path) => path_text(path),
            SwarmDirectory::Temporary(dir) => temp_dir_text(dir),
        }
    }

    /// Whether the directory stays when the swarm goes away.
    pub fn is_persistent(&self) -> (yes: bool)
        ensures
            yes == (*self is Persistent),
    {
        match self {
            SwarmDirectory::Persistent(_) => true,
            SwarmDirectory::Temporary(_) => false,
        }
    }

    /// The same directory, kept: a temporary directory is no longer removed,
    /// a persistent one is handed back as it is.
    pub fn into_persistent(self) -> (kept: SwarmDirectory)
        ensures
            kept is Persistent,
            kept.location() == self.location(),
            self is Persistent ==> kept == self,
    {
        match self {
            SwarmDirectory::Temporary(dir) => SwarmDirectory::Persistent(keep_temp_dir(dir)),
            SwarmDirectory::Persistent(path) => SwarmDirectory::Persistent(path),
        }
    }

    /// Keeps the directory, in place.  Doing so again changes nothing.
    pub fn persist(&mut self)
        ensures
            *final(self) is Persistent,
            final(self).location() == old(self).location(),
            *old(self) is Persistent ==> *final(self) == *old(self),
    {
        match self {
            SwarmDirectory::Persistent(_) => {},
            SwarmDirectory::Temporary(_) => {
                let mut held = SwarmDirectory::Persistent(empty_path());
                std::mem::swap(self, &mut held);
                *self = held.into_persistent();
            },
        }
    }

    /// The path of the directory, as text.
    pub fn display(&self) -> (text: String)
        ensures
            text@ == self.location(),
    {
        match self {
            SwarmDirectory::Persistent(path) => path_display(path),
            SwarmDirectory::Temporary(dir) => path_display(&temp_dir_path(dir)),
        }
    }
}

} // verus!
