//! The files that are written, and the directories that they need.
use std::path::Path;
use vstd::prelude::*;
use vstd::string::*;

verus! {

/// Whether `parent` is what `std::path::Path::parent` may give for `path`: which
/// characters separate the components of a path depends on the platform.
pub uninterp spec fn may_be_parent(path: Seq<char>, parent: Option<Seq<char>>) -> bool;

/// The value of an optional text.
pub open spec fn text_view(text: Option<String>) -> Option<Seq<char>> {
    match text {
        Some(t) => Some(t@),
        None => None,
    }
}

/// Whether `path` is a bare file name: it holds no character that separates components on
/// any platform.
pub open spec fn is_bare_name(path: Seq<char>) -> bool {
    &&& path.len() > 0
    &&& !path.contains('/')
    &&& !path.contains('\\')
    &&& !path.contains(':')
}

/// `std::path::Path::parent` gives the path without its final component, if it has one,
/// nothing for the empty path, and the empty path for a relative path with one component.
/// Where the final component of another path begins is left unsaid, since that depends on
/// the platform.
#[verifier::external_body]
fn path_parent(path: &str) -> (r: Option<String>)
    ensures
        may_be_parent(path@, text_view(r)),
        r matches Some(dir) ==> dir@.is_prefix_of(path@) && dir@.len() < path@.len(),
        path@.len() == 0 ==> r is None,
        is_bare_name(path@) ==> r is Some && (r->0)@.len() == 0,
{
    Path::new(path).parent().and_then(Path::to_str).map(str::to_owned)
}

/// The directory that `parent` names: none where it is empty, which stands for the current
/// directory.
pub open spec fn named(parent: Option<Seq<char>>) -> Option<Seq<char>> {
    match parent {
        Some(dir) if dir.len() > 0 => Some(dir),
        _ => None,
    }
}

/// The directory that `parent` names, if it names one.
pub fn named_directory(parent: Option<String>) -> (r: Option<String>)
    ensures
        text_view(r) == named(text_view(parent)),
{
    match parent {
        Some(dir) => if dir.as_str().is_empty() {
            None
        } else {
            Some(dir)
        },
        None => None,
    }
}

/// The parent of a path: the path without its final component, if it has one.
pub fn parent(path: &str) -> (r: Option<String>)
    ensures
        may_be_parent(path@, text_view(r)),
        r matches Some(dir) ==> dir@.is_prefix_of(path@) && dir@.len() < path@.len(),
        path@.len() == 0 ==> r is None,
        is_bare_name(path@) ==> r is Some && (r->0)@.len() == 0,
{
    path_parent(path)
}

/// A file that is written, and the directory that has to be there before.
#[derive(Debug, PartialEq, Eq)]
pub struct Target {
    pub path: String,
    /// The directory that the path names, if it names one.
    pub directory: Option<String>,
}

impl Target {
    /// Whether the directory is the one that the path names.
    pub open spec fn valid(self) -> bool {
        exists|parent: Option<Seq<char>>| #[trigger]
            may_be_parent(self.path@, parent) && text_view(self.directory) == named(parent)
    }

    /// The file with this path. A bare file name needs no directory.
    pub fn new(path: String) -> (r: Target)
        ensures
            r.path == path,
            r.valid(),
            is_bare_name(path@) ==> r.directory is None,
            r.directory matches Some(dir) ==> 0 < dir@.len() < path@.len() && dir@.is_prefix_of(
                path@,
            ),
    {
        let above = parent(path.as_str());
        let ghost seen = text_view(above);
        let r = Target { directory: named_directory(above), path };
        assert(may_be_parent(r.path@, seen));
        r
    }

    /// Whether the path names a directory.
    pub fn has_directory(&self) -> (r: bool)
        ensures
            r == self.directory is Some,
    {
        match &self.directory {
            Some(_) => true,
            None => false,
        }
    }

    /// The directory that the path names.
    pub fn directory(&self) -> (r: String)
        requires
            self.directory is Some,
        ensures
            r == self.directory->0,
    {
        match &self.directory {
            Some(dir) => dir.clone(),
            None => String::new(),
        }
    }
}

} // verus!
