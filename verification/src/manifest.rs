//! The search for the closest directory that holds a `package.json`.

use vstd::prelude::*;

verus! {

/// The name of an npm project's manifest.
pub const MANIFEST_FILE_NAME: &'static str = "package.json";

/// What the search for the project's manifest does next.
#[derive(Debug)]
pub enum ManifestSearch {
    /// The manifest lies in this directory: it is the project's root.
    Found(String),
    /// Look in this directory next.
    Probe(String),
    /// No directory on the way up holds a manifest.
    NotFound,
}

/// One step of the search that starts at the working directory and goes up
/// through its parents: given a directory, whether it holds a
/// `package.json`, and its parent (`None` at the root), the search stops
/// there, goes on to the parent, or gives up.
pub fn find_closest_parent_manifest(directory: String, has_manifest: bool, parent: Option<String>) -> (r: ManifestSearch)
    ensures
        has_manifest ==> (r matches ManifestSearch::Found(d) && d@ == directory@),
        !has_manifest && parent is Some ==> (r matches ManifestSearch::Probe(p) && p@ == parent->0@),
        !has_manifest && parent is None ==> r is NotFound,
{
    if has_manifest {
        return ManifestSearch::Found(directory);
    }
    match parent {
        Some(p) => ManifestSearch::Probe(p),
        None => ManifestSearch::NotFound,
    }
}

} // verus!
