//! What the style provider is set up with.

use vstd::prelude::*;
use std::path::PathBuf;

verus! {

/// `std::path::PathBuf`, carried through as it is.
#[verifier::external_type_specification]
#[verifier::external_body]
pub struct ExPathBuf(PathBuf);

/// The path that `PathBuf::from` makes of a text.
pub uninterp spec fn path_of_text(text: Seq<char>) -> PathBuf;

/// `PathBuf::from` on a text: the path that the text writes. The result
/// depends on the text alone.
#[verifier::external_body]
fn path_from(text: &str) -> (path: PathBuf)
    ensures
        path == path_of_text(text@),
{
    PathBuf::from(text)
}

/// The options of the style provider.
///
/// `path` is where the styles are read from, a file or a folder.
/// `recursive` says whether changes in the folders below a folder are
/// watched too; it means nothing where the path is a file.
pub struct ProviderOptions {
    pub path: PathBuf,
    pub recursive: bool,
}

impl Default for ProviderOptions {
    /// The folder `./styles`, watched with the folders below it.
    fn default() -> (r: ProviderOptions)
        ensures
            r.path == path_of_text("./styles"@),
            r.recursive,
    {
        ProviderOptions { path: path_from("./styles"), recursive: true }
    }
}

/// The options of a theme: the folder that its styles are read from.
pub struct ThemeOptions {
    path: PathBuf,
}

impl ThemeOptions {
    /// The folder that the styles are read from.
    pub closed spec fn path_view(&self) -> PathBuf {
        self.path
    }

    /// Options with the path that `path` writes.
    #[must_use]
    pub fn with_path(path: &str) -> (r: ThemeOptions)
        ensures
            r.path_view() == path_of_text(path@),
    {
        ThemeOptions { path: path_from(path) }
    }

    /// The folder that the styles are read from.
    pub fn path(&self) -> (r: &PathBuf)
        ensures
            *r == self.path_view(),
    {
        &self.path
    }
}

} // verus!
