//! Where one Markdown document comes from and where its conversion goes.

use vstd::prelude::*;
use std::path::PathBuf;

verus! {

/// A filesystem path of the standard library, carried through as an opaque value.
#[verifier::external_type_specification]
#[verifier::external_body]
pub struct ExPathBuf(PathBuf);

/// One document to convert.
pub struct FileDetail {
    /// The source Markdown file.
    pub file_path: PathBuf,
    /// The directory holding the source file; local asset references resolve against it.
    pub file_dir: PathBuf,
    /// The directory that receives the document's relocated assets.
    pub output_assets_dir: PathBuf,
    /// The file the converted document is written to.
    pub output_file_path: PathBuf,
}

/// Whether a directory entry of that name is hidden, that is, whether the
/// name begins with a dot. The tree walk skips hidden entries and everything
/// below them.
pub fn is_hidden(file_name: &str) -> (hidden: bool)
    ensures
        hidden == (file_name@.len() > 0 && file_name@[0] == '.'),
{
    let mut it = file_name.chars();
    match it.next() {
        Some(c) => c == '.',
        None => false,
    }
}

/// Whether a file with that extension is a Markdown document: the extension
/// is `md`, in lower case.
pub fn is_markdown(extension: &str) -> (yes: bool)
    ensures
        yes == (extension@ == "md"@),
{
    proof {
        reveal_strlit("md");
    }
    let mut it = extension.chars();
    let first = it.next();
    let second = it.next();
    let third = it.next();
    match (first, second, third) {
        (Some(a), Some(b), None) => {
            proof {
                if a == 'm' && b == 'd' {
                    assert(extension@ == "md"@);
                }
            }
            a == 'm' && b == 'd'
        },
        _ => false,
    }
}

} // verus!
