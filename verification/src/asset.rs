//! Asset references: telling remote from local ones, and naming the copy
//! that a local asset gets beside the converted document.

use vstd::prelude::*;
use vstd::string::*;
use crate::engine::{is_url, parses_as_url};
use crate::text::{chars_of, string_of};

verus! {

/// What an asset reference points at.
#[derive(Debug, Clone, Copy, PartialEq, Eq)]
pub enum Reference {
    /// An absolute URL; the markup around it stays as it is.
    Remote,
    /// A path on disk, to be resolved against the directory of the document.
    Local,
}

/// Tells a remote reference from a local one: a reference that parses as an
/// absolute URL is remote, every other one is local.
pub fn classify(reference: &str) -> (kind: Reference)
    ensures
        kind is Remote <==> parses_as_url(reference@),
{
    if is_url(reference) {
        Reference::Remote
    } else {
        Reference::Local
    }
}

/// `file_name` with every space replaced by an underscore.
pub open spec fn normalized(file_name: Seq<char>) -> Seq<char> {
    Seq::new(
        file_name.len(),
        |i: int|
            if file_name[i] == ' ' {
                '_'
            } else {
                file_name[i]
            },
    )
}

/// The name under which an asset is stored in the asset directory: its file
/// name with every space replaced by an underscore.
pub fn normalized_name(file_name: &str) -> (out: String)
    ensures
        out@ == normalized(file_name@),
{
    let name = chars_of(file_name);
    let mut out: Vec<char> = Vec::new();
    let mut i: usize = 0;
    while i < name.len()
        invariant
            i <= name.len(),
            out@ == normalized(name@).take(i as int),
        decreases name.len() - i,
    {
        if name[i] == ' ' {
            out.push('_');
        } else {
            out.push(name[i]);
        }
        proof {
            assert(normalized(name@).take(i + 1) == normalized(name@).take(i as int).push(
                normalized(name@)[i as int],
            ));
        }
        i += 1;
    }
    proof {
        assert(normalized(name@).take(i as int) == normalized(name@));
    }
    string_of(&out)
}

/// A normalized name is as long as the file name and holds no space.
pub proof fn lemma_normalized_has_no_space(file_name: Seq<char>)
    ensures
        normalized(file_name).len() == file_name.len(),
        forall|i: int| 0 <= i < file_name.len() ==> normalized(file_name)[i] != ' ',
        forall|i: int|
            0 <= i < file_name.len() && file_name[i] != ' ' ==> normalized(file_name)[i]
                == file_name[i],
{
}

/// The reference by which the converted document reaches a relocated asset.
pub open spec fn reference_to(file_name: Seq<char>) -> Seq<char> {
    "assets/"@ + normalized(file_name)
}

/// The reference by which the converted document reaches the asset with that
/// file name: `assets/` and the normalized name.
pub fn asset_reference(file_name: &str) -> (out: String)
    ensures
        out@ == reference_to(file_name@),
{
    let name = normalized_name(file_name);
    let mut out = String::new();
    out.append("assets/");
    out.append(name.as_str());
    out
}

/// Where an asset is copied to: the asset directory, a slash, and the normalized name.
pub open spec fn destination_in(asset_dir: Seq<char>, file_name: Seq<char>) -> Seq<char> {
    asset_dir + "/"@ + normalized(file_name)
}

/// The path an asset with that file name is copied to inside `asset_dir`.
pub fn asset_destination(asset_dir: &str, file_name: &str) -> (out: String)
    ensures
        out@ == destination_in(asset_dir@, file_name@),
{
    let name = normalized_name(file_name);
    let mut out = String::new();
    out.append(asset_dir);
    out.append("/");
    out.append(name.as_str());
    out
}

} // verus!
