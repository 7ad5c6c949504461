//! Progressive literal replacement: a document is rewritten by a list of
//! edits, each of which replaces every occurrence of one literal span in the
//! text as the edits before it have left it.

use vstd::prelude::*;
use crate::text::{chars_of, replace_chars, replaced, string_of};

verus! {

/// One edit: the literal span to look for, and the text that takes its place.
pub type Edit = (Seq<char>, Seq<char>);

/// `content` after the edits have been applied one after the other, each to
/// the result of the one before.
pub open spec fn spliced(content: Seq<char>, edits: Seq<Edit>) -> Seq<char>
    decreases edits.len(),
{
    if edits.len() == 0 {
        content
    } else {
        replaced(spliced(content, edits.drop_last()), edits.last().0, edits.last().1)
    }
}

/// Applies the edits to `content` in order.
pub fn splice(content: &str, edits: &Vec<(String, String)>) -> (out: String)
    ensures
        out@ == spliced(content@, edits.deep_view()),
{
    let mut acc: Vec<char> = chars_of(content);
    let mut k: usize = 0;
    while k < edits.len()
        invariant
            k <= edits.len(),
            acc@ == spliced(content@, edits.deep_view().take(k as int)),
        decreases edits.len() - k,
    {
        let from = chars_of(edits[k].0.as_str());
        let to = chars_of(edits[k].1.as_str());
        acc = replace_chars(&acc, &from, &to);
        proof {
            let all = edits.deep_view();
            assert(all.take(k + 1).drop_last() == all.take(k as int));
            assert(all.take(k + 1).last() == (edits[k as int].0@, edits[k as int].1@));
        }
        k += 1;
    }
    proof {
        assert(edits.deep_view().take(k as int) == edits.deep_view());
    }
    string_of(&acc)
}

} // verus!
