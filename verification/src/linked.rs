//! The constructs that point at an asset: file links and images. A match whose
//! source is remote stays as it is; a match whose source is local gives way
//! to a Markdown link to the relocated copy of the asset.

use vstd::prelude::*;
use vstd::string::*;
use crate::asset::{asset_reference, classify, reference_to, Reference};
use crate::captures::{all_carry, carries, group};
use crate::engine::{parses_as_url, Groups};
use crate::splice::{splice, spliced, Edit};

verus! {

/// A construct that refers to an asset by its `src` attribute.
#[derive(Debug, Clone, Copy, PartialEq, Eq)]
pub enum Linked {
    /// A file tag; group 1 is the source.
    FileLink,
    /// An image: inside a figure with an empty caption (group 1 is the
    /// source), or bare (group 2 is the source). The figure is tried first.
    Image,
}

/// The pattern that finds the construct.
pub open spec fn linked_pattern_of(kind: Linked) -> Seq<char> {
    match kind {
        Linked::FileLink => r#"(?s)\{%\sfile\ssrc="(.+?)"\s%\}"#@,
        Linked::Image =>
            r#"(?s)<figure><img\ssrc="(.+?)"\salt=".+?><figcaption></figcaption></figure>|<img\ssrc="(.+?)"\salt=".+?>"#@,
    }
}

/// The pattern that finds the construct.
pub fn linked_pattern(kind: Linked) -> (p: &'static str)
    ensures
        p@ == linked_pattern_of(kind),
{
    match kind {
        Linked::FileLink => r#"(?s)\{%\sfile\ssrc="(.+?)"\s%\}"#,
        Linked::Image =>
            r#"(?s)<figure><img\ssrc="(.+?)"\salt=".+?><figcaption></figcaption></figure>|<img\ssrc="(.+?)"\salt=".+?>"#,
    }
}

/// The number of the last capture group that every match of the construct carries.
pub open spec fn linked_last_group(kind: Linked) -> int {
    match kind {
        Linked::FileLink => 1,
        Linked::Image => 0,
    }
}

/// The asset reference of a match: for a file link group 1; for an image
/// group 1, or else group 2, or else the empty text.
pub open spec fn source_in(kind: Linked, m: Groups) -> Seq<char> {
    match kind {
        Linked::FileLink => m[1].unwrap(),
        Linked::Image => if 1 < m.len() && m[1] is Some {
            m[1].unwrap()
        } else if 2 < m.len() && m[2] is Some {
            m[2].unwrap()
        } else {
            Seq::empty()
        },
    }
}

/// The Markdown that refers to the relocated asset with that file name.
pub open spec fn link_to(kind: Linked, file_name: Seq<char>) -> Seq<char> {
    match kind {
        Linked::FileLink => "["@ + crate::asset::normalized(file_name) + "]("@ + reference_to(
            file_name,
        ) + ")"@,
        Linked::Image => "![image]("@ + reference_to(file_name) + ")"@,
    }
}

/// The sources of the matches that are local, in the order of the matches.
pub open spec fn local_sources(kind: Linked, found: Seq<Groups>) -> Seq<Seq<char>>
    decreases found.len(),
{
    if found.len() == 0 {
        Seq::empty()
    } else {
        let before = local_sources(kind, found.drop_last());
        let source = source_in(kind, found.last());
        if parses_as_url(source) {
            before
        } else {
            before.push(source)
        }
    }
}

/// The edits that rewrite the matches, given for each local source, in order,
/// the file name of the asset it resolved to. A match with a remote source
/// gives no edit.
pub open spec fn linked_edits(kind: Linked, found: Seq<Groups>, file_names: Seq<Seq<char>>) -> Seq<
    Edit,
>
    decreases found.len(),
{
    if found.len() == 0 {
        Seq::empty()
    } else {
        let before = linked_edits(kind, found.drop_last(), file_names);
        let m = found.last();
        if parses_as_url(source_in(kind, m)) {
            before
        } else {
            before.push(
                (
                    m[0].unwrap(),
                    link_to(kind, file_names[local_sources(kind, found.drop_last()).len() as int]),
                ),
            )
        }
    }
}

/// Reads the asset reference out of the match `m`.
pub fn source(kind: Linked, m: &Vec<Option<String>>) -> (out: String)
    requires
        carries(m.deep_view(), linked_last_group(kind)),
    ensures
        out@ == source_in(kind, m.deep_view()),
{
    proof {
        assert(forall|i: int| 0 <= i < m.len() ==> m.deep_view()[i] == m@[i].deep_view());
    }
    match kind {
        Linked::FileLink => group(m, 1).clone(),
        Linked::Image => {
            if 1 < m.len() && m[1].is_some() {
                group(m, 1).clone()
            } else if 2 < m.len() && m[2].is_some() {
                group(m, 2).clone()
            } else {
                String::new()
            }
        },
    }
}

/// Builds the Markdown that refers to the relocated asset with that file name.
pub fn link(kind: Linked, file_name: &str) -> (out: String)
    ensures
        out@ == link_to(kind, file_name@),
{
    let target = asset_reference(file_name);
    let mut out = String::new();
    match kind {
        Linked::FileLink => {
            let name = crate::asset::normalized_name(file_name);
            out.append("[");
            out.append(name.as_str());
            out.append("](");
        },
        Linked::Image => {
            out.append("![image](");
        },
    }
    out.append(target.as_str());
    out.append(")");
    out
}

/// Lists the local sources among the matches `found`, in their order: the
/// assets that have to be resolved and relocated before the rewrite.
pub fn sources_to_resolve(kind: Linked, found: &Vec<Vec<Option<String>>>) -> (out: Vec<String>)
    requires
        all_carry(found.deep_view(), linked_last_group(kind)),
    ensures
        out.deep_view() == local_sources(kind, found.deep_view()),
{
    let mut out: Vec<String> = Vec::new();
    let mut k: usize = 0;
    proof {
        assert(found.deep_view().take(0).len() == 0);
    }
    while k < found.len()
        invariant
            k <= found.len(),
            all_carry(found.deep_view(), linked_last_group(kind)),
            out.deep_view() == local_sources(kind, found.deep_view().take(k as int)),
        decreases found.len() - k,
    {
        let m = &found[k];
        proof {
            let all = found.deep_view();
            assert(all[k as int] == m.deep_view());
            assert(all.take(k + 1).drop_last() == all.take(k as int));
            assert(all.take(k + 1).last() == m.deep_view());
        }
        let ghost before = out.deep_view();
        let src = source(kind, m);
        match classify(src.as_str()) {
            Reference::Remote => {},
            Reference::Local => {
                let ghost text = src@;
                out.push(src);
                proof {
                    assert(out.deep_view() == before.push(text));
                }
            },
        }
        k += 1;
    }
    proof {
        assert(found.deep_view().take(k as int) == found.deep_view());
    }
    out
}

/// Rewrites the matches `found` of one construct in `content`. `file_names`
/// holds, for each local source in order, the file name of the asset it
/// resolved to. For each match with a local source in turn, every occurrence
/// of its span in the text gives way to the link to the relocated asset.
pub fn rewrite_linked(
    kind: Linked,
    content: &str,
    found: &Vec<Vec<Option<String>>>,
    file_names: &Vec<String>,
) -> (out: String)
    requires
        all_carry(found.deep_view(), linked_last_group(kind)),
        file_names.len() == local_sources(kind, found.deep_view()).len(),
    ensures
        out@ == spliced(
            content@,
            linked_edits(kind, found.deep_view(), file_names.deep_view()),
        ),
{
    let mut edits: Vec<(String, String)> = Vec::new();
    let mut used: usize = 0;
    let mut k: usize = 0;
    proof {
        assert(found.deep_view().take(0).len() == 0);
    }
    while k < found.len()
        invariant
            k <= found.len(),
            all_carry(found.deep_view(), linked_last_group(kind)),
            file_names.len() == local_sources(kind, found.deep_view()).len(),
            used == local_sources(kind, found.deep_view().take(k as int)).len(),
            used <= file_names.len(),
            edits.deep_view() == linked_edits(
                kind,
                found.deep_view().take(k as int),
                file_names.deep_view(),
            ),
        decreases found.len() - k,
    {
        let m = &found[k];
        proof {
            let all = found.deep_view();
            assert(all[k as int] == m.deep_view());
            assert(all.take(k + 1).drop_last() == all.take(k as int));
            assert(all.take(k + 1).last() == m.deep_view());
            lemma_local_sources_grow(kind, all, k + 1);
        }
        let ghost before = edits.deep_view();
        let src = source(kind, m);
        match classify(src.as_str()) {
            Reference::Remote => {},
            Reference::Local => {
                let span = group(m, 0);
                edits.push((span.clone(), link(kind, file_names[used].as_str())));
                proof {
                    assert(file_names.deep_view()[used as int] == file_names[used as int]@);
                    assert(edits.deep_view() == before.push(
                        (span@, link_to(kind, file_names[used as int]@)),
                    ));
                }
                used += 1;
            },
        }
        k += 1;
    }
    proof {
        assert(found.deep_view().take(k as int) == found.deep_view());
    }
    splice(content, &edits)
}

/// The local sources of the first `k` matches are no more than those of all.
pub proof fn lemma_local_sources_grow(kind: Linked, found: Seq<Groups>, k: int)
    requires
        0 <= k <= found.len(),
    ensures
        local_sources(kind, found.take(k)).len() <= local_sources(kind, found).len(),
    decreases found.len() - k,
{
    if k < found.len() {
        assert(found.take(k + 1).drop_last() == found.take(k));
        lemma_local_sources_grow(kind, found, k + 1);
    } else {
        assert(found.take(k) == found);
    }
}

} // verus!
