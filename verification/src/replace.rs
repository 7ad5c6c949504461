//! The six rewriters. Each finds the occurrences of one GitBook construct in
//! the document as it was handed in, and then replaces the literal text of
//! every occurrence by its standard Markdown.

use vstd::prelude::*;
use crate::captures::{all_carry, all_have_groups, group};
use crate::construct::{edits_of, last_group, pattern, pattern_of, rewrite, Construct};
use crate::engine::{
    captures,
    compile,
    pattern_captures,
    pattern_compiles,
    pattern_replaced,
    reason,
    replace_matches,
    Groups,
};
use crate::error::{finds, lists, yields, Fault, RewriteError};
use crate::linked::{
    linked_edits,
    linked_last_group,
    linked_pattern,
    linked_pattern_of,
    local_sources,
    rewrite_linked,
    sources_to_resolve,
    Linked,
};
use crate::splice::spliced;
use crate::text::{chars_of, replace_chars, replaced, string_of};

verus! {

/// What a search for `pattern` in `content` comes to, where every match has
/// to carry the groups `0..=last`: the matches in the order found, or the
/// reason there are none to go by. Group 0 is the engine's to give and is
/// not asked after.
pub open spec fn found_in(pattern: Seq<char>, content: Seq<char>, last: int) -> Result<
    Seq<Groups>,
    Fault,
> {
    if !pattern_compiles(pattern) {
        Err(Fault::Pattern)
    } else if last > 0 && !all_carry(pattern_captures(pattern, content), last) {
        Err(Fault::Capture)
    } else {
        Ok(pattern_captures(pattern, content))
    }
}

/// Searches `content` for `pattern` and makes sure that every match carries the
/// groups `0..=last`.
pub fn find(pattern: &str, content: &str, last: usize) -> (out: Result<
    Vec<Vec<Option<String>>>,
    RewriteError,
>)
    ensures
        finds(out, found_in(pattern@, content@, last as int)),
        out matches Ok(found) ==> all_carry(found.deep_view(), last as int),
{
    let re = match compile(pattern) {
        Ok(re) => re,
        Err(error) => {
            return Err(RewriteError::Pattern(reason(&error)));
        },
    };
    let found = captures(&re, content);
    if last > 0 && !all_have_groups(&found, last) {
        return Err(RewriteError::Capture);
    }
    Ok(found)
}

/// What rewriting every match of one construct in `content` comes to.
pub open spec fn rewritten(kind: Construct, content: Seq<char>) -> Result<Seq<char>, Fault> {
    match found_in(pattern_of(kind), content, last_group(kind)) {
        Ok(found) => Ok(spliced(content, edits_of(kind, found))),
        Err(e) => Err(e),
    }
}

/// Strips the fences of every code block, leaving the body as it stands.
pub fn code(content: String) -> (out: Result<String, RewriteError>)
    ensures
        yields(out, rewritten(Construct::Code, content@)),
{
    match find(pattern(Construct::Code), content.as_str(), 1) {
        Ok(found) => Ok(rewrite(Construct::Code, content.as_str(), &found)),
        Err(e) => Err(e),
    }
}

/// Turns every callout into a block quote of its body.
pub fn hints(content: String) -> (out: Result<String, RewriteError>)
    ensures
        yields(out, rewritten(Construct::Hint, content@)),
{
    match find(pattern(Construct::Hint), content.as_str(), 1) {
        Ok(found) => Ok(rewrite(Construct::Hint, content.as_str(), &found)),
        Err(e) => Err(e),
    }
}

/// The pattern of the tag that closes an embed.
pub open spec fn embed_closer_of() -> Seq<char> {
    r#"\{%\sendembed\s%\}"#@
}

/// What rewriting the embeds of `content` comes to: every embed tag gives way
/// to a link to its URL, and then every closing tag is dropped.
pub open spec fn embeds_rewritten(content: Seq<char>) -> Result<Seq<char>, Fault> {
    match rewritten(Construct::Embed, content) {
        Ok(linked) => if pattern_compiles(embed_closer_of()) {
            Ok(pattern_replaced(embed_closer_of(), linked, Seq::empty()))
        } else {
            Err(Fault::Pattern)
        },
        Err(e) => Err(e),
    }
}

/// Turns every embed tag into a link whose label and target are its URL, and
/// drops every closing embed tag, whether an embed tag stands before it or not.
pub fn embed_urls(content: String) -> (out: Result<String, RewriteError>)
    ensures
        yields(out, embeds_rewritten(content@)),
{
    let found = match find(pattern(Construct::Embed), content.as_str(), 1) {
        Ok(found) => found,
        Err(e) => {
            return Err(e);
        },
    };
    let linked = rewrite(Construct::Embed, content.as_str(), &found);
    proof {
        reveal_strlit("");
        assert(""@ == Seq::<char>::empty());
    }
    match compile(r#"\{%\sendembed\s%\}"#) {
        Ok(closer) => Ok(replace_matches(&closer, linked.as_str(), "")),
        Err(error) => Err(RewriteError::Pattern(reason(&error))),
    }
}

/// What listing the local sources of one construct in `content` comes to.
pub open spec fn sources_listed(kind: Linked, content: Seq<char>) -> Result<
    Seq<Seq<char>>,
    Fault,
> {
    match found_in(linked_pattern_of(kind), content, linked_last_group(kind)) {
        Ok(found) => Ok(local_sources(kind, found)),
        Err(e) => Err(e),
    }
}

/// What rewriting the matches of one construct that have a local source comes
/// to, given the file names their assets resolved to.
pub open spec fn relinked(kind: Linked, content: Seq<char>, file_names: Seq<Seq<char>>) -> Result<
    Seq<char>,
    Fault,
> {
    match found_in(linked_pattern_of(kind), content, linked_last_group(kind)) {
        Ok(found) => if file_names.len() == local_sources(kind, found).len() {
            Ok(spliced(content, linked_edits(kind, found, file_names)))
        } else {
            Err(Fault::Assets)
        },
        Err(e) => Err(e),
    }
}

/// Lists the local sources of one construct in `content`, in the order of
/// their matches.
pub fn sources(kind: Linked, content: &str) -> (out: Result<Vec<String>, RewriteError>)
    ensures
        lists(out, sources_listed(kind, content@)),
{
    let last: usize = match kind {
        Linked::FileLink => 1,
        Linked::Image => 0,
    };
    match find(linked_pattern(kind), content, last) {
        Ok(found) => Ok(sources_to_resolve(kind, &found)),
        Err(e) => Err(e),
    }
}

/// Rewrites the matches of one construct that have a local source.
pub fn relink(kind: Linked, content: &str, file_names: &Vec<String>) -> (out: Result<
    String,
    RewriteError,
>)
    ensures
        yields(out, relinked(kind, content@, file_names.deep_view())),
{
    let last: usize = match kind {
        Linked::FileLink => 1,
        Linked::Image => 0,
    };
    let found = match find(linked_pattern(kind), content, last) {
        Ok(found) => found,
        Err(e) => {
            return Err(e);
        },
    };
    let wanted = sources_to_resolve(kind, &found);
    if wanted.len() != file_names.len() {
        return Err(RewriteError::Assets);
    }
    Ok(rewrite_linked(kind, content, &found, file_names))
}

/// Lists the sources of the file tags of `content` that are local: the assets
/// to resolve and relocate before `file_links` can rewrite the tags.
pub fn file_link_sources(content: &str) -> (out: Result<Vec<String>, RewriteError>)
    ensures
        lists(out, sources_listed(Linked::FileLink, content@)),
{
    sources(Linked::FileLink, content)
}

/// Turns every file tag with a local source into a link to the relocated
/// file. `file_names` holds, for each local source in order, the file name of
/// the asset it resolved to. A tag with a remote source stays as it is.
pub fn file_links(content: String, file_names: &Vec<String>) -> (out: Result<String, RewriteError>)
    ensures
        yields(out, relinked(Linked::FileLink, content@, file_names.deep_view())),
{
    relink(Linked::FileLink, content.as_str(), file_names)
}

/// Lists the sources of the images of `content` that are local: the assets to
/// resolve and relocate before `images` can rewrite them.
pub fn image_sources(content: &str) -> (out: Result<Vec<String>, RewriteError>)
    ensures
        lists(out, sources_listed(Linked::Image, content@)),
{
    sources(Linked::Image, content)
}

/// Turns every image with a local source into a Markdown image of the
/// relocated file. `file_names` holds, for each local source in order, the
/// file name of the asset it resolved to. An image with a remote source stays
/// as it is.
pub fn images(content: String, file_names: &Vec<String>) -> (out: Result<String, RewriteError>)
    ensures
        yields(out, relinked(Linked::Image, content@, file_names.deep_view())),
{
    relink(Linked::Image, content.as_str(), file_names)
}

/// The pattern of a tabs block; group 1 is what stands between its markers.
pub open spec fn tabs_block_of() -> Seq<char> {
    r#"(?s)\{%\stabs\s%\}(.+?)\{%\sendtabs\s%\}"#@
}

/// The tabs found inside the tabs blocks, block after block.
pub open spec fn tabs_within(blocks: Seq<Groups>) -> Result<Seq<Groups>, Fault>
    decreases blocks.len(),
{
    if blocks.len() == 0 {
        Ok(Seq::empty())
    } else {
        match tabs_within(blocks.drop_last()) {
            Ok(before) => match found_in(
                pattern_of(Construct::Tab),
                blocks.last()[1].unwrap(),
                last_group(Construct::Tab),
            ) {
                Ok(inner) => Ok(before + inner),
                Err(e) => Err(e),
            },
            Err(e) => Err(e),
        }
    }
}

/// `text` without the opening markers of tabs blocks, and then without the
/// closing ones; a marker is the tag and the line feed after it.
pub open spec fn without_tab_markers(text: Seq<char>) -> Seq<char> {
    replaced(
        replaced(text, "{% tabs %}\n"@, Seq::empty()),
        "{% endtabs %}\n"@,
        Seq::empty(),
    )
}

/// What rewriting the tabs of `content` into headings comes to, the markers
/// of the blocks still standing.
pub open spec fn tabs_headed(content: Seq<char>) -> Result<Seq<char>, Fault> {
    match found_in(tabs_block_of(), content, 1) {
        Ok(blocks) => match tabs_within(blocks) {
            Ok(inner) => Ok(spliced(content, edits_of(Construct::Tab, inner))),
            Err(e) => Err(e),
        },
        Err(e) => Err(e),
    }
}

/// What rewriting the tabs of `content` comes to: the tabs become headings,
/// and then the markers of the blocks are dropped.
pub open spec fn tabs_rewritten(content: Seq<char>) -> Result<Seq<char>, Fault> {
    match tabs_headed(content) {
        Ok(headed) => Ok(without_tab_markers(headed)),
        Err(e) => Err(e),
    }
}

/// Drops the markers of tabs blocks from `text`: first every `{% tabs %}`
/// with the line feed after it, then every `{% endtabs %}` with the line feed
/// after it.
pub fn strip_tab_markers(text: &str) -> (out: String)
    ensures
        out@ == without_tab_markers(text@),
{
    let nothing: Vec<char> = Vec::new();
    let opened = replace_chars(&chars_of(text), &chars_of("{% tabs %}\n"), &nothing);
    let closed = replace_chars(&opened, &chars_of("{% endtabs %}\n"), &nothing);
    string_of(&closed)
}

/// Searches every tabs block for its tabs.
pub fn find_tabs(blocks: &Vec<Vec<Option<String>>>) -> (out: Result<
    Vec<Vec<Option<String>>>,
    RewriteError,
>)
    requires
        all_carry(blocks.deep_view(), 1),
    ensures
        finds(out, tabs_within(blocks.deep_view())),
        out matches Ok(inner) ==> all_carry(inner.deep_view(), 2),
{
    let mut all: Vec<Vec<Option<String>>> = Vec::new();
    let mut k: usize = 0;
    proof {
        assert(blocks.deep_view().take(0).len() == 0);
        assert(all.deep_view() == Seq::<Groups>::empty());
    }
    while k < blocks.len()
        invariant
            k <= blocks.len(),
            all_carry(blocks.deep_view(), 1),
            all_carry(all.deep_view(), 2),
            tabs_within(blocks.deep_view().take(k as int)) == Ok::<Seq<Groups>, Fault>(
                all.deep_view(),
            ),
        decreases blocks.len() - k,
    {
        let block = &blocks[k];
        proof {
            let every = blocks.deep_view();
            assert(every[k as int] == block.deep_view());
            assert(every.take(k + 1).drop_last() == every.take(k as int));
            assert(every.take(k + 1).last() == block.deep_view());
        }
        match find(pattern(Construct::Tab), group(block, 1).as_str(), 2) {
            Ok(mut inner) => {
                let ghost before = all.deep_view();
                let ghost added = inner.deep_view();
                all.append(&mut inner);
                proof {
                    assert(all.deep_view() == before + added);
                }
            },
            Err(e) => {
                proof {
                    lemma_tabs_within_fails(blocks.deep_view(), k + 1, e.fault());
                }
                return Err(e);
            },
        }
        k += 1;
    }
    proof {
        assert(blocks.deep_view().take(k as int) == blocks.deep_view());
    }
    Ok(all)
}

/// Once the search of the first `k` blocks has failed, the search of all fails alike.
pub proof fn lemma_tabs_within_fails(blocks: Seq<Groups>, k: int, e: Fault)
    requires
        0 <= k <= blocks.len(),
        tabs_within(blocks.take(k)) == Err::<Seq<Groups>, Fault>(e),
    ensures
        tabs_within(blocks) == Err::<Seq<Groups>, Fault>(e),
    decreases blocks.len() - k,
{
    if k < blocks.len() {
        assert(blocks.take(k + 1).drop_last() == blocks.take(k));
        lemma_tabs_within_fails(blocks, k + 1, e);
    } else {
        assert(blocks.take(k) == blocks);
    }
}

/// Rewrites every tab of every tabs block into a heading `### Using` with
/// its title, followed by its body, and then drops the markers of the blocks.
pub fn tabs(content: String) -> (out: Result<String, RewriteError>)
    ensures
        yields(out, tabs_rewritten(content@)),
{
    let blocks = match find(r#"(?s)\{%\stabs\s%\}(.+?)\{%\sendtabs\s%\}"#, content.as_str(), 1) {
        Ok(blocks) => blocks,
        Err(e) => {
            return Err(e);
        },
    };
    let inner = match find_tabs(&blocks) {
        Ok(inner) => inner,
        Err(e) => {
            return Err(e);
        },
    };
    let headed = rewrite(Construct::Tab, content.as_str(), &inner);
    Ok(strip_tab_markers(headed.as_str()))
}

} // verus!
