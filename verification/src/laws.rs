//! What holds of the rewriters for every document, stated over the matches
//! that the engine reports: the engine's own behaviour is not part of the
//! proofs.

use vstd::prelude::*;
use crate::captures::{all_carry, carries};
use crate::construct::{edit_of, edits_of, last_group, markdown_of, pattern_of, Construct};
use crate::engine::{
    parses_as_url,
    pattern_captures,
    pattern_compiles,
    pattern_replaced,
    Groups,
};
use crate::error::Fault;
use crate::linked::{
    link_to,
    linked_edits,
    linked_last_group,
    linked_pattern_of,
    local_sources,
    source_in,
    Linked,
};
use crate::quote::{is_quoted_line, lemma_quote_keeps_lines, lines, quoted, quoted_line};
use crate::replace::{
    embed_closer_of,
    embeds_rewritten,
    found_in,
    relinked,
    rewritten,
    sources_listed,
    tabs_block_of,
    tabs_headed,
    tabs_rewritten,
    tabs_within,
    without_tab_markers,
};
use crate::splice::{spliced, Edit};
use crate::strip::{
    free_of,
    lemma_both_stripped,
    lemma_line_starts_unnested,
    markers_unnested,
    starts_lines,
};
use crate::text::{lemma_replaced_once, occurs_at, replaced};

verus! {

/// A construct that the engine finds once, and whose span stands nowhere else
/// in the document, gives way to its Markdown; the text before and after it
/// stays as it is.
pub proof fn lemma_lone_construct(
    kind: Construct,
    pre: Seq<char>,
    m: Groups,
    post: Seq<char>,
)
    requires
        carries(m, last_group(kind)),
        m[0].unwrap().len() > 0,
        pattern_compiles(pattern_of(kind)),
        pattern_captures(pattern_of(kind), pre + m[0].unwrap() + post) == seq![m],
        forall|i: int|
            occurs_at(pre + m[0].unwrap() + post, m[0].unwrap(), i) ==> i == pre.len(),
    ensures
        rewritten(kind, pre + m[0].unwrap() + post) == Ok::<Seq<char>, Fault>(
            pre + markdown_of(kind, m) + post,
        ),
{
    let span = m[0].unwrap();
    let content = pre + span + post;
    let found = seq![m];
    assert(all_carry(found, last_group(kind)));
    let edits = edits_of(kind, found);
    assert(edits.len() == 1);
    assert(edits.drop_last().len() == 0);
    assert(edits.last() == edit_of(kind, m));
    assert(spliced(content, edits.drop_last()) == content);
    lemma_replaced_once(pre, span, post, markdown_of(kind, m));
    assert(spliced(content, edits) == replaced(content, span, markdown_of(kind, m)));
}

/// A document that is one code block, found as such by the engine, becomes
/// the body of the block, with nothing of the fences left.
pub proof fn lemma_code_block_gives_body(block: Seq<char>, body: Seq<char>)
    requires
        block.len() > 0,
        pattern_compiles(pattern_of(Construct::Code)),
        pattern_captures(pattern_of(Construct::Code), block) == seq![
            seq![Some(block), Some(body)],
        ],
    ensures
        rewritten(Construct::Code, block) == Ok::<Seq<char>, Fault>(body),
{
    let m: Groups = seq![Some(block), Some(body)];
    let none = Seq::<char>::empty();
    assert(none + block + none == block);
    assert(none + body + none == body);
    lemma_lone_construct(Construct::Code, none, m, none);
}

/// A document that is one callout, found as such by the engine, becomes a
/// block quote with as many lines as the body of the callout has; each of
/// them begins with `> ` and goes on with the line of the body at its place.
pub proof fn lemma_hint_gives_quoted_lines(block: Seq<char>, body: Seq<char>)
    requires
        block.len() > 0,
        pattern_compiles(pattern_of(Construct::Hint)),
        pattern_captures(pattern_of(Construct::Hint), block) == seq![
            seq![Some(block), Some(body)],
        ],
    ensures
        rewritten(Construct::Hint, block) == Ok::<Seq<char>, Fault>(quoted(body)),
        lines(quoted(body)).len() == lines(body).len(),
        forall|i: int|
            0 <= i < lines(body).len() ==> #[trigger] lines(quoted(body))[i] == quoted_line(
                lines(body),
                i,
            ),
        forall|i: int|
            0 <= i < lines(body).len() ==> is_quoted_line(#[trigger] lines(quoted(body))[i]),
{
    let m: Groups = seq![Some(block), Some(body)];
    let none = Seq::<char>::empty();
    assert(none + block + none == block);
    assert(none + quoted(body) + none == quoted(body));
    lemma_lone_construct(Construct::Hint, none, m, none);
    lemma_quote_keeps_lines(body);
}

/// An embed tag that the engine finds once, and whose span stands nowhere
/// else in the document, gives way to a link whose label and target are its
/// URL; the closing tags are then dropped from that text by the engine.
pub proof fn lemma_lone_embed(pre: Seq<char>, span: Seq<char>, url: Seq<char>, post: Seq<char>)
    requires
        span.len() > 0,
        pattern_compiles(pattern_of(Construct::Embed)),
        pattern_compiles(embed_closer_of()),
        pattern_captures(pattern_of(Construct::Embed), pre + span + post) == seq![
            seq![Some(span), Some(url)],
        ],
        forall|i: int| occurs_at(pre + span + post, span, i) ==> i == pre.len(),
    ensures
        embeds_rewritten(pre + span + post) == Ok::<Seq<char>, Fault>(
            pattern_replaced(
                embed_closer_of(),
                pre + ("["@ + url + "]("@ + url + ")"@) + post,
                Seq::empty(),
            ),
        ),
{
    let m: Groups = seq![Some(span), Some(url)];
    lemma_lone_construct(Construct::Embed, pre, m, post);
}

/// A tab that the engine finds once inside its block, and whose span stands
/// nowhere else in the document, becomes the line `### Using` with its
/// title, directly followed by its body.
pub proof fn lemma_tab_gives_heading(
    pre: Seq<char>,
    span: Seq<char>,
    title: Seq<char>,
    body: Seq<char>,
    post: Seq<char>,
)
    requires
        span.len() > 0,
        forall|i: int| occurs_at(pre + span + post, span, i) ==> i == pre.len(),
    ensures
        spliced(
            pre + span + post,
            edits_of(Construct::Tab, seq![seq![Some(span), Some(title), Some(body)]]),
        ) == pre + ("### Using "@ + title + "\n"@ + body) + post,
{
    let m: Groups = seq![Some(span), Some(title), Some(body)];
    let content = pre + span + post;
    let edits = edits_of(Construct::Tab, seq![m]);
    assert(edits.len() == 1);
    assert(edits.drop_last().len() == 0);
    assert(edits.last() == edit_of(Construct::Tab, m));
    assert(spliced(content, edits.drop_last()) == content);
    lemma_replaced_once(pre, span, post, markdown_of(Construct::Tab, m));
}

/// A document with one tabs block that holds one tab, found as such by the
/// engine, the span of the tab standing nowhere else in the document: the tab
/// becomes the line `### Using` with its title, directly followed by its
/// body, and then the markers of the block are dropped.
pub proof fn lemma_lone_tab_rewritten(
    pre: Seq<char>,
    span: Seq<char>,
    title: Seq<char>,
    body: Seq<char>,
    post: Seq<char>,
    block: Groups,
)
    requires
        span.len() > 0,
        forall|i: int| occurs_at(pre + span + post, span, i) ==> i == pre.len(),
        found_in(tabs_block_of(), pre + span + post, 1) == Ok::<Seq<Groups>, Fault>(
            seq![block],
        ),
        found_in(pattern_of(Construct::Tab), block[1].unwrap(), 2) == Ok::<
            Seq<Groups>,
            Fault,
        >(seq![seq![Some(span), Some(title), Some(body)]]),
    ensures
        tabs_rewritten(pre + span + post) == Ok::<Seq<char>, Fault>(
            without_tab_markers(pre + ("### Using "@ + title + "\n"@ + body) + post),
        ),
{
    let blocks = seq![block];
    let inner: Seq<Groups> = seq![seq![Some(span), Some(title), Some(body)]];
    assert(blocks.drop_last().len() == 0);
    assert(tabs_within(blocks.drop_last()) == Ok::<Seq<Groups>, Fault>(Seq::empty()));
    assert(blocks.last() == block);
    assert(Seq::<Groups>::empty() + inner == inner);
    assert(tabs_within(blocks) == Ok::<Seq<Groups>, Fault>(inner));
    lemma_tab_gives_heading(pre, span, title, body, post);
}

/// Dropping the markers of tabs blocks leaves none of them behind, where no
/// marker directly followed the beginning of a marker. (Otherwise dropping a
/// marker that stands inside another one puts the halves of that one together.)
pub proof fn lemma_tab_markers_gone(text: Seq<char>)
    requires
        markers_unnested(text, "{% tabs %}\n"@, "{% endtabs %}\n"@),
    ensures
        free_of(without_tab_markers(text), "{% tabs %}\n"@),
        free_of(without_tab_markers(text), "{% endtabs %}\n"@),
{
    reveal_strlit("{% tabs %}\n");
    reveal_strlit("{% endtabs %}\n");
    lemma_both_stripped(text, "{% tabs %}\n"@, "{% endtabs %}\n"@);
}

/// Where the tabs of a document have become headings and every marker of a
/// tabs block starts a line, the rewritten document holds no such marker.
pub proof fn lemma_tabs_leave_no_marker(content: Seq<char>, headed: Seq<char>)
    requires
        tabs_headed(content) == Ok::<Seq<char>, Fault>(headed),
        starts_lines(headed, "{% tabs %}\n"@),
        starts_lines(headed, "{% endtabs %}\n"@),
    ensures
        tabs_rewritten(content) == Ok::<Seq<char>, Fault>(without_tab_markers(headed)),
        free_of(without_tab_markers(headed), "{% tabs %}\n"@),
        free_of(without_tab_markers(headed), "{% endtabs %}\n"@),
{
    let open = "{% tabs %}\n"@;
    let close = "{% endtabs %}\n"@;
    reveal_strlit("{% tabs %}\n");
    reveal_strlit("{% endtabs %}\n");
    lemma_line_starts_unnested(headed, open, open);
    lemma_line_starts_unnested(headed, open, close);
    lemma_line_starts_unnested(headed, close, open);
    lemma_line_starts_unnested(headed, close, close);
    lemma_tab_markers_gone(headed);
}

/// A file link or an image that the engine finds once, whose source is local
/// and whose span stands nowhere else in the document: its source is the one
/// asset wanted, and once that has resolved to `file_name` the construct
/// gives way to the link to `assets/` and the normalized name, the text
/// before and after it staying as it is.
pub proof fn lemma_lone_local_reference(
    kind: Linked,
    pre: Seq<char>,
    m: Groups,
    post: Seq<char>,
    file_name: Seq<char>,
)
    requires
        carries(m, linked_last_group(kind)),
        carries(m, 0),
        m[0].unwrap().len() > 0,
        !parses_as_url(source_in(kind, m)),
        pattern_compiles(linked_pattern_of(kind)),
        pattern_captures(linked_pattern_of(kind), pre + m[0].unwrap() + post) == seq![m],
        forall|i: int|
            occurs_at(pre + m[0].unwrap() + post, m[0].unwrap(), i) ==> i == pre.len(),
    ensures
        sources_listed(kind, pre + m[0].unwrap() + post) == Ok::<Seq<Seq<char>>, Fault>(
            seq![source_in(kind, m)],
        ),
        relinked(kind, pre + m[0].unwrap() + post, seq![file_name]) == Ok::<Seq<char>, Fault>(
            pre + link_to(kind, file_name) + post,
        ),
{
    let span = m[0].unwrap();
    let content = pre + span + post;
    let found = seq![m];
    let names = seq![file_name];
    assert(all_carry(found, linked_last_group(kind)));
    assert(found.drop_last().len() == 0);
    assert(found.last() == m);
    assert(local_sources(kind, found.drop_last()).len() == 0);
    assert(local_sources(kind, found) == seq![source_in(kind, m)]);
    let edits = linked_edits(kind, found, names);
    assert(linked_edits(kind, found.drop_last(), names).len() == 0);
    assert(edits == seq![(span, link_to(kind, file_name))]);
    assert(edits.drop_last().len() == 0);
    assert(spliced(content, edits.drop_last()) == content);
    lemma_replaced_once(pre, span, post, link_to(kind, file_name));
}

/// No source that is listed for relocation parses as an absolute URL: a
/// remote reference is never taken for a local path.
pub proof fn lemma_listed_sources_are_local(kind: Linked, found: Seq<Groups>)
    ensures
        forall|i: int|
            0 <= i < local_sources(kind, found).len() ==> !parses_as_url(
                #[trigger] local_sources(kind, found)[i],
            ),
    decreases found.len(),
{
    if found.len() > 0 {
        let before = local_sources(kind, found.drop_last());
        lemma_listed_sources_are_local(kind, found.drop_last());
        assert forall|i: int| 0 <= i < local_sources(kind, found).len() implies !parses_as_url(
            #[trigger] local_sources(kind, found)[i],
        ) by {
            if i < before.len() {
                assert(local_sources(kind, found)[i] == before[i]);
            }
        }
    }
}

/// Whether the source of every match is remote.
pub open spec fn all_remote(kind: Linked, found: Seq<Groups>) -> bool {
    forall|k: int| 0 <= k < found.len() ==> parses_as_url(source_in(kind, #[trigger] found[k]))
}

/// Matches with remote sources want no asset and give no edit.
pub proof fn lemma_remote_matches_give_no_edit(
    kind: Linked,
    found: Seq<Groups>,
    file_names: Seq<Seq<char>>,
)
    requires
        all_remote(kind, found),
    ensures
        local_sources(kind, found).len() == 0,
        linked_edits(kind, found, file_names).len() == 0,
    decreases found.len(),
{
    if found.len() > 0 {
        assert(all_remote(kind, found.drop_last())) by {
            assert forall|k: int| 0 <= k < found.drop_last().len() implies parses_as_url(
                source_in(kind, #[trigger] found.drop_last()[k]),
            ) by {
                assert(found.drop_last()[k] == found[k]);
            }
        }
        lemma_remote_matches_give_no_edit(kind, found.drop_last(), file_names);
        assert(parses_as_url(source_in(kind, found[found.len() - 1])));
    }
}

/// Where every file link, or every image, of a document has a source that
/// parses as an absolute URL, the rewriter wants no asset and leaves the
/// document exactly as it is.
pub proof fn lemma_remote_references_stay(kind: Linked, content: Seq<char>)
    requires
        found_in(linked_pattern_of(kind), content, linked_last_group(kind)) is Ok,
        all_remote(kind, pattern_captures(linked_pattern_of(kind), content)),
    ensures
        sources_listed(kind, content) == Ok::<Seq<Seq<char>>, Fault>(Seq::empty()),
        relinked(kind, content, Seq::empty()) == Ok::<Seq<char>, Fault>(content),
{
    let found = pattern_captures(linked_pattern_of(kind), content);
    let none = Seq::<Seq<char>>::empty();
    lemma_remote_matches_give_no_edit(kind, found, none);
    assert(local_sources(kind, found) == none);
    assert(linked_edits(kind, found, none) == Seq::<Edit>::empty());
}

} // verus!
