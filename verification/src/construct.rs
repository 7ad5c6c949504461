//! The constructs that are rewritten from their own text alone, and the
//! Markdown each of them gives way to.

use vstd::prelude::*;
use vstd::string::*;
use crate::captures::{all_carry, carries, group};
use crate::engine::Groups;
use crate::quote::{quote_lines, quoted};
use crate::splice::{splice, spliced, Edit};

verus! {

/// A construct whose Markdown follows from the text of its match.
#[derive(Debug, Clone, Copy, PartialEq, Eq)]
pub enum Construct {
    /// A fenced code block; group 1 is the body, which may be empty.
    Code,
    /// An embed tag; group 1 is the URL.
    Embed,
    /// A callout; group 1 is the body, which may be empty.
    Hint,
    /// One tab of a tabs block; group 1 is the title, group 2 the body, which
    /// may be empty.
    Tab,
}

/// The pattern that finds the construct.
pub open spec fn pattern_of(kind: Construct) -> Seq<char> {
    match kind {
        Construct::Code => r#"(?s)\{%\scode\s\w+?="\w+?"\s%}(.*?)\{%\sendcode\s%\}"#@,
        Construct::Embed => r#"(?s)\{%\sembed\surl="(.+?)"\s%\}"#@,
        Construct::Hint => r#"(?s)\{%\shint\sstyle="\w+?"\s%\}(.*?)\{%\sendhint\s%\}"#@,
        Construct::Tab => r#"(?s)\{%\stab\stitle="(\w+?)"\s%\}(.*?)\{%\sendtab\s%\}"#@,
    }
}

/// The pattern that finds the construct.
pub fn pattern(kind: Construct) -> (p: &'static str)
    ensures
        p@ == pattern_of(kind),
{
    match kind {
        Construct::Code => r#"(?s)\{%\scode\s\w+?="\w+?"\s%}(.*?)\{%\sendcode\s%\}"#,
        Construct::Embed => r#"(?s)\{%\sembed\surl="(.+?)"\s%\}"#,
        Construct::Hint => r#"(?s)\{%\shint\sstyle="\w+?"\s%\}(.*?)\{%\sendhint\s%\}"#,
        Construct::Tab => r#"(?s)\{%\stab\stitle="(\w+?)"\s%\}(.*?)\{%\sendtab\s%\}"#,
    }
}

/// The number of the last capture group that a match of the construct carries.
pub open spec fn last_group(kind: Construct) -> int {
    match kind {
        Construct::Tab => 2,
        _ => 1,
    }
}

/// The Markdown that takes the place of a match of the construct.
pub open spec fn markdown_of(kind: Construct, m: Groups) -> Seq<char> {
    match kind {
        Construct::Code => m[1].unwrap(),
        Construct::Embed => "["@ + m[1].unwrap() + "]("@ + m[1].unwrap() + ")"@,
        Construct::Hint => quoted(m[1].unwrap()),
        Construct::Tab => "### Using "@ + m[1].unwrap() + "\n"@ + m[2].unwrap(),
    }
}

/// The edit that rewrites one match: its whole span gives way to its Markdown.
pub open spec fn edit_of(kind: Construct, m: Groups) -> Edit {
    (m[0].unwrap(), markdown_of(kind, m))
}

/// The edits that rewrite the matches, one for each and in their order.
pub open spec fn edits_of(kind: Construct, found: Seq<Groups>) -> Seq<Edit> {
    Seq::new(found.len(), |k: int| edit_of(kind, found[k]))
}

/// Builds the Markdown that takes the place of the match `m`.
pub fn markdown(kind: Construct, m: &Vec<Option<String>>) -> (out: String)
    requires
        carries(m.deep_view(), last_group(kind)),
    ensures
        out@ == markdown_of(kind, m.deep_view()),
{
    let first = group(m, 1);
    match kind {
        Construct::Code => first.clone(),
        Construct::Embed => {
            let mut out = String::new();
            out.append("[");
            out.append(first.as_str());
            out.append("](");
            out.append(first.as_str());
            out.append(")");
            out
        },
        Construct::Hint => quote_lines(first.as_str()),
        Construct::Tab => {
            let second = group(m, 2);
            let mut out = String::new();
            out.append("### Using ");
            out.append(first.as_str());
            out.append("\n");
            out.append(second.as_str());
            out
        },
    }
}

/// Rewrites the matches `found` of one construct in `content`: for each match
/// in turn, every occurrence of its span in the text gives way to its Markdown.
pub fn rewrite(kind: Construct, content: &str, found: &Vec<Vec<Option<String>>>) -> (out: String)
    requires
        all_carry(found.deep_view(), last_group(kind)),
    ensures
        out@ == spliced(content@, edits_of(kind, found.deep_view())),
{
    let mut edits: Vec<(String, String)> = Vec::new();
    let mut k: usize = 0;
    while k < found.len()
        invariant
            k <= found.len(),
            all_carry(found.deep_view(), last_group(kind)),
            edits.deep_view() == edits_of(kind, found.deep_view()).take(k as int),
        decreases found.len() - k,
    {
        let m = &found[k];
        proof {
            assert(found.deep_view()[k as int] == m.deep_view());
        }
        let ghost before = edits.deep_view();
        edits.push((group(m, 0).clone(), markdown(kind, m)));
        proof {
            assert(edits.deep_view() == before.push(edit_of(kind, m.deep_view())));
            assert(edits.deep_view() == edits_of(kind, found.deep_view()).take(k + 1));
        }
        k += 1;
    }
    proof {
        assert(edits_of(kind, found.deep_view()).take(k as int) == edits_of(
            kind,
            found.deep_view(),
        ));
    }
    splice(content, &edits)
}

} // verus!
