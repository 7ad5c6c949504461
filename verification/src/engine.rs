//! The outside engines the rewriters lean on: the `regex` crate, which finds
//! the constructs, and the `url` crate, which tells remote references from
//! local ones. Nothing in this module is proved; every contract here is a
//! statement about outside code.

use vstd::prelude::*;

verus! {

/// A compiled pattern of the `regex` crate, carried through as an opaque value.
#[verifier::external_type_specification]
#[verifier::external_body]
pub struct ExRegex(regex::Regex);

/// The error with which the `regex` crate rejects a pattern.
#[verifier::external_type_specification]
#[verifier::external_body]
pub struct ExRegexError(regex::Error);

/// The capture groups of one match: the text of each group, group 0 being the
/// whole matched span, or `None` for a group that took no part in the match.
pub type Groups = Seq<Option<Seq<char>>>;

/// Whether `regex::Regex::new` accepts `pattern`.
pub uninterp spec fn pattern_compiles(pattern: Seq<char>) -> bool;

/// The pattern text a compiled `regex::Regex` was built from. Every value of
/// that type in this library comes from `compile`, which builds it from the
/// text alone, with the engine's default options.
pub uninterp spec fn source_of(re: regex::Regex) -> Seq<char>;

/// What `regex::Regex::captures_iter` yields for `pattern` over `text`: the
/// successive matches in the order found, each as its capture groups. Group 0
/// of every match is there: the engine reports no match without its span.
pub uninterp spec fn pattern_captures(pattern: Seq<char>, text: Seq<char>) -> Seq<Groups>;

/// What `regex::Regex::replace_all` returns for `pattern` over `text` with the
/// replacement `with`.
pub uninterp spec fn pattern_replaced(pattern: Seq<char>, text: Seq<char>, with: Seq<char>) -> Seq<
    char,
>;

/// Whether `url::Url::parse` accepts `reference` as an absolute URL.
pub uninterp spec fn parses_as_url(reference: Seq<char>) -> bool;

/// Calls `regex::Regex::new`, the only place where this library makes a
/// compiled pattern. Claimed: whether compilation succeeds depends on the
/// pattern text alone, and the compiled value remembers that text.
#[verifier::external_body]
pub(crate) fn compile(pattern: &str) -> (made: Result<regex::Regex, regex::Error>)
    ensures
        made is Ok <==> pattern_compiles(pattern@),
        made matches Ok(re) ==> source_of(re) == pattern@,
{
    regex::Regex::new(pattern)
}

/// Calls `regex::Regex::captures_iter` and copies out the text of every group
/// of every match. Claimed: the matches depend on the pattern and the text
/// alone, and every match has its group 0, the whole span.
#[verifier::external_body]
pub(crate) fn captures(re: &regex::Regex, text: &str) -> (found: Vec<Vec<Option<String>>>)
    ensures
        found.deep_view() == pattern_captures(source_of(*re), text@),
        forall|k: int|
            0 <= k < found.len() ==> (#[trigger] found.deep_view()[k]).len() > 0
                && found.deep_view()[k][0] is Some,
{
    re.captures_iter(text).map(
        |c| c.iter().map(|g| g.map(|m| m.as_str().to_string())).collect(),
    ).collect()
}

/// Puts the engine's account of a rejected pattern into words, by the
/// `Display` of `regex::Error`. Nothing is claimed of the text.
#[verifier::external_body]
pub(crate) fn reason(error: &regex::Error) -> String {
    error.to_string()
}

/// Calls `regex::Regex::replace_all`. Claimed: the result depends on the
/// pattern, the text and the replacement alone.
#[verifier::external_body]
pub(crate) fn replace_matches(re: &regex::Regex, text: &str, with: &str) -> (out: String)
    ensures
        out@ == pattern_replaced(source_of(*re), text@, with@),
{
    re.replace_all(text, with).into_owned()
}

/// Calls `url::Url::parse` and reports whether it succeeded. Claimed: the
/// outcome depends on the reference text alone.
#[verifier::external_body]
pub(crate) fn is_url(reference: &str) -> (yes: bool)
    ensures
        yes == parses_as_url(reference@),
{
    url::Url::parse(reference).is_ok()
}

} // verus!
