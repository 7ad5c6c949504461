//! The ways a rewrite can fail.

use vstd::prelude::*;
use crate::engine::Groups;

verus! {

/// The kind of a failure.
#[derive(Debug, Clone, Copy, PartialEq, Eq)]
pub enum Fault {
    /// The matching engine rejected the pattern of a construct.
    Pattern,
    /// A match came back without a capture group that its construct always carries.
    Capture,
    /// The file names supplied do not pair off with the local references of the document.
    Assets,
}

/// Why a document could not be rewritten.
#[derive(Debug, Clone, PartialEq, Eq)]
pub enum RewriteError {
    /// The matching engine rejected the pattern of a construct; the text is
    /// what the engine said of it.
    Pattern(String),
    /// A match came back without a capture group that its construct always carries.
    Capture,
    /// The file names supplied do not pair off with the local references of the document.
    Assets,
}

impl RewriteError {
    /// The kind of the failure.
    pub open spec fn fault(self) -> Fault {
        match self {
            RewriteError::Pattern(_) => Fault::Pattern,
            RewriteError::Capture => Fault::Capture,
            RewriteError::Assets => Fault::Assets,
        }
    }

    /// The kind of the failure.
    pub fn kind(&self) -> (k: Fault)
        ensures
            k == self.fault(),
    {
        match self {
            RewriteError::Pattern(_) => Fault::Pattern,
            RewriteError::Capture => Fault::Capture,
            RewriteError::Assets => Fault::Assets,
        }
    }
}

/// Whether the outcome `got` of a rewrite is the outcome `want` over character sequences.
pub open spec fn yields(got: Result<String, RewriteError>, want: Result<Seq<char>, Fault>) -> bool {
    match got {
        Ok(text) => want == Ok::<Seq<char>, Fault>(text@),
        Err(e) => want == Err::<Seq<char>, Fault>(e.fault()),
    }
}

/// Whether the outcome `got` of a listing is the outcome `want` over character sequences.
pub open spec fn lists(
    got: Result<Vec<String>, RewriteError>,
    want: Result<Seq<Seq<char>>, Fault>,
) -> bool {
    match got {
        Ok(items) => want == Ok::<Seq<Seq<char>>, Fault>(items.deep_view()),
        Err(e) => want == Err::<Seq<Seq<char>>, Fault>(e.fault()),
    }
}

/// Whether the outcome `got` of a search is the outcome `want` over character sequences.
pub open spec fn finds(
    got: Result<Vec<Vec<Option<String>>>, RewriteError>,
    want: Result<Seq<Groups>, Fault>,
) -> bool {
    match got {
        Ok(found) => want == Ok::<Seq<Groups>, Fault>(found.deep_view()),
        Err(e) => want == Err::<Seq<Groups>, Fault>(e.fault()),
    }
}

} // verus!
