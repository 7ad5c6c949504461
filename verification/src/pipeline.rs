//! The pipeline: the six rewriters in their fixed order, code blocks, embeds,
//! file links, callouts, images, tabs. Two of them need assets resolved and
//! relocated on disk, which is the driver's work; so the pipeline runs in
//! three legs, and between two legs it tells the driver which local sources
//! the next rewriter waits for and takes the file names they resolved to.

use vstd::prelude::*;
use crate::construct::Construct;
use crate::error::{lists, Fault, RewriteError};
use crate::linked::Linked;
use crate::replace::{
    code,
    embed_urls,
    embeds_rewritten,
    file_links,
    hints,
    images,
    relinked,
    rewritten,
    sources,
    sources_listed,
    tabs,
    tabs_rewritten,
};

verus! {

/// How far the pipeline has come.
#[derive(Debug, Clone, Copy, PartialEq, Eq)]
pub enum Stage {
    /// Code blocks and embeds are done; the file links wait for their assets.
    FileLinks,
    /// File links and callouts are done; the images wait for their assets.
    Images,
    /// All six rewriters have run.
    Finished,
}

/// A document on its way through the pipeline.
pub struct Transform {
    /// The text as the rewriters that have run so far have left it.
    pub content: String,
    /// Which rewriter comes next.
    pub stage: Stage,
}

/// A document on its way through the pipeline, as a value of the model.
pub struct Progress {
    /// The text as the rewriters that have run so far have left it.
    pub content: Seq<char>,
    /// Which rewriter comes next.
    pub stage: Stage,
}

impl View for Transform {
    type V = Progress;

    open spec fn view(&self) -> Progress {
        Progress { content: self.content@, stage: self.stage }
    }
}

/// Whether the outcome `got` of a leg is the outcome `want` of the model.
pub open spec fn reaches(got: Result<Transform, RewriteError>, want: Result<Progress, Fault>) -> bool {
    match got {
        Ok(t) => want == Ok::<Progress, Fault>(t@),
        Err(e) => want == Err::<Progress, Fault>(e.fault()),
    }
}

/// The first leg: code blocks, then embeds.
pub open spec fn begun(content: Seq<char>) -> Result<Progress, Fault> {
    match rewritten(Construct::Code, content) {
        Ok(unwrapped) => match embeds_rewritten(unwrapped) {
            Ok(embedded) => Ok(Progress { content: embedded, stage: Stage::FileLinks }),
            Err(e) => Err(e),
        },
        Err(e) => Err(e),
    }
}

/// The local sources that the next rewriter waits for.
pub open spec fn wanted_by(p: Progress) -> Result<Seq<Seq<char>>, Fault> {
    match p.stage {
        Stage::FileLinks => sources_listed(Linked::FileLink, p.content),
        Stage::Images => sources_listed(Linked::Image, p.content),
        Stage::Finished => Ok(Seq::empty()),
    }
}

/// The next leg, given the file names that the wanted sources resolved to:
/// file links, then callouts; or images, then tabs.
pub open spec fn supplied(p: Progress, file_names: Seq<Seq<char>>) -> Result<Progress, Fault> {
    match p.stage {
        Stage::FileLinks => match relinked(Linked::FileLink, p.content, file_names) {
            Ok(linked) => match rewritten(Construct::Hint, linked) {
                Ok(quoted) => Ok(Progress { content: quoted, stage: Stage::Images }),
                Err(e) => Err(e),
            },
            Err(e) => Err(e),
        },
        Stage::Images => match relinked(Linked::Image, p.content, file_names) {
            Ok(pictured) => match tabs_rewritten(pictured) {
                Ok(headed) => Ok(Progress { content: headed, stage: Stage::Finished }),
                Err(e) => Err(e),
            },
            Err(e) => Err(e),
        },
        Stage::Finished => if file_names.len() == 0 {
            Ok(p)
        } else {
            Err(Fault::Assets)
        },
    }
}

/// The whole pipeline over `content`, given the file names that the local
/// sources of its file links and of its images resolved to.
pub open spec fn transformed(
    content: Seq<char>,
    file_names: Seq<Seq<char>>,
    image_names: Seq<Seq<char>>,
) -> Result<Seq<char>, Fault> {
    match rewritten(Construct::Code, content) {
        Ok(unwrapped) => match embeds_rewritten(unwrapped) {
            Ok(embedded) => match relinked(Linked::FileLink, embedded, file_names) {
                Ok(linked) => match rewritten(Construct::Hint, linked) {
                    Ok(quoted) => match relinked(Linked::Image, quoted, image_names) {
                        Ok(pictured) => tabs_rewritten(pictured),
                        Err(e) => Err(e),
                    },
                    Err(e) => Err(e),
                },
                Err(e) => Err(e),
            },
            Err(e) => Err(e),
        },
        Err(e) => Err(e),
    }
}

impl Transform {
    /// Starts the pipeline on `content`: unwraps the code blocks, then rewrites the embeds.
    pub fn begin(content: String) -> (out: Result<Transform, RewriteError>)
        ensures
            reaches(out, begun(content@)),
    {
        let unwrapped = match code(content) {
            Ok(text) => text,
            Err(e) => {
                return Err(e);
            },
        };
        match embed_urls(unwrapped) {
            Ok(embedded) => Ok(Transform { content: embedded, stage: Stage::FileLinks }),
            Err(e) => Err(e),
        }
    }

    /// Lists the local sources that the next rewriter waits for, in the order
    /// of their matches. The driver resolves each against the directory of
    /// the document, relocates the asset, and hands the file names to `supply`.
    pub fn wanted(&self) -> (out: Result<Vec<String>, RewriteError>)
        ensures
            lists(out, wanted_by(self@)),
    {
        match self.stage {
            Stage::FileLinks => sources(Linked::FileLink, self.content.as_str()),
            Stage::Images => sources(Linked::Image, self.content.as_str()),
            Stage::Finished => {
                let none: Vec<String> = Vec::new();
                proof {
                    assert(none.deep_view() == Seq::<Seq<char>>::empty());
                }
                Ok(none)
            },
        }
    }

    /// Runs the next leg. `file_names` holds, for each wanted source in
    /// order, the file name of the asset it resolved to.
    pub fn supply(self, file_names: &Vec<String>) -> (out: Result<Transform, RewriteError>)
        ensures
            reaches(out, supplied(self@, file_names.deep_view())),
    {
        match self.stage {
            Stage::FileLinks => {
                let linked = match file_links(self.content, file_names) {
                    Ok(text) => text,
                    Err(e) => {
                        return Err(e);
                    },
                };
                match hints(linked) {
                    Ok(quoted) => Ok(Transform { content: quoted, stage: Stage::Images }),
                    Err(e) => Err(e),
                }
            },
            Stage::Images => {
                let pictured = match images(self.content, file_names) {
                    Ok(text) => text,
                    Err(e) => {
                        return Err(e);
                    },
                };
                match tabs(pictured) {
                    Ok(headed) => Ok(Transform { content: headed, stage: Stage::Finished }),
                    Err(e) => Err(e),
                }
            },
            Stage::Finished => {
                if file_names.len() == 0 {
                    Ok(self)
                } else {
                    Err(RewriteError::Assets)
                }
            },
        }
    }
}

/// The text that the three legs in a row come to.
pub open spec fn through_legs(
    content: Seq<char>,
    file_names: Seq<Seq<char>>,
    image_names: Seq<Seq<char>>,
) -> Result<Seq<char>, Fault> {
    match begun(content) {
        Ok(first) => match supplied(first, file_names) {
            Ok(second) => match supplied(second, image_names) {
                Ok(third) => Ok(third.content),
                Err(e) => Err(e),
            },
            Err(e) => Err(e),
        },
        Err(e) => Err(e),
    }
}

/// The three legs in a row are the six rewriters in their fixed order: code
/// blocks, embeds, file links, callouts, images, tabs. They fail where the
/// first rewriter in that order to fail does, and with its error.
pub proof fn lemma_legs_compose(
    content: Seq<char>,
    file_names: Seq<Seq<char>>,
    image_names: Seq<Seq<char>>,
)
    ensures
        through_legs(content, file_names, image_names) == transformed(
            content,
            file_names,
            image_names,
        ),
{
}

/// The stage that a leg leaves the document in.
pub open spec fn stage_after(stage: Stage) -> Stage {
    match stage {
        Stage::FileLinks => Stage::Images,
        _ => Stage::Finished,
    }
}

/// Every leg moves the document one stage on, and the third leaves it finished.
pub proof fn lemma_legs_advance(p: Progress, file_names: Seq<Seq<char>>)
    ensures
        begun(p.content) matches Ok(first) ==> first.stage == Stage::FileLinks,
        supplied(p, file_names) matches Ok(next) ==> next.stage == stage_after(p.stage),
{
}

} // verus!
