//! Rewrites GitBook-flavoured Markdown into standard Markdown.
//!
//! A document goes through six rewriters in a fixed order: code blocks,
//! embeds, file links, callouts, images, tabs. Each rewriter finds the
//! occurrences of its construct in the text as it receives it, and then
//! replaces the literal span of every occurrence by plain Markdown. File links
//! and images refer to assets; where the reference is local, the asset is
//! relocated beside the converted document and the link points at the copy.
//!
//! The library works on text alone. Finding the constructs is the work of the
//! `regex` crate and telling URLs from paths that of the `url` crate; both
//! stand behind the contracts of [`engine`], which are taken on trust.
//! Everything else is proved against the models in each module. Reading
//! documents, resolving and copying assets and writing the results is left to
//! the program that drives [`pipeline::Transform`].

pub mod asset;
pub mod captures;
pub mod construct;
pub mod engine;
pub mod error;
pub mod filesystem;
pub mod laws;
pub mod linked;
pub mod pipeline;
pub mod quote;
pub mod replace;
pub mod splice;
pub mod strip;
pub mod text;
