//! Content-graph resolution and annotated-rendering engine for a static
//! site generator.
//!
//! - [`paths`]: the file index over the content tree, and the canonical
//!   asset and document path resolvers.
//! - [`rewrite`]: the four reference-rewriting passes over a document
//!   body.
//! - [`frontmatter`]: the dash-delimited metadata block every document
//!   opens with.
//! - [`markdown`]: rendering with anchored headings, a table of
//!   contents, and numbered, annotated, highlighted code blocks.
//! - [`backlinks`]: the whole-tree reverse-reference graph.
//! - [`file_tree`], [`listing`], [`lazy_load`]: the sidebar tree,
//!   directory listings, and lazy-image rewriting of rendered pages.
//! - [`config`]: site configuration and its validation rules.
//! - [`text`], [`utils`]: shared text scanning and sanitization.

pub mod backlinks;
pub mod config;
pub mod file_tree;
pub mod frontmatter;
pub mod lazy_load;
pub mod listing;
pub mod markdown;
pub mod paths;
pub mod rewrite;
pub mod text;
pub mod utils;
