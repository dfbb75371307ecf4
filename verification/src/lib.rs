//! Core of a static site generator: it turns raw source files (Markdown or
//! plain text) into fully resolved article records, enforcing the precedence
//! rules for titles, dates, tags and links, validating resource references in
//! rendered HTML, expanding social share-link templates, and ordering the
//! final collection.
use vstd::prelude::*;

pub mod article;
pub mod collection;
pub mod dates;
pub mod frontmatter;
pub mod paths;
pub mod resource;
pub mod scan;
pub mod search;
pub mod share;
pub mod tags;
pub mod text;

verus! {

/// A social share link for one provider, fully expanded.
pub struct ShareLink {
    /// The name of the provider (e.g., "X", "Facebook").
    pub provider_name: String,
    /// The generated URL for sharing.
    pub url: String,
}

} // verus!
