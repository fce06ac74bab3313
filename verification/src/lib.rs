//! Verified core of a static blog content pipeline: frontmatter splitting,
//! YAML-backed metadata parsing, entity resolution with conflict detection,
//! post building, and index construction.

pub mod bridge;
pub mod config;
pub mod content;
pub mod entities;
pub mod error;
pub mod frontmatter;
pub mod laws;
pub mod post;
pub mod seo;
pub mod sorting;
pub mod text;
pub mod yaml;

use vstd::prelude::*;

verus! {

/// A raw source file: a path and its full UTF-8 contents.
#[derive(Debug, Clone)]
pub struct SourceFile {
    pub path: String,
    pub contents: String,
}

impl SourceFile {
    pub fn new(path: String, contents: String) -> (r: SourceFile)
        ensures
            r.path@ == path@,
            r.contents@ == contents@,
    {
        SourceFile { path, contents }
    }
}

} // verus!
