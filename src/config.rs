//! The project configuration that the generator reads.
use std::collections::HashMap;
use vstd::prelude::*;

verus! {

/// Project metadata, shown on the page as given.
pub struct Meta {
    pub title: String,
    pub authors: Vec<String>,
    pub version: String,
    pub description: String,
}

/// Where documents are looked for.
pub struct DocSettings {
    /// Folder searched for markdown files.
    pub root: Option<String>,
    /// A file whose path contains one of these ends the list of files read.
    pub exclude: Option<Vec<String>>,
}

/// The whole configuration.
pub struct SychConfig {
    pub meta: Meta,
    pub doc: Option<DocSettings>,
    /// The documents of the last run, relative to the root.
    pub refs: Option<Vec<String>>,
    /// Extension name to extension identifier.
    pub extensions: Option<HashMap<String, String>>,
}

} // verus!
