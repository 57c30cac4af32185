//! The decisions of a generator run that do not touch the file system: which
//! folder is searched, which files are read, and how their paths are recorded.
use crate::config::SychConfig;
use crate::text::{contains, is_prefix, occurs_in, replace_all, replaced, starts_with};
use std::collections::HashMap;
use vstd::prelude::*;

verus! {

/// The command-line options.
pub struct SychCLI {
    /// Folder to search instead of the configured one.
    pub root: Option<String>,
    /// Write a default configuration and stop.
    pub init: bool,
    /// Rebuild without opening the page in a browser.
    pub noopen: bool,
    /// Minify the page for publishing.
    pub release: bool,
}

impl SychCLI {
    /// The options as given on the command line.
    pub fn load(root: Option<String>, init: bool, noopen: bool, release: bool) -> (r: SychCLI)
        ensures
            r.root == root,
            r.init == init,
            r.noopen == noopen,
            r.release == release,
    {
        SychCLI { root, init, noopen, release }
    }

    /// The folder searched for documents: the one given on the command line,
    /// else the configured one, else `cwd`.
    pub fn root_folder(&self, cfg: &SychConfig, cwd: String) -> (r: String)
        ensures
            r@ == match self.root {
                Some(given) => given@,
                None => match cfg.doc {
                    Some(d) => match d.root {
                        Some(configured) => configured@,
                        None => cwd@,
                    },
                    None => cwd@,
                },
            },
    {
        if let Some(given) = &self.root {
            return given.clone();
        }
        if let Some(d) = &cfg.doc {
            if let Some(configured) = &d.root {
                return configured.clone();
            }
        }
        cwd
    }
}

/// Some pattern of `patterns` occurs in `path`.
pub open spec fn is_excluded(path: Seq<char>, patterns: Seq<String>) -> bool {
    exists|j: int| 0 <= j < patterns.len() && occurs_in(#[trigger] patterns[j]@, path)
}

/// The exclusion patterns of the configuration.
pub open spec fn exclusions(cfg: SychConfig) -> Seq<String> {
    match cfg.doc {
        Some(d) => match d.exclude {
            Some(e) => e@,
            None => Seq::empty(),
        },
        None => Seq::empty(),
    }
}

fn excluded(path: &String, patterns: &Vec<String>) -> (r: bool)
    ensures
        r == is_excluded(path@, patterns@),
{
    let mut j: usize = 0;
    while j < patterns.len()
        invariant
            j <= patterns.len(),
            forall|k: int| 0 <= k < j ==> !occurs_in(#[trigger] patterns@[k]@, path@),
        decreases patterns.len() - j,
    {
        if contains(path.as_str(), patterns[j].as_str()) {
            return true;
        }
        j = j + 1;
    }
    false
}

/// The files that are read: those before the first file whose path contains an
/// exclusion pattern.
pub fn files_to_index(cfg: &SychConfig, markdown_files: &Vec<String>) -> (r: Vec<String>)
    ensures
        r.len() <= markdown_files.len(),
        forall|i: int| 0 <= i < r.len() ==> #[trigger] r@[i] == markdown_files@[i],
        forall|i: int| 0 <= i < r.len() ==> !is_excluded(#[trigger] markdown_files@[i]@, exclusions(*cfg)),
        r.len() < markdown_files.len() ==> is_excluded(markdown_files@[r.len() as int]@, exclusions(*cfg)),
{
    let empty: Vec<String> = Vec::new();
    let patterns = match &cfg.doc {
        Some(d) => match &d.exclude {
            Some(e) => e,
            None => &empty,
        },
        None => &empty,
    };
    let mut r: Vec<String> = Vec::new();
    let mut i: usize = 0;
    while i < markdown_files.len()
        invariant
            i <= markdown_files.len(),
            patterns@ == exclusions(*cfg),
            r.len() == i,
            forall|k: int| 0 <= k < i ==> #[trigger] r@[k] == markdown_files@[k],
            forall|k: int| 0 <= k < i ==> !is_excluded(#[trigger] markdown_files@[k]@, exclusions(*cfg)),
        decreases markdown_files.len() - i,
    {
        if excluded(&markdown_files[i], patterns) {
            return r;
        }
        r.push(markdown_files[i].clone());
        i = i + 1;
    }
    r
}

/// Records the documents read, with the root folder in each path replaced by `.`.
pub fn update_references_in_cfg(sych_cfg: &mut SychConfig, root: &String, markdown_files: &Vec<String>)
    ensures
        final(sych_cfg).meta == old(sych_cfg).meta,
        final(sych_cfg).doc == old(sych_cfg).doc,
        final(sych_cfg).extensions == old(sych_cfg).extensions,
        final(sych_cfg).refs is Some,
        final(sych_cfg).refs->0.len() == markdown_files.len(),
        forall|i: int|
            0 <= i < markdown_files.len() ==> #[trigger] final(sych_cfg).refs->0@[i]@ == replaced(
                markdown_files@[i]@,
                root@,
                "."@,
            ),
{
    let mut refs: Vec<String> = Vec::new();
    let mut i: usize = 0;
    while i < markdown_files.len()
        invariant
            i <= markdown_files.len(),
            refs.len() == i,
            forall|k: int| 0 <= k < i ==> #[trigger] refs@[k]@ == replaced(markdown_files@[k]@, root@, "."@),
        decreases markdown_files.len() - i,
    {
        refs.push(replace_all(markdown_files[i].as_str(), root.as_str(), "."));
        i = i + 1;
    }
    sych_cfg.refs = Some(refs);
}

/// An extension location passes when it starts with each of the known prefixes.
pub open spec fn is_known_location(url: Seq<char>) -> bool {
    is_prefix("https://ext.sych.com"@, url) && is_prefix("http://ext.sych.com"@, url) && is_prefix(
        "ext.sych.com"@,
        url,
    ) && is_prefix("http://localhost:8000"@, url)
}

/// The message for a rejected extension location.
pub open spec fn rejection(url: Seq<char>) -> Seq<char> {
    "invalid "@ + url + ". cannot use unknown extensions."@
}

/// Relies on `HashMap::iter`: every entry once, in an order that depends on
/// the map's hasher.
#[verifier::external_body]
fn registry_entries(m: &HashMap<String, String>) -> (r: Vec<(String, String)>)
    ensures
        forall|i: int|
            0 <= i < r.len() ==> m@.dom().contains(#[trigger] r@[i].0) && m@[r@[i].0] == r@[i].1,
        forall|k: String|
            m@.dom().contains(k) ==> exists|i: int| 0 <= i < r.len() && #[trigger] r@[i].0 == k,
{
    m.iter().map(|(k, v)| (k.clone(), v.clone())).collect()
}

/// Checks every configured extension location: it fails with the message for
/// some location that is not known, and succeeds when all are known.
pub fn _validate_config(sych_cfg: &SychConfig) -> (r: Result<(), String>)
    ensures
        r is Ok <==> match sych_cfg.extensions {
            Some(m) => forall|k: String| #[trigger] m@.dom().contains(k) ==> is_known_location(m@[k]@),
            None => true,
        },
        r is Err ==> exists|k: String|
            #[trigger] sych_cfg.extensions->0@.dom().contains(k) && !is_known_location(
                sych_cfg.extensions->0@[k]@,
            ) && r->Err_0@ == rejection(sych_cfg.extensions->0@[k]@),
{
    if let Some(extensions) = &sych_cfg.extensions {
        let entries = registry_entries(extensions);
        let mut i: usize = 0;
        while i < entries.len()
            invariant
                i <= entries.len(),
                sych_cfg.extensions == Some(*extensions),
                forall|j: int| 0 <= j < i ==> is_known_location(#[trigger] entries@[j].1@),
                forall|j: int|
                    0 <= j < entries.len() ==> extensions@.dom().contains(#[trigger] entries@[j].0)
                        && extensions@[entries@[j].0] == entries@[j].1,
                forall|k: String|
                    extensions@.dom().contains(k) ==> exists|j: int|
                        0 <= j < entries.len() && #[trigger] entries@[j].0 == k,
            decreases entries.len() - i,
        {
            let url = &entries[i].1;
            let known = starts_with(url.as_str(), "https://ext.sych.com") && starts_with(
                url.as_str(),
                "http://ext.sych.com",
            ) && starts_with(url.as_str(), "ext.sych.com") && starts_with(
                url.as_str(),
                "http://localhost:8000",
            );
            if !known {
                let mut message = String::from_str("invalid ");
                message.append(url.as_str());
                message.append(". cannot use unknown extensions.");
                proof {
                    let k = entries@[i as int].0;
                    assert(extensions@.dom().contains(k) && !is_known_location(extensions@[k]@));
                    assert(message@ == rejection(extensions@[k]@));
                    let m = sych_cfg.extensions->0;
                    assert(m@.dom().contains(k) && !is_known_location(m@[k]@));
                }
                return Err(message);
            }
            i = i + 1;
        }
        proof {
            assert forall|k: String| #[trigger] extensions@.dom().contains(k) implies is_known_location(
                extensions@[k]@,
            ) by {
                let j = choose|j: int| 0 <= j < entries.len() && #[trigger] entries@[j].0 == k;
                assert(is_known_location(entries@[j].1@));
            }
        }
    }
    Ok(())
}

} // verus!
