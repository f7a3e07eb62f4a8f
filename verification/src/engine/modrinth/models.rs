//! What the Modrinth API answers with.
use vstd::prelude::*;
use crate::strmap::StrMap;

verus! {

pub struct SearchResult {
    pub hits: Vec<ProjectHit>,
    pub total_hits: i32,
}

pub struct ProjectHit {
    pub slug: String,
    pub title: String,
    pub project_type: String,
    pub author: String,
    pub downloads: i32,
}

pub struct Version {
    pub id: String,
    pub project_id: String,
    pub name: String,
    pub version_number: String,
    pub files: Vec<ModFile>,
    pub dependencies: Vec<Dependency>,
}

pub struct Dependency {
    pub project_id: Option<String>,
    pub version_id: Option<String>,
    pub dependency_type: String,
}

/// A file of a version; `hashes` maps each algorithm to the file's digest.
pub struct ModFile {
    pub url: String,
    pub filename: String,
    pub size: u64,
    pub primary: bool,
    pub hashes: StrMap<String>,
}

pub struct Project {
    pub id: String,
    pub slug: String,
    pub title: String,
    pub description: String,
    pub project_type: String,
    pub downloads: i32,
    pub icon_url: Option<String>,
    pub client_side: String,
    pub server_side: String,
}

} // verus!
