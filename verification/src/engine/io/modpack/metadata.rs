//! `metadata.toml` of a Conduit pack: which Conduit wrote it, what the pack
//! is, and what it carries besides the manifest.
use vstd::prelude::*;
use crate::engine::io::project::manifest::InstanceType;

verus! {

pub struct ConduitPackMetadata {
    pub conduit: ConduitInfo,
    pub pack: PackInfo,
    pub content: ContentFlags,
}

pub struct ConduitInfo {
    pub version: String,
    pub format_version: i32,
}

pub struct PackInfo {
    pub title: String,
    pub creator: Option<String>,
    pub description: Option<String>,
    pub homepage: Option<String>,
    pub repository: Option<String>,
    pub pack_type: InstanceType,
}

pub struct ContentFlags {
    pub has_configs: bool,
    pub has_mods_overrides: bool,
}

} // verus!
