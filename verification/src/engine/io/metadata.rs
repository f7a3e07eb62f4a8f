//! The pack metadata of the project's first pack layout.
use vstd::prelude::*;
use crate::engine::io::manifest::InstanceType;

verus! {

pub struct ConduitPackMetadata {
    pub version: String,
    pub pack_type: InstanceType,
    pub creator: String,
    pub has_configs: bool,
    pub has_mods_overrides: bool,
}

} // verus!
