//! The kinds of content a project can add.
use vstd::prelude::*;

verus! {

#[derive(Clone, Copy, Debug, PartialEq, Eq, Structural)]
pub enum AddonType {
    Mod,
    Plugin,
    Datapack,
}

} // verus!

verus! {

/// What the lock records of an installed addon.
pub struct Addon {
    pub slug: String,
    pub file_name: String,
    pub addon_type: AddonType,
    pub dependencies: Vec<String>,
}

} // verus!
