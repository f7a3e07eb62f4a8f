//! `conduit.lock`: the installed Minecraft version and loader, the digest of
//! the loader file, and the addons installed.
use vstd::prelude::*;
use crate::domain::addon::Addon;
use crate::domain::loader::Loader;
use crate::domain::source::AddonSource;

verus! {

#[derive(Clone, Copy, Debug, PartialEq, Eq, Structural)]
pub enum HashKind {
    Sha1,
    Sha256,
    Sha512,
}

/// The lock: its format version, the installed instance, and the addons,
/// each under its own id.
pub struct Lockfile {
    pub version: u32,
    pub instance: InstanceSnapshot,
    pub entries: Vec<(u128, LockedAddon)>,
}

pub struct InstanceSnapshot {
    pub minecraft_version: String,
    pub loader: Loader,
    pub loader_hash: Option<String>,
    pub hash_kind: Option<HashKind>,
}

pub struct LockedAddon {
    pub metadata: Addon,
    pub source: AddonSource,
}

impl Default for InstanceSnapshot {
    /// Vanilla 1.21.11, nothing installed yet.
    fn default() -> (r: Self)
        ensures
            r.minecraft_version@ == "1.21.11"@,
            r.loader is Vanilla,
            r.loader_hash is None,
            r.hash_kind is None,
    {
        InstanceSnapshot {
            minecraft_version: "1.21.11".to_string(),
            loader: Loader::Vanilla,
            loader_hash: None,
            hash_kind: None,
        }
    }
}

impl Default for Lockfile {
    fn default() -> (r: Self)
        ensures
            r.version == 1,
            r.instance.minecraft_version@ == "1.21.11"@,
            r.instance.loader is Vanilla,
            r.instance.loader_hash is None,
            r.instance.hash_kind is None,
            r.entries@.len() == 0,
    {
        Lockfile { version: 1, instance: InstanceSnapshot::default(), entries: Vec::new() }
    }
}

} // verus!
