pub mod error;
pub mod io;
pub mod lister;
pub mod local_mods;
pub mod manager;
pub mod modrinth;
pub mod mods;
pub mod paths;
pub mod project;
pub mod remover;
pub mod resolver;
pub mod runtime;
pub mod schemas;
pub mod server;
pub mod store;
pub mod ui;
pub mod verify;
pub mod workflow;

use vstd::prelude::*;
use crate::engine::store::Store;

verus! {

/// What the commands share: the content-addressed store of downloads.
pub struct ConduitContext {
    pub store: Store,
}

impl ConduitContext {
    pub fn new(store_root: String) -> (r: ConduitContext)
        ensures
            r.store.root_dir() == store_root@,
    {
        ConduitContext { store: Store::new(store_root) }
    }

    /// A second handle on the same context.
    pub fn duplicate(&self) -> (r: ConduitContext)
        ensures
            r.store.root_dir() == self.store.root_dir(),
    {
        ConduitContext { store: self.store.duplicate() }
    }
}

} // verus!
