//! Turning what a project asks for into files to download.
use vstd::prelude::*;
use crate::engine::ConduitContext;

pub mod addon;
pub mod loader;

verus! {

pub struct Resolver {
    pub ctx: ConduitContext,
}

impl Resolver {
    pub fn new(ctx: ConduitContext) -> (r: Resolver)
        ensures
            r.ctx.store.root_dir() == ctx.store.root_dir(),
    {
        Resolver { ctx }
    }
}

} // verus!
