//! Installing and starting the server of a project.
use vstd::prelude::*;
use crate::engine::resolver::Resolver;
use crate::engine::ConduitContext;

pub mod add;
pub mod install_flow;
pub mod install_loader;
pub mod start;

verus! {

pub struct ProjectManager {
    pub ctx: ConduitContext,
    pub resolver: Resolver,
    pub project_root: String,
}

impl ProjectManager {
    pub fn new(ctx: ConduitContext, project_root: String) -> (r: ProjectManager)
        ensures
            r.ctx.store.root_dir() == ctx.store.root_dir(),
            r.resolver.ctx.store.root_dir() == ctx.store.root_dir(),
            r.project_root@ == project_root@,
    {
        let resolver = Resolver::new(ctx.duplicate());
        ProjectManager { ctx, resolver, project_root }
    }

    /// Whether a Forge version starts from an argument file.
    pub fn is_modern_forge(version: &str) -> (b: bool)
        ensures
            b == crate::engine::manager::start::modern_forge_spec(version@),
    {
        crate::engine::manager::start::modern_forge(version)
    }
}

} // verus!
