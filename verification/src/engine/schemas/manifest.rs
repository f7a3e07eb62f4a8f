//! `conduit.toml`: the project, its Minecraft version and loader, and the
//! addons it asks for, each under its slug with the version wanted.
use vstd::prelude::*;
use crate::domain::loader::Loader;
use crate::strmap::StrMap;

verus! {

pub struct Manifest {
    pub project: ProjectInfo,
    pub mods: StrMap<String>,
    pub plugins: StrMap<String>,
    pub datapacks: StrMap<String>,
}

pub struct ProjectInfo {
    pub name: String,
    pub minecraft: String,
    pub loader: Loader,
}

impl Default for ProjectInfo {
    fn default() -> (r: Self)
        ensures
            r.name@ == "new-conduit-project"@,
            r.minecraft@ == "1.21.11"@,
            r.loader is Vanilla,
    {
        ProjectInfo {
            name: "new-conduit-project".to_string(),
            minecraft: "1.21.11".to_string(),
            loader: Loader::Vanilla,
        }
    }
}

impl Manifest {
    pub open spec fn wf(self) -> bool {
        self.mods.wf() && self.plugins.wf() && self.datapacks.wf()
    }
}

impl Default for Manifest {
    fn default() -> (r: Self)
        ensures
            r.wf(),
            r.project.name@ == "new-conduit-project"@,
            r.project.minecraft@ == "1.21.11"@,
            r.project.loader is Vanilla,
            r.mods.entries().len() == 0,
            r.plugins.entries().len() == 0,
            r.datapacks.entries().len() == 0,
    {
        Manifest {
            project: ProjectInfo::default(),
            mods: StrMap::new(),
            plugins: StrMap::new(),
            datapacks: StrMap::new(),
        }
    }
}

} // verus!
