//! `modrinth.index.json` of a Modrinth pack.
use vstd::prelude::*;

verus! {

pub struct ModrinthIndex {
    pub game: String,
    pub format_version: i64,
    pub version_id: String,
    pub name: String,
    pub summary: Option<String>,
    pub files: Vec<File>,
    pub dependencies: Dependencies,
}

pub struct File {
    pub path: String,
    pub hashes: Hashes,
    pub env: Env,
    pub downloads: Vec<String>,
    pub file_size: i64,
}

pub struct Hashes {
    pub sha512: String,
    pub sha1: String,
}

pub struct Env {
    pub server: String,
    pub client: String,
}

pub struct Dependencies {
    pub fabric_loader: Option<String>,
    pub minecraft: String,
    pub forge: Option<String>,
}

impl Default for Hashes {
    fn default() -> (r: Self)
        ensures
            r.sha512@.len() == 0,
            r.sha1@.len() == 0,
    {
        Hashes { sha512: String::new(), sha1: String::new() }
    }
}

impl Default for Env {
    fn default() -> (r: Self)
        ensures
            r.server@.len() == 0,
            r.client@.len() == 0,
    {
        Env { server: String::new(), client: String::new() }
    }
}

impl Default for Dependencies {
    fn default() -> (r: Self)
        ensures
            r.fabric_loader is None,
            r.minecraft@.len() == 0,
            r.forge is None,
    {
        Dependencies { fabric_loader: None, minecraft: String::new(), forge: None }
    }
}

impl Default for File {
    fn default() -> (r: Self)
        ensures
            r.path@.len() == 0,
            r.hashes.sha512@.len() == 0,
            r.hashes.sha1@.len() == 0,
            r.env.server@.len() == 0,
            r.env.client@.len() == 0,
            r.downloads@.len() == 0,
            r.file_size == 0,
    {
        File {
            path: String::new(),
            hashes: Hashes::default(),
            env: Env::default(),
            downloads: Vec::new(),
            file_size: 0,
        }
    }
}

impl Default for ModrinthIndex {
    fn default() -> (r: Self)
        ensures
            r.game@.len() == 0,
            r.format_version == 0,
            r.version_id@.len() == 0,
            r.name@.len() == 0,
            r.summary is None,
            r.files@.len() == 0,
            r.dependencies.fabric_loader is None,
            r.dependencies.minecraft@.len() == 0,
            r.dependencies.forge is None,
    {
        ModrinthIndex {
            game: String::new(),
            format_version: 0,
            version_id: String::new(),
            name: String::new(),
            summary: None,
            files: Vec::new(),
            dependencies: Dependencies::default(),
        }
    }
}

} // verus!
