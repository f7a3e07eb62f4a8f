use vstd::prelude::*;

verus! {

/// The side a mod runs on.
#[derive(Clone, Copy, Debug, PartialEq, Eq, Structural)]
pub enum ModSide {
    Server,
    Client,
    Both,
}

} // verus!

verus! {

/// Where a remote mod comes from: a Modrinth project and, when one is
/// asked for, a version.
pub enum RemoteSource {
    Modrinth { slug: String, version: Option<String> },
}

impl RemoteSource {
    pub open spec fn slug_spec(&self) -> Seq<char> {
        match self {
            RemoteSource::Modrinth { slug, .. } => slug@,
        }
    }

    pub fn slug(&self) -> (r: &str)
        ensures
            r@ == self.slug_spec(),
    {
        match self {
            RemoteSource::Modrinth { slug, .. } => slug.as_str(),
        }
    }
}

pub enum ResourceSource {
    Remote(RemoteSource),
    Local(String),
}

pub enum ResourceType {
    Mod,
    Plugin,
    Datapack,
}

pub struct AddRequest {
    pub source: ResourceSource,
    pub side: ModSide,
    pub resource_type: ResourceType,
    pub is_dependency: bool,
}

} // verus!
