//! Where a loader's server file is downloaded from.
use vstd::prelude::*;
use crate::domain::loader::{Loader, LoaderKind};

verus! {

/// The loader file to download, its digest (empty when none is published)
/// and the name it is known by.
pub struct ResolvedLoader {
    pub url: String,
    pub hash: String,
    pub file_name: String,
}

/// Vanilla, Paper and Purpur download the server itself; Fabric, Forge and
/// NeoForge an installer.
pub open spec fn loader_file_name_spec(l: LoaderKind) -> Seq<char> {
    match l {
        LoaderKind::Vanilla | LoaderKind::Paper | LoaderKind::Purpur => "server.jar"@,
        _ => "server-installer.jar"@,
    }
}

/// The download of a loader from `url`; only Paper publishes a digest
/// (`published_sha256`), the others are fetched unchecked.
pub fn resolved_loader(loader: &Loader, url: String, published_sha256: String) -> (r: ResolvedLoader)
    ensures
        r.url@ == url@,
        r.hash@ == (if loader@ is Paper { published_sha256@ } else { Seq::empty() }),
        r.file_name@ == loader_file_name_spec(loader@),
{
    match loader {
        Loader::Vanilla => ResolvedLoader { url, hash: String::new(), file_name: "server.jar".to_string() },
        Loader::Paper => ResolvedLoader { url, hash: published_sha256, file_name: "server.jar".to_string() },
        Loader::Purpur => ResolvedLoader { url, hash: String::new(), file_name: "server.jar".to_string() },
        _ => ResolvedLoader { url, hash: String::new(), file_name: "server-installer.jar".to_string() },
    }
}

/// What must be asked of which service to find a loader's download:
/// Mojang for the Vanilla server of the Minecraft version, PaperMC and
/// PurpurMC for their latest build of it, FabricMC for its latest
/// installer, the Forge maven for the latest Forge build of the loader's
/// version, and for NeoForge the installer of its version, which needs no
/// lookup.
pub enum LoaderQuery {
    MojangServer { minecraft: String },
    PaperLatestBuild { minecraft: String },
    PurpurLatestBuild { minecraft: String },
    FabricLatestInstaller,
    ForgeLatestBuild { version: String },
    NeoforgeInstaller { version: String },
}

pub fn loader_query(loader: &Loader, mc_version: &str) -> (r: LoaderQuery)
    ensures
        match loader@ {
            LoaderKind::Vanilla => r matches LoaderQuery::MojangServer { minecraft } && minecraft@ == mc_version@,
            LoaderKind::Paper => r matches LoaderQuery::PaperLatestBuild { minecraft } && minecraft@ == mc_version@,
            LoaderKind::Purpur => r matches LoaderQuery::PurpurLatestBuild { minecraft } && minecraft@ == mc_version@,
            LoaderKind::Fabric => r is FabricLatestInstaller,
            LoaderKind::Forge(v) => r matches LoaderQuery::ForgeLatestBuild { version } && version@ == v,
            LoaderKind::Neoforge(v) => r matches LoaderQuery::NeoforgeInstaller { version } && version@ == v,
        },
{
    match loader {
        Loader::Vanilla => LoaderQuery::MojangServer { minecraft: mc_version.to_string() },
        Loader::Paper => LoaderQuery::PaperLatestBuild { minecraft: mc_version.to_string() },
        Loader::Purpur => LoaderQuery::PurpurLatestBuild { minecraft: mc_version.to_string() },
        Loader::Fabric => LoaderQuery::FabricLatestInstaller,
        Loader::Forge { version } => LoaderQuery::ForgeLatestBuild { version: version.clone() },
        Loader::Neoforge { version } => LoaderQuery::NeoforgeInstaller { version: version.clone() },
    }
}

} // verus!
