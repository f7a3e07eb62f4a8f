//! Which Vanilla server is downloaded, and from where.
use vstd::prelude::*;
use crate::engine::paths::{join, join_path};
use crate::engine::runtime::loaders::neoforge::DownloadPlan;
use crate::text::{concat2, concat3, str_eq};

verus! {

/// Whether the latest release must first be looked up: `latest` is asked.
pub fn needs_latest_release(mc_version: &str) -> (b: bool)
    ensures
        b == (mc_version@ == "latest"@),
{
    str_eq(mc_version, "latest")
}

/// The version to install: the latest release when `latest` is asked and
/// it was looked up, otherwise the version asked for.
pub fn vanilla_target(mc_version: &str, latest_release: Option<String>) -> (r: String)
    ensures
        r@ == (match latest_release {
            Some(l) => if mc_version@ == "latest"@ { l@ } else { mc_version@ },
            None => mc_version@,
        }),
{
    match latest_release {
        Some(l) => if str_eq(mc_version, "latest") {
            l
        } else {
            mc_version.to_string()
        },
        None => mc_version.to_string(),
    }
}

/// The download of the server jar of `target` into `install_path` as
/// `server.jar`, from the server download the version lists; a version
/// without one is refused.
pub fn vanilla_server_download(target: &str, server_url: Option<String>, install_path: &str) -> (r: Result<DownloadPlan, String>)
    ensures
        server_url is None ==> (r matches Err(m) && m@ == "No server download found for version "@ + target@),
        server_url matches Some(u) ==> (r matches Ok(p) && p.url@ == u@ && p.path@ == join_path(install_path@, "server.jar"@)
            && p.display_name@ == "minecraft-server-"@ + target@ + ".jar"@),
{
    match server_url {
        None => Err(concat2("No server download found for version ", target)),
        Some(url) => Ok(DownloadPlan {
            url,
            path: join(install_path, "server.jar"),
            display_name: concat3("minecraft-server-", target, ".jar"),
        }),
    }
}

} // verus!
