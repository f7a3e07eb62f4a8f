//! Which launcher `start` uses for the loader recorded in the lock.
use vstd::prelude::*;
use crate::engine::runtime::launchers::ServerLauncher;
use crate::engine::runtime::loaders::{loader_name_spec, loader_version_spec, LoaderInfo, LoaderType};
use crate::text::{concat2, lowercase, push_str, str_eq, to_lowercase};

verus! {

/// The loader recorded in the lock, with the launcher that starts it:
/// NeoForge and Vanilla (by their lower-cased name) are known; no recorded
/// loader and any other name are refused with their messages.
pub fn launcher_for_lock(loader_version: &Option<String>) -> (r: Result<(LoaderType, ServerLauncher, LoaderInfo), String>)
    ensures
        loader_version is None ==> (r matches Err(m) && m@ == "No loader version found in lock file"@),
        loader_version matches Some(raw) ==> {
            let name = loader_name_spec(raw@);
            if lowercase(name) == "neoforge"@ {
                (r matches Ok((t, l, info)) && t is NeoForge && l is Neoforge && info.name@ == name
                    && info.version@ == loader_version_spec(raw@))
            } else if lowercase(name) == "vanilla"@ {
                (r matches Ok((t, l, info)) && t is Vanilla && l is Vanilla && info.name@ == name
                    && info.version@ == loader_version_spec(raw@))
            } else {
                (r matches Err(m) && m@ == "Unsupported loader: "@ + name)
            }
        },
{
    let raw = match loader_version {
        Some(raw) => raw,
        None => return Err("No loader version found in lock file".to_string()),
    };
    let info = LoaderInfo::parse(raw.as_str());
    let lower = to_lowercase(info.name.as_str());
    if str_eq(lower.as_str(), "neoforge") {
        Ok((LoaderType::NeoForge, ServerLauncher::Neoforge, info))
    } else if str_eq(lower.as_str(), "vanilla") {
        Ok((LoaderType::Vanilla, ServerLauncher::Vanilla, info))
    } else {
        Err(concat2("Unsupported loader: ", info.name.as_str()))
    }
}

/// The message when the loader's files are missing.
pub fn not_ready_message(info: &LoaderInfo) -> (r: String)
    ensures
        r@ == "Loader "@ + info.name@ + " version "@ + info.version@
            + " is not installed or files are missing. Run setup first."@,
{
    let mut r = concat2("Loader ", info.name.as_str());
    push_str(&mut r, " version ");
    push_str(&mut r, info.version.as_str());
    push_str(&mut r, " is not installed or files are missing. Run setup first.");
    r
}

} // verus!

verus! {

/// The launcher for the loader a manifest names, for the first way of
/// starting a project: any loader whose lower-cased name mentions
/// `neoforge` starts as NeoForge; others are refused.
pub fn launcher_for_manifest_loader(loader: &str) -> (r: Result<ServerLauncher, String>)
    ensures
        crate::text::has_infix(lowercase(loader@), "neoforge"@) ==> (r matches Ok(l) && l is Neoforge),
        !crate::text::has_infix(lowercase(loader@), "neoforge"@) ==> (r matches Err(m) && m@
            == "Unsupported loader for launching: "@ + loader@),
{
    let lower = to_lowercase(loader);
    if crate::text::contains_sub(lower.as_str(), "neoforge") {
        Ok(ServerLauncher::Neoforge)
    } else {
        Err(concat2("Unsupported loader for launching: ", loader))
    }
}

} // verus!
