//! The install-and-run workflow of a project described by `conduit.toml`.
use vstd::prelude::*;
use crate::domain::addon::AddonType;
use crate::domain::loader::{loader_debug, Loader, LoaderKind};
use crate::engine::manager::start::{loader_args, loader_args_spec, modern_forge, modern_forge_spec, parse_or_zero, parse_u32_or_zero};
use crate::engine::schemas::manifest::Manifest;
use crate::errors::ConduitError;
use crate::text::{concat3, split_char, split_seq, views};

verus! {

pub struct Workflow {
    pub project_root: String,
}

/// The second part of a Minecraft version as a number, 0 when there is
/// none or it is not one.
pub open spec fn mc_minor_spec(mc_version: Seq<char>) -> u32 {
    let parts = split_seq(mc_version, '.');
    if parts.len() > 1 { parse_or_zero(parts[1]) } else { 0 }
}

/// Mods need a modding loader, plugins need Paper or Purpur, datapacks need
/// Minecraft 1.13 or later; the message of each refusal.
pub open spec fn compatibility_spec(target: AddonType, loader: LoaderKind, mc_version: Seq<char>) -> Option<Seq<char>> {
    match target {
        AddonType::Mod => match loader {
            LoaderKind::Vanilla | LoaderKind::Paper | LoaderKind::Purpur => Some(
                "Cannot install Mods on a "@ + loader_debug(loader) + " server"@,
            ),
            _ => None,
        },
        AddonType::Plugin => match loader {
            LoaderKind::Paper | LoaderKind::Purpur => None,
            _ => Some("Plugins require Paper/Purpur (current: "@ + loader_debug(loader) + ")"@),
        },
        AddonType::Datapack => if mc_minor_spec(mc_version) < 13 {
            Some("Datapacks require MC 1.13+"@)
        } else {
            None
        },
    }
}

impl Workflow {
    /// Whether an addon of type `target` can go on the project's server.
    pub fn validate_compatibility(&self, target: AddonType, manifest: &Manifest) -> (r: Result<(), ConduitError>)
        ensures
            match compatibility_spec(target, manifest.project.loader@, manifest.project.minecraft@) {
                Some(m) => r matches Err(ConduitError::Deserialize(e)) && e@ == m,
                None => r is Ok,
            },
    {
        let loader = &manifest.project.loader;
        match target {
            AddonType::Mod => match loader {
                Loader::Vanilla | Loader::Paper | Loader::Purpur => {
                    let d = loader.debug_string();
                    Err(ConduitError::Deserialize(concat3("Cannot install Mods on a ", d.as_str(), " server")))
                },
                _ => Ok(()),
            },
            AddonType::Plugin => match loader {
                Loader::Paper | Loader::Purpur => Ok(()),
                _ => {
                    let d = loader.debug_string();
                    Err(ConduitError::Deserialize(concat3("Plugins require Paper/Purpur (current: ", d.as_str(), ")")))
                },
            },
            AddonType::Datapack => {
                let parts = split_char(manifest.project.minecraft.as_str(), '.');
                let minor = if parts.len() > 1 {
                    assert(parts@[1]@ == views(parts@)[1]);
                    parse_u32_or_zero(parts[1].as_str())
                } else {
                    0
                };
                if minor < 13 {
                    return Err(ConduitError::Deserialize("Datapacks require MC 1.13+".to_string()));
                }
                Ok(())
            },
        }
    }

    /// Whether a Forge version starts from an argument file.
    pub fn is_modern_forge(&self, version: &str) -> (b: bool)
        ensures
            b == modern_forge_spec(version@),
    {
        modern_forge(version)
    }

    /// The arguments that reach the loader's entry point; `args_file` is the
    /// argument file found, where the loader needs one.
    pub fn setup_loader_args(&self, loader: &Loader, args_file: Option<String>, fabric_launcher_exists: bool) -> (r: Result<Vec<String>, ConduitError>)
        ensures
            match loader_args_spec(loader@, match args_file {
                Some(f) => Some(f@),
                None => None,
            }, fabric_launcher_exists) {
                Some(a) => r matches Ok(v) && views(v@) == a,
                None => r matches Err(ConduitError::NoEntryPoint),
            },
    {
        match loader_args(loader, args_file, fabric_launcher_exists) {
            Some(v) => Ok(v),
            None => Err(ConduitError::NoEntryPoint),
        }
    }
}


/// A mod is accepted on every modding loader (Forge, NeoForge, Fabric),
/// whatever the Minecraft version, and refused on Vanilla, Paper and
/// Purpur; a plugin is accepted exactly on Paper and Purpur; a datapack,
/// on any loader, exactly from Minecraft 1.13 on.
pub proof fn lemma_compatibility(loader: LoaderKind, mc_version: Seq<char>)
    ensures
        compatibility_spec(AddonType::Mod, loader, mc_version) is None <==> (loader is Forge || loader is Neoforge
            || loader is Fabric),
        compatibility_spec(AddonType::Plugin, loader, mc_version) is None <==> (loader is Paper || loader is Purpur),
        compatibility_spec(AddonType::Datapack, loader, mc_version) is None <==> mc_minor_spec(mc_version) >= 13,
{
}

} // verus!
