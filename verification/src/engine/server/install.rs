//! Which loader `install` sets up for a project, and what the lock records
//! of it afterwards.
use vstd::prelude::*;
use crate::engine::error::CoreError;
use crate::engine::io::project::manifest::{ConduitConfig, InstanceType};
use crate::engine::runtime::loaders::{loader_name_spec, loader_version_spec, LoaderInfo, LoaderType};
use crate::text::{concat3, split_seq, str_eq};

verus! {

/// Only a server project gets a loader, and of loaders only NeoForge is
/// installed: the loader and the parsed `name@version` of the manifest.
pub fn loader_for_install(config: &ConduitConfig) -> (r: Result<(LoaderType, LoaderInfo), CoreError>)
    ensures
        config.instance_type == InstanceType::Client ==> (r matches Err(CoreError::ServerOnlyFeature)),
        config.instance_type == InstanceType::Server ==> {
            if loader_name_spec(config.loader@) == "neoforge"@ {
                (r matches Ok((t, info)) && t is NeoForge && info.name@ == loader_name_spec(config.loader@)
                    && info.version@ == loader_version_spec(config.loader@))
            } else {
                (r matches Err(CoreError::UnsupportedLoader(n)) && n@ == loader_name_spec(config.loader@))
            }
        },
{
    match config.instance_type {
        InstanceType::Client => return Err(CoreError::ServerOnlyFeature),
        InstanceType::Server => {},
    }
    let info = LoaderInfo::parse(config.loader.as_str());
    if str_eq(info.name.as_str(), "neoforge") {
        Ok((LoaderType::NeoForge, info))
    } else {
        Err(CoreError::UnsupportedLoader(info.name))
    }
}

/// Whether the version must first be looked up: it is `latest`.
pub fn needs_latest(info: &LoaderInfo) -> (b: bool)
    ensures
        b == (info.version@ == "latest"@),
{
    str_eq(info.version.as_str(), "latest")
}

/// What the lock records of the installed loader: `name@version`.
pub fn locked_loader_version(name: &str, version: &str) -> (r: String)
    ensures
        r@ == name@ + "@"@ + version@,
{
    concat3(name, "@", version)
}

} // verus!

verus! {

/// What `install` records of a loader as `name@version` is read back by
/// `LoaderInfo::parse` (as `start` reads it) as the same name and version,
/// when neither contains `@`.
pub proof fn lemma_loader_record_roundtrip(name: Seq<char>, version: Seq<char>)
    requires
        !name.contains('@'),
        !version.contains('@'),
    ensures
        loader_name_spec(name + "@"@ + version) == name,
        loader_version_spec(name + "@"@ + version) == version,
{
    reveal_strlit("@");
    let s = name + "@"@ + version;
    assert(name + "@"@ =~= name.push('@'));
    crate::text::lemma_split_no_sep(name, '@');
    assert(name.push('@').drop_last() =~= name);
    assert(split_seq(name.push('@'), '@') =~= seq![name, Seq::<char>::empty()]);
    crate::text::lemma_split_append(name.push('@'), version, '@');
    assert(Seq::<char>::empty() + version =~= version);
    assert(split_seq(s, '@') =~= seq![name, version]);
}

} // verus!
