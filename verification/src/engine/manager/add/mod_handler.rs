//! Recording a remote mod once it is downloaded: the manifest asks for it
//! (unless it came in as a dependency), the lock pins it, and its
//! dependencies that are not pinned yet are installed next.
use vstd::prelude::*;
use crate::engine::io::project::manifest::ConduitConfig;
use crate::engine::manager::add::models::{ModSide, RemoteSource};
use crate::lock::{ConduitLock, LockedMod, LockedModView};
use crate::text::views;

verus! {

/// What resolving a remote mod gives.
pub struct ResolvedRemoteMod {
    pub slug: String,
    pub id: String,
    pub version_id: String,
    pub filename: String,
    pub download_url: String,
    pub hash: String,
    pub deps: Vec<RemoteSource>,
}

pub open spec fn source_slugs(v: Seq<RemoteSource>) -> Seq<Seq<char>> {
    v.map_values(|s: RemoteSource| s.slug_spec())
}

/// The version the manifest records for a mod asked for: the one asked
/// for, or `latest`.
pub open spec fn version_to_save(source: RemoteSource) -> Seq<char> {
    match source {
        RemoteSource::Modrinth { version, .. } => match version {
            Some(v) => v@,
            None => "latest"@,
        },
    }
}

/// Whether the lock already pins the mod of `source`.
pub fn already_installed(lock: &ConduitLock, source: &RemoteSource) -> (b: bool)
    requires
        lock.wf(),
    ensures
        b == lock.locked_mods.contains(source.slug_spec()),
{
    lock.locked_mods.contains_key(source.slug())
}

/// Records a downloaded remote mod and gives the dependencies to install
/// next: those whose slug the lock does not pin once this mod is recorded.
pub fn record_remote_install(
    config: &mut ConduitConfig,
    lock: &mut ConduitLock,
    source: &RemoteSource,
    m: ResolvedRemoteMod,
    is_dependency: bool,
) -> (next: Vec<RemoteSource>)
    requires
        old(config).wf(),
        old(lock).wf(),
    ensures
        final(config).wf(),
        final(lock).wf(),
        final(config).name == old(config).name,
        final(config).mc_version == old(config).mc_version,
        final(config).loader == old(config).loader,
        final(config).instance_type == old(config).instance_type,
        is_dependency ==> final(config).mods == old(config).mods,
        !is_dependency ==> (final(config).mods.get_spec(m.slug@) matches Some(v) && v@ == version_to_save(*source)),
        !is_dependency ==> forall|k: Seq<char>| k != m.slug@ ==> final(config).mods.get_spec(k) == old(config).mods.get_spec(k),
        !is_dependency ==> final(config).mods.keys().to_set() == old(config).mods.keys().to_set().insert(m.slug@),
        final(lock).version == old(lock).version,
        final(lock).loader_version == old(lock).loader_version,
        final(lock).locked_mods.get_spec(m.slug@) matches Some(l) && l@ == (LockedModView {
            id: m.id@,
            version_id: m.version_id@,
            filename: m.filename@,
            url: m.download_url@,
            hash: m.hash@,
            dependencies: source_slugs(m.deps@),
            side: ModSide::Both,
        }),
        forall|k: Seq<char>| k != m.slug@ ==> final(lock).locked_mods.get_spec(k) == old(lock).locked_mods.get_spec(k),
        final(lock).locked_mods.keys().to_set() == old(lock).locked_mods.keys().to_set().insert(m.slug@),
        source_slugs(next@) == source_slugs(m.deps@).filter(|s: Seq<char>| !final(lock).locked_mods.contains(s)),
{
    let ResolvedRemoteMod { slug, id, version_id, filename, download_url, hash, deps } = m;
    if !is_dependency {
        let version = match source {
            RemoteSource::Modrinth { version, .. } => match version {
                Some(v) => v.clone(),
                None => "latest".to_string(),
            },
        };
        config.mods.insert(slug.clone(), version);
    }
    let mut dep_slugs: Vec<String> = Vec::new();
    for i in 0..deps.len()
        invariant
            views(dep_slugs@) == source_slugs(deps@).take(i as int),
    {
        let ghost prev = views(dep_slugs@);
        dep_slugs.push(deps[i].slug().to_string());
        assert(views(dep_slugs@) =~= prev.push(deps@[i as int].slug_spec()));
        assert(source_slugs(deps@).take(i + 1) =~= source_slugs(deps@).take(i as int).push(deps@[i as int].slug_spec()));
    }
    assert(source_slugs(deps@).take(deps@.len() as int) =~= source_slugs(deps@));
    let locked = LockedMod {
        id,
        version_id,
        filename,
        url: download_url,
        hash,
        dependencies: dep_slugs,
        side: ModSide::Both,
    };
    lock.locked_mods.insert(slug, locked);
    let mut next: Vec<RemoteSource> = Vec::new();
    let ghost all = source_slugs(deps@);
    let ghost keep = |s: Seq<char>| !lock.locked_mods.contains(s);
    let mut deps = deps;
    let ghost deps0 = deps@;
    let mut i: usize = 0;
    let n = deps.len();
    while deps.len() > 0
        invariant
            all == source_slugs(deps0),
            deps@ == deps0.skip(i as int),
            i <= deps0.len(),
            deps0.len() == deps@.len() + i,
            n == deps0.len(),
            lock.wf(),
            keep == (|s: Seq<char>| !lock.locked_mods.contains(s)),
            source_slugs(next@) == all.take(i as int).filter(keep),
        decreases deps@.len(),
    {
        let d = deps.remove(0);
        proof {
            assert(d == deps0[i as int]);
            assert(deps@ =~= deps0.skip(i + 1));
            assert(all.take(i + 1) =~= all.take(i as int).push(d.slug_spec()));
            all.take(i as int).lemma_filter_push(d.slug_spec(), keep);
        }
        let ghost prev = source_slugs(next@);
        if !lock.locked_mods.contains_key(d.slug()) {
            next.push(d);
            assert(source_slugs(next@) =~= prev.push(d.slug_spec()));
        }
        i = i + 1;
    }
    proof {
        assert(all.take(i as int) =~= all);
    }
    next
}


/// The manifest keeps the version a mod was asked for: a source that asks
/// for version `v` records `v`, and `latest` is recorded only when no
/// version was asked for.
pub proof fn lemma_version_kept(slug: String, version: Option<String>)
    ensures
        version matches Some(v) ==> version_to_save(RemoteSource::Modrinth { slug, version }) == v@,
        version is None ==> version_to_save(RemoteSource::Modrinth { slug, version }) == "latest"@,
{
}

} // verus!
