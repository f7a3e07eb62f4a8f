//! The listing of a project without its dependency map: files on disk, the
//! files the manifest accounts for, roots without a lock entry, and orphans.
use vstd::prelude::*;
use crate::engine::io::project::manifest::ConduitConfig;
use crate::engine::project::lister::{collect_tracked_data, visited, DepMap};
use crate::lock::{closure, filenames, leaves, lock_keys, reach_avoiding, target_filenames, ConduitLock};
use crate::strmap::StrMap;
use crate::text::views;

verus! {

pub struct ListReport {
    pub files_on_disk: Vec<String>,
    pub tracked_files: Vec<String>,
    pub missing_root_slugs: Vec<String>,
    pub orphan_files: Vec<String>,
}

/// Adds to `files` the files of the mods that `slug` depends on, directly
/// or through others (a dependency names a locked mod by its id).
pub fn collect_tracked_files(slug: &str, lock: &ConduitLock, files: &mut Vec<String>)
    requires
        lock.wf(),
    ensures
        views(final(files)@).to_set() == views(old(files)@).to_set().union(
            target_filenames(lock.entries(), reach_avoiding(lock.entries(), slug@, leaves(lock.entries())))),
{
    let mut map: DepMap = StrMap::new();
    proof {
        assert(map.keys() =~= Seq::<Seq<char>>::empty());
        assert(visited(lock.entries(), map) =~= leaves(lock.entries()));
    }
    collect_tracked_data(slug, lock, files, &mut map);
}

/// The listing of the project from the names of the files in its mods
/// folder: the files, those that the manifest's mods and what they depend
/// on account for, the manifest's mods without a lock entry, and the files
/// accounted for by nothing.
pub fn build_list_report(config: &ConduitConfig, lock: &ConduitLock, disk_files: &Vec<String>) -> (r: ListReport)
    requires
        config.wf(),
        lock.wf(),
    ensures
        views(r.files_on_disk@).to_set() == views(disk_files@).to_set(),
        views(r.files_on_disk@).no_duplicates(),
        views(r.tracked_files@).to_set() == filenames(lock.entries(), closure(lock.entries(), config.mods.keys())),
        views(r.missing_root_slugs@) == config.mods.keys().filter(|k: Seq<char>| !lock_keys(lock.entries()).contains(k)),
        views(r.orphan_files@) == views(r.files_on_disk@).filter(|f: Seq<char>| !views(r.tracked_files@).contains(f)),
{
    let full = crate::engine::project::lister::build_list_report(config, lock, disk_files);
    ListReport {
        files_on_disk: full.files_on_disk,
        tracked_files: full.tracked_files,
        missing_root_slugs: full.missing_root_slugs,
        orphan_files: full.orphan_files,
    }
}

} // verus!
