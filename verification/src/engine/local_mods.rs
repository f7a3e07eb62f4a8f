//! Mods added from jar files, as the project's first layout names them.
use vstd::prelude::*;
use crate::engine::io::project::manifest::ConduitConfig;
use crate::engine::mods::local::{local_key_spec, local_slug, missing_file, MissingLocalReport};
use crate::engine::paths::{is_absolute, join_path};
use crate::lock::ConduitLock;
use crate::text::views;

verus! {

/// What the project lacks of its local mods (see
/// `mods::local::find_missing_local_mods`).
pub fn find_missing_local_mods(config: &ConduitConfig, lock: &ConduitLock, present: &Vec<String>) -> (r: MissingLocalReport)
    requires
        config.wf(),
        lock.wf(),
    ensures
        crate::strmap::sorted_keys(views(r.missing_files@)),
        forall|f: Seq<char>| views(r.missing_files@).contains(f) <==> missing_file(*config, *lock, views(present@), f),
        views(r.missing_lock_entries@) == config.mods.entries().filter(
            |p: (Seq<char>, String)| p.1@ == "local"@ && !lock.locked_mods.contains(p.0)).map_values(
            |p: (Seq<char>, String)| p.0),
{
    crate::engine::mods::local::find_missing_local_mods(config, lock, present)
}

/// A jar path made absolute against the project directory.
pub fn normalize_path(project_dir: &str, p: &str) -> (r: String)
    ensures
        r@ == (if is_absolute(p@) { p@ } else { join_path(project_dir@, p@) }),
{
    crate::engine::mods::local::normalize_path(project_dir, p)
}

/// The key under which a local jar is recorded.
pub fn local_key(filename: &str, mod_id: Option<&str>) -> (r: String)
    ensures
        r@ == local_key_spec(filename@, match mod_id { Some(id) => Some(id@), None => None }),
{
    crate::engine::mods::local::local_key(filename, mod_id)
}

/// The slug of a jar's file name.
pub fn local_key_from_filename(filename: &str) -> (r: String)
    ensures
        r@ == local_slug(filename@),
{
    crate::engine::mods::local::local_key_from_filename(filename)
}

} // verus!
