//! Taking a mod out of the project, with the dependencies that only it needed.
use vstd::prelude::*;
use crate::lock::{ConduitLock, LockEntries, lock_keys, edge, target_key, closed_avoiding, reach_avoiding, find_by_id, lemma_reach_empty, lemma_reach_self, lemma_reach_closed, lemma_reach_mono, lemma_reach_least, lemma_edge_target_key};
use crate::lock::{LockedMod, closure};
use crate::engine::io::project::manifest::ConduitConfig;
use crate::text::{views, contains_str};

verus! {

/// How many locked keys are not in `kept`: what a walk can still add.
pub open spec fn unvisited(e: LockEntries, kept: Seq<String>) -> nat {
    lock_keys(e).to_set().difference(views(kept).to_set()).len()
}

proof fn lemma_unvisited_shrinks(e: LockEntries, small: Seq<String>, big: Seq<String>, s: Seq<char>)
    requires
        views(small).to_set().subset_of(views(big).to_set()),
        views(big).to_set().contains(s),
        !views(small).to_set().contains(s),
        lock_keys(e).contains(s),
    ensures
        unvisited(e, big) < unvisited(e, small),
{
    let ks = lock_keys(e).to_set();
    let a = ks.difference(views(small).to_set());
    let b = ks.difference(views(big).to_set());
    assert(b.subset_of(a.remove(s)));
    vstd::set_lib::lemma_len_subset(b, a.remove(s));
}

/// Adds to `kept` the locked mods that `slug` reaches through the dependency
/// ids, without passing through what `kept` already holds.
pub fn collect_dependencies(slug: &str, lock: &ConduitLock, kept: &mut Vec<String>)
    requires
        lock.wf(),
    ensures
        views(final(kept)@).to_set() == views(old(kept)@).to_set().union(
            reach_avoiding(lock.entries(), slug@, views(old(kept)@).to_set())),
    decreases unvisited(lock.entries(), old(kept)@),
{
    let ghost e = lock.entries();
    let ghost k0seq = kept@;
    let ghost k0 = views(kept@).to_set();
    let ghost s = slug@;
    if contains_str(kept, slug) {
        proof { lemma_reach_empty(e, s, k0); }
        assert(views(kept@).to_set() =~= k0.union(reach_avoiding(e, s, k0)));
        return;
    }
    match lock.locked_mods.find(slug) {
        None => {
            proof {
                assert(!lock_keys(e).contains(s)) by {
                    assert(lock_keys(e) == lock.locked_mods.keys());
                }
                lemma_reach_empty(e, s, k0);
            }
            assert(views(kept@).to_set() =~= k0.union(reach_avoiding(e, s, k0)));
        },
        Some(idx) => {
            let ghost r = reach_avoiding(e, s, k0);
            proof {
                assert(lock_keys(e) == lock.locked_mods.keys());
                assert(lock_keys(e)[idx as int] == s);
                lemma_reach_self(e, s, k0);
                lemma_reach_closed(e, s, k0);
            }
            let ghost before = kept@;
            kept.push(slug.to_owned());
            proof {
                assert(views(kept@) =~= views(before).push(s));
                views(before).lemma_push_to_set_commute(s);
            }
            let deps = &lock.locked_mods.value_at(idx).dependencies;
            let ghost a = idx as int;
            for k in 0..deps.len()
                invariant
                    lock.wf(),
                    e == lock.entries(),
                    0 <= a < e.len(),
                    e[a].0 == s,
                    *deps == e[a].1.dependencies,
                    r == reach_avoiding(e, s, k0),
                    k0 == views(k0seq).to_set(),
                    k0seq == old(kept)@,
                    lock_keys(e).contains(s),
                    !k0.contains(s),
                    r.contains(s),
                    closed_avoiding(e, r, k0),
                    k0.insert(s).subset_of(views(kept@).to_set()),
                    views(kept@).to_set().subset_of(k0.union(r)),
                    forall|x: Seq<char>, y: Seq<char>|
                        views(kept@).to_set().contains(x) && !k0.contains(x) && x != s
                            && #[trigger] edge(e, x, y) && !k0.contains(y) ==> views(kept@).to_set().contains(y),
                    forall|j: int| 0 <= j < k ==> (#[trigger] target_key(e, deps@[j]@) matches Some(y)
                        ==> views(kept@).to_set().contains(y)),
            {
                match find_by_id(lock, deps[k].as_str()) {
                    Some(b) => {
                        let dep_slug = lock.locked_mods.key_at(b);
                        let ghost y = dep_slug@;
                        let ghost cur = views(kept@).to_set();
                        let ghost cur_seq = kept@;
                        proof {
                            assert(target_key(e, deps@[k as int]@) == Some(y));
                            assert(edge(e, s, y));
                            lemma_edge_target_key(e, s, y);
                            if !cur.contains(y) {
                                assert(!k0.contains(y));
                                assert(r.contains(y));
                                lemma_reach_mono(e, s, k0, y, cur);
                            } else {
                                lemma_reach_empty(e, y, cur);
                            }
                            lemma_reach_closed(e, y, cur);
                            lemma_unvisited_shrinks(e, k0seq, cur_seq, s);
                        }
                        collect_dependencies(dep_slug.as_str(), lock, kept);
                        proof {
                            let ry = reach_avoiding(e, y, cur);
                            let now = views(kept@).to_set();
                            assert(now == cur.union(ry));
                            if !cur.contains(y) {
                                lemma_reach_self(e, y, cur);
                            }
                            assert(now.contains(y));
                            assert forall|x: Seq<char>, z: Seq<char>|
                                now.contains(x) && !k0.contains(x) && x != s
                                    && #[trigger] edge(e, x, z) && !k0.contains(z) implies now.contains(z) by {
                                if cur.contains(x) {
                                } else {
                                    assert(ry.contains(x));
                                    if !cur.contains(z) {
                                        assert(ry.contains(z));
                                    }
                                }
                            }
                            assert forall|j: int| 0 <= j < k + 1 implies (#[trigger] target_key(e, deps@[j]@) matches Some(w)
                                ==> now.contains(w)) by {
                            }
                        }
                    },
                    None => {
                        proof {
                            assert(target_key(e, deps@[k as int]@) is None);
                        }
                    },
                }
            }
            proof {
                let now = views(kept@).to_set();
                let sdiff = now.difference(k0);
                assert(closed_avoiding(e, sdiff, k0)) by {
                    assert forall|x: Seq<char>, y: Seq<char>|
                        sdiff.contains(x) && #[trigger] edge(e, x, y) && !k0.contains(y) implies sdiff.contains(y) by {
                        if x == s {
                            let (a2, k2) = choose|a2: int, k2: int|
                                0 <= a2 < e.len() && e[a2].0 == x && 0 <= k2 < e[a2].1.dependencies@.len()
                                    && #[trigger] target_key(e, e[a2].1.dependencies@[k2]@) == Some(y);
                            assert(lock_keys(e)[a2] == lock_keys(e)[a]);
                            crate::strmap::lemma_sorted_unique(lock.locked_mods.keys(), a2, a);
                        }
                    }
                }
                lemma_reach_least(e, s, k0, sdiff);
                assert(now =~= k0.union(r));
            }
        },
    }
}

} // verus!

verus! {

/// What a removal did: the slug taken out, and the locked mods dropped with it.
pub struct RemoveReport {
    pub removed_slug: String,
    pub purged_slugs: Vec<String>,
}

/// Takes `slug` out of the manifest and drops from the lock every mod that
/// the remaining manifest entries no longer reach. Nothing changes, and the
/// result is `None`, when the manifest does not list `slug`.
pub fn remove_mod(slug: &str, config: &mut ConduitConfig, lock: &mut ConduitLock) -> (r: Option<RemoveReport>)
    requires
        old(config).wf(),
        old(lock).wf(),
    ensures
        final(config).wf(),
        final(lock).wf(),
        r is None <==> !old(config).mods.contains(slug@),
        r is None ==> final(config).mods.entries() == old(config).mods.entries()
            && final(lock).entries() == old(lock).entries(),
        r matches Some(rep) ==> {
            &&& rep.removed_slug@ == slug@
            &&& !final(config).mods.contains(slug@)
            &&& final(config).mods.entries() == old(config).mods.entries().remove(old(config).mods.index_of(slug@))
            &&& final(lock).entries() == old(lock).entries().filter(
                |p: (Seq<char>, LockedMod)| closure(old(lock).entries(), final(config).mods.keys()).contains(p.0))
            &&& views(rep.purged_slugs@) == old(lock).entries().filter(
                |p: (Seq<char>, LockedMod)| !closure(old(lock).entries(), final(config).mods.keys()).contains(p.0)).map_values(
                |p: (Seq<char>, LockedMod)| p.0)
        },
        final(config).name == old(config).name,
        final(config).instance_type == old(config).instance_type,
        final(config).mc_version == old(config).mc_version,
        final(config).loader == old(config).loader,
        final(lock).version == old(lock).version,
        final(lock).loader_version == old(lock).loader_version,
{
    if !config.mods.contains_key(slug) {
        return None;
    }
    let ghost old_keys = config.mods.keys();
    let ghost at = config.mods.index_of(slug@);
    config.mods.remove(slug);
    proof {
        assert(config.mods.keys() =~= old_keys.remove(at));
        if config.mods.contains(slug@) {
            let j = choose|j: int| 0 <= j < config.mods.keys().len() && config.mods.keys()[j] == slug@;
            let j2 = if j < at { j } else { j + 1 };
            assert(old_keys[j2] == slug@);
            crate::strmap::lemma_sorted_unique(old_keys, j2, at);
        }
    }
    let roots = config.mods.key_list();
    let ghost e = lock.entries();
    let mut kept: Vec<String> = Vec::new();
    assert(views(kept@).to_set() =~= closure(e, views(roots@).take(0)));
    for i in 0..roots.len()
        invariant
            lock.wf(),
            e == lock.entries(),
            views(kept@).to_set() == closure(e, views(roots@).take(i as int)),
    {
        collect_dependencies(roots[i].as_str(), lock, &mut kept);
        assert(views(roots@).take(i + 1).drop_last() =~= views(roots@).take(i as int));
    }
    assert(views(roots@).take(roots@.len() as int) =~= views(roots@));
    let ghost cl = closure(e, views(roots@));
    let ghost keep_pred = |p: (Seq<char>, LockedMod)| views(kept@).contains(p.0);
    let ghost cl_pred = |p: (Seq<char>, LockedMod)| cl.contains(p.0);
    assert(keep_pred =~= cl_pred);
    let ghost keep_out = |p: (Seq<char>, LockedMod)| !views(kept@).contains(p.0);
    let ghost cl_out = |p: (Seq<char>, LockedMod)| !cl.contains(p.0);
    assert(keep_out =~= cl_out);
    let purged = lock.locked_mods.retain_keys(&kept);
    Some(RemoveReport { removed_slug: slug.to_owned(), purged_slugs: purged })
}

} // verus!
