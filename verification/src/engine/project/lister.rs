//! The listing of a project: which files are on disk, which the manifest
//! accounts for, and how the locked mods depend on each other.
use vstd::prelude::*;
use crate::lock::{
    ConduitLock, LockEntries, LockedMod, LockedModView, lock_keys, edge, closure, leaves,
    reach_avoiding, closed_avoiding, found_targets, key_index, filenames, filename_at,
    target_filenames, find_by_id, lemma_found_targets, lemma_filename_at, lemma_edges_of,
    lemma_reach_empty, lemma_reach_self, lemma_reach_closed, lemma_reach_mono, lemma_reach_least,
    lemma_edge_target_key, lemma_reach_without_leaves, lemma_reach_targets,
    lemma_target_filenames_union, lemma_reach_outside,
};
use crate::strmap::StrMap;
use crate::text::{views, contains_str};
use crate::engine::io::project::manifest::ConduitConfig;

verus! {

/// Each mod's found dependencies: their keys and locked entries.
pub type DepMap = StrMap<Vec<(String, LockedMod)>>;

pub open spec fn pair_views(v: Seq<(String, LockedMod)>) -> Seq<(Seq<char>, LockedModView)> {
    v.map_values(|p: (String, LockedMod)| (p.0@, p.1@))
}

/// The dependencies of key `k` that name a locked mod, in order.
pub open spec fn found_view(e: LockEntries, k: Seq<char>) -> Seq<(Seq<char>, LockedModView)> {
    found_targets(e, views(e[key_index(e, k)].1.dependencies@)).map_values(|b: int| (e[b].0, e[b].1@))
}

/// Every entry of the map is a locked mod with its found dependencies, and
/// there is at least one.
pub open spec fn map_ok(e: LockEntries, m: DepMap) -> bool {
    forall|i: int| 0 <= i < m.len_spec() ==> {
        &&& lock_keys(e).contains(#[trigger] m.keys()[i])
        &&& pair_views(m.entries()[i].1@) == found_view(e, m.keys()[i])
        &&& m.entries()[i].1@.len() > 0
    }
}

/// The files of the entries at the given positions.
pub open spec fn files_of_targets(e: LockEntries, ft: Seq<int>) -> Set<Seq<char>> {
    Set::new(|f: Seq<char>| exists|j: int| 0 <= j < ft.len() && e[#[trigger] ft[j]].1.filename@ == f)
}

pub open spec fn visited(e: LockEntries, m: DepMap) -> Set<Seq<char>> {
    m.keys().to_set().union(leaves(e))
}

pub open spec fn unvisited_keys(e: LockEntries, m: DepMap) -> nat {
    lock_keys(e).to_set().difference(visited(e, m)).len()
}

/// Records the dependencies of `slug` and of what it reaches, skipping the
/// mods already in `map`: each mod with found dependencies enters `map`, and
/// the files of the mods it names enter `seen`.
pub fn collect_tracked_data(slug: &str, lock: &ConduitLock, seen: &mut Vec<String>, map: &mut DepMap)
    requires
        lock.wf(),
        old(map).wf(),
        map_ok(lock.entries(), *old(map)),
    ensures
        final(map).wf(),
        map_ok(lock.entries(), *final(map)),
        final(map).keys().to_set() == old(map).keys().to_set().union(
            reach_avoiding(lock.entries(), slug@, visited(lock.entries(), *old(map)))),
        views(final(seen)@).to_set() == views(old(seen)@).to_set().union(
            target_filenames(lock.entries(), reach_avoiding(lock.entries(), slug@, visited(lock.entries(), *old(map))))),
    decreases unvisited_keys(lock.entries(), *old(map)),
{
    let ghost e = lock.entries();
    let ghost v0 = visited(e, *map);
    let ghost k0 = map.keys().to_set();
    let ghost t0 = views(seen@).to_set();
    let ghost s = slug@;
    if map.contains_key(slug) {
        proof {
            lemma_reach_empty(e, s, v0);
            assert(target_filenames(e, Set::empty()) =~= Set::<Seq<char>>::empty());
        }
        assert(map.keys().to_set() =~= k0.union(reach_avoiding(e, s, v0)));
        assert(views(seen@).to_set() =~= t0.union(target_filenames(e, reach_avoiding(e, s, v0))));
        return;
    }
    let idx = match lock.locked_mods.find(slug) {
        Some(i) => i,
        None => {
            proof {
                assert(lock_keys(e) == lock.locked_mods.keys());
                lemma_reach_empty(e, s, v0);
                assert(target_filenames(e, Set::empty()) =~= Set::<Seq<char>>::empty());
            }
            assert(map.keys().to_set() =~= k0.union(reach_avoiding(e, s, v0)));
            assert(views(seen@).to_set() =~= t0.union(target_filenames(e, reach_avoiding(e, s, v0))));
            return;
        },
    };
    let ghost a = idx as int;
    proof {
        assert(lock_keys(e) == lock.locked_mods.keys());
        assert(lock_keys(e)[a] == s);
        assert(key_index(e, s) == a) by {
            assert(exists|j: int| 0 <= j < e.len() && e[j].0 == s);
            let j = key_index(e, s);
            assert(lock_keys(e)[j] == s);
            crate::strmap::lemma_sorted_unique(lock_keys(e), a, j);
        }
    }
    let m = lock.locked_mods.value_at(idx);
    let ghost ds = views(m.dependencies@);
    let ghost ft = found_targets(e, ds);
    let mut deps_found: Vec<(String, LockedMod)> = Vec::new();
    let mut dep_slugs: Vec<String> = Vec::new();
    assert(ds.take(0) =~= Seq::<Seq<char>>::empty());
    assert(views(seen@).to_set() =~= t0.union(files_of_targets(e, found_targets(e, ds.take(0)))));
    for k in 0..m.dependencies.len()
        invariant
            lock.wf(),
            e == lock.entries(),
            0 <= a < e.len(),
            e[a].1 == *m,
            ds == views(m.dependencies@),
            ds.len() == m.dependencies@.len(),
            pair_views(deps_found@) == found_targets(e, ds.take(k as int)).map_values(|b: int| (e[b].0, e[b].1@)),
            views(dep_slugs@) == found_targets(e, ds.take(k as int)).map_values(|b: int| e[b].0),
            views(seen@).to_set() == t0.union(files_of_targets(e, found_targets(e, ds.take(k as int)))),
    {
        let ghost prev_ft = found_targets(e, ds.take(k as int));
        assert(ds.take(k + 1).drop_last() =~= ds.take(k as int));
        assert(ds.take(k + 1).last() == ds[k as int]);
        proof { lemma_found_targets(e, ds.take(k as int)); }
        match find_by_id(lock, m.dependencies[k].as_str()) {
            Some(b) => {
                let ghost prev_t = views(seen@).to_set();
                let f = lock.locked_mods.value_at(b).filename.clone();
                if !contains_str(seen, f.as_str()) {
                    let ghost tv = views(seen@);
                    seen.push(f);
                    proof {
                        assert(views(seen@) =~= tv.push(e[b as int].1.filename@));
                        tv.lemma_push_to_set_commute(e[b as int].1.filename@);
                    }
                }
                let ghost pv = pair_views(deps_found@);
                deps_found.push((lock.locked_mods.key_at(b).clone(), lock.locked_mods.value_at(b).duplicate()));
                assert(pair_views(deps_found@) =~= pv.push((e[b as int].0, e[b as int].1@)));
                let ghost sv = views(dep_slugs@);
                dep_slugs.push(lock.locked_mods.key_at(b).clone());
                assert(views(dep_slugs@) =~= sv.push(e[b as int].0));
                let ghost new_ft = found_targets(e, ds.take(k + 1));
                assert(new_ft == prev_ft.push(b as int));
                assert(new_ft.map_values(|b: int| (e[b].0, e[b].1@)) =~= prev_ft.map_values(|b: int| (e[b].0, e[b].1@)).push((e[b as int].0, e[b as int].1@)));
                assert(new_ft.map_values(|b: int| e[b].0) =~= prev_ft.map_values(|b: int| e[b].0).push(e[b as int].0));
                assert(views(seen@).to_set() =~= t0.union(files_of_targets(e, new_ft))) by {
                    assert forall|f: Seq<char>| #[trigger] files_of_targets(e, new_ft).contains(f)
                        <==> (files_of_targets(e, prev_ft).contains(f) || f == e[b as int].1.filename@) by {
                        if exists|j: int| 0 <= j < new_ft.len() && e[#[trigger] new_ft[j]].1.filename@ == f {
                            let j = choose|j: int| 0 <= j < new_ft.len() && e[#[trigger] new_ft[j]].1.filename@ == f;
                            if j < prev_ft.len() {
                                assert(new_ft[j] == prev_ft[j]);
                            }
                        }
                        if exists|j: int| 0 <= j < prev_ft.len() && e[#[trigger] prev_ft[j]].1.filename@ == f {
                            let j = choose|j: int| 0 <= j < prev_ft.len() && e[#[trigger] prev_ft[j]].1.filename@ == f;
                            assert(new_ft[j] == prev_ft[j]);
                        }
                        if f == e[b as int].1.filename@ {
                            assert(new_ft[prev_ft.len() as int] == b);
                        }
                    }
                }
            },
            None => {
                assert(found_targets(e, ds.take(k + 1)) == prev_ft);
            },
        }
    }
    assert(ds.take(m.dependencies@.len() as int) =~= ds);
    proof {
        lemma_found_targets(e, ds);
        assert(pair_views(deps_found@).len() == deps_found@.len());
        assert(views(dep_slugs@).len() == dep_slugs@.len());
    }
    if deps_found.len() == 0 {
        proof {
            assert(ft.len() == 0);
            assert forall|y: Seq<char>| !edge(e, s, y) by {
                lemma_edges_of(e, a, y);
            }
            assert(leaves(e).contains(s));
            lemma_reach_empty(e, s, v0);
            assert(target_filenames(e, Set::empty()) =~= Set::<Seq<char>>::empty());
        }
        assert(views(seen@).to_set() =~= t0.union(target_filenames(e, reach_avoiding(e, s, v0))));
        assert(map.keys().to_set() =~= k0.union(reach_avoiding(e, s, v0)));
        return;
    }
    // `slug` has edges: it is not a leaf, so the walk starts at it.
    proof {
        assert(e[ft[0]].0 == e[ft[0]].0);
        lemma_edges_of(e, a, e[ft[0]].0);
        assert(edge(e, s, e[ft[0]].0));
        assert(!leaves(e).contains(s));
        assert(!k0.contains(s));
        assert(!v0.contains(s));
        lemma_reach_self(e, s, v0);
        lemma_reach_closed(e, s, v0);
    }
    let ghost r = reach_avoiding(e, s, v0);
    let ghost t1 = views(seen@).to_set();
    proof {
        // the files added so far are those of the mods that `slug` names
        assert(t1 =~= t0.union(target_filenames(e, set![s]))) by {
            assert forall|f: Seq<char>| #[trigger] target_filenames(e, set![s]).contains(f) <==>
                files_of_targets(e, ft).contains(f) by {
                if target_filenames(e, set![s]).contains(f) {
                    let (x, y) = choose|x: Seq<char>, y: Seq<char>| set![s].contains(x) && #[trigger] edge(e, x, y) && filename_at(e, y) == f;
                    lemma_edges_of(e, a, y);
                    let j = choose|j: int| 0 <= j < ft.len() && e[#[trigger] ft[j]].0 == y;
                    lemma_filename_at(e, ft[j]);
                }
                if exists|j: int| 0 <= j < ft.len() && e[#[trigger] ft[j]].1.filename@ == f {
                    let j = choose|j: int| 0 <= j < ft.len() && e[#[trigger] ft[j]].1.filename@ == f;
                    lemma_edges_of(e, a, e[ft[j]].0);
                    lemma_filename_at(e, ft[j]);
                    assert(edge(e, s, e[ft[j]].0));
                }
            }
        }
    }
    let ghost map_before = *map;
    map.insert(slug.to_owned(), deps_found);
    proof {
        assert(map.keys().to_set() == k0.insert(s));
        assert forall|i: int| 0 <= i < map.len_spec() implies {
            &&& lock_keys(e).contains(#[trigger] map.keys()[i])
            &&& pair_views(map.entries()[i].1@) == found_view(e, map.keys()[i])
            &&& map.entries()[i].1@.len() > 0
        } by {
            map.lemma_index_of(i);
            let key = map.keys()[i];
            if key == s {
            } else {
                assert(map.get_spec(key) == map_before.get_spec(key));
                assert(map_before.contains(key)) by {
                    assert(map.keys().to_set().contains(key));
                }
                let t = map_before.index_of(key);
                map_before.lemma_index_of(t);
            }
        }
        assert(visited(e, *map) == v0.insert(s));
    }
    for j in 0..dep_slugs.len()
        invariant
            lock.wf(),
            e == lock.entries(),
            map.wf(),
            map_ok(e, *map),
            0 <= a < e.len(),
            e[a].0 == s,
            ds == views(e[a].1.dependencies@),
            ft == found_targets(e, ds),
            views(dep_slugs@) == ft.map_values(|b: int| e[b].0),
            dep_slugs@.len() == ft.len(),
            r == reach_avoiding(e, s, v0),
            r.contains(s),
            !v0.contains(s),
            lock_keys(e).contains(s),
            closed_avoiding(e, r, v0),
            v0 == visited(e, map_before),
            map_before == *old(map),
            k0 == map_before.keys().to_set(),
            v0.insert(s).subset_of(visited(e, *map)),
            visited(e, *map).subset_of(v0.union(r)),
            map.keys().to_set() == k0.union(visited(e, *map).difference(v0)),
            forall|x: Seq<char>, y: Seq<char>|
                visited(e, *map).contains(x) && !v0.contains(x) && x != s
                    && #[trigger] edge(e, x, y) && !v0.contains(y) ==> visited(e, *map).contains(y),
            forall|i: int| 0 <= i < j ==> visited(e, *map).contains(#[trigger] e[ft[i]].0),
            views(seen@).to_set() == t0.union(target_filenames(e, visited(e, *map).difference(v0))),
            t1 == t0.union(target_filenames(e, set![s])),
    {
        let ghost y = e[ft[j as int]].0;
        let ghost cur = visited(e, *map);
        let ghost curmap = *map;
        proof {
            assert(views(dep_slugs@)[j as int] == y);
            lemma_found_targets(e, ds);
            lemma_edges_of(e, a, y);
            assert(e[ft[j as int]].0 == y);
            assert(edge(e, s, y));
            lemma_edge_target_key(e, s, y);
            if !cur.contains(y) {
                assert(!v0.contains(y));
                assert(r.contains(y));
                lemma_reach_mono(e, s, v0, y, cur);
            } else {
                lemma_reach_empty(e, y, cur);
            }
            lemma_reach_closed(e, y, cur);
            let ks = lock_keys(e).to_set();
            assert(ks.difference(cur).subset_of(ks.difference(v0).remove(s)));
            vstd::set_lib::lemma_len_subset(ks.difference(cur), ks.difference(v0).remove(s));
            assert(unvisited_keys(e, curmap) < unvisited_keys(e, map_before));
        }
        collect_tracked_data(dep_slugs[j].as_str(), lock, seen, map);
        proof {
            let ry = reach_avoiding(e, y, cur);
            let now = visited(e, *map);
            assert(now == cur.union(ry));
            if !cur.contains(y) {
                lemma_reach_self(e, y, cur);
            }
            assert(now.contains(y));
            assert forall|x: Seq<char>, z: Seq<char>|
                now.contains(x) && !v0.contains(x) && x != s
                    && #[trigger] edge(e, x, z) && !v0.contains(z) implies now.contains(z) by {
                if !cur.contains(x) {
                    assert(ry.contains(x));
                    if !cur.contains(z) {
                        assert(ry.contains(z));
                    }
                }
            }
            lemma_reach_outside(e, y, cur);
            assert(leaves(e).subset_of(v0));
            assert(map.keys().to_set() =~= k0.union(now.difference(v0)));
            assert(now.difference(v0) =~= cur.difference(v0).union(ry));
            lemma_target_filenames_union(e, cur.difference(v0), ry);
        }
    }
    proof {
        let now = visited(e, *map);
        let sdiff = now.difference(v0);
        assert(closed_avoiding(e, sdiff, v0)) by {
            assert forall|x: Seq<char>, y: Seq<char>|
                sdiff.contains(x) && #[trigger] edge(e, x, y) && !v0.contains(y) implies sdiff.contains(y) by {
                if x == s {
                    lemma_edges_of(e, a, y);
                    let i = choose|i: int| 0 <= i < ft.len() && e[#[trigger] ft[i]].0 == y;
                    assert(now.contains(e[ft[i]].0));
                }
            }
        }
        lemma_reach_least(e, s, v0, sdiff);
        assert(sdiff =~= r);
        assert(map.keys().to_set() =~= k0.union(r));
    }
}

} // verus!

verus! {

/// What a listing finds.
pub struct ListReport {
    pub files_on_disk: Vec<String>,
    pub tracked_files: Vec<String>,
    pub missing_root_slugs: Vec<String>,
    pub orphan_files: Vec<String>,
    pub dependency_map: DepMap,
}

/// Adds `s` to `v` unless it is there already.
pub fn push_unique(v: &mut Vec<String>, s: String)
    ensures
        views(final(v)@).to_set() == views(old(v)@).to_set().insert(s@),
        views(old(v)@).no_duplicates() ==> views(final(v)@).no_duplicates(),
{
    if !contains_str(v, s.as_str()) {
        let ghost before = views(v@);
        let ghost sv = s@;
        v.push(s);
        proof {
            assert(views(v@) =~= before.push(sv));
            before.lemma_push_to_set_commute(sv);
            if before.no_duplicates() {
                assert forall|i: int, j: int| 0 <= i < views(v@).len() && 0 <= j < views(v@).len() && i != j
                    implies views(v@)[i] != views(v@)[j] by {
                    if i == before.len() as int {
                        assert(views(v@)[j] == before[j]);
                        assert(before.contains(before[j]));
                    } else if j == before.len() as int {
                        assert(views(v@)[i] == before[i]);
                        assert(before.contains(before[i]));
                    } else {
                        assert(views(v@)[i] == before[i]);
                        assert(views(v@)[j] == before[j]);
                    }
                }
            }
        }
    } else {
        assert(views(v@).to_set() =~= views(v@).to_set().insert(s@));
    }
}

proof fn lemma_root_step(e: LockEntries, c: Set<Seq<char>>, root: Seq<char>, seen_before: Set<Seq<char>>)
    requires
        crate::strmap::sorted_keys(lock_keys(e)),
        lock_keys(e).contains(root),
        seen_before == filenames(e, c).insert(filename_at(e, root)),
        c.subset_of(lock_keys(e).to_set()),
        closed_avoiding(e, c, Set::empty()),
    ensures
        seen_before.union(target_filenames(e, reach_avoiding(e, root, c.union(leaves(e)))))
            == filenames(e, c.union(reach_avoiding(e, root, c))),
        reach_avoiding(e, root, c.union(leaves(e))) == reach_avoiding(e, root, c).difference(leaves(e)),
{
    let l = leaves(e);
    let r = reach_avoiding(e, root, c);
    lemma_reach_without_leaves(e, root, c);
    lemma_reach_closed(e, root, c);
    lemma_reach_outside(e, root, c);
    let c2 = c.union(r);
    let lhs = seen_before.union(target_filenames(e, r.difference(l)));
    let rhs = filenames(e, c2);
    assert forall|f: Seq<char>| lhs.contains(f) implies rhs.contains(f) by {
        if filenames(e, c).contains(f) {
            let k = choose|k: Seq<char>| c.contains(k) && lock_keys(e).contains(k) && filename_at(e, k) == f;
            assert(c2.contains(k));
        } else if f == filename_at(e, root) {
            if !c.contains(root) {
                lemma_reach_self(e, root, c);
            }
            assert(c2.contains(root));
        } else {
            let (x, y) = choose|x: Seq<char>, y: Seq<char>| r.difference(l).contains(x) && #[trigger] edge(e, x, y) && filename_at(e, y) == f;
            lemma_edge_target_key(e, x, y);
            if !c.contains(y) {
                assert(r.contains(y));
            }
            assert(c2.contains(y));
        }
    }
    assert forall|f: Seq<char>| rhs.contains(f) implies lhs.contains(f) by {
        let k = choose|k: Seq<char>| c2.contains(k) && lock_keys(e).contains(k) && filename_at(e, k) == f;
        if c.contains(k) {
            assert(filenames(e, c).contains(f));
        } else if k == root {
        } else {
            lemma_reach_targets(e, root, c, k);
            let x = choose|x: Seq<char>| r.contains(x) && #[trigger] edge(e, x, k);
            assert(!l.contains(x));
            assert(target_filenames(e, r.difference(l)).contains(f));
        }
    }
    assert(lhs =~= rhs);
}

/// Lists the project: the files of `disk_files` (the names found in the mods
/// folder), the files that the manifest's mods and their dependencies account
/// for, the manifest entries that the lock lacks, the files nothing accounts
/// for, and the found dependencies of every mod reached.
pub fn build_list_report(config: &ConduitConfig, lock: &ConduitLock, disk_files: &Vec<String>) -> (r: ListReport)
    requires
        config.wf(),
        lock.wf(),
    ensures
        views(r.files_on_disk@).to_set() == views(disk_files@).to_set(),
        views(r.files_on_disk@).no_duplicates(),
        views(r.tracked_files@).to_set() == filenames(lock.entries(), closure(lock.entries(), config.mods.keys())),
        views(r.missing_root_slugs@) == config.mods.keys().filter(|k: Seq<char>| !lock_keys(lock.entries()).contains(k)),
        views(r.orphan_files@) == views(r.files_on_disk@).filter(|f: Seq<char>| !views(r.tracked_files@).contains(f)),
        r.dependency_map.wf(),
        map_ok(lock.entries(), r.dependency_map),
        r.dependency_map.keys().to_set() == closure(lock.entries(), config.mods.keys()).difference(leaves(lock.entries())),
{
    let ghost e = lock.entries();
    let mut files_on_disk: Vec<String> = Vec::new();
    assert(views(disk_files@).take(0) =~= Seq::<Seq<char>>::empty());
    for i in 0..disk_files.len()
        invariant
            views(files_on_disk@).to_set() == views(disk_files@).take(i as int).to_set(),
            views(files_on_disk@).no_duplicates(),
    {
        push_unique(&mut files_on_disk, disk_files[i].clone());
        proof {
            assert(views(disk_files@).take(i + 1) =~= views(disk_files@).take(i as int).push(disk_files@[i as int]@));
            views(disk_files@).take(i as int).lemma_push_to_set_commute(disk_files@[i as int]@);
        }
    }
    assert(views(disk_files@).take(disk_files@.len() as int) =~= views(disk_files@));

    let roots = config.mods.key_list();
    let ghost ks = views(roots@);
    let ghost notlocked = |k: Seq<char>| !lock_keys(e).contains(k);
    let mut missing_root_slugs: Vec<String> = Vec::new();
    let mut seen: Vec<String> = Vec::new();
    let mut dependency_map: DepMap = StrMap::new();
    proof {
        assert(ks.take(0) =~= Seq::<Seq<char>>::empty());
        assert(closure(e, ks.take(0)) =~= Set::<Seq<char>>::empty());
        assert(dependency_map.keys().to_set() =~= Set::<Seq<char>>::empty());
        assert(filenames(e, Set::empty()) =~= Set::<Seq<char>>::empty());
        assert(views(seen@).to_set() =~= Set::<Seq<char>>::empty());
        assert(Seq::<Seq<char>>::empty().filter(notlocked) =~= Seq::<Seq<char>>::empty());
        assert(views(missing_root_slugs@) =~= Seq::<Seq<char>>::empty());
    }
    for i in 0..roots.len()
        invariant
            lock.wf(),
            e == lock.entries(),
            ks == views(roots@),
            notlocked == (|k: Seq<char>| !lock_keys(e).contains(k)),
            dependency_map.wf(),
            map_ok(e, dependency_map),
            dependency_map.keys().to_set() == closure(e, ks.take(i as int)).difference(leaves(e)),
            views(seen@).to_set() == filenames(e, closure(e, ks.take(i as int))),
            views(missing_root_slugs@) == ks.take(i as int).filter(notlocked),
    {
        let ghost c = closure(e, ks.take(i as int));
        let ghost root = ks[i as int];
        proof {
            crate::lock::lemma_closure_is_least(e, ks.take(i as int));
            assert(ks.take(i + 1).drop_last() =~= ks.take(i as int));
            assert(ks.take(i + 1).last() == root);
            reveal_with_fuel(Seq::filter, 1);
        }
        match lock.locked_mods.find(roots[i].as_str()) {
            Some(idx) => {
                proof {
                    assert(lock_keys(e) == lock.locked_mods.keys());
                    assert(lock_keys(e)[idx as int] == root);
                    lemma_filename_at(e, idx as int);
                }
                push_unique(&mut seen, lock.locked_mods.value_at(idx).filename.clone());
                proof {
                    assert(visited(e, dependency_map) =~= c.union(leaves(e)));
                    lemma_root_step(e, c, root, views(seen@).to_set());
                }
                collect_tracked_data(roots[i].as_str(), lock, &mut seen, &mut dependency_map);
                proof {
                    assert(dependency_map.keys().to_set() =~= closure(e, ks.take(i + 1)).difference(leaves(e)));
                    assert(ks.take(i + 1).filter(notlocked) =~= ks.take(i as int).filter(notlocked));
                }
            },
            None => {
                proof {
                    assert(lock_keys(e) == lock.locked_mods.keys());
                    lemma_reach_empty(e, root, c);
                    assert(closure(e, ks.take(i + 1)) =~= c);
                }
                let ghost before = views(missing_root_slugs@);
                missing_root_slugs.push(roots[i].clone());
                assert(views(missing_root_slugs@) =~= before.push(root));
                assert(ks.take(i + 1).filter(notlocked) =~= ks.take(i as int).filter(notlocked).push(root));
            },
        }
    }
    assert(ks.take(roots@.len() as int) =~= ks);

    let ghost tracked_set = views(seen@);
    let ghost orphan_pred = |f: Seq<char>| !tracked_set.contains(f);
    let mut orphan_files: Vec<String> = Vec::new();
    let ghost fd = views(files_on_disk@);
    assert(fd.take(0).filter(orphan_pred) =~= Seq::<Seq<char>>::empty());
    assert(views(orphan_files@) =~= Seq::<Seq<char>>::empty());
    for i in 0..files_on_disk.len()
        invariant
            fd == views(files_on_disk@),
            tracked_set == views(seen@),
            orphan_pred == (|f: Seq<char>| !tracked_set.contains(f)),
            views(orphan_files@) == fd.take(i as int).filter(orphan_pred),
    {
        proof {
            assert(fd.take(i + 1).drop_last() =~= fd.take(i as int));
            reveal_with_fuel(Seq::filter, 1);
        }
        if !contains_str(&seen, files_on_disk[i].as_str()) {
            let ghost before = views(orphan_files@);
            orphan_files.push(files_on_disk[i].clone());
            assert(views(orphan_files@) =~= before.push(fd[i as int]));
            assert(fd.take(i + 1).filter(orphan_pred) =~= fd.take(i as int).filter(orphan_pred).push(fd[i as int]));
        } else {
            assert(fd.take(i + 1).filter(orphan_pred) =~= fd.take(i as int).filter(orphan_pred));
        }
    }
    assert(fd.take(files_on_disk@.len() as int) =~= fd);
    ListReport {
        files_on_disk,
        tracked_files: seen,
        missing_root_slugs,
        orphan_files,
        dependency_map,
    }
}

} // verus!
