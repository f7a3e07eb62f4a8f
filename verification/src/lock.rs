//! The lock file: which exact file stands for each mod of the project.
use vstd::prelude::*;
use crate::engine::manager::add::models::ModSide;
use crate::strmap::StrMap;
use crate::text::{str_eq, views};

verus! {

/// One locked mod.
pub struct LockedMod {
    pub id: String,
    pub version_id: String,
    pub filename: String,
    pub url: String,
    pub hash: String,
    pub dependencies: Vec<String>,
    pub side: ModSide,
}

/// A locked mod taken by the characters of its fields.
pub struct LockedModView {
    pub id: Seq<char>,
    pub version_id: Seq<char>,
    pub filename: Seq<char>,
    pub url: Seq<char>,
    pub hash: Seq<char>,
    pub dependencies: Seq<Seq<char>>,
    pub side: ModSide,
}

impl View for LockedMod {
    type V = LockedModView;

    open spec fn view(&self) -> LockedModView {
        LockedModView {
            id: self.id@,
            version_id: self.version_id@,
            filename: self.filename@,
            url: self.url@,
            hash: self.hash@,
            dependencies: views(self.dependencies@),
            side: self.side,
        }
    }
}

/// A copy of a list of strings, with the same characters.
pub fn copy_strings(v: &Vec<String>) -> (r: Vec<String>)
    ensures
        views(r@) == views(v@),
{
    let mut r: Vec<String> = Vec::new();
    for i in 0..v.len()
        invariant
            r@.len() == i,
            views(r@) == views(v@).take(i as int),
    {
        let s = v[i].clone();
        let ghost prev = r@;
        r.push(s);
        assert forall|j: int| 0 <= j < i + 1 implies #[trigger] views(r@)[j] == views(v@).take(i + 1)[j] by {
            if j < i {
                assert(r@[j] == prev[j]);
                assert(views(prev)[j] == views(v@).take(i as int)[j]);
            }
        }
        assert(views(r@) =~= views(v@).take(i + 1));
    }
    assert(views(v@).take(v@.len() as int) =~= views(v@));
    r
}

impl LockedMod {
    /// A copy of this locked mod.
    pub fn duplicate(&self) -> (r: LockedMod)
        ensures
            r@ == self@,
    {
        LockedMod {
            id: self.id.clone(),
            version_id: self.version_id.clone(),
            filename: self.filename.clone(),
            url: self.url.clone(),
            hash: self.hash.clone(),
            dependencies: copy_strings(&self.dependencies),
            side: self.side,
        }
    }
}

/// The lock file of a project.
pub struct ConduitLock {
    pub version: i32,
    pub locked_mods: StrMap<LockedMod>,
    pub loader_version: Option<String>,
}

pub type LockEntries = Seq<(Seq<char>, LockedMod)>;

impl ConduitLock {
    pub open spec fn wf(self) -> bool {
        self.locked_mods.wf()
    }

    pub open spec fn entries(self) -> LockEntries {
        self.locked_mods.entries()
    }

    /// The lock used when none can be read: format version 1, nothing locked.
    pub fn empty() -> (l: ConduitLock)
        ensures
            l.wf(),
            l.version == 1,
            l.entries().len() == 0,
            l.loader_version is None,
    {
        ConduitLock { version: 1, locked_mods: StrMap::new(), loader_version: None }
    }
}

// ------------------------------------------------------------ the dependency graph

/// The first position at or after `i` whose mod has id `d`.
pub open spec fn find_id_from(e: LockEntries, d: Seq<char>, i: int) -> Option<int>
    decreases e.len() - i,
{
    if i < 0 || i >= e.len() {
        None
    } else if e[i].1.id@ == d {
        Some(i)
    } else {
        find_id_from(e, d, i + 1)
    }
}

/// The entry that a dependency id names: the first whose mod has that id.
pub open spec fn dep_target(e: LockEntries, d: Seq<char>) -> Option<int> {
    find_id_from(e, d, 0)
}

pub proof fn lemma_find_id_from(e: LockEntries, d: Seq<char>, i: int)
    requires
        0 <= i,
    ensures
        find_id_from(e, d, i) matches Some(j) ==> i <= j < e.len() && e[j].1.id@ == d
            && forall|t: int| i <= t < j ==> e[t].1.id@ != d,
        find_id_from(e, d, i) is None ==> forall|t: int| i <= t < e.len() ==> e[t].1.id@ != d,
    decreases e.len() - i,
{
    if i < e.len() && e[i].1.id@ != d {
        lemma_find_id_from(e, d, i + 1);
    }
}

/// The key of the entry that dependency id `d` names, if any.
pub open spec fn target_key(e: LockEntries, d: Seq<char>) -> Option<Seq<char>> {
    match dep_target(e, d) {
        Some(b) => if 0 <= b < e.len() { Some(e[b].0) } else { None },
        None => None,
    }
}

/// `y` is what one of the dependencies of the entry with key `x` names.
pub open spec fn edge(e: LockEntries, x: Seq<char>, y: Seq<char>) -> bool {
    exists|a: int, k: int|
        0 <= a < e.len() && e[a].0 == x && 0 <= k < e[a].1.dependencies@.len()
            && #[trigger] target_key(e, e[a].1.dependencies@[k]@) == Some(y)
}

pub open spec fn lock_keys(e: LockEntries) -> Seq<Seq<char>> {
    e.map_values(|p: (Seq<char>, LockedMod)| p.0)
}

/// Every edge out of `s` that does not end in `avoid` ends in `s`.
pub open spec fn closed_avoiding(e: LockEntries, s: Set<Seq<char>>, avoid: Set<Seq<char>>) -> bool {
    forall|x: Seq<char>, y: Seq<char>|
        s.contains(x) && #[trigger] edge(e, x, y) && !avoid.contains(y) ==> s.contains(y)
}

/// What can be reached from `from` along edges without entering `avoid`
/// (empty when `from` is not locked or lies in `avoid`).
pub open spec fn reach_avoiding(e: LockEntries, from: Seq<char>, avoid: Set<Seq<char>>) -> Set<Seq<char>> {
    Set::new(
        |y: Seq<char>|
            lock_keys(e).contains(from) && !avoid.contains(from) && forall|s: Set<Seq<char>>|
                closed_avoiding(e, s, avoid) && s.contains(from) ==> #[trigger] s.contains(y),
    )
}

/// Everything reached from the roots, taken in order: each root adds what it
/// reaches without passing through what the earlier roots reached.
pub open spec fn closure(e: LockEntries, roots: Seq<Seq<char>>) -> Set<Seq<char>>
    decreases roots.len(),
{
    if roots.len() == 0 {
        Set::empty()
    } else {
        let c = closure(e, roots.drop_last());
        c.union(reach_avoiding(e, roots.last(), c))
    }
}

/// The position of the entry whose mod has id `d`, as `dep_target` picks it.
pub fn find_by_id(lock: &ConduitLock, d: &str) -> (r: Option<usize>)
    ensures
        r matches Some(i) ==> dep_target(lock.entries(), d@) == Some(i as int) && i < lock.entries().len(),
        r is None ==> dep_target(lock.entries(), d@) is None,
{
    proof { lemma_find_id_from(lock.entries(), d@, 0); }
    let n = lock.locked_mods.len();
    let mut i: usize = 0;
    while i < n
        invariant
            n == lock.entries().len(),
            i <= n,
            dep_target(lock.entries(), d@) == find_id_from(lock.entries(), d@, i as int),
        decreases n - i,
    {
        if str_eq(lock.locked_mods.value_at(i).id.as_str(), d) {
            return Some(i);
        }
        i = i + 1;
    }
    None
}

} // verus!

verus! {

pub proof fn lemma_reach_closed(e: LockEntries, from: Seq<char>, avoid: Set<Seq<char>>)
    ensures
        closed_avoiding(e, reach_avoiding(e, from, avoid), avoid),
{
    let r = reach_avoiding(e, from, avoid);
    assert forall|x: Seq<char>, y: Seq<char>|
        r.contains(x) && #[trigger] edge(e, x, y) && !avoid.contains(y) implies r.contains(y) by {
        assert forall|s: Set<Seq<char>>| closed_avoiding(e, s, avoid) && s.contains(from) implies #[trigger] s.contains(y) by {
            assert(s.contains(x));
        }
    }
}

pub proof fn lemma_reach_self(e: LockEntries, from: Seq<char>, avoid: Set<Seq<char>>)
    requires
        lock_keys(e).contains(from),
        !avoid.contains(from),
    ensures
        reach_avoiding(e, from, avoid).contains(from),
{
}

pub proof fn lemma_reach_empty(e: LockEntries, from: Seq<char>, avoid: Set<Seq<char>>)
    requires
        !lock_keys(e).contains(from) || avoid.contains(from),
    ensures
        reach_avoiding(e, from, avoid) == Set::<Seq<char>>::empty(),
{
    assert(reach_avoiding(e, from, avoid) =~= Set::<Seq<char>>::empty());
}

pub proof fn lemma_reach_least(e: LockEntries, from: Seq<char>, avoid: Set<Seq<char>>, s: Set<Seq<char>>)
    requires
        closed_avoiding(e, s, avoid),
        s.contains(from),
    ensures
        reach_avoiding(e, from, avoid).subset_of(s),
{
}

pub proof fn lemma_reach_mono(
    e: LockEntries,
    from: Seq<char>,
    avoid: Set<Seq<char>>,
    y: Seq<char>,
    bigger: Set<Seq<char>>,
)
    requires
        reach_avoiding(e, from, avoid).contains(y),
        avoid.subset_of(bigger),
    ensures
        reach_avoiding(e, y, bigger).subset_of(reach_avoiding(e, from, avoid)),
{
    let r = reach_avoiding(e, from, avoid);
    let ry = reach_avoiding(e, y, bigger);
    assert forall|z: Seq<char>| ry.contains(z) implies r.contains(z) by {
        assert forall|s: Set<Seq<char>>| closed_avoiding(e, s, avoid) && s.contains(from) implies #[trigger] s.contains(z) by {
            assert(s.contains(y));
            assert(closed_avoiding(e, s, bigger));
        }
    }
}

/// Every target of an edge is a locked key.
pub proof fn lemma_edge_target_key(e: LockEntries, x: Seq<char>, y: Seq<char>)
    requires
        edge(e, x, y),
    ensures
        lock_keys(e).contains(y),
{
    let (a, k) = choose|a: int, k: int|
        0 <= a < e.len() && e[a].0 == x && 0 <= k < e[a].1.dependencies@.len()
            && #[trigger] target_key(e, e[a].1.dependencies@[k]@) == Some(y);
    let b = dep_target(e, e[a].1.dependencies@[k]@)->0;
    assert(lock_keys(e)[b] == y);
}

} // verus!

verus! {

/// The set of what the roots reach is the least set that holds every locked
/// root and is closed under the dependency edges; it holds only locked keys.
pub proof fn lemma_closure_is_least(e: LockEntries, roots: Seq<Seq<char>>)
    ensures
        closed_avoiding(e, closure(e, roots), Set::empty()),
        forall|i: int| 0 <= i < roots.len() && lock_keys(e).contains(roots[i])
            ==> #[trigger] closure(e, roots).contains(roots[i]),
        forall|s: Set<Seq<char>>|
            closed_avoiding(e, s, Set::empty()) && (forall|i: int| 0 <= i < roots.len()
                && lock_keys(e).contains(roots[i]) ==> #[trigger] s.contains(roots[i]))
                ==> closure(e, roots).subset_of(s),
        closure(e, roots).subset_of(lock_keys(e).to_set()),
    decreases roots.len(),
{
    if roots.len() > 0 {
        let front = roots.drop_last();
        let last = roots.last();
        let c = closure(e, front);
        let r = reach_avoiding(e, last, c);
        lemma_closure_is_least(e, front);
        lemma_reach_closed(e, last, c);
        let cl = closure(e, roots);
        assert(cl == c.union(r));
        assert forall|x: Seq<char>, y: Seq<char>|
            cl.contains(x) && #[trigger] edge(e, x, y) && !Set::<Seq<char>>::empty().contains(y) implies cl.contains(y) by {
            if !c.contains(x) && !c.contains(y) {
                assert(r.contains(y));
            }
        }
        assert forall|i: int| 0 <= i < roots.len() && lock_keys(e).contains(roots[i])
            implies #[trigger] cl.contains(roots[i]) by {
            if i < roots.len() - 1 {
                assert(front[i] == roots[i]);
                assert(c.contains(front[i]));
            } else if !c.contains(last) {
                lemma_reach_self(e, last, c);
            }
        }
        assert forall|s: Set<Seq<char>>|
            closed_avoiding(e, s, Set::empty()) && (forall|i: int| 0 <= i < roots.len()
                && lock_keys(e).contains(roots[i]) ==> #[trigger] s.contains(roots[i]))
            implies cl.subset_of(s) by {
            assert forall|i: int| 0 <= i < front.len() && lock_keys(e).contains(front[i])
                implies #[trigger] s.contains(front[i]) by {
                assert(front[i] == roots[i]);
            }
            assert(c.subset_of(s));
            assert(closed_avoiding(e, s, c));
            if lock_keys(e).contains(last) && !c.contains(last) {
                assert(s.contains(roots[roots.len() - 1]));
                lemma_reach_least(e, last, c, s);
            } else {
                lemma_reach_empty(e, last, c);
            }
        }
        let ks = lock_keys(e).to_set();
        assert(r.subset_of(ks)) by {
            if lock_keys(e).contains(last) && !c.contains(last) {
                assert forall|x: Seq<char>, y: Seq<char>|
                    ks.contains(x) && #[trigger] edge(e, x, y) && !c.contains(y) implies ks.contains(y) by {
                    lemma_edge_target_key(e, x, y);
                }
                lemma_reach_least(e, last, c, ks);
            } else {
                lemma_reach_empty(e, last, c);
            }
        }
    } else {
        assert(closure(e, roots) =~= Set::<Seq<char>>::empty());
    }
}

} // verus!

verus! {

/// The positions of the entries that the dependency ids name, in order;
/// ids that name nothing are skipped.
pub open spec fn found_targets(e: LockEntries, deps: Seq<Seq<char>>) -> Seq<int>
    decreases deps.len(),
{
    if deps.len() == 0 {
        Seq::empty()
    } else {
        let front = found_targets(e, deps.drop_last());
        match dep_target(e, deps.last()) {
            Some(b) => front.push(b),
            None => front,
        }
    }
}

/// The keys with no edge going out: no dependency id of theirs names a
/// locked mod.
pub open spec fn leaves(e: LockEntries) -> Set<Seq<char>> {
    Set::new(|k: Seq<char>| lock_keys(e).contains(k) && forall|y: Seq<char>| !#[trigger] edge(e, k, y))
}

/// The position of key `k`, when it is present.
pub open spec fn key_index(e: LockEntries, k: Seq<char>) -> int {
    choose|i: int| 0 <= i < e.len() && e[i].0 == k
}

/// The file of the locked mod under key `k`.
pub open spec fn filename_at(e: LockEntries, k: Seq<char>) -> Seq<char> {
    e[key_index(e, k)].1.filename@
}

/// The files of the mods under the keys of `s`.
pub open spec fn filenames(e: LockEntries, s: Set<Seq<char>>) -> Set<Seq<char>> {
    Set::new(|f: Seq<char>| exists|k: Seq<char>| s.contains(k) && lock_keys(e).contains(k) && filename_at(e, k) == f)
}

/// The files of the mods that the keys of `s` point to.
pub open spec fn target_filenames(e: LockEntries, s: Set<Seq<char>>) -> Set<Seq<char>> {
    Set::new(|f: Seq<char>| exists|x: Seq<char>, y: Seq<char>| s.contains(x) && #[trigger] edge(e, x, y) && filename_at(e, y) == f)
}

pub proof fn lemma_found_targets(e: LockEntries, deps: Seq<Seq<char>>)
    ensures
        forall|j: int| 0 <= j < found_targets(e, deps).len() ==> 0 <= #[trigger] found_targets(e, deps)[j] < e.len(),
        forall|j: int| 0 <= j < found_targets(e, deps).len() ==> exists|k: int| 0 <= k < deps.len()
            && dep_target(e, deps[k]) == Some(#[trigger] found_targets(e, deps)[j]),
        forall|k: int| 0 <= k < deps.len() ==> (#[trigger] dep_target(e, deps[k]) matches Some(b)
            ==> found_targets(e, deps).contains(b)),
    decreases deps.len(),
{
    if deps.len() > 0 {
        let front = deps.drop_last();
        lemma_found_targets(e, front);
        lemma_find_id_from(e, deps.last(), 0);
        let f = found_targets(e, deps);
        let ff = found_targets(e, front);
        assert forall|j: int| 0 <= j < f.len() implies 0 <= #[trigger] f[j] < e.len() by {
            if j < ff.len() {
                assert(f[j] == ff[j]);
            }
        }
        assert forall|j: int| 0 <= j < f.len() implies exists|k: int| 0 <= k < deps.len()
            && dep_target(e, deps[k]) == Some(#[trigger] f[j]) by {
            if j < ff.len() {
                assert(f[j] == ff[j]);
                let k = choose|k: int| 0 <= k < front.len() && dep_target(e, front[k]) == Some(ff[j]);
                assert(deps[k] == front[k]);
            } else {
                assert(dep_target(e, deps[deps.len() - 1]) == Some(f[j]));
            }
        }
        assert forall|k: int| 0 <= k < deps.len() implies (#[trigger] dep_target(e, deps[k]) matches Some(b)
            ==> f.contains(b)) by {
            if k < deps.len() - 1 {
                assert(deps[k] == front[k]);
                if let Some(b) = dep_target(e, deps[k]) {
                    assert(ff.contains(b));
                    let j = choose|j: int| 0 <= j < ff.len() && ff[j] == b;
                    assert(f[j] == b);
                }
            } else {
                if let Some(b) = dep_target(e, deps[k]) {
                    assert(f[f.len() - 1] == b);
                }
            }
        }
    }
}

/// With unique keys, `filename_at` reads the entry that holds the key.
pub proof fn lemma_filename_at(e: LockEntries, i: int)
    requires
        crate::strmap::sorted_keys(lock_keys(e)),
        0 <= i < e.len(),
    ensures
        filename_at(e, e[i].0) == e[i].1.filename@,
{
    let k = e[i].0;
    assert(lock_keys(e)[i] == k);
    assert(exists|j: int| 0 <= j < e.len() && e[j].0 == k);
    let j = key_index(e, k);
    assert(lock_keys(e)[j] == k);
    crate::strmap::lemma_sorted_unique(lock_keys(e), i, j);
}

/// The edges out of the entry at position `a` are exactly the entries that
/// its dependency ids name.
pub proof fn lemma_edges_of(e: LockEntries, a: int, y: Seq<char>)
    requires
        crate::strmap::sorted_keys(lock_keys(e)),
        0 <= a < e.len(),
    ensures
        edge(e, e[a].0, y) <==> exists|j: int| 0 <= j < found_targets(e, views(e[a].1.dependencies@)).len()
            && e[#[trigger] found_targets(e, views(e[a].1.dependencies@))[j]].0 == y,
{
    let ds = views(e[a].1.dependencies@);
    let f = found_targets(e, ds);
    lemma_found_targets(e, ds);
    if edge(e, e[a].0, y) {
        let (a2, k) = choose|a2: int, k: int|
            0 <= a2 < e.len() && e[a2].0 == e[a].0 && 0 <= k < e[a2].1.dependencies@.len()
                && #[trigger] target_key(e, e[a2].1.dependencies@[k]@) == Some(y);
        assert(lock_keys(e)[a2] == lock_keys(e)[a]);
        crate::strmap::lemma_sorted_unique(lock_keys(e), a2, a);
        assert(ds[k] == e[a].1.dependencies@[k]@);
        let b = dep_target(e, ds[k])->0;
        assert(f.contains(b));
        let j = choose|j: int| 0 <= j < f.len() && f[j] == b;
        assert(e[f[j]].0 == y);
    }
    if exists|j: int| 0 <= j < f.len() && e[#[trigger] f[j]].0 == y {
        let j = choose|j: int| 0 <= j < f.len() && e[#[trigger] f[j]].0 == y;
        let k = choose|k: int| 0 <= k < ds.len() && dep_target(e, ds[k]) == Some(f[j]);
        assert(ds[k] == e[a].1.dependencies@[k]@);
        assert(target_key(e, e[a].1.dependencies@[k]@) == Some(y));
    }
}

} // verus!

verus! {

/// Leaving out the leaves only removes the leaves from what is reached.
pub proof fn lemma_reach_without_leaves(e: LockEntries, from: Seq<char>, avoid: Set<Seq<char>>)
    ensures
        reach_avoiding(e, from, avoid.union(leaves(e))) == reach_avoiding(e, from, avoid).difference(leaves(e)),
{
    let l = leaves(e);
    let big = avoid.union(l);
    let r = reach_avoiding(e, from, avoid);
    let rb = reach_avoiding(e, from, big);
    if lock_keys(e).contains(from) && !big.contains(from) {
        lemma_reach_self(e, from, avoid);
        lemma_reach_mono(e, from, avoid, from, big);
        assert forall|x: Seq<char>| rb.contains(x) implies !l.contains(x) by {
            assert forall|s: Set<Seq<char>>| closed_avoiding(e, s, big) && s.contains(from) implies #[trigger] s.contains(x) by {}
            let s0 = lock_keys(e).to_set().difference(big);
            assert forall|u: Seq<char>, w: Seq<char>| s0.contains(u) && #[trigger] edge(e, u, w) && !big.contains(w)
                implies s0.contains(w) by {
                lemma_edge_target_key(e, u, w);
            }
            assert(s0.contains(from));
            assert(s0.contains(x));
        }
        let s1 = rb.union(l);
        lemma_reach_closed(e, from, big);
        assert forall|x: Seq<char>, y: Seq<char>| s1.contains(x) && #[trigger] edge(e, x, y) && !avoid.contains(y)
            implies s1.contains(y) by {
            assert(!l.contains(x));
            if !l.contains(y) {
                assert(rb.contains(y));
            }
        }
        lemma_reach_least(e, from, avoid, s1);
        assert(rb =~= r.difference(l));
    } else if lock_keys(e).contains(from) && !avoid.contains(from) {
        // `from` is a leaf: it reaches only itself.
        lemma_reach_empty(e, from, big);
        let s1 = set![from];
        assert forall|x: Seq<char>, y: Seq<char>| s1.contains(x) && #[trigger] edge(e, x, y) && !avoid.contains(y)
            implies s1.contains(y) by {
            assert(l.contains(from));
        }
        lemma_reach_least(e, from, avoid, s1);
        assert(r.difference(l) =~= Set::<Seq<char>>::empty());
    } else {
        lemma_reach_empty(e, from, big);
        lemma_reach_empty(e, from, avoid);
        assert(r.difference(l) =~= Set::<Seq<char>>::empty());
    }
}

/// Everything reached other than the start is the end of an edge from
/// something reached.
pub proof fn lemma_reach_targets(e: LockEntries, from: Seq<char>, avoid: Set<Seq<char>>, z: Seq<char>)
    requires
        reach_avoiding(e, from, avoid).contains(z),
        z != from,
    ensures
        exists|x: Seq<char>| reach_avoiding(e, from, avoid).contains(x) && #[trigger] edge(e, x, z),
{
    let r = reach_avoiding(e, from, avoid);
    let s = Set::new(|y: Seq<char>| y == from || (!avoid.contains(y) && exists|x: Seq<char>| r.contains(x) && #[trigger] edge(e, x, y)));
    lemma_reach_closed(e, from, avoid);
    assert forall|x: Seq<char>, y: Seq<char>| s.contains(x) && #[trigger] edge(e, x, y) && !avoid.contains(y)
        implies s.contains(y) by {
        if x == from {
            lemma_reach_self(e, from, avoid);
        } else {
            let x0 = choose|x0: Seq<char>| r.contains(x0) && #[trigger] edge(e, x0, x);
        }
        assert(r.contains(x));
    }
    assert(s.contains(from));
    lemma_reach_least(e, from, avoid, s);
}

pub proof fn lemma_target_filenames_union(e: LockEntries, a: Set<Seq<char>>, b: Set<Seq<char>>)
    ensures
        target_filenames(e, a.union(b)) == target_filenames(e, a).union(target_filenames(e, b)),
{
    assert forall|f: Seq<char>| target_filenames(e, a.union(b)).contains(f) implies
        target_filenames(e, a).union(target_filenames(e, b)).contains(f) by {
        let (x, y) = choose|x: Seq<char>, y: Seq<char>| a.union(b).contains(x) && #[trigger] edge(e, x, y) && filename_at(e, y) == f;
        if a.contains(x) {
            assert(target_filenames(e, a).contains(f));
        } else {
            assert(target_filenames(e, b).contains(f));
        }
    }
    assert forall|f: Seq<char>| target_filenames(e, a).union(target_filenames(e, b)).contains(f) implies
        target_filenames(e, a.union(b)).contains(f) by {
        if target_filenames(e, a).contains(f) {
            let (x, y) = choose|x: Seq<char>, y: Seq<char>| a.contains(x) && #[trigger] edge(e, x, y) && filename_at(e, y) == f;
            assert(a.union(b).contains(x));
        } else {
            let (x, y) = choose|x: Seq<char>, y: Seq<char>| b.contains(x) && #[trigger] edge(e, x, y) && filename_at(e, y) == f;
            assert(a.union(b).contains(x));
        }
    }
    assert(target_filenames(e, a.union(b)) =~= target_filenames(e, a).union(target_filenames(e, b)));
}

} // verus!

verus! {

/// What is reached lies outside the set avoided, among the locked keys.
pub proof fn lemma_reach_outside(e: LockEntries, from: Seq<char>, avoid: Set<Seq<char>>)
    ensures
        reach_avoiding(e, from, avoid).subset_of(lock_keys(e).to_set().difference(avoid)),
{
    let s0 = lock_keys(e).to_set().difference(avoid);
    if lock_keys(e).contains(from) && !avoid.contains(from) {
        assert forall|u: Seq<char>, w: Seq<char>| s0.contains(u) && #[trigger] edge(e, u, w) && !avoid.contains(w)
            implies s0.contains(w) by {
            lemma_edge_target_key(e, u, w);
        }
        lemma_reach_least(e, from, avoid, s0);
    } else {
        lemma_reach_empty(e, from, avoid);
    }
}

} // verus!
