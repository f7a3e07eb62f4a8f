//! What a NeoForge mod jar requires, by its declared dependencies alone.
use vstd::prelude::*;
use crate::strmap::StrMap;
use crate::text::{views, str_eq};

verus! {

/// One dependency entry of `neoforge.mods.toml` (`type` is written `dep_type`).
pub struct Dependency {
    pub mod_id: String,
    pub dep_type: String,
}

/// The dependency lists of `neoforge.mods.toml`, by declaring mod.
pub struct NeoForgeMetadata {
    pub dependencies: Option<StrMap<Vec<Dependency>>>,
}

pub struct JarInspector;

/// A required dependency on something other than NeoForge or Minecraft.
pub open spec fn required_elsewhere(d: Dependency) -> bool {
    d.dep_type@ == "required"@ && d.mod_id@ != "neoforge"@ && d.mod_id@ != "minecraft"@
}

pub open spec fn declares_required(meta: NeoForgeMetadata, id: Seq<char>) -> bool {
    match meta.dependencies {
        Some(m) => exists|i: int, j: int| 0 <= i < m.len_spec() && 0 <= j < m.entries()[i].1@.len()
            && (#[trigger] m.entries()[i].1@[j]).mod_id@ == id && required_elsewhere(m.entries()[i].1@[j]),
        None => false,
    }
}

impl JarInspector {
    /// The ids of the required dependencies other than NeoForge and
    /// Minecraft, sorted and without repeats.
    pub fn inspect_neoforge(meta: &NeoForgeMetadata) -> (r: Vec<String>)
        ensures
            crate::strmap::sorted_keys(views(r@)),
            forall|id: Seq<char>| views(r@).contains(id) <==> declares_required(*meta, id),
    {
        let mut found: StrMap<()> = StrMap::new();
        match &meta.dependencies {
            Some(m) => {
                let n = m.len();
                for i in 0..n
                    invariant
                        n == m.len_spec(),
                        meta.dependencies == Some(*m),
                        found.wf(),
                        forall|id: Seq<char>| found.keys().contains(id) <==> exists|a: int, b: int| 0 <= a < i
                            && 0 <= b < m.entries()[a].1@.len() && (#[trigger] m.entries()[a].1@[b]).mod_id@ == id
                            && required_elsewhere(m.entries()[a].1@[b]),
                {
                    let list = m.value_at(i);
                    for k in 0..list.len()
                        invariant
                            i < m.len_spec(),
                            *list == m.entries()[i as int].1,
                            found.wf(),
                            forall|id: Seq<char>| found.keys().contains(id) <==> (exists|a: int, b: int| 0 <= a < i
                                && 0 <= b < m.entries()[a].1@.len() && (#[trigger] m.entries()[a].1@[b]).mod_id@ == id
                                && required_elsewhere(m.entries()[a].1@[b])) || (exists|b: int| 0 <= b < k
                                && (#[trigger] list@[b]).mod_id@ == id && required_elsewhere(list@[b])),
                    {
                        let dep = &list[k];
                        let keep = str_eq(dep.dep_type.as_str(), "required") && !str_eq(dep.mod_id.as_str(), "neoforge")
                            && !str_eq(dep.mod_id.as_str(), "minecraft");
                        let ghost before = found.keys();
                        if keep {
                            found.insert(dep.mod_id.clone(), ());
                        }
                        assert forall|id: Seq<char>| found.keys().contains(id) <==> (exists|a: int, b: int| 0 <= a < i
                            && 0 <= b < m.entries()[a].1@.len() && (#[trigger] m.entries()[a].1@[b]).mod_id@ == id
                            && required_elsewhere(m.entries()[a].1@[b])) || (exists|b: int| 0 <= b < k + 1
                            && (#[trigger] list@[b]).mod_id@ == id && required_elsewhere(list@[b])) by {
                            assert(found.keys().to_set().contains(id) == found.keys().contains(id));
                            assert(before.to_set().contains(id) == before.contains(id));
                            if exists|b: int| 0 <= b < k + 1 && (#[trigger] list@[b]).mod_id@ == id && required_elsewhere(list@[b]) {
                                let b = choose|b: int| 0 <= b < k + 1 && (#[trigger] list@[b]).mod_id@ == id && required_elsewhere(list@[b]);
                                if b == k {
                                    assert(keep);
                                }
                            }
                        }
                    }
                    assert forall|id: Seq<char>| found.keys().contains(id) <==> exists|a: int, b: int| 0 <= a < i + 1
                        && 0 <= b < m.entries()[a].1@.len() && (#[trigger] m.entries()[a].1@[b]).mod_id@ == id
                        && required_elsewhere(m.entries()[a].1@[b]) by {
                        if exists|a: int, b: int| 0 <= a < i + 1 && 0 <= b < m.entries()[a].1@.len()
                            && (#[trigger] m.entries()[a].1@[b]).mod_id@ == id && required_elsewhere(m.entries()[a].1@[b]) {
                            let (a, b) = choose|a: int, b: int| 0 <= a < i + 1 && 0 <= b < m.entries()[a].1@.len()
                                && (#[trigger] m.entries()[a].1@[b]).mod_id@ == id && required_elsewhere(m.entries()[a].1@[b]);
                            if a == i {
                                assert(list@[b] == m.entries()[a].1@[b]);
                            }
                        }
                    }
                }
            },
            None => {},
        }
        found.key_list()
    }
}

} // verus!
