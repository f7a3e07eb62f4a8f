//! What a NeoForge mod jar declares: its mods and its dependencies.
use vstd::prelude::*;
use crate::strmap::StrMap;
use crate::text::{views, lowercase, to_lowercase, split_seq, split_char, str_eq, contains_sub, has_infix};

verus! {

/// One dependency entry of `neoforge.mods.toml` (`type` is written `dep_type`).
pub struct Dependency {
    pub mod_id: String,
    pub dep_type: String,
}

/// `META-INF/neoforge.mods.toml`, as far as its dependencies go: the
/// dependency lists, by the mod that declares them.
pub struct NeoForgeMetadata {
    pub dependencies: Option<StrMap<Vec<Dependency>>>,
}

pub struct NeoForgeModEntry {
    pub mod_id: String,
}

/// The mods that a mods file declares.
pub struct NeoForgeModsList {
    pub mods: Option<Vec<NeoForgeModEntry>>,
}

pub struct JarJarIdentifier {
    pub artifact: String,
}

pub struct JarJarEntry {
    pub identifier: JarJarIdentifier,
}

/// `META-INF/jarjar/metadata.json`: the jars embedded in a jar.
pub struct JarJarMetadata {
    pub jars: Vec<JarJarEntry>,
}

pub struct JarInspector;

/// The names an embedded artifact stands for: its name up to the first `-`
/// and its whole name, both lower-cased.
pub open spec fn embedded_names(artifacts: Seq<Seq<char>>) -> Set<Seq<char>> {
    Set::new(|n: Seq<char>| exists|i: int| 0 <= i < artifacts.len()
        && (n == lowercase(split_seq(#[trigger] artifacts[i], '-')[0]) || n == lowercase(artifacts[i])))
}

/// A dependency that the jar needs from elsewhere: required, not NeoForge
/// or Minecraft itself, and not provided by an embedded jar (its lower-cased
/// id holds no embedded name).
pub open spec fn needed(id: Seq<char>, dep_type: Seq<char>, artifacts: Seq<Seq<char>>) -> bool {
    &&& dep_type == "required"@
    &&& lowercase(id) != "neoforge"@
    &&& lowercase(id) != "minecraft"@
    &&& forall|n: Seq<char>| embedded_names(artifacts).contains(n) ==> !has_infix(lowercase(id), n)
}

pub open spec fn artifact_names(jarjar: Option<&JarJarMetadata>) -> Seq<Seq<char>> {
    match jarjar {
        Some(j) => j.jars@.map_values(|e: JarJarEntry| e.identifier.artifact@),
        None => Seq::empty(),
    }
}

/// Some dependency list of `meta` holds a needed dependency with id `id`.
pub open spec fn declares_needed(meta: NeoForgeMetadata, artifacts: Seq<Seq<char>>, id: Seq<char>) -> bool {
    match meta.dependencies {
        Some(m) => exists|i: int, j: int| 0 <= i < m.len_spec() && 0 <= j < m.entries()[i].1@.len()
            && (#[trigger] m.entries()[i].1@[j]).mod_id@ == id
            && needed(id, m.entries()[i].1@[j].dep_type@, artifacts),
        None => false,
    }
}

impl JarInspector {
    /// The ids of the dependencies that a jar needs from elsewhere, sorted
    /// and without repeats.
    pub fn inspect_neoforge(meta: &NeoForgeMetadata, jarjar: Option<&JarJarMetadata>) -> (r: Vec<String>)
        ensures
            crate::strmap::sorted_keys(views(r@)),
            forall|id: Seq<char>| views(r@).contains(id) <==> declares_needed(*meta, artifact_names(jarjar), id),
    {
        let ghost arts = artifact_names(jarjar);
        let mut embedded: Vec<String> = Vec::new();
        match jarjar {
            Some(j) => {
                for i in 0..j.jars.len()
                    invariant
                        arts == j.jars@.map_values(|e: JarJarEntry| e.identifier.artifact@),
                        forall|n: Seq<char>| views(embedded@).contains(n) <==> embedded_names(arts.take(i as int)).contains(n),
                {
                    let artifact = j.jars[i].identifier.artifact.as_str();
                    let parts = split_char(artifact, '-');
                    proof { crate::text::lemma_split_len(artifact@, '-'); }
                    let ghost before = views(embedded@);
                    let ghost old_emb = embedded@;
                    embedded.push(to_lowercase(parts[0].as_str()));
                    embedded.push(to_lowercase(artifact));
                    assert(arts[i as int] == artifact@);
                    assert forall|n: Seq<char>| views(embedded@).contains(n) <==> embedded_names(arts.take(i + 1)).contains(n) by {
                        if views(embedded@).contains(n) {
                            let t = choose|t: int| 0 <= t < views(embedded@).len() && views(embedded@)[t] == n;
                            if t < before.len() {
                                assert(embedded@[t] == old_emb[t]);
                                assert(before[t] == n);
                                assert(before.contains(n));
                                assert(embedded_names(arts.take(i as int)).contains(n));
                                let a = choose|a: int| 0 <= a < arts.take(i as int).len()
                                    && (n == lowercase(split_seq(#[trigger] arts.take(i as int)[a], '-')[0]) || n == lowercase(arts.take(i as int)[a]));
                                assert(arts.take(i + 1)[a] == arts.take(i as int)[a]);
                            } else {
                                assert(arts.take(i + 1)[i as int] == artifact@);
                            }
                        }
                        if embedded_names(arts.take(i + 1)).contains(n) {
                            let a = choose|a: int| 0 <= a < arts.take(i + 1).len()
                                && (n == lowercase(split_seq(#[trigger] arts.take(i + 1)[a], '-')[0]) || n == lowercase(arts.take(i + 1)[a]));
                            if a < i {
                                assert(arts.take(i as int)[a] == arts.take(i + 1)[a]);
                                assert(embedded_names(arts.take(i as int)).contains(n));
                                assert(before.contains(n));
                                let t = choose|t: int| 0 <= t < before.len() && before[t] == n;
                                assert(embedded@[t] == old_emb[t]);
                                assert(views(embedded@)[t] == n);
                            } else {
                                assert(arts.take(i + 1)[a] == artifact@);
                                if n == lowercase(split_seq(artifact@, '-')[0]) {
                                    assert(views(embedded@)[before.len() as int] == n);
                                } else {
                                    assert(views(embedded@)[before.len() as int + 1] == n);
                                }
                            }
                        }
                    }
                }
                assert(arts.take(j.jars@.len() as int) =~= arts);
            },
            None => {
                assert forall|n: Seq<char>| views(embedded@).contains(n) <==> embedded_names(arts).contains(n) by {}
            },
        }
        let mut found: StrMap<()> = StrMap::new();
        match &meta.dependencies {
            Some(m) => {
                let n = m.len();
                for i in 0..n
                    invariant
                        n == m.len_spec(),
                        meta.dependencies == Some(*m),
                        found.wf(),
                        forall|x: Seq<char>| views(embedded@).contains(x) <==> embedded_names(arts).contains(x),
                        forall|id: Seq<char>| found.keys().contains(id) <==> exists|a: int, b: int| 0 <= a < i
                            && 0 <= b < m.entries()[a].1@.len() && (#[trigger] m.entries()[a].1@[b]).mod_id@ == id
                            && needed(id, m.entries()[a].1@[b].dep_type@, arts),
                {
                    let list = m.value_at(i);
                    for k in 0..list.len()
                        invariant
                            *list == m.entries()[i as int].1,
                            found.wf(),
                            forall|x: Seq<char>| views(embedded@).contains(x) <==> embedded_names(arts).contains(x),
                            forall|id: Seq<char>| found.keys().contains(id) <==> (exists|a: int, b: int| 0 <= a < i
                                && 0 <= b < m.entries()[a].1@.len() && (#[trigger] m.entries()[a].1@[b]).mod_id@ == id
                                && needed(id, m.entries()[a].1@[b].dep_type@, arts)) || (exists|b: int| 0 <= b < k
                                && (#[trigger] list@[b]).mod_id@ == id && needed(id, list@[b].dep_type@, arts)),
                    {
                        let dep = &list[k];
                        let lower = to_lowercase(dep.mod_id.as_str());
                        let mut keep = str_eq(dep.dep_type.as_str(), "required") && !str_eq(lower.as_str(), "neoforge")
                            && !str_eq(lower.as_str(), "minecraft");
                        let mut t: usize = 0;
                        while keep && t < embedded.len()
                            invariant
                                t <= embedded@.len(),
                                keep ==> forall|x: int| 0 <= x < t ==> !has_infix(lower@, #[trigger] views(embedded@)[x]),
                                !keep ==> !needed(dep.mod_id@, dep.dep_type@, arts),
                                keep ==> (dep.dep_type@ == "required"@ && lowercase(dep.mod_id@) != "neoforge"@
                                    && lowercase(dep.mod_id@) != "minecraft"@),
                                lower@ == lowercase(dep.mod_id@),
                                forall|x: Seq<char>| views(embedded@).contains(x) <==> embedded_names(arts).contains(x),
                            decreases embedded@.len() - t,
                        {
                            if contains_sub(lower.as_str(), embedded[t].as_str()) {
                                assert(views(embedded@).contains(views(embedded@)[t as int]));
                                keep = false;
                            }
                            t = t + 1;
                        }
                        proof {
                            if keep {
                                assert forall|x: Seq<char>| embedded_names(arts).contains(x) implies !has_infix(lowercase(dep.mod_id@), x) by {
                                    assert(views(embedded@).contains(x));
                                    let y = choose|y: int| 0 <= y < views(embedded@).len() && views(embedded@)[y] == x;
                                }
                                assert(needed(dep.mod_id@, dep.dep_type@, arts));
                            }
                        }
                        let ghost before = found.keys();
                        if keep {
                            found.insert(dep.mod_id.clone(), ());
                        }
                        assert forall|id: Seq<char>| found.keys().contains(id) <==> (exists|a: int, b: int| 0 <= a < i
                            && 0 <= b < m.entries()[a].1@.len() && (#[trigger] m.entries()[a].1@[b]).mod_id@ == id
                            && needed(id, m.entries()[a].1@[b].dep_type@, arts)) || (exists|b: int| 0 <= b < k + 1
                            && (#[trigger] list@[b]).mod_id@ == id && needed(id, list@[b].dep_type@, arts)) by {
                            assert(found.keys().to_set().contains(id) == found.keys().contains(id));
                            assert(before.to_set().contains(id) == before.contains(id));
                            if exists|b: int| 0 <= b < k + 1 && (#[trigger] list@[b]).mod_id@ == id && needed(id, list@[b].dep_type@, arts) {
                                let b = choose|b: int| 0 <= b < k + 1 && (#[trigger] list@[b]).mod_id@ == id && needed(id, list@[b].dep_type@, arts);
                                if b == k {
                                    assert(keep);
                                }
                            }
                        }
                    }
                    assert forall|id: Seq<char>| found.keys().contains(id) <==> exists|a: int, b: int| 0 <= a < i + 1
                        && 0 <= b < m.entries()[a].1@.len() && (#[trigger] m.entries()[a].1@[b]).mod_id@ == id
                        && needed(id, m.entries()[a].1@[b].dep_type@, arts) by {
                        if exists|a: int, b: int| 0 <= a < i + 1 && 0 <= b < m.entries()[a].1@.len()
                            && (#[trigger] m.entries()[a].1@[b]).mod_id@ == id && needed(id, m.entries()[a].1@[b].dep_type@, arts) {
                            let (a, b) = choose|a: int, b: int| 0 <= a < i + 1 && 0 <= b < m.entries()[a].1@.len()
                                && (#[trigger] m.entries()[a].1@[b]).mod_id@ == id && needed(id, m.entries()[a].1@[b].dep_type@, arts);
                            if a == i {
                                assert(list@[b] == m.entries()[a].1@[b]);
                            }
                        }
                    }
                }
            },
            None => {},
        }
        found.key_list()
    }

    /// The id of the first mod that a mods file declares, if any.
    pub fn extract_primary_mod_id(list: &NeoForgeModsList) -> (r: Option<String>)
        ensures
            r matches Some(id) ==> list.mods matches Some(v) && v@.len() > 0 && id@ == v@[0].mod_id@,
            r is None <==> (list.mods is None || list.mods.unwrap()@.len() == 0),
    {
        match &list.mods {
            Some(v) => {
                if v.len() > 0 {
                    Some(v[0].mod_id.clone())
                } else {
                    None
                }
            },
            None => None,
        }
    }
}

} // verus!
