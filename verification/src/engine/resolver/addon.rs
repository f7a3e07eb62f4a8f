//! Resolving an addon from its Modrinth project and versions, and the
//! walk that resolves its dependencies in turn.
use vstd::prelude::*;
use crate::domain::addon::AddonType;
use crate::domain::loader::{Loader, LoaderKind};
use crate::domain::source::{AddonSource, SourceType};
use crate::text::{concat2, contains_str, lowercase, push_str, str_eq, to_lowercase, views};

verus! {

pub enum ApiError {
    NotFound(String),
    Request(String),
}

/// A Modrinth project, as far as resolving reads it.
pub struct AddonProject {
    pub id: String,
    pub slug: String,
    pub project_type: String,
    pub categories: Vec<String>,
}

pub struct AddonFile {
    pub filename: String,
    pub url: String,
    pub primary: bool,
    pub sha1: String,
    pub sha512: String,
}

pub struct AddonDependency {
    pub project_id: Option<String>,
    pub dependency_type: String,
}

/// A version of a Modrinth project, as far as resolving reads it.
pub struct AddonVersion {
    pub loaders: Vec<String>,
    pub files: Vec<AddonFile>,
    pub dependencies: Vec<AddonDependency>,
}

pub struct ResolvedAddon {
    pub slug: String,
    pub file_name: String,
    pub addon_type: AddonType,
    pub loaders: Vec<Loader>,
    pub download_url: String,
    pub source: AddonSource,
    pub dependencies: Vec<String>,
}

/// Resource packs and modpacks are not addons of a server.
pub fn check_project(project: &AddonProject, slug: &str) -> (r: Result<(), ApiError>)
    ensures
        (project.project_type@ == "resourcepack"@ || project.project_type@ == "modpack"@) <==> r is Err,
        r matches Err(e) ==> (e matches ApiError::NotFound(m) && m@ == slug@ + " ("@ + project.project_type@
            + ") isn't supported"@),
{
    if str_eq(project.project_type.as_str(), "resourcepack") || str_eq(project.project_type.as_str(), "modpack") {
        let mut m = slug.to_string();
        push_str(&mut m, " (");
        push_str(&mut m, project.project_type.as_str());
        push_str(&mut m, ") isn't supported");
        return Err(ApiError::NotFound(m));
    }
    Ok(())
}

/// The loader filter of the versions query: the loader's name, lower-cased.
pub fn loader_filter(loader_name: &str) -> (r: Vec<String>)
    ensures
        views(r@) == seq![lowercase(loader_name@)],
{
    let r = vec![to_lowercase(loader_name)];
    assert(views(r@) =~= seq![lowercase(loader_name@)]);
    r
}

/// The file a version is installed from: its primary file, else its first.
pub open spec fn chosen_file(files: Seq<AddonFile>) -> Option<int> {
    if exists|i: int| 0 <= i < files.len() && files[i].primary {
        Some(choose|i: int| 0 <= i < files.len() && files[i].primary && forall|j: int| 0 <= j < i ==> !files[j].primary)
    } else if files.len() > 0 {
        Some(0)
    } else {
        None
    }
}

pub fn choose_file(files: &Vec<AddonFile>) -> (r: Option<usize>)
    ensures
        match r {
            Some(i) => i < files@.len() && (if exists|k: int| 0 <= k < files@.len() && files@[k].primary {
                files@[i as int].primary && forall|j: int| 0 <= j < i ==> !files@[j].primary
            } else {
                i == 0
            }),
            None => files@.len() == 0,
        },
{
    for i in 0..files.len()
        invariant
            forall|j: int| 0 <= j < i ==> !files@[j].primary,
    {
        if files[i].primary {
            return Some(i);
        }
    }
    if files.len() > 0 {
        Some(0)
    } else {
        None
    }
}

/// Datapack when the version is for the datapack loader; plugin when the
/// project is in the plugin category or the version is for Paper or Spigot;
/// otherwise a mod.
pub open spec fn addon_type_spec(loaders: Seq<Seq<char>>, categories: Seq<Seq<char>>) -> AddonType {
    if loaders.contains("datapack"@) {
        AddonType::Datapack
    } else if categories.contains("plugin"@) || loaders.contains("paper"@) || loaders.contains("spigot"@) {
        AddonType::Plugin
    } else {
        AddonType::Mod
    }
}

/// The loader a Modrinth loader name stands for, the Forge and NeoForge ones
/// tied to the Minecraft version; unknown names stand for none.
pub open spec fn loader_of_name(name: Seq<char>, mc_version: Seq<char>) -> Option<LoaderKind> {
    if name == "neoforge"@ {
        Some(LoaderKind::Neoforge(mc_version))
    } else if name == "fabric"@ {
        Some(LoaderKind::Fabric)
    } else if name == "forge"@ {
        Some(LoaderKind::Forge(mc_version))
    } else if name == "paper"@ {
        Some(LoaderKind::Paper)
    } else if name == "purpur"@ {
        Some(LoaderKind::Purpur)
    } else if name == "minecraft"@ || name == "vanilla"@ {
        Some(LoaderKind::Vanilla)
    } else {
        None
    }
}

/// The loaders named, in order, the unknown names left out.
pub open spec fn loaders_of_names(names: Seq<Seq<char>>, mc_version: Seq<char>) -> Seq<LoaderKind>
    decreases names.len(),
{
    if names.len() == 0 {
        Seq::empty()
    } else {
        let prev = loaders_of_names(names.drop_last(), mc_version);
        match loader_of_name(names.last(), mc_version) {
            Some(l) => prev.push(l),
            None => prev,
        }
    }
}

pub open spec fn loader_views(v: Seq<Loader>) -> Seq<LoaderKind> {
    v.map_values(|l: Loader| l@)
}

fn loader_named(name: &str, mc_version: &str) -> (r: Option<Loader>)
    ensures
        match r {
            Some(l) => loader_of_name(name@, mc_version@) == Some(l@),
            None => loader_of_name(name@, mc_version@) is None,
        },
{
    if str_eq(name, "neoforge") {
        Some(Loader::Neoforge { version: mc_version.to_string() })
    } else if str_eq(name, "fabric") {
        Some(Loader::Fabric)
    } else if str_eq(name, "forge") {
        Some(Loader::Forge { version: mc_version.to_string() })
    } else if str_eq(name, "paper") {
        Some(Loader::Paper)
    } else if str_eq(name, "purpur") {
        Some(Loader::Purpur)
    } else if str_eq(name, "minecraft") || str_eq(name, "vanilla") {
        Some(Loader::Vanilla)
    } else {
        None
    }
}

pub fn loaders_named(names: &Vec<String>, mc_version: &str) -> (r: Vec<Loader>)
    ensures
        loader_views(r@) == loaders_of_names(views(names@), mc_version@),
{
    let mut r: Vec<Loader> = Vec::new();
    for i in 0..names.len()
        invariant
            loader_views(r@) == loaders_of_names(views(names@).take(i as int), mc_version@),
    {
        proof {
            assert(views(names@).take(i + 1).drop_last() =~= views(names@).take(i as int));
            assert(views(names@).take(i + 1).last() == names@[i as int]@);
        }
        match loader_named(names[i].as_str(), mc_version) {
            Some(l) => {
                let ghost prev = loader_views(r@);
                r.push(l);
                assert(loader_views(r@) =~= prev.push(l@));
            },
            None => {},
        }
    }
    assert(views(names@).take(names@.len() as int) =~= views(names@));
    r
}

/// The projects a version requires: the project ids of its `required`
/// dependencies that name one, in order.
pub open spec fn required_ids(deps: Seq<AddonDependency>) -> Seq<Seq<char>>
    decreases deps.len(),
{
    if deps.len() == 0 {
        Seq::empty()
    } else {
        let prev = required_ids(deps.drop_last());
        let d = deps.last();
        if d.dependency_type@ == "required"@ && d.project_id is Some {
            prev.push(d.project_id->0@)
        } else {
            prev
        }
    }
}

pub fn required_dependencies(deps: &Vec<AddonDependency>) -> (r: Vec<String>)
    ensures
        views(r@) == required_ids(deps@),
{
    let mut r: Vec<String> = Vec::new();
    for i in 0..deps.len()
        invariant
            views(r@) == required_ids(deps@.take(i as int)),
    {
        proof {
            assert(deps@.take(i + 1).drop_last() =~= deps@.take(i as int));
            assert(deps@.take(i + 1).last() == deps@[i as int]);
        }
        if str_eq(deps[i].dependency_type.as_str(), "required") {
            match &deps[i].project_id {
                Some(id) => {
                    let ghost prev = views(r@);
                    r.push(id.clone());
                    assert(views(r@) =~= prev.push(id@));
                },
                None => {},
            }
        }
    }
    assert(deps@.take(deps@.len() as int) =~= deps@);
    r
}

/// Builds the resolved addon from the project and the versions Modrinth
/// listed for the loader and Minecraft version: the first version, its
/// chosen file, the type and loaders it declares, and its required
/// dependencies; none listed, or a version without files, is `NotFound`.
pub fn build_resolved_addon(
    project: &AddonProject,
    versions: &Vec<AddonVersion>,
    slug: &str,
    mc_version: &str,
    loader_name: &str,
) -> (r: Result<ResolvedAddon, ApiError>)
    ensures
        versions@.len() == 0 ==> (r matches Err(ApiError::NotFound(m)) && m@ == "No compatible version for "@ + slug@
            + " on "@ + mc_version@ + "/"@ + loader_name@),
        versions@.len() > 0 && versions@[0].files@.len() == 0 ==> (r matches Err(ApiError::NotFound(m)) && m@
            == "No files found for "@ + slug@),
        versions@.len() > 0 && versions@[0].files@.len() > 0 ==> (r matches Ok(a) && {
            let v = versions@[0];
            let f = v.files@[chosen_file(v.files@)->0];
            &&& a.slug@ == project.slug@
            &&& a.file_name@ == f.filename@
            &&& a.download_url@ == f.url@
            &&& a.addon_type == addon_type_spec(views(v.loaders@), views(project.categories@))
            &&& loader_views(a.loaders@) == loaders_of_names(views(v.loaders@), mc_version@)
            &&& views(a.dependencies@) == required_ids(v.dependencies@)
            &&& a.source.source_type matches SourceType::Modrinth { id, slug: s } && id@ == project.id@ && s@
                == project.slug@
            &&& a.source.hash.sha1 matches Some(h1) && h1@ == f.sha1@
            &&& a.source.hash.sha256 is None
            &&& a.source.hash.sha512 matches Some(h5) && h5@ == f.sha512@
        }),
{
    if versions.len() == 0 {
        let mut m = concat2("No compatible version for ", slug);
        push_str(&mut m, " on ");
        push_str(&mut m, mc_version);
        push_str(&mut m, "/");
        push_str(&mut m, loader_name);
        return Err(ApiError::NotFound(m));
    }
    let version = &versions[0];
    let fi = match choose_file(&version.files) {
        Some(i) => i,
        None => return Err(ApiError::NotFound(concat2("No files found for ", slug))),
    };
    proof {
        let fs = version.files@;
        if exists|k: int| 0 <= k < fs.len() && fs[k].primary {
            let c = choose|i: int| 0 <= i < fs.len() && fs[i].primary && forall|j: int| 0 <= j < i ==> !fs[j].primary;
            assert(0 <= c < fs.len() && fs[c].primary && forall|j: int| 0 <= j < c ==> !fs[j].primary);
            if c < fi {
                assert(!fs[c].primary);
            }
            if fi < c {
                assert(!fs[fi as int].primary);
            }
            assert(chosen_file(fs) == Some(fi as int));
        }
    }
    let file = &version.files[fi];
    let addon_type = if contains_str(&version.loaders, "datapack") {
        AddonType::Datapack
    } else if contains_str(&project.categories, "plugin") || contains_str(&version.loaders, "paper")
        || contains_str(&version.loaders, "spigot") {
        AddonType::Plugin
    } else {
        AddonType::Mod
    };
    let loaders = loaders_named(&version.loaders, mc_version);
    let dependencies = required_dependencies(&version.dependencies);
    Ok(ResolvedAddon {
        slug: project.slug.clone(),
        file_name: file.filename.clone(),
        addon_type,
        loaders,
        download_url: file.url.clone(),
        source: AddonSource {
            source_type: SourceType::Modrinth { id: project.id.clone(), slug: project.slug.clone() },
            hash: crate::domain::source::Hash {
                sha1: Some(file.sha1.clone()),
                sha256: None,
                sha512: Some(file.sha512.clone()),
            },
        },
        dependencies,
    })
}

// ---------------------------------------------------------------- the walk

/// The Modrinth project id an addon was resolved from.
pub open spec fn source_id(a: ResolvedAddon) -> Seq<char> {
    match a.source.source_type {
        SourceType::Modrinth { id, .. } => id@,
    }
}

pub open spec fn resolved_keys(r: Seq<(String, ResolvedAddon)>) -> Seq<Seq<char>> {
    r.map_values(|e: (String, ResolvedAddon)| e.0@)
}

pub open spec fn resolved_ids(r: Seq<(String, ResolvedAddon)>) -> Seq<Seq<char>> {
    r.map_values(|e: (String, ResolvedAddon)| source_id(e.1))
}

/// The dependencies still to resolve: those that no resolved addon was
/// resolved from, in order.
pub open spec fn new_dependencies(deps: Seq<Seq<char>>, ids: Seq<Seq<char>>) -> Seq<Seq<char>>
    decreases deps.len(),
{
    if deps.len() == 0 {
        Seq::empty()
    } else {
        let prev = new_dependencies(deps.drop_last(), ids);
        if ids.contains(deps.last()) {
            prev
        } else {
            prev.push(deps.last())
        }
    }
}

/// Taking slugs off the top of the stack until one not yet resolved comes:
/// that slug, and the stack that is left.
pub open spec fn pop_unresolved(stack: Seq<Seq<char>>, keys: Seq<Seq<char>>) -> (Option<Seq<char>>, Seq<Seq<char>>)
    decreases stack.len(),
{
    if stack.len() == 0 {
        (None, stack)
    } else if keys.contains(stack.last()) {
        pop_unresolved(stack.drop_last(), keys)
    } else {
        (Some(stack.last()), stack.drop_last())
    }
}

/// The walk's bookkeeping is sound when each slug is resolved at most once,
/// the slug handed out and not yet recorded (`pending`) is not resolved
/// yet, and every dependency of a resolved addon is accounted for: some
/// resolved addon was resolved from it or under it, it waits on the stack,
/// or it is the pending slug.
pub open spec fn walk_sound(
    resolved: Seq<(String, ResolvedAddon)>,
    stack: Seq<Seq<char>>,
    pending: Option<Seq<char>>,
) -> bool {
    &&& resolved_keys(resolved).no_duplicates()
    &&& (pending matches Some(p) ==> !resolved_keys(resolved).contains(p))
    &&& forall|i: int, j: int|
        0 <= i < resolved.len() && 0 <= j < resolved[i].1.dependencies@.len() ==> {
            ||| resolved_ids(resolved).contains(#[trigger] resolved[i].1.dependencies@[j]@)
            ||| resolved_keys(resolved).contains(resolved[i].1.dependencies@[j]@)
            ||| stack.contains(resolved[i].1.dependencies@[j]@)
            ||| pending == Some(resolved[i].1.dependencies@[j]@)
        }
}

/// The resolved addons are closed under their dependencies: each
/// dependency of each of them is an addon resolved, by its project id or by
/// the slug it was asked under.
pub open spec fn walk_closed(resolved: Seq<(String, ResolvedAddon)>) -> bool {
    forall|i: int, j: int|
        0 <= i < resolved.len() && 0 <= j < resolved[i].1.dependencies@.len() ==> {
            ||| resolved_ids(resolved).contains(#[trigger] resolved[i].1.dependencies@[j]@)
            ||| resolved_keys(resolved).contains(resolved[i].1.dependencies@[j]@)
        }
}

/// The walk's bookkeeping of project ids is sound when no two resolved
/// addons were resolved from the same project, every slug on the stack that
/// some resolved addon was resolved from is also a slug resolved already
/// (so the walk passes over it), and the pending slug is no resolved
/// addon's project id.
pub open spec fn ids_sound(
    resolved: Seq<(String, ResolvedAddon)>,
    stack: Seq<Seq<char>>,
    pending: Option<Seq<char>>,
) -> bool {
    &&& resolved_ids(resolved).no_duplicates()
    &&& forall|k: int|
        0 <= k < stack.len() && resolved_ids(resolved).contains(#[trigger] stack[k]) ==> resolved_keys(
            resolved,
        ).contains(stack[k])
    &&& (pending matches Some(p) ==> !resolved_ids(resolved).contains(p))
}

/// The addon recorded under `slug` was resolved from the project of that
/// id, as Modrinth answers a request by id; or (as for the slug the walk
/// started from) from a project whose id occurs nowhere in the walk yet:
/// not among the resolved addons, not on the stack, not among the addon's
/// own dependencies.
pub open spec fn fresh_id(
    resolved: Seq<(String, ResolvedAddon)>,
    stack: Seq<Seq<char>>,
    slug: Seq<char>,
    addon: ResolvedAddon,
) -> bool {
    ||| source_id(addon) == slug
    ||| {
        &&& !resolved_ids(resolved).contains(source_id(addon))
        &&& !stack.contains(source_id(addon))
        &&& !views(addon.dependencies@).contains(source_id(addon))
    }
}

/// The walk that resolves an addon and its dependencies: the addons
/// resolved so far under the slug they were asked by, and the slugs still
/// to resolve, the last on top.
pub struct ResolveWalk {
    resolved: Vec<(String, ResolvedAddon)>,
    to_resolve: Vec<String>,
}

impl ResolveWalk {
    pub closed spec fn resolved_spec(&self) -> Seq<(String, ResolvedAddon)> {
        self.resolved@
    }

    pub closed spec fn stack_spec(&self) -> Seq<Seq<char>> {
        views(self.to_resolve@)
    }

    /// The walk from one slug.
    pub fn start(slug: &str) -> (w: ResolveWalk)
        ensures
            w.resolved_spec().len() == 0,
            w.stack_spec() == seq![slug@],
            walk_sound(w.resolved_spec(), w.stack_spec(), None),
            ids_sound(w.resolved_spec(), w.stack_spec(), None),
    {
        let to_resolve = vec![slug.to_string()];
        assert(views(to_resolve@) =~= seq![slug@]);
        ResolveWalk { resolved: Vec::new(), to_resolve }
    }

    /// The next slug to resolve, taken off the stack past those already
    /// resolved; `None` once the stack is empty.
    pub fn next_slug(&mut self) -> (r: Option<String>)
        ensures
            final(self).resolved_spec() == old(self).resolved_spec(),
            final(self).stack_spec() == pop_unresolved(old(self).stack_spec(), resolved_keys(old(self).resolved_spec())).1,
            match r {
                Some(s) => pop_unresolved(old(self).stack_spec(), resolved_keys(old(self).resolved_spec())).0 == Some(
                    s@,
                ),
                None => pop_unresolved(old(self).stack_spec(), resolved_keys(old(self).resolved_spec())).0 is None
                    && final(self).stack_spec().len() == 0,
            },
            walk_sound(old(self).resolved_spec(), old(self).stack_spec(), None) ==> walk_sound(
                final(self).resolved_spec(),
                final(self).stack_spec(),
                match r {
                    Some(s) => Some(s@),
                    None => None,
                },
            ),
            ids_sound(old(self).resolved_spec(), old(self).stack_spec(), None) ==> ids_sound(
                final(self).resolved_spec(),
                final(self).stack_spec(),
                match r {
                    Some(s) => Some(s@),
                    None => None,
                },
            ),
    {
        proof {
            lemma_walk_next(self.resolved@, views(self.to_resolve@));
            lemma_walk_next_ids(self.resolved@, views(self.to_resolve@));
        }
        let ghost keys = resolved_keys(self.resolved@);
        let ghost start = views(self.to_resolve@);
        loop
            invariant
                keys == resolved_keys(self.resolved@),
                self.resolved@ == old(self).resolved@,
                start == views(old(self).to_resolve@),
                pop_unresolved(views(self.to_resolve@), keys) == pop_unresolved(start, keys),
                walk_sound(self.resolved@, start, None) ==> walk_sound(
                    self.resolved@,
                    pop_unresolved(start, keys).1,
                    pop_unresolved(start, keys).0,
                ),
                pop_unresolved(start, keys).0 is None ==> pop_unresolved(start, keys).1.len() == 0,
                ids_sound(self.resolved@, start, None) ==> ids_sound(
                    self.resolved@,
                    pop_unresolved(start, keys).1,
                    pop_unresolved(start, keys).0,
                ),
            decreases self.to_resolve@.len(),
        {
            let ghost before = views(self.to_resolve@);
            match self.to_resolve.pop() {
                None => {
                    return None;
                },
                Some(s) => {
                    proof {
                        assert(before.last() == s@);
                        assert(before.drop_last() =~= views(self.to_resolve@));
                    }
                    let mut known = false;
                    for i in 0..self.resolved.len()
                        invariant
                            keys == resolved_keys(self.resolved@),
                            known == exists|j: int| 0 <= j < i && #[trigger] keys[j] == s@,
                    {
                        assert(keys[i as int] == self.resolved@[i as int].0@);
                        if str_eq(self.resolved[i].0.as_str(), s.as_str()) {
                            known = true;
                        }
                    }
                    proof {
                        if keys.contains(s@) {
                            let j = choose|j: int| 0 <= j < keys.len() && keys[j] == s@;
                            assert(keys[j] == s@);
                        }
                    }
                    if !known {
                        return Some(s);
                    }
                },
            }
        }
    }

    /// Records the addon resolved for `slug` and puts on the stack each of
    /// its dependencies that no resolved addon was resolved from.
    pub fn record(&mut self, slug: String, addon: ResolvedAddon)
        ensures
            final(self).stack_spec() == old(self).stack_spec() + new_dependencies(
                views(addon.dependencies@),
                resolved_ids(old(self).resolved_spec()),
            ),
            final(self).resolved_spec() == old(self).resolved_spec().push((slug, addon)),
            walk_sound(old(self).resolved_spec(), old(self).stack_spec(), Some(slug@)) ==> walk_sound(
                final(self).resolved_spec(),
                final(self).stack_spec(),
                None,
            ),
            ids_sound(old(self).resolved_spec(), old(self).stack_spec(), Some(slug@)) && fresh_id(
                old(self).resolved_spec(),
                old(self).stack_spec(),
                slug@,
                addon,
            ) ==> ids_sound(final(self).resolved_spec(), final(self).stack_spec(), None),
    {
        proof {
            lemma_walk_record(self.resolved@, views(self.to_resolve@), slug, addon);
            lemma_walk_record_ids(self.resolved@, views(self.to_resolve@), slug, addon);
        }
        let ghost ids = resolved_ids(self.resolved@);
        let ghost deps = views(addon.dependencies@);
        let ghost stack0 = views(self.to_resolve@);
        for i in 0..addon.dependencies.len()
            invariant
                ids == resolved_ids(self.resolved@),
                self.resolved@ == old(self).resolved@,
                deps == views(addon.dependencies@),
                stack0 == views(old(self).to_resolve@),
                views(self.to_resolve@) == stack0 + new_dependencies(deps.take(i as int), ids),
        {
            proof {
                assert(deps.take(i + 1).drop_last() =~= deps.take(i as int));
                assert(deps.take(i + 1).last() == addon.dependencies@[i as int]@);
            }
            let dep = &addon.dependencies[i];
            let mut seen = false;
            for j in 0..self.resolved.len()
                invariant
                    ids == resolved_ids(self.resolved@),
                    seen == exists|k: int| 0 <= k < j && #[trigger] ids[k] == dep@,
            {
                assert(ids[j as int] == source_id(self.resolved@[j as int].1));
                let same = match &self.resolved[j].1.source.source_type {
                    SourceType::Modrinth { id, .. } => str_eq(id.as_str(), dep.as_str()),
                };
                if same {
                    seen = true;
                }
            }
            proof {
                if ids.contains(dep@) {
                    let k = choose|k: int| 0 <= k < ids.len() && ids[k] == dep@;
                    assert(ids[k] == dep@);
                }
            }
            if !seen {
                let ghost prev = views(self.to_resolve@);
                self.to_resolve.push(dep.clone());
                assert(views(self.to_resolve@) =~= prev.push(dep@));
            }
        }
        proof {
            assert(deps.take(deps.len() as int) =~= deps);
        }
        self.resolved.push((slug, addon));
    }

    /// The addons resolved, in the order they were recorded.
    pub fn finish(self) -> (r: Vec<ResolvedAddon>)
        ensures
            r@ == self.resolved_spec().map_values(|e: (String, ResolvedAddon)| e.1),
    {
        let mut r: Vec<ResolvedAddon> = Vec::new();
        let mut resolved = self.resolved;
        let ghost all = resolved@.map_values(|e: (String, ResolvedAddon)| e.1);
        proof {
            assert(r@ + resolved@.map_values(|e: (String, ResolvedAddon)| e.1) =~= all);
        }
        while resolved.len() > 0
            invariant
                r@ + resolved@.map_values(|e: (String, ResolvedAddon)| e.1) == all,
                all == self.resolved_spec().map_values(|e: (String, ResolvedAddon)| e.1),
            decreases resolved@.len(),
        {
            let ghost before = resolved@;
            let ghost r0 = r@;
            let (_, a) = resolved.remove(0);
            r.push(a);
            proof {
                assert(before.map_values(|e: (String, ResolvedAddon)| e.1) =~= seq![a] + resolved@.map_values(
                    |e: (String, ResolvedAddon)| e.1,
                ));
                assert(r@ + resolved@.map_values(|e: (String, ResolvedAddon)| e.1) =~= r0 + before.map_values(
                    |e: (String, ResolvedAddon)| e.1,
                ));
            }
        }
        assert(r@ =~= r@ + resolved@.map_values(|e: (String, ResolvedAddon)| e.1));
        r
    }
}

} // verus!

verus! {

/// The slug the walk takes next is one not resolved yet, and one that was
/// on the stack.
pub proof fn lemma_next_is_unresolved(stack: Seq<Seq<char>>, keys: Seq<Seq<char>>)
    ensures
        pop_unresolved(stack, keys).0 matches Some(s) ==> !keys.contains(s) && stack.contains(s),
        pop_unresolved(stack, keys).1.len() < stack.len() || stack.len() == 0,
    decreases stack.len(),
{
    if stack.len() > 0 {
        if keys.contains(stack.last()) {
            lemma_next_is_unresolved(stack.drop_last(), keys);
            match pop_unresolved(stack.drop_last(), keys).0 {
                Some(s) => {
                    let i = choose|i: int| 0 <= i < stack.drop_last().len() && stack.drop_last()[i] == s;
                    assert(stack[i] == s);
                },
                None => {},
            }
        } else {
            assert(stack[stack.len() - 1] == stack.last());
        }
    }
}

/// Recording under the slug the walk handed out keeps each slug resolved
/// once.
pub proof fn lemma_record_once(r: Seq<(String, ResolvedAddon)>, slug: String, a: ResolvedAddon)
    requires
        resolved_keys(r).no_duplicates(),
        !resolved_keys(r).contains(slug@),
    ensures
        resolved_keys(r.push((slug, a))).no_duplicates(),
{
    let k = resolved_keys(r.push((slug, a)));
    assert(k =~= resolved_keys(r).push(slug@));
    assert forall|i: int, j: int| 0 <= i < j < k.len() implies k[i] != k[j] by {
        if j == k.len() - 1 {
            assert(resolved_keys(r)[i] == k[i]);
        } else {
            assert(resolved_keys(r)[i] == k[i]);
            assert(resolved_keys(r)[j] == k[j]);
        }
    }
}

/// Taking the next slug keeps the walk sound, with the slug taken pending.
pub proof fn lemma_walk_next(resolved: Seq<(String, ResolvedAddon)>, stack: Seq<Seq<char>>)
    ensures
        walk_sound(resolved, stack, None) ==> walk_sound(
            resolved,
            pop_unresolved(stack, resolved_keys(resolved)).1,
            pop_unresolved(stack, resolved_keys(resolved)).0,
        ),
        pop_unresolved(stack, resolved_keys(resolved)).0 is None ==> pop_unresolved(
            stack,
            resolved_keys(resolved),
        ).1.len() == 0,
{
    let keys = resolved_keys(resolved);
    let p = pop_unresolved(stack, keys);
    lemma_next_is_unresolved(stack, keys);
    lemma_pop_keeps(stack, keys);
    if walk_sound(resolved, stack, None) {
        assert forall|i: int, j: int|
            0 <= i < resolved.len() && 0 <= j < resolved[i].1.dependencies@.len() implies {
            ||| resolved_ids(resolved).contains(#[trigger] resolved[i].1.dependencies@[j]@)
            ||| keys.contains(resolved[i].1.dependencies@[j]@)
            ||| p.1.contains(resolved[i].1.dependencies@[j]@)
            ||| p.0 == Some(resolved[i].1.dependencies@[j]@)
        } by {
            let d = resolved[i].1.dependencies@[j]@;
            if stack.contains(d) {
                let k = choose|k: int| 0 <= k < stack.len() && stack[k] == d;
                assert(stack[k] == d);
            }
        }
    }
}

/// Each slug on the stack is resolved already, still on the stack after
/// taking the next slug, or the slug taken; nothing is taken from an
/// empty result.
proof fn lemma_pop_keeps(stack: Seq<Seq<char>>, keys: Seq<Seq<char>>)
    ensures
        forall|k: int|
            0 <= k < stack.len() ==> keys.contains(#[trigger] stack[k]) || pop_unresolved(stack, keys).1.contains(
                stack[k],
            ) || pop_unresolved(stack, keys).0 == Some(stack[k]),
        pop_unresolved(stack, keys).0 is None ==> pop_unresolved(stack, keys).1.len() == 0,
    decreases stack.len(),
{
    if stack.len() > 0 {
        let rest = stack.drop_last();
        lemma_pop_keeps(rest, keys);
        if keys.contains(stack.last()) {
            assert forall|k: int| 0 <= k < stack.len() implies keys.contains(#[trigger] stack[k])
                || pop_unresolved(stack, keys).1.contains(stack[k]) || pop_unresolved(stack, keys).0 == Some(
                stack[k],
            ) by {
                if k < rest.len() {
                    assert(rest[k] == stack[k]);
                }
            }
        } else {
            assert forall|k: int| 0 <= k < stack.len() implies keys.contains(#[trigger] stack[k])
                || pop_unresolved(stack, keys).1.contains(stack[k]) || pop_unresolved(stack, keys).0 == Some(
                stack[k],
            ) by {
                if k < rest.len() {
                    assert(rest[k] == stack[k]);
                    assert(pop_unresolved(stack, keys).1[k] == stack[k]);
                }
            }
        }
    }
}

/// Each dependency is resolved already or among those put on the stack.
proof fn lemma_new_dependencies_cover(deps: Seq<Seq<char>>, ids: Seq<Seq<char>>)
    ensures
        forall|k: int| 0 <= k < deps.len() ==> ids.contains(#[trigger] deps[k]) || new_dependencies(deps, ids).contains(
            deps[k],
        ),
    decreases deps.len(),
{
    if deps.len() > 0 {
        let rest = deps.drop_last();
        lemma_new_dependencies_cover(rest, ids);
        let prev = new_dependencies(rest, ids);
        assert forall|k: int| 0 <= k < deps.len() implies ids.contains(#[trigger] deps[k])
            || new_dependencies(deps, ids).contains(deps[k]) by {
            if k < rest.len() {
                assert(rest[k] == deps[k]);
                if prev.contains(deps[k]) {
                    let m = choose|m: int| 0 <= m < prev.len() && prev[m] == deps[k];
                    if !ids.contains(deps.last()) {
                        assert(prev.push(deps.last())[m] == deps[k]);
                    }
                }
            } else {
                if !ids.contains(deps.last()) {
                    assert(prev.push(deps.last())[prev.len() as int] == deps.last());
                }
            }
        }
    }
}

/// Recording the pending slug's addon, and putting on the stack those of
/// its dependencies no resolved addon was resolved from, keeps the walk
/// sound with nothing pending.
pub proof fn lemma_walk_record(
    resolved: Seq<(String, ResolvedAddon)>,
    stack: Seq<Seq<char>>,
    slug: String,
    addon: ResolvedAddon,
)
    ensures
        walk_sound(resolved, stack, Some(slug@)) ==> walk_sound(
            resolved.push((slug, addon)),
            stack + new_dependencies(views(addon.dependencies@), resolved_ids(resolved)),
            None,
        ),
{
    if walk_sound(resolved, stack, Some(slug@)) {
        let r2 = resolved.push((slug, addon));
        let ids = resolved_ids(resolved);
        let keys = resolved_keys(resolved);
        let deps = views(addon.dependencies@);
        let added = new_dependencies(deps, ids);
        let stack2 = stack + added;
        lemma_record_once(resolved, slug, addon);
        lemma_new_dependencies_cover(deps, ids);
        assert(resolved_ids(r2) =~= ids.push(source_id(addon)));
        assert(resolved_keys(r2) =~= keys.push(slug@));
        assert forall|i: int, j: int|
            0 <= i < r2.len() && 0 <= j < r2[i].1.dependencies@.len() implies {
            ||| resolved_ids(r2).contains(#[trigger] r2[i].1.dependencies@[j]@)
            ||| resolved_keys(r2).contains(r2[i].1.dependencies@[j]@)
            ||| stack2.contains(r2[i].1.dependencies@[j]@)
            ||| None::<Seq<char>> == Some(r2[i].1.dependencies@[j]@)
        } by {
            let d = r2[i].1.dependencies@[j]@;
            if i < resolved.len() {
                assert(r2[i] == resolved[i]);
                if ids.contains(d) {
                    let m = choose|m: int| 0 <= m < ids.len() && ids[m] == d;
                    assert(resolved_ids(r2)[m] == d);
                } else if keys.contains(d) {
                    let m = choose|m: int| 0 <= m < keys.len() && keys[m] == d;
                    assert(resolved_keys(r2)[m] == d);
                } else if stack.contains(d) {
                    let m = choose|m: int| 0 <= m < stack.len() && stack[m] == d;
                    assert(stack2[m] == d);
                } else {
                    assert(d == slug@);
                    assert(resolved_keys(r2)[keys.len() as int] == d);
                }
            } else {
                assert(r2[i] == (slug, addon));
                assert(deps[j] == d);
                if ids.contains(d) {
                    let m = choose|m: int| 0 <= m < ids.len() && ids[m] == d;
                    assert(resolved_ids(r2)[m] == d);
                } else {
                    assert(added.contains(d));
                    let m = choose|m: int| 0 <= m < added.len() && added[m] == d;
                    assert(stack2[stack.len() + m] == d);
                }
            }
        }
    }
}

/// A walk that started from `ResolveWalk::start`, took each slug with
/// `next_slug` and recorded its addon under that slug with `record`, and
/// whose `next_slug` then answered `None`, is closed: every dependency of
/// every resolved addon was resolved, and each slug was resolved once.
pub proof fn lemma_walk_ends_closed(resolved: Seq<(String, ResolvedAddon)>)
    requires
        walk_sound(resolved, Seq::empty(), None),
    ensures
        walk_closed(resolved),
        resolved_keys(resolved).no_duplicates(),
{
}

/// What is left on the stack after taking the next slug is a prefix of
/// the stack.
proof fn lemma_pop_prefix(stack: Seq<Seq<char>>, keys: Seq<Seq<char>>)
    ensures
        pop_unresolved(stack, keys).1.len() <= stack.len(),
        forall|k: int|
            0 <= k < pop_unresolved(stack, keys).1.len() ==> #[trigger] pop_unresolved(stack, keys).1[k] == stack[k],
    decreases stack.len(),
{
    if stack.len() > 0 {
        lemma_pop_prefix(stack.drop_last(), keys);
    }
}

/// Taking the next slug keeps the bookkeeping of project ids sound, with
/// the slug taken pending.
pub proof fn lemma_walk_next_ids(resolved: Seq<(String, ResolvedAddon)>, stack: Seq<Seq<char>>)
    ensures
        ids_sound(resolved, stack, None) ==> ids_sound(
            resolved,
            pop_unresolved(stack, resolved_keys(resolved)).1,
            pop_unresolved(stack, resolved_keys(resolved)).0,
        ),
{
    let keys = resolved_keys(resolved);
    let ids = resolved_ids(resolved);
    let p = pop_unresolved(stack, keys);
    lemma_next_is_unresolved(stack, keys);
    lemma_pop_prefix(stack, keys);
    if ids_sound(resolved, stack, None) {
        assert forall|k: int| 0 <= k < p.1.len() && ids.contains(#[trigger] p.1[k]) implies keys.contains(p.1[k]) by {
            assert(p.1[k] == stack[k]);
        }
        match p.0 {
            Some(s) => {
                let k = choose|k: int| 0 <= k < stack.len() && stack[k] == s;
                assert(stack[k] == s);
            },
            None => {},
        }
    }
}

/// Each slug put on the stack for an addon is one of its dependencies that
/// no resolved addon was resolved from.
proof fn lemma_new_dependencies_fresh(deps: Seq<Seq<char>>, ids: Seq<Seq<char>>)
    ensures
        forall|k: int|
            0 <= k < new_dependencies(deps, ids).len() ==> !ids.contains(#[trigger] new_dependencies(deps, ids)[k])
                && deps.contains(new_dependencies(deps, ids)[k]),
    decreases deps.len(),
{
    if deps.len() > 0 {
        let rest = deps.drop_last();
        lemma_new_dependencies_fresh(rest, ids);
        let prev = new_dependencies(rest, ids);
        assert forall|k: int| 0 <= k < new_dependencies(deps, ids).len() implies !ids.contains(
            #[trigger] new_dependencies(deps, ids)[k],
        ) && deps.contains(new_dependencies(deps, ids)[k]) by {
            if k < prev.len() {
                assert(new_dependencies(deps, ids)[k] == prev[k]);
                let m = choose|m: int| 0 <= m < rest.len() && rest[m] == prev[k];
                assert(deps[m] == rest[m]);
            } else {
                assert(new_dependencies(deps, ids)[k] == deps.last());
                assert(deps[deps.len() - 1] == deps.last());
            }
        }
    }
}

/// Recording the pending slug's addon keeps the bookkeeping of project ids
/// sound, when the addon's project id is fresh (see `fresh_id`).
pub proof fn lemma_walk_record_ids(
    resolved: Seq<(String, ResolvedAddon)>,
    stack: Seq<Seq<char>>,
    slug: String,
    addon: ResolvedAddon,
)
    ensures
        ids_sound(resolved, stack, Some(slug@)) && fresh_id(resolved, stack, slug@, addon) ==> ids_sound(
            resolved.push((slug, addon)),
            stack + new_dependencies(views(addon.dependencies@), resolved_ids(resolved)),
            None,
        ),
{
    if ids_sound(resolved, stack, Some(slug@)) && fresh_id(resolved, stack, slug@, addon) {
        let r2 = resolved.push((slug, addon));
        let ids = resolved_ids(resolved);
        let keys = resolved_keys(resolved);
        let id = source_id(addon);
        let deps = views(addon.dependencies@);
        let added = new_dependencies(deps, ids);
        let stack2 = stack + added;
        assert(resolved_ids(r2) =~= ids.push(id));
        assert(resolved_keys(r2) =~= keys.push(slug@));
        lemma_new_dependencies_fresh(deps, ids);
        assert(!ids.contains(id));
        assert forall|i: int, j: int| 0 <= i < j < resolved_ids(r2).len() implies resolved_ids(r2)[i]
            != resolved_ids(r2)[j] by {
            if j == ids.len() {
                assert(resolved_ids(r2)[i] == ids[i]);
            } else {
                assert(resolved_ids(r2)[i] == ids[i]);
                assert(resolved_ids(r2)[j] == ids[j]);
            }
        }
        assert forall|k: int|
            0 <= k < stack2.len() && resolved_ids(r2).contains(#[trigger] stack2[k]) implies resolved_keys(
            r2,
        ).contains(stack2[k]) by {
            let x = stack2[k];
            let m = choose|m: int| 0 <= m < resolved_ids(r2).len() && resolved_ids(r2)[m] == x;
            if x == slug@ {
                assert(resolved_keys(r2)[keys.len() as int] == x);
            } else if m < ids.len() {
                assert(ids[m] == x);
                if k < stack.len() {
                    assert(stack[k] == x);
                    let q = choose|q: int| 0 <= q < keys.len() && keys[q] == x;
                    assert(resolved_keys(r2)[q] == x);
                } else {
                    assert(added[k - stack.len()] == x);
                }
            } else {
                assert(x == id);
                if k < stack.len() {
                    assert(stack[k] == x);
                } else {
                    assert(added[k - stack.len()] == x);
                    assert(deps.contains(x));
                }
            }
        }
    }
}

/// A walk that started from `ResolveWalk::start`, took each slug with
/// `next_slug` and recorded under it an addon whose project id is fresh
/// (see `fresh_id`), never resolves two addons from the same Modrinth
/// project.
pub proof fn lemma_walk_ids_unique(
    resolved: Seq<(String, ResolvedAddon)>,
    stack: Seq<Seq<char>>,
    pending: Option<Seq<char>>,
)
    requires
        ids_sound(resolved, stack, pending),
    ensures
        forall|i: int, j: int|
            0 <= i < j < resolved.len() ==> source_id(#[trigger] resolved[i].1) != source_id(#[trigger] resolved[j].1),
{
    assert forall|i: int, j: int| 0 <= i < j < resolved.len() implies source_id(#[trigger] resolved[i].1)
        != source_id(#[trigger] resolved[j].1) by {
        assert(resolved_ids(resolved)[i] == source_id(resolved[i].1));
        assert(resolved_ids(resolved)[j] == source_id(resolved[j].1));
    }
}

/// Each Modrinth loader name stands for its own loader, and no other name
/// stands for it: `forge` for Forge and `neoforge` for NeoForge, both of the
/// Minecraft version asked for, `fabric`, `paper` and `purpur` for
/// themselves, `minecraft` and `vanilla` for the vanilla server.
pub proof fn lemma_loader_names(name: Seq<char>, mc_version: Seq<char>)
    ensures
        loader_of_name(name, mc_version) == Some(LoaderKind::Forge(mc_version)) <==> name == "forge"@,
        loader_of_name(name, mc_version) == Some(LoaderKind::Neoforge(mc_version)) <==> name == "neoforge"@,
        loader_of_name(name, mc_version) == Some(LoaderKind::Fabric) <==> name == "fabric"@,
        loader_of_name(name, mc_version) == Some(LoaderKind::Paper) <==> name == "paper"@,
        loader_of_name(name, mc_version) == Some(LoaderKind::Purpur) <==> name == "purpur"@,
        loader_of_name(name, mc_version) == Some(LoaderKind::Vanilla) <==> (name == "minecraft"@ || name
            == "vanilla"@),
        loader_of_name(name, mc_version) is None <==> !(name == "forge"@ || name == "neoforge"@ || name
            == "fabric"@ || name == "paper"@ || name == "purpur"@ || name == "minecraft"@ || name == "vanilla"@),
        loader_of_name(name, mc_version) matches Some(LoaderKind::Forge(v)) ==> v == mc_version,
        loader_of_name(name, mc_version) matches Some(LoaderKind::Neoforge(v)) ==> v == mc_version,
{
    reveal_strlit("forge");
    reveal_strlit("neoforge");
    reveal_strlit("fabric");
    reveal_strlit("paper");
    reveal_strlit("purpur");
    reveal_strlit("minecraft");
    reveal_strlit("vanilla");
    assert("forge"@.len() != "neoforge"@.len());
    assert("vanilla"@.len() == 7 && "minecraft"@.len() == 9);
    assert("fabric"@[1] != "forge"@[1]);
    assert("paper"@[1] != "forge"@[1]);
    assert("purpur"@[0] != "fabric"@[0]);
}

/// The loaders of a version are those its names stand for: a loader is
/// among them exactly when one of the names listed stands for it.
pub proof fn lemma_loaders_listed(names: Seq<Seq<char>>, mc_version: Seq<char>, l: LoaderKind)
    ensures
        loaders_of_names(names, mc_version).contains(l) <==> exists|i: int|
            0 <= i < names.len() && loader_of_name(#[trigger] names[i], mc_version) == Some(l),
    decreases names.len(),
{
    if names.len() > 0 {
        let rest = names.drop_last();
        let prev = loaders_of_names(rest, mc_version);
        lemma_loaders_listed(rest, mc_version, l);
        let all = loaders_of_names(names, mc_version);
        if all.contains(l) {
            let k = choose|k: int| 0 <= k < all.len() && all[k] == l;
            if k < prev.len() {
                assert(all[k] == prev[k]);
                assert(prev.contains(l));
                let i = choose|i: int| 0 <= i < rest.len() && loader_of_name(#[trigger] rest[i], mc_version) == Some(l);
                assert(names[i] == rest[i]);
            } else {
                assert(loader_of_name(names[names.len() - 1], mc_version) == Some(l));
            }
        }
        if exists|i: int| 0 <= i < names.len() && loader_of_name(#[trigger] names[i], mc_version) == Some(l) {
            let i = choose|i: int| 0 <= i < names.len() && loader_of_name(#[trigger] names[i], mc_version) == Some(l);
            if i < rest.len() {
                assert(rest[i] == names[i]);
                let k = choose|k: int| 0 <= k < prev.len() && prev[k] == l;
                assert(all[k] == l);
            } else {
                assert(names[i] == names.last());
                assert(all[all.len() - 1] == l);
            }
        }
    }
}

/// A version listing `forge` gives Forge of the Minecraft version asked
/// for, and NeoForge is among the loaders exactly when `neoforge` is
/// listed; every loader given is of one of the names listed.
pub proof fn lemma_forge_and_neoforge(names: Seq<Seq<char>>, mc_version: Seq<char>)
    ensures
        loaders_of_names(names, mc_version).contains(LoaderKind::Forge(mc_version)) <==> names.contains("forge"@),
        loaders_of_names(names, mc_version).contains(LoaderKind::Neoforge(mc_version)) <==> names.contains(
            "neoforge"@,
        ),
        loaders_of_names(names, mc_version).contains(LoaderKind::Fabric) <==> names.contains("fabric"@),
        forall|v: Seq<char>|
            v != mc_version ==> !loaders_of_names(names, mc_version).contains(LoaderKind::Forge(v))
                && !loaders_of_names(names, mc_version).contains(LoaderKind::Neoforge(v)),
{
    lemma_loaders_listed(names, mc_version, LoaderKind::Forge(mc_version));
    lemma_loaders_listed(names, mc_version, LoaderKind::Neoforge(mc_version));
    lemma_loaders_listed(names, mc_version, LoaderKind::Fabric);
    assert forall|i: int| 0 <= i < names.len() implies (loader_of_name(#[trigger] names[i], mc_version) == Some(
        LoaderKind::Forge(mc_version),
    ) <==> names[i] == "forge"@) && (loader_of_name(names[i], mc_version) == Some(LoaderKind::Neoforge(mc_version))
        <==> names[i] == "neoforge"@) && (loader_of_name(names[i], mc_version) == Some(LoaderKind::Fabric)
        <==> names[i] == "fabric"@) by {
        lemma_loader_names(names[i], mc_version);
    }
    assert forall|v: Seq<char>| v != mc_version implies !loaders_of_names(names, mc_version).contains(
        LoaderKind::Forge(v),
    ) && !loaders_of_names(names, mc_version).contains(LoaderKind::Neoforge(v)) by {
        lemma_loaders_listed(names, mc_version, LoaderKind::Forge(v));
        lemma_loaders_listed(names, mc_version, LoaderKind::Neoforge(v));
        assert forall|i: int| 0 <= i < names.len() implies loader_of_name(#[trigger] names[i], mc_version) != Some(
            LoaderKind::Forge(v),
        ) && loader_of_name(names[i], mc_version) != Some(LoaderKind::Neoforge(v)) by {
            lemma_loader_names(names[i], mc_version);
        }
    }
}

/// An addon is a datapack when its version lists the `datapack` loader;
/// otherwise a plugin when the project is in the `plugin` category or the
/// version lists `paper` or `spigot`; otherwise a mod.
pub proof fn lemma_addon_kind(loaders: Seq<Seq<char>>, categories: Seq<Seq<char>>)
    ensures
        loaders.contains("datapack"@) ==> addon_type_spec(loaders, categories) == AddonType::Datapack,
        !loaders.contains("datapack"@) && (categories.contains("plugin"@) || loaders.contains("paper"@)
            || loaders.contains("spigot"@)) ==> addon_type_spec(loaders, categories) == AddonType::Plugin,
        !loaders.contains("datapack"@) && !categories.contains("plugin"@) && !loaders.contains("paper"@)
            && !loaders.contains("spigot"@) ==> addon_type_spec(loaders, categories) == AddonType::Mod,
{
}

/// The projects an addon requires are exactly the project ids of its
/// dependencies of type `required` that name a project.
pub proof fn lemma_required_ids(deps: Seq<AddonDependency>, id: Seq<char>)
    ensures
        required_ids(deps).contains(id) <==> exists|i: int|
            0 <= i < deps.len() && (#[trigger] deps[i]).dependency_type@ == "required"@ && (deps[i].project_id matches Some(
                p,
            ) && p@ == id),
    decreases deps.len(),
{
    if deps.len() > 0 {
        let rest = deps.drop_last();
        let prev = required_ids(rest);
        let all = required_ids(deps);
        lemma_required_ids(rest, id);
        if all.contains(id) {
            let k = choose|k: int| 0 <= k < all.len() && all[k] == id;
            if k < prev.len() {
                assert(all[k] == prev[k]);
                assert(prev.contains(id));
                let i = choose|i: int|
                    0 <= i < rest.len() && (#[trigger] rest[i]).dependency_type@ == "required"@ && (
                    rest[i].project_id matches Some(p) && p@ == id);
                assert(deps[i] == rest[i]);
            } else {
                assert(deps[deps.len() - 1] == deps.last());
            }
        }
        if exists|i: int|
            0 <= i < deps.len() && (#[trigger] deps[i]).dependency_type@ == "required"@ && (deps[i].project_id matches Some(
                p,
            ) && p@ == id) {
            let i = choose|i: int|
                0 <= i < deps.len() && (#[trigger] deps[i]).dependency_type@ == "required"@ && (deps[i].project_id matches Some(
                    p,
                ) && p@ == id);
            if i < rest.len() {
                assert(rest[i] == deps[i]);
                let k = choose|k: int| 0 <= k < prev.len() && prev[k] == id;
                assert(all[k] == id);
            } else {
                assert(deps[i] == deps.last());
                assert(all[all.len() - 1] == id);
            }
        }
    }
}

} // verus!
