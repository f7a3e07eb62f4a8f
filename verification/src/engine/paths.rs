//! Where a project keeps its files. Paths are `/`-separated strings.
use vstd::prelude::*;
use crate::engine::error::CoreError;
use crate::text::{chars_of, concat2, concat3, split_char, lemma_split_len, views};

verus! {

pub open spec fn is_absolute(p: Seq<char>) -> bool {
    p.len() > 0 && p[0] == '/'
}

/// `base` joined with `p`, as `Path::join` joins `/`-separated paths: an
/// absolute `p` replaces `base`; otherwise a `/` goes between them unless
/// `base` is empty or already ends with one.
pub open spec fn join_path(base: Seq<char>, p: Seq<char>) -> Seq<char> {
    if is_absolute(p) {
        p
    } else if base.len() == 0 {
        p
    } else if base.last() == '/' {
        base + p
    } else {
        base + seq!['/'] + p
    }
}

pub fn path_is_absolute(p: &str) -> (b: bool)
    ensures
        b == is_absolute(p@),
{
    let v = chars_of(p);
    v.len() > 0 && v[0] == '/'
}

pub fn join(base: &str, p: &str) -> (r: String)
    ensures
        r@ == join_path(base@, p@),
{
    if path_is_absolute(p) {
        return p.to_owned();
    }
    let b = chars_of(base);
    if b.len() == 0 {
        p.to_owned()
    } else if b[b.len() - 1] == '/' {
        concat2(base, p)
    } else {
        let r = concat3(base, "/", p);
        proof { reveal_strlit("/"); }
        assert(r@ =~= base@ + seq!['/'] + p@);
        r
    }
}

/// The paths of a project.
pub struct CorePaths {
    pub project_dir: String,
    pub manifest_path: String,
    pub lock_path: String,
    pub mods_dir: String,
    pub cache_dir: String,
    pub config_path: String,
}

impl CorePaths {
    /// The paths of the project in `project_dir`; the cache lives in
    /// `conduit/cache` under the user's local data folder, and without one
    /// there is no project.
    pub fn from_project_dir(project_dir: String, data_local_dir: Option<String>) -> (r: Result<CorePaths, CoreError>)
        ensures
            data_local_dir is None <==> r is Err,
            r matches Err(e) ==> e is MissingLocalDataDir,
            r matches Ok(p) ==> {
                &&& p.project_dir@ == project_dir@
                &&& p.manifest_path@ == join_path(project_dir@, "conduit.json"@)
                &&& p.lock_path@ == join_path(project_dir@, "conduit.lock"@)
                &&& p.config_path@ == join_path(project_dir@, "config.toml"@)
                &&& p.mods_dir@ == join_path(project_dir@, "mods"@)
                &&& p.cache_dir@ == join_path(join_path(data_local_dir.unwrap()@, "conduit"@), "cache"@)
            },
    {
        let data = match data_local_dir {
            Some(d) => d,
            None => return Err(CoreError::MissingLocalDataDir),
        };
        let conduit = join(data.as_str(), "conduit");
        let cache_dir = join(conduit.as_str(), "cache");
        Ok(CorePaths {
            manifest_path: join(project_dir.as_str(), "conduit.json"),
            lock_path: join(project_dir.as_str(), "conduit.lock"),
            config_path: join(project_dir.as_str(), "config.toml"),
            mods_dir: join(project_dir.as_str(), "mods"),
            project_dir,
            cache_dir,
        })
    }

    pub fn manifest_path(&self) -> (r: &str)
        ensures
            r@ == self.manifest_path@,
    {
        self.manifest_path.as_str()
    }

    pub fn config_path(&self) -> (r: &str)
        ensures
            r@ == self.config_path@,
    {
        self.config_path.as_str()
    }

    pub fn project_dir(&self) -> (r: &str)
        ensures
            r@ == self.project_dir@,
    {
        self.project_dir.as_str()
    }

    pub fn lock_path(&self) -> (r: &str)
        ensures
            r@ == self.lock_path@,
    {
        self.lock_path.as_str()
    }

    pub fn mods_dir(&self) -> (r: &str)
        ensures
            r@ == self.mods_dir@,
    {
        self.mods_dir.as_str()
    }

    pub fn cache_dir(&self) -> (r: &str)
        ensures
            r@ == self.cache_dir@,
    {
        self.cache_dir.as_str()
    }

    /// Where the loader's libraries go: `libraries` in the project.
    pub fn loader_libs_dir(&self) -> (r: String)
        ensures
            r@ == join_path(self.project_dir@, "libraries"@),
    {
        join(self.project_dir.as_str(), "libraries")
    }

    /// Where an installed NeoForge version keeps its argument files:
    /// `net/neoforged/neoforge/<version>` under the loader's libraries.
    pub fn neoforge_version_dir(&self, version: &str) -> (r: String)
        ensures
            r@ == join_path(join_path(join_path(self.project_dir@, "libraries"@), "net/neoforged/neoforge"@), version@),
    {
        let libs = self.loader_libs_dir();
        let base = join(libs.as_str(), "net/neoforged/neoforge");
        join(base.as_str(), version)
    }
}

} // verus!

verus! {

// ---------------------------------------------------------------- components

/// The pieces of a path that name something: the pieces between `/` other
/// than empty ones and `.`.
pub open spec fn normal_parts(pieces: Seq<Seq<char>>) -> Seq<Seq<char>>
    decreases pieces.len(),
{
    if pieces.len() == 0 {
        Seq::empty()
    } else if pieces.last().len() == 0 || pieces.last() == "."@ {
        normal_parts(pieces.drop_last())
    } else {
        normal_parts(pieces.drop_last()).push(pieces.last())
    }
}

/// The components of a `/`-separated path as `Path::components` yields
/// them: `/` for the root of an absolute path, `.` for a relative path that
/// begins with `.`, then the pieces that name something (so repeated and
/// trailing `/` and inner `.` are not seen).
pub open spec fn path_components(p: Seq<char>) -> Seq<Seq<char>> {
    let pieces = crate::text::split_seq(p, '/');
    let head: Seq<Seq<char>> = if is_absolute(p) {
        seq!["/"@]
    } else if pieces[0] == "."@ {
        seq!["."@]
    } else {
        Seq::empty()
    };
    head + normal_parts(pieces)
}

/// `Path::starts_with`: the components of `base` begin those of `p`.
pub open spec fn path_starts_with(p: Seq<char>, base: Seq<char>) -> bool {
    let a = path_components(p);
    let b = path_components(base);
    b.len() <= a.len() && a.take(b.len() as int) == b
}

/// The last component of a path, unless it is `..` or there is none that
/// names something (`Path::file_name`).
pub open spec fn file_name_spec(p: Seq<char>) -> Option<Seq<char>> {
    let parts = normal_parts(crate::text::split_seq(p, '/'));
    if parts.len() == 0 || parts.last() == ".."@ {
        None
    } else {
        Some(parts.last())
    }
}

/// The position of the last `.` in `s`, or -1.
pub open spec fn last_dot(s: Seq<char>) -> int
    decreases s.len(),
{
    if s.len() == 0 {
        -1
    } else if s.last() == '.' {
        s.len() - 1
    } else {
        last_dot(s.drop_last())
    }
}

/// The extension of a file name: what follows its last `.`, where that dot
/// is not the first character (`Path::extension` on the name).
pub open spec fn name_extension(name: Seq<char>) -> Option<Seq<char>> {
    if name == ".."@ || last_dot(name) <= 0 {
        None
    } else {
        Some(name.skip(last_dot(name) + 1))
    }
}

pub open spec fn extension_spec(p: Seq<char>) -> Option<Seq<char>> {
    match file_name_spec(p) {
        Some(n) => name_extension(n),
        None => None,
    }
}

proof fn lemma_last_dot_bounds(s: Seq<char>)
    ensures
        -1 <= last_dot(s) < s.len(),
        last_dot(s) >= 0 ==> s[last_dot(s)] == '.',
        forall|j: int| last_dot(s) < j < s.len() ==> s[j] != '.',
    decreases s.len(),
{
    if s.len() > 0 && s.last() != '.' {
        lemma_last_dot_bounds(s.drop_last());
        assert forall|j: int| last_dot(s) < j < s.len() implies s[j] != '.' by {
            if j < s.len() - 1 {
                assert(s[j] == s.drop_last()[j]);
            }
        }
    }
}

/// The extension of a file name.
pub fn name_extension_of(name: &str) -> (r: Option<String>)
    ensures
        match r {
            Some(e) => name_extension(name@) == Some(e@),
            None => name_extension(name@) is None,
        },
{
    let v = crate::text::chars_of(name);
    if crate::text::str_eq(name, "..") {
        return None;
    }
    let mut i: usize = v.len();
    while i > 0 && v[i - 1] != '.'
        invariant
            i <= v@.len(),
            v@ == name@,
            forall|j: int| i <= j < v@.len() ==> v@[j] != '.',
        decreases i,
    {
        i = i - 1;
    }
    proof {
        lemma_last_dot_bounds(name@);
        if i > 0 {
            assert(v@[i - 1] == '.');
            assert(last_dot(name@) == i - 1) by {
                if last_dot(name@) > i - 1 {
                    assert(name@[last_dot(name@)] == '.');
                }
                if last_dot(name@) < i - 1 {
                    assert(name@[i - 1] == '.');
                }
            }
        } else {
            assert(last_dot(name@) == -1) by {
                if last_dot(name@) >= 0 {
                    assert(name@[last_dot(name@)] == '.');
                }
            }
        }
    }
    if i <= 1 {
        return None;
    }
    let e = crate::text::string_of_range(&v, i, v.len());
    assert(e@ =~= name@.skip(i as int));
    Some(e)
}


/// The pieces of `pieces` that name something.
fn normal_parts_of(pieces: &Vec<String>) -> (r: Vec<String>)
    ensures
        views(r@) == normal_parts(views(pieces@)),
{
    let mut r: Vec<String> = Vec::new();
    for i in 0..pieces.len()
        invariant
            views(r@) == normal_parts(views(pieces@).take(i as int)),
    {
        proof {
            assert(views(pieces@).take(i + 1).drop_last() =~= views(pieces@).take(i as int));
            assert(views(pieces@).take(i + 1).last() == pieces@[i as int]@);
            reveal_strlit("");
        }
        let is_empty = crate::text::str_eq(pieces[i].as_str(), "");
        let is_dot = crate::text::str_eq(pieces[i].as_str(), ".");
        if !(is_empty || is_dot) {
            let ghost piece = views(pieces@).take(i + 1).last();
            assert(piece.len() != 0) by {
                if piece.len() == 0 {
                    assert(piece =~= ""@);
                }
            }
            assert(normal_parts(views(pieces@).take(i + 1)) == normal_parts(views(pieces@).take(i as int)).push(piece));
            let ghost prev = views(r@);
            r.push(pieces[i].clone());
            assert(views(r@) =~= prev.push(pieces@[i as int]@));
        } else {
            let ghost piece = views(pieces@).take(i + 1).last();
            assert(piece.len() == 0 || piece == "."@);
            assert(normal_parts(views(pieces@).take(i + 1)) == normal_parts(views(pieces@).take(i as int)));
        }
    }
    assert(views(pieces@).take(pieces@.len() as int) =~= views(pieces@));
    r
}

/// The components of a path, as `Path::components` yields them.
pub fn path_components_of(p: &str) -> (r: Vec<String>)
    ensures
        views(r@) == path_components(p@),
{
    let pieces = split_char(p, '/');
    proof {
        lemma_split_len(p@, '/');
        assert(pieces@[0]@ == views(pieces@)[0]);
    }
    let mut r: Vec<String> = Vec::new();
    if path_is_absolute(p) {
        r.push("/".to_string());
    } else if crate::text::str_eq(pieces[0].as_str(), ".") {
        r.push(".".to_string());
    }
    let rest = normal_parts_of(&pieces);
    let ghost head = views(r@);
    let ghost pieces_v = views(pieces@);
    for i in 0..rest.len()
        invariant
            views(r@) == head + views(rest@).take(i as int),
    {
        let ghost prev = views(r@);
        r.push(rest[i].clone());
        assert(views(r@) =~= prev.push(rest@[i as int]@));
        assert(views(rest@).take(i + 1) =~= views(rest@).take(i as int).push(rest@[i as int]@));
    }
    proof {
        assert(views(rest@).take(rest@.len() as int) =~= views(rest@));
        assert(views(r@) =~= path_components(p@));
    }
    r
}

/// `Path::starts_with`: whether the components of `base` begin those of `p`.
pub fn path_starts_with_exec(p: &str, base: &str) -> (b: bool)
    ensures
        b == path_starts_with(p@, base@),
{
    let a = path_components_of(p);
    let c = path_components_of(base);
    if c.len() > a.len() {
        return false;
    }
    for i in 0..c.len()
        invariant
            c@.len() <= a@.len(),
            views(a@) == path_components(p@),
            views(c@) == path_components(base@),
            forall|j: int| 0 <= j < i ==> #[trigger] views(a@)[j] == views(c@)[j],
    {
        if !crate::text::str_eq(a[i].as_str(), c[i].as_str()) {
            assert(views(a@).take(c@.len() as int)[i as int] != views(c@)[i as int]);
            return false;
        }
    }
    assert(views(a@).take(c@.len() as int) =~= views(c@));
    true
}

/// The extension of the last component of a path (`Path::extension`).
pub fn extension_of(p: &str) -> (r: Option<String>)
    ensures
        match r {
            Some(e) => extension_spec(p@) == Some(e@),
            None => extension_spec(p@) is None,
        },
{
    let pieces = split_char(p, '/');
    let parts = normal_parts_of(&pieces);
    if parts.len() == 0 {
        return None;
    }
    let last = &parts[parts.len() - 1];
    assert(last@ == views(parts@).last());
    if crate::text::str_eq(last.as_str(), "..") {
        return None;
    }
    name_extension_of(last.as_str())
}

} // verus!
