//! Mod loaders: how a `name@version` string is read, and the steps that
//! follow an installation.
use vstd::prelude::*;
use crate::engine::paths::{join, join_path};
use crate::text::{lemma_split_len, split_char, split_seq, views};

pub mod neoforge;
pub mod vanilla;

verus! {

/// A loader named by a `name@version` string.
pub struct LoaderInfo {
    pub name: String,
    pub version: String,
}

/// The name is what comes before the first `@`; the version what lies
/// between the first and the second `@`, or `latest` where there is no `@`.
pub open spec fn loader_name_spec(s: Seq<char>) -> Seq<char> {
    split_seq(s, '@')[0]
}

pub open spec fn loader_version_spec(s: Seq<char>) -> Seq<char> {
    if split_seq(s, '@').len() > 1 {
        split_seq(s, '@')[1]
    } else {
        "latest"@
    }
}

impl LoaderInfo {
    pub fn parse(loader_str: &str) -> (r: LoaderInfo)
        ensures
            r.name@ == loader_name_spec(loader_str@),
            r.version@ == loader_version_spec(loader_str@),
    {
        let parts = split_char(loader_str, '@');
        proof {
            lemma_split_len(loader_str@, '@');
            assert(parts@[0]@ == views(parts@)[0]);
        }
        let name = parts[0].clone();
        let version = if parts.len() > 1 {
            assert(parts@[1]@ == views(parts@)[1]);
            parts[1].clone()
        } else {
            "latest".to_string()
        };
        LoaderInfo { name, version }
    }
}

pub enum LoaderType {
    NeoForge,
    Vanilla,
}

/// What is left to do on disk once an installer has run: write `eula.txt`
/// with `eula=true`, delete the listed files where they exist, create the
/// listed directories where they are missing, and make one file executable.
pub struct PostInstallPlan {
    pub eula_path: String,
    pub eula_text: String,
    pub remove_if_present: Vec<String>,
    pub create_dirs: Vec<String>,
    pub make_executable: String,
}

pub open spec fn joined_all(dir: Seq<char>, names: Seq<Seq<char>>) -> Seq<Seq<char>> {
    names.map_values(|n: Seq<char>| join_path(dir, n))
}

pub open spec fn neoforge_leftovers() -> Seq<Seq<char>> {
    seq!["neoforge-installer.jar.log"@, "installer.log"@, "run.sh"@, "run.bat"@, "user_jvm_args.txt"@]
}

/// Joins each name onto `dir`.
fn join_each(dir: &str, names: &Vec<&str>) -> (r: Vec<String>)
    ensures
        views(r@) == names@.map_values(|n: &str| join_path(dir@, n@)),
{
    let mut r: Vec<String> = Vec::new();
    for i in 0..names.len()
        invariant
            views(r@) == names@.take(i as int).map_values(|n: &str| join_path(dir@, n@)),
    {
        let ghost prev = views(r@);
        r.push(join(dir, names[i]));
        assert(views(r@) =~= prev.push(join_path(dir@, names@[i as int]@)));
        assert(names@.take(i + 1) =~= names@.take(i as int).push(names@[i as int]));
        assert(views(r@) =~= names@.take(i + 1).map_values(|n: &str| join_path(dir@, n@)));
    }
    assert(names@.take(names@.len() as int) =~= names@);
    r
}

/// The steps after the NeoForge installer: accept the EULA, remove the
/// installer's logs and run scripts, and make `run.sh` executable.
pub fn post_install_neoforge(install_path: &str) -> (r: PostInstallPlan)
    ensures
        r.eula_path@ == join_path(install_path@, "eula.txt"@),
        r.eula_text@ == "eula=true"@,
        views(r.remove_if_present@) == joined_all(install_path@, neoforge_leftovers()),
        r.create_dirs@.len() == 0,
        r.make_executable@ == join_path(install_path@, "run.sh"@),
{
    let names: Vec<&str> = vec!["neoforge-installer.jar.log", "installer.log", "run.sh", "run.bat", "user_jvm_args.txt"];
    let removed = join_each(install_path, &names);
    proof {
        assert(names@.map_values(|n: &str| join_path(install_path@, n@))
            =~= joined_all(install_path@, neoforge_leftovers()));
    }
    PostInstallPlan {
        eula_path: join(install_path, "eula.txt"),
        eula_text: "eula=true".to_string(),
        remove_if_present: removed,
        create_dirs: Vec::new(),
        make_executable: join(install_path, "run.sh"),
    }
}

/// The steps after the Vanilla server jar is in place: accept the EULA,
/// create `logs` and `world`, and make `server.jar` executable.
pub fn post_install_vanilla(install_path: &str) -> (r: PostInstallPlan)
    ensures
        r.eula_path@ == join_path(install_path@, "eula.txt"@),
        r.eula_text@ == "eula=true"@,
        r.remove_if_present@.len() == 0,
        views(r.create_dirs@) == joined_all(install_path@, seq!["logs"@, "world"@]),
        r.make_executable@ == join_path(install_path@, "server.jar"@),
{
    let names: Vec<&str> = vec!["logs", "world"];
    let dirs = join_each(install_path, &names);
    proof {
        assert(names@.map_values(|n: &str| join_path(install_path@, n@))
            =~= joined_all(install_path@, seq!["logs"@, "world"@]));
    }
    PostInstallPlan {
        eula_path: join(install_path, "eula.txt"),
        eula_text: "eula=true".to_string(),
        remove_if_present: Vec::new(),
        create_dirs: dirs,
        make_executable: join(install_path, "server.jar"),
    }
}

impl LoaderType {
    /// The steps that follow this loader's installer in `install_path`.
    pub fn post_install(&self, install_path: &str) -> (r: PostInstallPlan)
        ensures
            r.eula_path@ == join_path(install_path@, "eula.txt"@),
            r.eula_text@ == "eula=true"@,
            match self {
                LoaderType::NeoForge => {
                    &&& views(r.remove_if_present@) == joined_all(install_path@, neoforge_leftovers())
                    &&& r.create_dirs@.len() == 0
                    &&& r.make_executable@ == join_path(install_path@, "run.sh"@)
                },
                LoaderType::Vanilla => {
                    &&& r.remove_if_present@.len() == 0
                    &&& views(r.create_dirs@) == joined_all(install_path@, seq!["logs"@, "world"@])
                    &&& r.make_executable@ == join_path(install_path@, "server.jar"@)
                },
            },
    {
        match self {
            LoaderType::NeoForge => post_install_neoforge(install_path),
            LoaderType::Vanilla => post_install_vanilla(install_path),
        }
    }
}

} // verus!
