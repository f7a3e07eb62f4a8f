//! The decisions of installing a project's loader: when the cached loader
//! can be linked again, which digest a download is checked against, where
//! the file goes, how the installer runs, and what is tidied afterwards.
use vstd::prelude::*;
use vstd::string::StringSliceAdditionalSpecFns;
use crate::domain::loader::{Loader, LoaderKind};
use crate::engine::paths::{extension_of, extension_spec, join, join_path};
use crate::engine::schemas::lock::{HashKind, InstanceSnapshot};
use crate::engine::schemas::manifest::ProjectInfo;
use crate::text::{
    contains_sub, eq_ignore_ascii_case, has_infix, lemma_split_len, lowercase, parse_u32, parse_u32_spec, split_char,
    split_seq, str_eq, str_eq_ignore_ascii_case, to_lowercase, views,
};

verus! {

pub enum InstallError {
    Api(String),
    Download(String),
    Store(String),
    Io(String),
}

/// The installed instance is the one the manifest asks for.
pub open spec fn same_instance(i: InstanceSnapshot, p: ProjectInfo) -> bool {
    i.loader@ == p.loader@ && i.minecraft_version@ == p.minecraft@
}

/// When the lock names a loader digest and its kind, the digest is not
/// empty and the instance is unchanged, the stored loader is linked again:
/// this gives that digest and kind.
pub fn reusable_loader(instance: &InstanceSnapshot, project: &ProjectInfo) -> (r: Option<(String, HashKind)>)
    ensures
        match r {
            Some((h, k)) => (instance.loader_hash matches Some(h0) && h0@ == h@) && h@.len() > 0
                && instance.hash_kind == Some(k) && same_instance(*instance, *project),
            None => !((instance.loader_hash matches Some(h0) && h0@.len() > 0) && instance.hash_kind is Some
                && same_instance(*instance, *project)),
        },
{
    match (&instance.loader_hash, instance.hash_kind) {
        (Some(h), Some(k)) => {
            if !h.as_str().is_empty() && instance.loader.same_as(&project.loader) && str_eq(
                instance.minecraft_version.as_str(),
                project.minecraft.as_str(),
            ) {
                Some((h.clone(), k))
            } else {
                None
            }
        },
        _ => None,
    }
}

/// Whether the installed runtime must be put aside before installing: a
/// loader was installed and the manifest now asks for another loader or
/// Minecraft version.
pub fn needs_runtime_stash(instance: &InstanceSnapshot, project: &ProjectInfo) -> (b: bool)
    ensures
        b == (instance.loader_hash is Some && !same_instance(*instance, *project)),
{
    instance.loader_hash.is_some() && !(instance.loader.same_as(&project.loader) && str_eq(
        instance.minecraft_version.as_str(),
        project.minecraft.as_str(),
    ))
}

/// The digest a download is checked against: none for an empty digest, a
/// SHA-256 for one of 64 bytes, a SHA-1 otherwise.
pub fn expected_hash(hash: &str) -> (r: Option<crate::domain::source::Hash>)
    ensures
        hash@.len() == 0 <==> r is None,
        r matches Some(h) ==> (if hash.len() == 64 {
            h.sha256 matches Some(s) && s@ == hash@ && h.sha1 is None && h.sha512 is None
        } else {
            h.sha1 matches Some(s) && s@ == hash@ && h.sha256 is None && h.sha512 is None
        }),
{
    if hash.is_empty() {
        return None;
    }
    if hash.len() == 64 {
        Some(crate::domain::source::Hash { sha1: None, sha256: Some(hash.to_string()), sha512: None })
    } else {
        Some(crate::domain::source::Hash { sha1: Some(hash.to_string()), sha256: None, sha512: None })
    }
}

/// A file whose name mentions `installer` is run as an installer from
/// `installer.jar`; any other is the server itself, `server.jar`.
pub fn install_target(project_root: &str, file_name: &str) -> (r: (bool, String))
    ensures
        r.0 == has_infix(file_name@, "installer"@),
        r.1@ == join_path(project_root@, if r.0 { "installer.jar"@ } else { "server.jar"@ }),
{
    let is_installer = contains_sub(file_name, "installer");
    let target = if is_installer {
        join(project_root, "installer.jar")
    } else {
        join(project_root, "server.jar")
    };
    (is_installer, target)
}

/// What the lock records once the loader is installed.
pub fn installed_snapshot(project: &ProjectInfo, final_hash: String, kind: HashKind) -> (r: InstanceSnapshot)
    ensures
        r.minecraft_version@ == project.minecraft@,
        r.loader@ == project.loader@,
        r.loader_hash matches Some(h) && h@ == final_hash@,
        r.hash_kind == Some(kind),
{
    InstanceSnapshot {
        minecraft_version: project.minecraft.clone(),
        loader: project.loader.duplicate(),
        loader_hash: Some(final_hash),
        hash_kind: Some(kind),
    }
}

/// The arguments of `java` that run an installer: Fabric's installs the
/// server of the Minecraft version and downloads Minecraft, the others take
/// `--installServer`.
pub fn installer_args(installer_path: &str, loader: &Loader, minecraft_version: &str) -> (r: Vec<String>)
    ensures
        views(r@) == seq!["-jar"@, installer_path@] + match loader@ {
            LoaderKind::Fabric => seq!["server"@, "-mcversion"@, minecraft_version@, "-downloadMinecraft"@],
            _ => seq!["--installServer"@],
        },
{
    let r = match loader {
        Loader::Fabric => vec![
            "-jar".to_string(),
            installer_path.to_string(),
            "server".to_string(),
            "-mcversion".to_string(),
            minecraft_version.to_string(),
            "-downloadMinecraft".to_string(),
        ],
        _ => vec!["-jar".to_string(), installer_path.to_string(), "--installServer".to_string()],
    };
    assert(views(r@) =~= seq!["-jar"@, installer_path@] + match loader@ {
        LoaderKind::Fabric => seq!["server"@, "-mcversion"@, minecraft_version@, "-downloadMinecraft"@],
        _ => seq!["--installServer"@],
    });
    r
}

/// A Forge build for Minecraft 1.16 or older, whose server jar the
/// installer leaves under another name.
pub open spec fn old_forge_spec(version: Seq<char>) -> bool {
    let parts = split_seq(split_seq(version, '-')[0], '.');
    parts.len() > 1 && (parse_u32_spec(parts[1]) matches Some(v) && v <= 16)
}

pub fn old_forge(version: &str) -> (b: bool)
    ensures
        b == old_forge_spec(version@),
{
    let pieces = split_char(version, '-');
    proof {
        lemma_split_len(version@, '-');
        assert(pieces@[0]@ == views(pieces@)[0]);
    }
    let parts = split_char(pieces[0].as_str(), '.');
    if parts.len() > 1 {
        assert(parts@[1]@ == views(parts@)[1]);
        match parse_u32(parts[1].as_str()) {
            Some(v) => v <= 16,
            None => false,
        }
    } else {
        false
    }
}

/// A name that is the Forge server jar: lower-cased it mentions `forge`,
/// ends in `.jar` and does not mention `installer`.
pub open spec fn forge_server_jar_name(name: Seq<char>) -> bool {
    let lower = lowercase(name);
    has_infix(lower, "forge"@) && (extension_spec(lower) matches Some(e) && eq_ignore_ascii_case(e, "jar"@))
        && !has_infix(lower, "installer"@)
}

/// The first of the listed names that is the Forge server jar.
pub fn forge_server_jar(names: &Vec<String>) -> (r: Option<usize>)
    ensures
        match r {
            Some(i) => i < names@.len() && forge_server_jar_name(names@[i as int]@) && forall|j: int|
                0 <= j < i ==> !forge_server_jar_name(#[trigger] names@[j]@),
            None => forall|j: int| 0 <= j < names@.len() ==> !forge_server_jar_name(#[trigger] names@[j]@),
        },
{
    for i in 0..names.len()
        invariant
            forall|j: int| 0 <= j < i ==> !forge_server_jar_name(#[trigger] names@[j]@),
    {
        let lower = to_lowercase(names[i].as_str());
        let is_jar = match extension_of(lower.as_str()) {
            Some(e) => str_eq_ignore_ascii_case(e.as_str(), "jar"),
            None => false,
        };
        if contains_sub(lower.as_str(), "forge") && is_jar && !contains_sub(lower.as_str(), "installer") {
            return Some(i);
        }
    }
    None
}

/// What is done on disk after an installation: accept the EULA, for an old
/// Forge give its server jar the name `server.jar`, and delete the
/// installer's log and run scripts where they exist.
pub struct PostInstallSteps {
    pub eula_path: String,
    pub eula_text: String,
    pub rename: Option<(String, String)>,
    pub remove_if_present: Vec<String>,
}

pub open spec fn leftover_names() -> Seq<Seq<char>> {
    seq!["installer.jar.log"@, "run.sh"@, "run.bat"@, "user_jvm_args.txt"@]
}

/// Whether the directory listing is needed: only for an old Forge.
pub fn needs_jar_rename(loader: &Loader) -> (b: bool)
    ensures
        b == (loader@ matches LoaderKind::Forge(v) && old_forge_spec(v)),
{
    match loader {
        Loader::Forge { version } => old_forge(version.as_str()),
        _ => false,
    }
}

/// The steps after installing `loader` in `project_root`, whose files are
/// `names` (read only where `needs_jar_rename` says so).
pub fn post_install_steps(loader: &Loader, project_root: &str, names: &Vec<String>) -> (r: PostInstallSteps)
    ensures
        r.eula_path@ == join_path(project_root@, "eula.txt"@),
        r.eula_text@ == "eula=true"@,
        views(r.remove_if_present@) == leftover_names().map_values(|n: Seq<char>| join_path(project_root@, n)),
        match r.rename {
            Some((from, to)) => (loader@ matches LoaderKind::Forge(v) && old_forge_spec(v)) && exists|i: int|
                0 <= i < names@.len() && forge_server_jar_name(names@[i]@) && (forall|j: int|
                    0 <= j < i ==> !forge_server_jar_name(#[trigger] names@[j]@)) && from@ == join_path(
                    project_root@,
                    names@[i]@,
                ) && to@ == join_path(project_root@, "server.jar"@),
            None => !(loader@ matches LoaderKind::Forge(v) && old_forge_spec(v)) || forall|j: int|
                0 <= j < names@.len() ==> !forge_server_jar_name(#[trigger] names@[j]@),
        },
{
    let rename = if needs_jar_rename(loader) {
        match forge_server_jar(names) {
            Some(i) => Some((join(project_root, names[i].as_str()), join(project_root, "server.jar"))),
            None => None,
        }
    } else {
        None
    };
    let list: Vec<&str> = vec!["installer.jar.log", "run.sh", "run.bat", "user_jvm_args.txt"];
    let mut removed: Vec<String> = Vec::new();
    for i in 0..list.len()
        invariant
            list@.map_values(|s: &str| s@) == leftover_names(),
            views(removed@) == leftover_names().take(i as int).map_values(|n: Seq<char>| join_path(project_root@, n)),
    {
        let ghost prev = views(removed@);
        assert(list@[i as int]@ == leftover_names()[i as int]);
        removed.push(join(project_root, list[i]));
        assert(views(removed@) =~= prev.push(join_path(project_root@, leftover_names()[i as int])));
        assert(leftover_names().take(i + 1) =~= leftover_names().take(i as int).push(leftover_names()[i as int]));
        assert(views(removed@) =~= leftover_names().take(i + 1).map_values(|n: Seq<char>| join_path(project_root@, n)));
    }
    proof {
        assert(leftover_names().take(4) =~= leftover_names());
    }
    PostInstallSteps {
        eula_path: join(project_root, "eula.txt"),
        eula_text: "eula=true".to_string(),
        rename,
        remove_if_present: removed,
    }
}

} // verus!
