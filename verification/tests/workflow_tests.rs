use conduit_cli::domain::addon::AddonType;
use conduit_cli::domain::loader::Loader;
use conduit_cli::engine::manager::install_loader::{
    expected_hash, forge_server_jar, install_target, installed_snapshot, installer_args, needs_jar_rename,
    needs_runtime_stash, old_forge, post_install_steps, reusable_loader,
};
use conduit_cli::engine::manager::start::{needs_args_file, select_args_file, setup_loader_args, ArgsCandidate, StartError};
use conduit_cli::engine::io::project::manifest::ConduitConfig;
use conduit_cli::engine::manager::add::mod_handler::{already_installed, record_remote_install, ResolvedRemoteMod};
use conduit_cli::engine::manager::add::models::{ModSide, RemoteSource};
use conduit_cli::lock::ConduitLock;
use conduit_cli::engine::manager::ProjectManager;
use conduit_cli::engine::schemas::lock::{HashKind, InstanceSnapshot, Lockfile};
use conduit_cli::engine::schemas::manifest::{Manifest, ProjectInfo};
use conduit_cli::engine::workflow::Workflow;
use conduit_cli::engine::ConduitContext;
use conduit_cli::errors::ConduitError;

fn manifest(loader: Loader, mc: &str) -> Manifest {
    let mut m = Manifest::default();
    m.project.loader = loader;
    m.project.minecraft = mc.to_string();
    m
}

fn deserialize_message(r: Result<(), ConduitError>) -> String {
    match r {
        Err(ConduitError::Deserialize(m)) => m,
        _ => panic!("expected a refusal"),
    }
}

#[test]
fn defaults_of_the_schemas() {
    let m = Manifest::default();
    assert_eq!(m.project.name, "new-conduit-project");
    assert_eq!(m.project.minecraft, "1.21.11");
    assert!(matches!(m.project.loader, Loader::Vanilla));
    let l = Lockfile::default();
    assert_eq!(l.version, 1);
    assert_eq!(l.instance.minecraft_version, "1.21.11");
    assert!(l.instance.loader_hash.is_none());
    assert!(l.entries.is_empty());
}

#[test]
fn mods_need_a_modding_loader() {
    let w = Workflow { project_root: "/p".to_string() };
    assert_eq!(
        deserialize_message(w.validate_compatibility(AddonType::Mod, &manifest(Loader::Vanilla, "1.21"))),
        "Cannot install Mods on a Vanilla server"
    );
    assert_eq!(
        deserialize_message(w.validate_compatibility(AddonType::Mod, &manifest(Loader::Purpur, "1.21"))),
        "Cannot install Mods on a Purpur server"
    );
    assert!(w.validate_compatibility(AddonType::Mod, &manifest(Loader::Fabric, "1.21")).is_ok());
}

#[test]
fn plugins_need_paper_or_purpur() {
    let w = Workflow { project_root: "/p".to_string() };
    assert!(w.validate_compatibility(AddonType::Plugin, &manifest(Loader::Paper, "1.21")).is_ok());
    assert_eq!(
        deserialize_message(w.validate_compatibility(
            AddonType::Plugin,
            &manifest(Loader::Forge { version: "1.20.1".to_string() }, "1.20.1")
        )),
        "Plugins require Paper/Purpur (current: Forge { version: \"1.20.1\" })"
    );
    assert_eq!(
        deserialize_message(w.validate_compatibility(
            AddonType::Plugin,
            &manifest(Loader::Neoforge { version: "a\"b".to_string() }, "1.21")
        )),
        "Plugins require Paper/Purpur (current: Neoforge { version: \"a\\\"b\" })"
    );
}

#[test]
fn datapacks_need_1_13() {
    let w = Workflow { project_root: "/p".to_string() };
    assert_eq!(
        deserialize_message(w.validate_compatibility(AddonType::Datapack, &manifest(Loader::Vanilla, "1.12.2"))),
        "Datapacks require MC 1.13+"
    );
    assert!(w.validate_compatibility(AddonType::Datapack, &manifest(Loader::Vanilla, "1.13")).is_ok());
    assert!(w.validate_compatibility(AddonType::Datapack, &manifest(Loader::Vanilla, "1")).is_err());
    assert!(w.validate_compatibility(AddonType::Datapack, &manifest(Loader::Vanilla, "1.+20")).is_ok());
}

#[test]
fn modern_forge_versions() {
    assert!(ProjectManager::is_modern_forge("1.20.1-47.2.0"));
    assert!(ProjectManager::is_modern_forge("1.17"));
    assert!(!ProjectManager::is_modern_forge("1.16.5-36.2.39"));
    assert!(ProjectManager::is_modern_forge("25.0"));
    assert!(!ProjectManager::is_modern_forge("abc"));
    assert!(!ProjectManager::is_modern_forge("2.30"));
    let w = Workflow { project_root: "/p".to_string() };
    assert!(w.is_modern_forge("1.18.2-40.1.0"));
}

#[test]
fn old_forge_versions() {
    assert!(old_forge("1.16.5-36.2.39"));
    assert!(old_forge("1.12"));
    assert!(!old_forge("1.17.1"));
    assert!(!old_forge("1"));
    assert!(!old_forge("1.x"));
}

#[test]
fn expected_hash_by_length() {
    assert!(expected_hash("").is_none());
    let h = expected_hash(&"a".repeat(64)).unwrap();
    assert_eq!(h.sha256.as_deref(), Some("a".repeat(64).as_str()));
    assert!(h.sha1.is_none());
    let h = expected_hash("abc").unwrap();
    assert_eq!(h.sha1.as_deref(), Some("abc"));
    assert!(h.sha256.is_none() && h.sha512.is_none());
}

#[test]
fn install_targets_and_args() {
    assert_eq!(install_target("/p", "forge-1.20-installer.jar"), (true, "/p/installer.jar".to_string()));
    assert_eq!(install_target("/p", "paper-1.21.jar"), (false, "/p/server.jar".to_string()));
    assert_eq!(
        installer_args("/p/installer.jar", &Loader::Fabric, "1.21"),
        vec!["-jar", "/p/installer.jar", "server", "-mcversion", "1.21", "-downloadMinecraft"]
    );
    assert_eq!(
        installer_args("/p/installer.jar", &Loader::Forge { version: "1.20".to_string() }, "1.20"),
        vec!["-jar", "/p/installer.jar", "--installServer"]
    );
}

fn snapshot(loader: Loader, mc: &str, hash: Option<&str>, kind: Option<HashKind>) -> InstanceSnapshot {
    InstanceSnapshot {
        minecraft_version: mc.to_string(),
        loader,
        loader_hash: hash.map(|h| h.to_string()),
        hash_kind: kind,
    }
}

fn project(loader: Loader, mc: &str) -> ProjectInfo {
    ProjectInfo { name: "p".to_string(), minecraft: mc.to_string(), loader }
}

#[test]
fn cached_loader_is_reused_only_when_unchanged() {
    let p = project(Loader::Paper, "1.21");
    let s = snapshot(Loader::Paper, "1.21", Some("abc"), Some(HashKind::Sha256));
    assert_eq!(reusable_loader(&s, &p), Some(("abc".to_string(), HashKind::Sha256)));
    let s = snapshot(Loader::Paper, "1.20", Some("abc"), Some(HashKind::Sha256));
    assert_eq!(reusable_loader(&s, &p), None);
    assert!(needs_runtime_stash(&s, &p));
    let s = snapshot(Loader::Paper, "1.21", Some(""), Some(HashKind::Sha1));
    assert_eq!(reusable_loader(&s, &p), None);
    assert!(!needs_runtime_stash(&s, &p));
    let s = snapshot(Loader::Paper, "1.21", Some("abc"), None);
    assert_eq!(reusable_loader(&s, &p), None);
    let s = snapshot(Loader::Fabric, "1.21", None, None);
    assert!(!needs_runtime_stash(&s, &p));
    let q = project(Loader::Neoforge { version: "1.21".to_string() }, "1.21");
    let s = snapshot(Loader::Neoforge { version: "1.21".to_string() }, "1.21", Some("h"), Some(HashKind::Sha1));
    assert!(reusable_loader(&s, &q).is_some());
    let s = snapshot(Loader::Neoforge { version: "1.20".to_string() }, "1.21", Some("h"), Some(HashKind::Sha1));
    assert!(reusable_loader(&s, &q).is_none());
}

#[test]
fn installed_snapshot_records_the_manifest() {
    let p = project(Loader::Forge { version: "1.20.1".to_string() }, "1.20.1");
    let s = installed_snapshot(&p, "deadbeef".to_string(), HashKind::Sha1);
    assert_eq!(s.minecraft_version, "1.20.1");
    assert!(s.loader.same_as(&p.loader));
    assert_eq!(s.loader_hash.as_deref(), Some("deadbeef"));
    assert_eq!(s.hash_kind, Some(HashKind::Sha1));
}

#[test]
fn post_install_renames_old_forge_jar() {
    let names = vec![
        "forge-1.16.5-installer.jar".to_string(),
        "README.txt".to_string(),
        "Forge-1.16.5-36.2.39.JAR".to_string(),
        "forge-other.jar".to_string(),
    ];
    assert_eq!(forge_server_jar(&names), Some(2));
    let old = Loader::Forge { version: "1.16.5-36.2.39".to_string() };
    assert!(needs_jar_rename(&old));
    let steps = post_install_steps(&old, "/p", &names);
    assert_eq!(steps.eula_path, "/p/eula.txt");
    assert_eq!(steps.eula_text, "eula=true");
    assert_eq!(steps.rename, Some(("/p/Forge-1.16.5-36.2.39.JAR".to_string(), "/p/server.jar".to_string())));
    assert_eq!(
        steps.remove_if_present,
        vec!["/p/installer.jar.log", "/p/run.sh", "/p/run.bat", "/p/user_jvm_args.txt"]
    );
    let modern = Loader::Forge { version: "1.20.1-47.2.0".to_string() };
    assert!(!needs_jar_rename(&modern));
    assert_eq!(post_install_steps(&modern, "/p", &names).rename, None);
}

fn cand(full: &str, rel: &str) -> ArgsCandidate {
    ArgsCandidate { full_path: full.to_string(), relative_path: rel.to_string() }
}

#[test]
fn args_file_selection() {
    let c = vec![
        cand("/p/libraries/a/20.4.1/unix_args.txt", "libraries/a/20.4.1/unix_args.txt"),
        cand("/p/libraries/b/21.1.5/unix_args.txt", "libraries/b/21.1.5/unix_args.txt"),
        cand("/p/libraries/c/21.1.5/unix_args.txt", "libraries/c/21.1.5/unix_args.txt"),
    ];
    assert_eq!(select_args_file(&c, "21.1.5"), Some("libraries/b/21.1.5/unix_args.txt".to_string()));
    assert_eq!(select_args_file(&c, "9.9"), Some("libraries/c/21.1.5/unix_args.txt".to_string()));
    assert_eq!(select_args_file(&vec![], "1"), None);
}

#[test]
fn start_arguments_per_loader() {
    let neo = Loader::Neoforge { version: "21.1.5".to_string() };
    assert_eq!(
        setup_loader_args(&neo, Some("libraries/x/unix_args.txt".to_string()), false).ok().unwrap(),
        vec!["@libraries/x/unix_args.txt", "nogui"]
    );
    assert!(matches!(setup_loader_args(&neo, None, false), Err(StartError::NoEntryPoint)));
    let old = Loader::Forge { version: "1.12.2".to_string() };
    assert_eq!(setup_loader_args(&old, None, false).ok().unwrap(), vec!["-jar", "server.jar", "nogui"]);
    assert_eq!(
        setup_loader_args(&Loader::Fabric, None, true).ok().unwrap(),
        vec!["-jar", "fabric-server-launch.jar", "nogui"]
    );
    assert_eq!(setup_loader_args(&Loader::Fabric, None, false).ok().unwrap(), vec!["-jar", "server.jar", "nogui"]);
    assert_eq!(setup_loader_args(&Loader::Paper, None, false).ok().unwrap(), vec!["-jar", "server.jar", "nogui"]);
    let w = Workflow { project_root: "/p".to_string() };
    assert!(matches!(w.setup_loader_args(&neo, None, false), Err(ConduitError::NoEntryPoint)));
    assert_eq!(w.setup_loader_args(&Loader::Vanilla, None, false).ok().unwrap(), vec!["-jar", "server.jar"]);
}

#[test]
fn manager_shares_the_store() {
    let pm = ProjectManager::new(ConduitContext::new("/store".to_string()), "/p".to_string());
    assert_eq!(pm.project_root, "/p");
    assert_eq!(pm.ctx.store.object_path("abcd"), "/store/objects/ab/abcd");
    assert_eq!(pm.resolver.ctx.store.object_path("abcd"), "/store/objects/ab/abcd");
}

#[test]
fn error_messages() {
    assert_eq!(ConduitError::NotInstalled.message(), "lockfile not found, please install first");
    assert_eq!(
        ConduitError::HashMismatch { expected: "a".to_string(), actual: "b".to_string() }.message(),
        "hash mismatch: expected a, got b"
    );
    assert_eq!(ConduitError::Io("boom".to_string()).message(), "io error: boom");
    assert_eq!(
        ConduitError::NoEntryPoint.message(),
        "could not find a valid entry point (server.jar or args file)"
    );
}

#[test]
fn remote_install_records_manifest_and_lock() {
    let mut config = ConduitConfig::default();
    let mut lock = ConduitLock::empty();
    let source = RemoteSource::Modrinth { slug: "create".to_string(), version: None };
    assert_eq!(source.slug(), "create");
    assert!(!already_installed(&lock, &source));
    let resolved = ResolvedRemoteMod {
        slug: "create".to_string(),
        id: "LNytGWDc".to_string(),
        version_id: "v1".to_string(),
        filename: "create.jar".to_string(),
        download_url: "https://cdn/create.jar".to_string(),
        hash: "h".to_string(),
        deps: vec![
            RemoteSource::Modrinth { slug: "flywheel".to_string(), version: None },
            RemoteSource::Modrinth { slug: "create".to_string(), version: None },
        ],
    };
    let next = record_remote_install(&mut config, &mut lock, &source, resolved, false);
    assert!(already_installed(&lock, &source));
    assert_eq!(config.mods.get("create").unwrap(), "latest");
    let m = lock.locked_mods.get("create").unwrap();
    assert_eq!(m.dependencies, vec!["flywheel", "create"]);
    assert_eq!(m.side, ModSide::Both);
    assert_eq!(next.len(), 1);
    assert_eq!(next[0].slug(), "flywheel");
    let dep = RemoteSource::Modrinth { slug: "flywheel".to_string(), version: Some("1.0".to_string()) };
    let resolved = ResolvedRemoteMod {
        slug: "flywheel".to_string(),
        id: "fw".to_string(),
        version_id: "v".to_string(),
        filename: "fw.jar".to_string(),
        download_url: "u".to_string(),
        hash: "h".to_string(),
        deps: vec![],
    };
    let next = record_remote_install(&mut config, &mut lock, &dep, resolved, true);
    assert!(next.is_empty());
    assert!(config.mods.get("flywheel").is_none());
    assert!(lock.locked_mods.get("flywheel").is_some());
}

#[test]
fn args_file_needed_only_by_file_launched_loaders() {
    assert!(needs_args_file(&Loader::Neoforge { version: "21.1".to_string() }));
    assert!(needs_args_file(&Loader::Forge { version: "1.20.1-47".to_string() }));
    assert!(!needs_args_file(&Loader::Forge { version: "1.12.2".to_string() }));
    assert!(!needs_args_file(&Loader::Fabric));
}
