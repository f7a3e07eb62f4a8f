use conduit_cli::engine::io::hash::{hash_file, sha1_file, sha256_file};
use conduit_cli::engine::io::project::manifest::{ConduitConfig, InstanceType};
use conduit_cli::engine::io::server::config::ServerConfig;
use conduit_cli::engine::local_mods;
use conduit_cli::engine::manager::add::models::ModSide;
use conduit_cli::engine::mods::inspector::{Dependency, JarInspector, JarJarEntry, JarJarIdentifier, JarJarMetadata, NeoForgeMetadata, NeoForgeModEntry, NeoForgeModsList};
use conduit_cli::engine::mods::local::{add_local_mods_to_project, find_missing_local_mods, process_local_jar, LocalJar};
use conduit_cli::engine::paths::{extension_of, join, path_components_of, path_starts_with_exec, CorePaths};
use conduit_cli::engine::project::initializer::{init_project, InitParams};
use conduit_cli::engine::remover::remove_mod;
use conduit_cli::engine::schemas::ignore::ConduitIgnore;
use conduit_cli::engine::store::{Store, StoreError};
use conduit_cli::engine::ui::log_event;
use conduit_cli::engine::ui::system::{NotificationLevel, SystemEvent};
use conduit_cli::engine::verify::{verify_project, VerifyScope};
use conduit_cli::lock::{ConduitLock, LockedMod};
use conduit_cli::strmap::StrMap;

const SHA256_ABC: &str = "ba7816bf8f01cfea414140de5dae2223b00361a396177a9cb410ff61f20015ad";
const SHA1_ABC: &str = "a9993e364706816aba3e25717850c26c9cd0d89d";
const SHA512_ABC: &str = "ddaf35a193617abacc417349ae20413112e6fa4e89a97ea20a9eeee64b55d39a2192992a274fc1a836ba3c23a3feebbd454d4423643ce80e2a9ac94fa54ca49f";

#[test]
fn digests_in_hex() {
    assert_eq!(sha256_file(b"abc"), SHA256_ABC);
    assert_eq!(sha1_file(b"abc"), SHA1_ABC);
    assert_eq!(Store::new("/s".to_string()).calculate_hash(b"abc"), SHA512_ABC);
    assert_eq!(hash_file(&[0x00, 0xab, 0x0f]), "00ab0f");
}

#[test]
fn store_layout() {
    let s = Store::new("/home/u/.conduit/store".to_string());
    assert_eq!(s.object_path("deadbeef"), "/home/u/.conduit/store/objects/de/deadbeef");
    assert_eq!(
        StoreError::HashMismatch { expected: "a".to_string(), found: "b".to_string() }.message(),
        "integrity check failed: expected a, found b"
    );
    assert_eq!(StoreError::Io("x".to_string()).message(), "io error: x");
}

fn locked(id: &str, file: &str, url: &str, hash: &str, deps: Vec<&str>) -> LockedMod {
    LockedMod {
        id: id.to_string(),
        version_id: "v".to_string(),
        filename: file.to_string(),
        url: url.to_string(),
        hash: hash.to_string(),
        dependencies: deps.into_iter().map(|d| d.to_string()).collect(),
        side: ModSide::Both,
    }
}

fn sample() -> (ConduitConfig, ConduitLock) {
    let mut config = ConduitConfig::default();
    config.mods.insert("a".to_string(), "1".to_string());
    config.mods.insert("b".to_string(), "1".to_string());
    let mut lock = ConduitLock::empty();
    lock.locked_mods.insert("a".to_string(), locked("ida", "a.jar", "u", "h", vec!["idc"]));
    lock.locked_mods.insert("b".to_string(), locked("idb", "b.jar", "u", "h", vec!["idd"]));
    lock.locked_mods.insert("c".to_string(), locked("idc", "c.jar", "u", "h", vec![]));
    lock.locked_mods.insert("d".to_string(), locked("idd", "d.jar", "u", "h", vec!["idc"]));
    (config, lock)
}

#[test]
fn removing_a_root_purges_what_only_it_needed() {
    let (mut config, mut lock) = sample();
    let r = remove_mod("b", &mut config, &mut lock).unwrap();
    assert_eq!(r.removed_slug, "b");
    assert_eq!(r.purged_slugs, vec!["b", "d"]);
    assert!(!config.mods.contains_key("b"));
    assert_eq!(lock.locked_mods.key_list(), vec!["a", "c"]);
}

#[test]
fn removing_an_unknown_mod_changes_nothing() {
    let (mut config, mut lock) = sample();
    assert!(remove_mod("zzz", &mut config, &mut lock).is_none());
    assert_eq!(config.mods.key_list(), vec!["a", "b"]);
    assert_eq!(lock.locked_mods.key_list(), vec!["a", "b", "c", "d"]);
}

#[test]
fn listing_tracks_roots_and_dependencies() {
    let (mut config, lock) = sample();
    config.mods.insert("e".to_string(), "1".to_string());
    let disk = vec!["a.jar".to_string(), "x.jar".to_string(), "c.jar".to_string(), "x.jar".to_string()];
    let r = conduit_cli::engine::lister::build_list_report(&config, &lock, &disk);
    let mut kept = r.tracked_files.clone();
    kept.sort();
    assert_eq!(kept, vec!["a.jar", "b.jar", "c.jar", "d.jar"]);
    assert_eq!(r.missing_root_slugs, vec!["e"]);
    assert_eq!(r.orphan_files, vec!["x.jar"]);
    let mut files = Vec::new();
    conduit_cli::engine::lister::collect_tracked_files("b", &lock, &mut files);
    files.sort();
    assert_eq!(files, vec!["c.jar", "d.jar"]);
    let full = conduit_cli::engine::project::lister::build_list_report(&config, &lock, &disk);
    assert_eq!(full.dependency_map.key_list(), vec!["a", "b", "d"]);
}

#[test]
fn local_mod_keys() {
    assert_eq!(local_mods::local_key("My Cool_Mod-1.2.jar", None), "local:my-cool-mod-1-2");
    assert_eq!(local_mods::local_key("x.jar", Some("CoolMod")), "local:coolmod");
    assert_eq!(local_mods::local_key_from_filename("___.jar"), "my-local-mod");
    assert_eq!(local_mods::local_key_from_filename("--A--b.JAR"), "a-b-jar");
    assert_eq!(local_mods::normalize_path("/srv/mc", "mods/x.jar"), "/srv/mc/mods/x.jar");
    assert_eq!(local_mods::normalize_path("/srv/mc", "/tmp/x.jar"), "/tmp/x.jar");
}

#[test]
fn adding_a_local_jar_records_it() {
    let mut config = ConduitConfig::default();
    let mut lock = ConduitLock::empty();
    let (key, file) = process_local_jar(&mut config, &mut lock, "Fancy Mod.jar", b"abc", None, ModSide::Server, vec![], true);
    assert_eq!(key, "local:fancy-mod");
    assert_eq!(file, "Fancy Mod.jar");
    assert_eq!(config.mods.get("local:fancy-mod").unwrap(), "local");
    let m = lock.locked_mods.get("local:fancy-mod").unwrap();
    assert_eq!(m.id, "local:fancy-mod");
    assert_eq!(m.url, "local");
    assert_eq!(m.hash, SHA256_ABC);
    assert_eq!(m.side, ModSide::Server);
    let missing = find_missing_local_mods(&config, &lock, &vec![]);
    assert_eq!(missing.missing_files, vec!["Fancy Mod.jar"]);
    assert!(missing.missing_lock_entries.is_empty());
    let present = local_mods::find_missing_local_mods(&config, &lock, &vec!["Fancy Mod.jar".to_string()]);
    assert!(present.missing_files.is_empty());
    config.mods.insert("local:gone".to_string(), "local".to_string());
    let missing = find_missing_local_mods(&config, &lock, &vec!["Fancy Mod.jar".to_string()]);
    assert_eq!(missing.missing_lock_entries, vec!["local:gone"]);
}

#[test]
fn verification_sorts_mods() {
    let mut lock = ConduitLock::empty();
    lock.locked_mods.insert("local:a".to_string(), locked("a", "a.jar", "local", &SHA256_ABC.to_uppercase(), vec![]));
    lock.locked_mods.insert("local:b".to_string(), locked("b", "b.jar", "local", "0000", vec![]));
    lock.locked_mods.insert("local:c".to_string(), locked("c", "c.jar", "local", "0000", vec![]));
    lock.locked_mods.insert("remote".to_string(), locked("r", "r.jar", "https://x", SHA1_ABC, vec![]));
    let files = vec![
        ("a.jar".to_string(), b"abc".to_vec()),
        ("b.jar".to_string(), b"abc".to_vec()),
        ("r.jar".to_string(), b"abc".to_vec()),
    ];
    let r = verify_project(&lock, VerifyScope::Local, &files);
    assert_eq!(r.ok, 1);
    assert_eq!(r.mismatch.len(), 1);
    assert_eq!(r.mismatch[0].key, "local:b");
    assert_eq!(r.mismatch[0].actual, SHA256_ABC);
    assert_eq!(r.missing.len(), 1);
    assert_eq!(r.missing[0].filename, "c.jar");
    let r = verify_project(&lock, VerifyScope::Modrinth, &files);
    assert_eq!(r.ok, 1);
    assert!(r.mismatch.is_empty() && r.missing.is_empty());
}

#[test]
fn neoforge_dependencies_needed_from_elsewhere() {
    let mut deps = StrMap::new();
    deps.insert(
        "mymod".to_string(),
        vec![
            Dependency { mod_id: "neoforge".to_string(), dep_type: "required".to_string() },
            Dependency { mod_id: "Minecraft".to_string(), dep_type: "required".to_string() },
            Dependency { mod_id: "geckolib".to_string(), dep_type: "required".to_string() },
            Dependency { mod_id: "jei".to_string(), dep_type: "optional".to_string() },
            Dependency { mod_id: "cloth_config".to_string(), dep_type: "required".to_string() },
            Dependency { mod_id: "architectury".to_string(), dep_type: "required".to_string() },
            Dependency { mod_id: "geckolib".to_string(), dep_type: "required".to_string() },
        ],
    );
    let meta = NeoForgeMetadata { dependencies: Some(deps) };
    let jarjar = JarJarMetadata {
        jars: vec![JarJarEntry { identifier: JarJarIdentifier { artifact: "Cloth-config-neoforge".to_string() } }],
    };
    assert_eq!(JarInspector::inspect_neoforge(&meta, Some(&jarjar)), vec!["architectury", "geckolib"]);
    assert_eq!(JarInspector::inspect_neoforge(&meta, None), vec!["architectury", "cloth_config", "geckolib"]);
    let list = NeoForgeModsList { mods: Some(vec![NeoForgeModEntry { mod_id: "first".to_string() }, NeoForgeModEntry { mod_id: "second".to_string() }]) };
    assert_eq!(JarInspector::extract_primary_mod_id(&list), Some("first".to_string()));
    assert_eq!(JarInspector::extract_primary_mod_id(&NeoForgeModsList { mods: Some(vec![]) }), None);
}

#[test]
fn paths_and_components() {
    let p = CorePaths::from_project_dir("/srv/mc/".to_string(), Some("/data".to_string())).ok().unwrap();
    assert_eq!(p.manifest_path(), "/srv/mc/conduit.json");
    assert_eq!(p.cache_dir(), "/data/conduit/cache");
    assert_eq!(p.loader_libs_dir(), "/srv/mc/libraries");
    assert!(CorePaths::from_project_dir("/x".to_string(), None).is_err());
    assert_eq!(join("a", "/b"), "/b");
    assert_eq!(path_components_of("/a//b/./c/"), vec!["/", "a", "b", "c"]);
    assert_eq!(path_components_of("./a/.."), vec![".", "a", ".."]);
    assert!(path_starts_with_exec("/srv/mc/x", "/srv/mc/"));
    assert!(!path_starts_with_exec("/srv/mcx", "/srv/mc"));
    assert!(path_starts_with_exec("/srv/mc/../etc", "/srv/mc"));
    assert_eq!(extension_of("a/b.tar.gz"), Some("gz".to_string()));
    assert_eq!(extension_of(".hidden"), None);
    assert_eq!(extension_of("dir.d/"), Some("d".to_string()));
    assert_eq!(extension_of("x."), Some("".to_string()));
    assert_eq!(extension_of("a/.."), None);
}

#[test]
fn server_properties_are_patched() {
    let c = ServerConfig::default();
    let out = c.patch_properties("# comment\nserver-port=1\nfoo = bar\n motd =old\r\nblank");
    let lines: Vec<&str> = out.split('\n').collect();
    assert_eq!(lines[0], "# comment");
    assert_eq!(lines[1], "server-port=25565");
    assert_eq!(lines[2], "foo = bar");
    assert_eq!(lines[3], "motd=§bA Minecraft Server §7| §ePowered by Conduit");
    assert_eq!(lines[4], "blank");
    assert_eq!(lines.len(), 5 + 23);
    assert!(lines.contains(&"difficulty=normal"));
    assert!(lines.contains(&"white-list=false"));
    assert!(lines.contains(&"level-type=minecraft:\\:normal"));
}

#[test]
fn new_projects() {
    let (c, s) = init_project(InitParams { name: Some("p".to_string()), instance_type: None, mc_version: None, loader: None });
    assert_eq!(c.name, "p");
    assert_eq!(c.instance_type, InstanceType::Server);
    assert_eq!(c.mc_version, "1.21.1");
    assert_eq!(c.loader, "neoforge@latest");
    assert!(s.is_none());
    let (_, s) = init_project(InitParams { name: None, instance_type: Some(InstanceType::Server), mc_version: None, loader: None });
    assert_eq!(s.unwrap().network.minecraft_port, 25565);
    let (c, s) = init_project(InitParams {
        name: None,
        instance_type: Some(InstanceType::Client),
        mc_version: Some("1.20.1".to_string()),
        loader: Some("fabric".to_string()),
    });
    assert_eq!(c.name, "conduit-project");
    assert_eq!(c.mc_version, "1.20.1");
    assert_eq!(c.loader, "fabric");
    assert!(s.is_none());
    let (existing, created) = ServerConfig::load_or_create(None);
    assert!(created);
    assert_eq!(existing.server.name, "world");
}

#[test]
fn defaults_and_events() {
    assert_eq!(ConduitIgnore::default().rules, vec![".conduit_runtimes/", "cache/", "logs/", "temp/", ".env/"]);
    match log_event("hello") {
        SystemEvent::Log { level: NotificationLevel::Info, message } => assert_eq!(message, "hello"),
        _ => panic!("expected an info log"),
    }
    assert_eq!(InstanceType::Client.to_string(), "client");
}

#[test]
fn adding_jars_with_explicit_dependencies() {
    let mut config = ConduitConfig::default();
    let mut lock = ConduitLock::empty();
    let dep = LocalJar { filename: "Lib-1.0.jar".to_string(), contents: b"abc".to_vec(), mod_id: Some("LibMod".to_string()), detected_side: ModSide::Both };
    let jar = LocalJar { filename: "main.jar".to_string(), contents: b"abc".to_vec(), mod_id: None, detected_side: ModSide::Client };
    let report = add_local_mods_to_project(&mut config, &mut lock, &vec![dep], &vec![jar], None);
    assert_eq!(report.added.len(), 1);
    assert_eq!(report.added[0].key, "local:main");
    assert_eq!(report.added[0].filename, "main.jar");
    assert_eq!(config.mods.key_list(), vec!["local:main"]);
    let lib = lock.locked_mods.get("local:libmod").unwrap();
    assert!(lib.dependencies.is_empty());
    assert_eq!(lib.side, ModSide::Both);
    let main = lock.locked_mods.get("local:main").unwrap();
    assert_eq!(main.dependencies, vec!["local:libmod"]);
    assert_eq!(main.side, ModSide::Client);
    assert_eq!(main.hash, SHA256_ABC);
    let mut config2 = ConduitConfig::default();
    let mut lock2 = ConduitLock::empty();
    let a = LocalJar { filename: "a.jar".to_string(), contents: b"1".to_vec(), mod_id: None, detected_side: ModSide::Client };
    let report = add_local_mods_to_project(&mut config2, &mut lock2, &vec![], &vec![a], Some(ModSide::Server));
    assert_eq!(report.added[0].key, "local:a");
    assert_eq!(lock2.locked_mods.get("local:a").unwrap().side, ModSide::Server);
}

#[test]
fn computed_digests_are_filed_under_their_first_two_digits() {
    let s = Store::new("/store".to_string());
    let h = s.calculate_hash(b"abc");
    assert_eq!(h.len(), 128);
    assert_eq!(s.object_path(&h), format!("/store/objects/dd/{SHA512_ABC}"));
    let again = s.duplicate();
    assert_eq!(again.object_path(&h), s.object_path(&h));
}

#[test]
fn local_slugs_are_stable() {
    let once = local_mods::local_key_from_filename("Weird  Name (v2).jar");
    assert_eq!(once, "weird-name-v2");
    assert_eq!(local_mods::local_key_from_filename(&once), once);
}

#[test]
fn patching_server_properties_twice_changes_nothing() {
    let c = ServerConfig::default();
    for content in ["", "# comment\nserver-port=1\nfoo = bar\n motd =old\r\nblank", "pvp=false\r\nlevel-seed=42\n"] {
        let once = c.patch_properties(content);
        let twice = c.patch_properties(&once);
        assert_eq!(once, twice);
    }
}

#[test]
fn trailing_carriage_return_is_dropped_on_the_second_patch() {
    let c = ServerConfig::default();
    let once = c.patch_properties("note\r");
    let twice = c.patch_properties(&once);
    assert!(once.starts_with("note\r\n"));
    assert!(twice.starts_with("note\n"));
}
