use conduit_cli::engine::error::CoreError;
use conduit_cli::engine::io::modpack::conduit::{export_folders, export_keeps, export_zip_path, import_plan, ConduitProvider};
use conduit_cli::engine::io::modpack::{get_provider, ModpackProvider, PackFormat, ZipEntryInfo};
use conduit_cli::engine::io::project::manifest::{ConduitConfig, InstanceType};
use conduit_cli::engine::manager::add::models::ModSide;
use conduit_cli::lock::{ConduitLock, LockedMod};

fn entry(name: &str, size: u64, compressed: u64) -> ZipEntryInfo {
    ZipEntryInfo {
        name: name.to_string(),
        is_dir: name.ends_with('/'),
        is_file: !name.ends_with('/'),
        size,
        compressed_size: compressed,
    }
}

fn runtime_message(r: Result<u64, CoreError>) -> String {
    match r {
        Err(CoreError::RuntimeError(m)) => m,
        _ => panic!("expected a runtime error"),
    }
}

#[test]
fn dangerous_extensions() {
    assert!(ConduitProvider::is_dangerous("exe"));
    assert!(ConduitProvider::is_dangerous("EXE"));
    assert!(ConduitProvider::is_dangerous("Sh"));
    assert!(!ConduitProvider::is_dangerous("jar"));
    assert!(!ConduitProvider::is_dangerous("exe "));
}

#[test]
fn zip_entry_limits() {
    assert_eq!(ConduitProvider::validate_zip_entry("a", 10, 5, 100).ok(), Some(110));
    assert_eq!(
        runtime_message(ConduitProvider::validate_zip_entry("big.bin", 524288001, 524288001, 0)),
        "File too large: big.bin"
    );
    assert_eq!(ConduitProvider::validate_zip_entry("edge", 524288000, 0, 0).ok(), Some(524288000));
    assert_eq!(
        runtime_message(ConduitProvider::validate_zip_entry("bomb", 2_000_000, 1_000, 0)),
        "Abnormal compression ratio: bomb"
    );
    assert_eq!(ConduitProvider::validate_zip_entry("small", 1_000_000, 1, 0).ok(), Some(1_000_000));
    assert_eq!(ConduitProvider::validate_zip_entry("ratio200", 2_000_000, 10_000, 0).ok(), Some(2_000_000));
    assert_eq!(
        runtime_message(ConduitProvider::validate_zip_entry("last", 10, 10, 2147483640)),
        "Pack exceeds total size limit"
    );
    assert_eq!(ConduitProvider::validate_zip_entry("fits", 8, 8, 2147483640).ok(), Some(2147483648));
}

#[test]
fn analyze_lists_files_and_flags() {
    let entries = vec![
        entry("conduit.json", 10, 5),
        entry("overrides/", 0, 0),
        entry("overrides/mods/Local.JAR", 100, 90),
        entry("scripts/run.SH", 5, 5),
        entry("overrides/config/a.toml", 3, 3),
        entry("tools/x.exe", 1, 1),
        entry("README", 1, 1),
    ];
    let a = get_provider(&PackFormat::Conduit).analyze(&entries).ok().unwrap();
    assert_eq!(
        a.files,
        vec![
            "conduit.json",
            "overrides/mods/Local.JAR",
            "scripts/run.SH",
            "overrides/config/a.toml",
            "tools/x.exe",
            "README"
        ]
    );
    assert_eq!(a.extensions, vec!["json", "jar", "sh", "toml", "exe"]);
    assert_eq!(a.dangerous_count, 2);
    assert_eq!(a.local_jars_count, 1);
    assert_eq!(
        a.suspicious_files,
        vec!["[LOCAL JAR] overrides/mods/Local.JAR", "[DANGER] scripts/run.SH", "[DANGER] tools/x.exe"]
    );
}

#[test]
fn analyze_stops_at_a_refused_entry() {
    let entries = vec![entry("a.txt", 1, 1), entry("huge.bin", 600_000_000, 600_000_000)];
    match ConduitProvider.analyze(&entries) {
        Err(CoreError::RuntimeError(m)) => assert_eq!(m, "File too large: huge.bin"),
        _ => panic!("expected a refusal"),
    }
}

#[test]
fn import_maps_overrides_into_the_project() {
    let entries = vec![
        entry("conduit.json", 10, 5),
        entry("overrides/config/", 0, 0),
        entry("overrides/config/a.toml", 3, 3),
        entry("conduit.LOCK", 4, 4),
    ];
    let plan = import_plan("/srv/mc", &entries);
    assert!(plan.error.is_none());
    let outs: Vec<(String, bool, bool)> =
        plan.steps.iter().map(|s| (s.out_path.clone(), s.is_dir, s.announce)).collect();
    assert_eq!(
        outs,
        vec![
            ("/srv/mc/conduit.json".to_string(), false, true),
            ("/srv/mc/config/".to_string(), true, false),
            ("/srv/mc/config/a.toml".to_string(), false, false),
            ("/srv/mc/conduit.LOCK".to_string(), false, true),
        ]
    );
}

#[test]
fn import_refuses_absolute_paths_after_earlier_steps() {
    let entries = vec![entry("a.txt", 1, 1), entry("/etc/passwd", 1, 1), entry("b.txt", 1, 1)];
    let plan = ConduitProvider.import("/srv/mc", &entries);
    assert_eq!(plan.steps.len(), 1);
    assert_eq!(plan.steps[0].out_path, "/srv/mc/a.txt");
    match plan.error {
        Some(CoreError::RuntimeError(m)) => assert_eq!(m, "Invalid path in ZIP: /etc/passwd"),
        _ => panic!("expected a refusal"),
    }
}

#[test]
fn import_checks_sizes_of_every_entry() {
    let entries = vec![entry("a/", 0, 0), entry("b.bin", 2_147_483_000, 2_147_483_000)];
    let plan = import_plan("/p", &entries);
    assert_eq!(plan.steps.len(), 1);
    assert!(matches!(plan.error, Some(CoreError::RuntimeError(_))));
}

fn locked(file: &str) -> LockedMod {
    LockedMod {
        id: "id".to_string(),
        version_id: "v".to_string(),
        filename: file.to_string(),
        url: "local".to_string(),
        hash: "h".to_string(),
        dependencies: vec![],
        side: ModSide::Both,
    }
}

#[test]
fn export_plan_carries_local_jars() {
    let mut lock = ConduitLock::empty();
    lock.locked_mods.insert("local:a".to_string(), locked("a.jar"));
    lock.locked_mods.insert("sodium".to_string(), locked("sodium.jar"));
    lock.locked_mods.insert("f:b".to_string(), locked("b.jar"));
    lock.locked_mods.insert("file:c".to_string(), locked("a.jar"));
    let mut manifest = ConduitConfig::default();
    manifest.name = "pack".to_string();
    manifest.instance_type = InstanceType::Client;
    let plan = ConduitProvider.export(&manifest, Some(&lock), true, false, true, "0.3.1");
    assert_eq!(plan.local_mod_filenames, vec!["b.jar", "a.jar"]);
    assert_eq!(plan.metadata.conduit.version, "0.3.1");
    assert_eq!(plan.metadata.conduit.format_version, 1);
    assert_eq!(plan.metadata.pack.title, "pack");
    assert_eq!(plan.metadata.pack.creator.as_deref(), Some("Conduit User"));
    assert_eq!(plan.metadata.pack.pack_type, InstanceType::Client);
    assert!(!plan.metadata.content.has_configs);
    assert!(plan.metadata.content.has_mods_overrides);
    assert_eq!(plan.folders, vec!["config", "mods"]);
    let none = ConduitProvider.export(&manifest, None, false, true, false, "1");
    assert!(none.local_mod_filenames.is_empty());
    assert!(!none.metadata.content.has_mods_overrides);
    assert!(none.folders.is_empty());
}

#[test]
fn export_file_rules() {
    let locals = vec!["a.jar".to_string()];
    assert!(export_keeps("mods", "a.jar", &locals));
    assert!(!export_keeps("mods", "b.jar", &locals));
    assert!(export_keeps("config", "b.jar", &locals));
    assert_eq!(export_folders(false, true), vec!["mods"]);
    assert_eq!(export_zip_path("config\\sub\\x.toml"), "overrides/config/sub/x.toml");
    assert_eq!(export_zip_path("mods/a.jar"), "overrides/mods/a.jar");
}

#[test]
fn imported_paths_stay_under_the_target() {
    let entries = vec![entry("overrides/a/b.txt", 1, 1), entry("./c.json", 1, 1)];
    let plan = import_plan("/srv/mc", &entries);
    assert!(plan.error.is_none());
    for s in &plan.steps {
        assert!(conduit_cli::engine::paths::path_starts_with_exec(&s.out_path, "/srv/mc"));
    }
    assert_eq!(plan.steps[1].out_path, "/srv/mc/./c.json");
    assert!(plan.steps[1].announce);
}

#[test]
fn doubled_slash_after_overrides_is_absolute() {
    let entries = vec![entry("overrides/a/b.txt", 1, 1), entry("overrides//x.json", 1, 1)];
    let plan = import_plan("/srv/mc", &entries);
    assert_eq!(plan.steps.len(), 1);
    match plan.error {
        Some(CoreError::RuntimeError(m)) => assert_eq!(m, "Invalid path in ZIP: overrides//x.json"),
        _ => panic!("expected a refusal"),
    }
}
