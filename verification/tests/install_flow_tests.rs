use conduit_cli::domain::loader::Loader;
use conduit_cli::engine::manager::install_flow::{
    install_start, install_step, moves_between, InstallAction, InstallEvent, InstallPlan, InstallStage, InstallState,
};
use conduit_cli::engine::manager::install_loader::InstallError;
use conduit_cli::engine::resolver::loader::ResolvedLoader;
use conduit_cli::engine::schemas::lock::{HashKind, InstanceSnapshot};
use conduit_cli::engine::schemas::manifest::ProjectInfo;

fn plan(loader: Loader, installed: InstanceSnapshot) -> InstallPlan {
    InstallPlan {
        project_root: "/srv/mc".to_string(),
        project: ProjectInfo { name: "p".to_string(), minecraft: "1.21.1".to_string(), loader },
        instance: installed,
        installed_runtime_id: "paper-1.20.4".to_string(),
        target_runtime_id: "fabric-1.21.1".to_string(),
        project_files: vec!["conduit.toml".to_string(), "conduit.lock".to_string()],
    }
}

fn nothing_installed() -> InstanceSnapshot {
    InstanceSnapshot { minecraft_version: "1.21.1".to_string(), loader: Loader::Vanilla, loader_hash: None, hash_kind: None }
}

fn step(p: &InstallPlan, s: InstallState, e: InstallEvent) -> (InstallState, InstallAction) {
    install_step(p, s, e)
}

#[test]
fn fresh_server_jar_is_downloaded_linked_and_recorded() {
    let p = plan(Loader::Paper, nothing_installed());
    let (s, a) = install_start(&p);
    assert!(s.stage == InstallStage::ProbingTarget);
    assert!(matches!(a, InstallAction::CheckExists(ref d) if d == "/srv/mc/.conduit_runtimes/fabric-1.21.1"));
    let (s, a) = step(&p, s, InstallEvent::Exists(false));
    assert!(s.stage == InstallStage::Resolving);
    assert!(matches!(a, InstallAction::ResolveLoader));
    let resolved = ResolvedLoader {
        url: "https://paper/paper-1.21.1.jar".to_string(),
        hash: String::new(),
        file_name: "paper-1.21.1.jar".to_string(),
    };
    let (s, a) = step(&p, s, InstallEvent::Resolved(resolved));
    assert!(s.stage == InstallStage::Downloading && !s.installer);
    assert!(matches!(a, InstallAction::Download(ref u, None) if u == "https://paper/paper-1.21.1.jar"));
    let (s, a) = step(&p, s, InstallEvent::Fetched("abc".to_string(), HashKind::Sha256));
    assert!(s.stage == InstallStage::LinkingServer);
    assert!(matches!(a, InstallAction::LinkObject(ref h, HashKind::Sha256, ref t) if h == "abc" && t == "/srv/mc/server.jar"));
    let (s, a) = step(&p, s, InstallEvent::Done);
    assert!(matches!(a, InstallAction::WriteFile(ref f, ref t) if f == "/srv/mc/eula.txt" && t == "eula=true"));
    let (s, a) = step(&p, s, InstallEvent::Done);
    assert!(s.stage == InstallStage::Tidying);
    match a {
        InstallAction::RemoveIfPresent(v) => assert_eq!(
            v,
            vec!["/srv/mc/installer.jar.log", "/srv/mc/run.sh", "/srv/mc/run.bat", "/srv/mc/user_jvm_args.txt"]
        ),
        _ => panic!("expected the leftovers"),
    }
    let (s, a) = step(&p, s, InstallEvent::Done);
    match a {
        InstallAction::SaveLock(snap) => {
            assert_eq!(snap.loader_hash, Some("abc".to_string()));
            assert!(snap.hash_kind == Some(HashKind::Sha256));
            assert_eq!(snap.minecraft_version, "1.21.1");
            assert!(matches!(snap.loader, Loader::Paper));
        },
        _ => panic!("expected the lock to be saved"),
    }
    let (s, a) = step(&p, s, InstallEvent::Done);
    assert!(s.stage == InstallStage::Finished);
    assert!(matches!(a, InstallAction::Finish(Ok(()))));
}

#[test]
fn changed_loader_puts_the_old_runtime_aside_and_runs_the_installer() {
    let installed = InstanceSnapshot {
        minecraft_version: "1.20.4".to_string(),
        loader: Loader::Paper,
        loader_hash: Some("old".to_string()),
        hash_kind: Some(HashKind::Sha1),
    };
    let p = plan(Loader::Fabric, installed);
    let (s, a) = install_start(&p);
    assert!(s.stage == InstallStage::MakingStash);
    assert!(matches!(a, InstallAction::CreateDir(ref d) if d == "/srv/mc/.conduit_runtimes/paper-1.20.4"));
    let (s, a) = step(&p, s, InstallEvent::Done);
    assert!(matches!(a, InstallAction::ListDir(ref d) if d == "/srv/mc"));
    let names = vec!["conduit.toml", "server.jar", ".conduit_runtimes", "world", "conduit.lock"];
    let (s, a) = step(&p, s, InstallEvent::Listing(names.iter().map(|n| n.to_string()).collect()));
    match a {
        InstallAction::MoveEntries(v) => assert_eq!(
            v,
            vec![
                ("/srv/mc/server.jar".to_string(), "/srv/mc/.conduit_runtimes/paper-1.20.4/server.jar".to_string()),
                ("/srv/mc/world".to_string(), "/srv/mc/.conduit_runtimes/paper-1.20.4/world".to_string()),
            ]
        ),
        _ => panic!("expected the moves"),
    }
    let (s, a) = step(&p, s, InstallEvent::Done);
    assert!(matches!(a, InstallAction::SaveLockCopy(ref f) if f == "/srv/mc/.conduit_runtimes/paper-1.20.4/conduit.lock"));
    let (s, a) = step(&p, s, InstallEvent::Done);
    assert!(matches!(a, InstallAction::CheckExists(ref d) if d == "/srv/mc/.conduit_runtimes/fabric-1.21.1"));
    let (s, a) = step(&p, s, InstallEvent::Exists(true));
    assert!(matches!(a, InstallAction::ListDir(ref d) if d == "/srv/mc/.conduit_runtimes/fabric-1.21.1"));
    let back = vec!["conduit.lock".to_string(), "mods".to_string()];
    let (s, a) = step(&p, s, InstallEvent::Listing(back));
    match a {
        InstallAction::MoveEntries(v) => assert_eq!(
            v,
            vec![("/srv/mc/.conduit_runtimes/fabric-1.21.1/mods".to_string(), "/srv/mc/mods".to_string())]
        ),
        _ => panic!("expected the moves back"),
    }
    let (s, a) = step(&p, s, InstallEvent::Done);
    assert!(matches!(a, InstallAction::RemoveDirAll(ref d) if d == "/srv/mc/.conduit_runtimes/fabric-1.21.1"));
    let (s, a) = step(&p, s, InstallEvent::Done);
    assert!(matches!(a, InstallAction::ResolveLoader));
    let resolved = ResolvedLoader {
        url: "https://fabric/installer.jar".to_string(),
        hash: "a".repeat(64),
        file_name: "fabric-installer.jar".to_string(),
    };
    let (s, a) = step(&p, s, InstallEvent::Resolved(resolved));
    assert!(s.installer);
    match a {
        InstallAction::Download(_, Some(h)) => {
            assert_eq!(h.sha256, Some("a".repeat(64)));
            assert_eq!(h.sha1, None);
        },
        _ => panic!("expected a checked download"),
    }
    let (s, a) = step(&p, s, InstallEvent::Fetched("f".to_string(), HashKind::Sha256));
    assert!(matches!(a, InstallAction::CopyObject(ref h, HashKind::Sha256, ref t) if h == "f" && t == "/srv/mc/installer.jar"));
    let (s, a) = step(&p, s, InstallEvent::Done);
    match a {
        InstallAction::RunJava(args) => assert_eq!(
            args,
            vec!["-jar", "/srv/mc/installer.jar", "server", "-mcversion", "1.21.1", "-downloadMinecraft"]
        ),
        _ => panic!("expected the installer to run"),
    }
    let (s, a) = step(&p, s, InstallEvent::Failed(InstallError::Io("installer exited with error".to_string())));
    assert!(s.stage == InstallStage::Finished);
    assert!(matches!(a, InstallAction::Finish(Err(InstallError::Io(ref m))) if m == "installer exited with error"));
}

#[test]
fn cached_loader_is_linked_again_or_resolved_when_missing() {
    let installed = InstanceSnapshot {
        minecraft_version: "1.21.1".to_string(),
        loader: Loader::Paper,
        loader_hash: Some("cafe".to_string()),
        hash_kind: Some(HashKind::Sha256),
    };
    let p = plan(Loader::Paper, installed);
    let (s, _) = install_start(&p);
    let (s, a) = step(&p, s, InstallEvent::Exists(false));
    assert!(s.stage == InstallStage::FetchingCached);
    assert!(matches!(a, InstallAction::FetchStored(ref h, HashKind::Sha256) if h == "cafe"));
    let (s2, a2) = step(&p, InstallState { stage: s.stage, installer: s.installer, fetched: None },
        InstallEvent::Failed(InstallError::Download("gone".to_string())));
    assert!(s2.stage == InstallStage::Resolving);
    assert!(matches!(a2, InstallAction::ResolveLoader));
    let (s, a) = step(&p, s, InstallEvent::Fetched("cafe".to_string(), HashKind::Sha256));
    assert!(matches!(a, InstallAction::LinkObject(ref h, HashKind::Sha256, ref t) if h == "cafe" && t == "/srv/mc/server.jar"));
    let (s, a) = step(&p, s, InstallEvent::Done);
    assert!(s.stage == InstallStage::Finished);
    assert!(matches!(a, InstallAction::Finish(Ok(()))));
}

#[test]
fn old_forge_jar_is_renamed_after_install() {
    let p = plan(Loader::Forge { version: "1.16.5-36.2.39".to_string() }, nothing_installed());
    let s = InstallState { stage: InstallStage::WritingEula, installer: true, fetched: Some(("f".to_string(), HashKind::Sha1)) };
    let (s, a) = step(&p, s, InstallEvent::Done);
    assert!(s.stage == InstallStage::ListingForJar);
    assert!(matches!(a, InstallAction::ListDir(ref d) if d == "/srv/mc"));
    let names = vec!["forge-installer.jar".to_string(), "Forge-1.16.5.JAR".to_string(), "forge-2.jar".to_string()];
    let (s, a) = step(&p, s, InstallEvent::Listing(names));
    match a {
        InstallAction::MoveEntries(v) => assert_eq!(
            v,
            vec![("/srv/mc/Forge-1.16.5.JAR".to_string(), "/srv/mc/server.jar".to_string())]
        ),
        _ => panic!("expected the rename"),
    }
    assert!(s.stage == InstallStage::RenamingJar);
}

#[test]
fn moves_leave_excluded_names() {
    let names = vec!["a".to_string(), "b".to_string(), "c".to_string()];
    let excluded = vec!["b".to_string()];
    assert_eq!(
        moves_between(&names, &excluded, "/x", "/y"),
        vec![("/x/a".to_string(), "/y/a".to_string()), ("/x/c".to_string(), "/y/c".to_string())]
    );
}
