use conduit_cli::engine::runtime::loaders::vanilla::{needs_latest_release, vanilla_server_download, vanilla_target};
use conduit_cli::engine::server::run::launcher_for_manifest_loader;
use conduit_cli::engine::io::server::config::ServerConfig;
use conduit_cli::engine::paths::CorePaths;
use conduit_cli::engine::runtime::launchers::ServerLauncher;
use conduit_cli::engine::runtime::loaders::neoforge::{
    get_latest_neoforge_version, installer_args, latest_from_matches, neoforge_installer_download, neoforge_prefix,
};
use conduit_cli::engine::runtime::loaders::{post_install_neoforge, post_install_vanilla, LoaderInfo, LoaderType};
use conduit_cli::engine::server::install::{locked_loader_version, loader_for_install, needs_latest};
use conduit_cli::engine::server::run::{launcher_for_lock, not_ready_message};
use conduit_cli::engine::io::project::manifest::{ConduitConfig, InstanceType};
use conduit_cli::engine::error::CoreError;

fn paths() -> CorePaths {
    CorePaths::from_project_dir("/srv/mc".to_string(), Some("/home/u/.local/share".to_string())).ok().unwrap()
}

#[test]
fn parse_name_and_version() {
    let i = LoaderInfo::parse("neoforge@21.1.5");
    assert_eq!(i.name, "neoforge");
    assert_eq!(i.version, "21.1.5");
}

#[test]
fn parse_without_version_is_latest() {
    let i = LoaderInfo::parse("neoforge");
    assert_eq!(i.name, "neoforge");
    assert_eq!(i.version, "latest");
    let i = LoaderInfo::parse("");
    assert_eq!(i.name, "");
    assert_eq!(i.version, "latest");
}

#[test]
fn parse_takes_second_piece_only() {
    let i = LoaderInfo::parse("a@b@c");
    assert_eq!(i.name, "a");
    assert_eq!(i.version, "b");
    let i = LoaderInfo::parse("a@");
    assert_eq!(i.version, "");
}

#[test]
fn top_level_parse_agrees() {
    let i = conduit_cli::loaders::LoaderInfo::parse("fabric@0.16");
    assert_eq!(i.name, "fabric");
    assert_eq!(i.version, "0.16");
    let i = conduit_cli::loaders::LoaderInfo::parse("fabric");
    assert_eq!(i.version, "latest");
}

#[test]
fn record_then_parse_roundtrip() {
    let rec = locked_loader_version("neoforge", "21.1.5");
    assert_eq!(rec, "neoforge@21.1.5");
    let i = LoaderInfo::parse(&rec);
    assert_eq!(i.name, "neoforge");
    assert_eq!(i.version, "21.1.5");
}

#[test]
fn neoforge_prefixes() {
    assert_eq!(neoforge_prefix("1.21.1"), "21.1.");
    assert_eq!(neoforge_prefix("1.21"), "21.0.");
    assert_eq!(neoforge_prefix("1"), ".0.");
    assert_eq!(neoforge_prefix("25.1"), "25.1.");
    assert_eq!(neoforge_prefix("26"), "26.0.");
}

const METADATA: &str = "<metadata><versioning><versions><version>21.0.3</version><version>21.1.1</version><version>21.1.5</version><version>21.10.2</version><version>211.1.9</version></versions></versioning></metadata>";

#[test]
fn latest_neoforge_is_last_match() {
    assert_eq!(get_latest_neoforge_version("1.21.1", METADATA), Ok("21.1.5".to_string()));
    assert_eq!(get_latest_neoforge_version("1.21", METADATA), Ok("21.0.3".to_string()));
}

#[test]
fn no_neoforge_version_is_an_error() {
    assert_eq!(
        get_latest_neoforge_version("1.20.4", METADATA),
        Err("No compatible NeoForge version found for MC 1.20.4".to_string())
    );
}

#[test]
fn escaped_prefix_does_not_match_any_character() {
    let meta = "<version>21x1x7</version><version>21.1.2</version>";
    assert_eq!(get_latest_neoforge_version("1.21.1", meta), Ok("21.1.2".to_string()));
}

#[test]
fn latest_from_matches_picks_last() {
    let groups = vec![Some("a".to_string()), Some("b".to_string())];
    assert_eq!(latest_from_matches(&groups, "1.21"), Ok("b".to_string()));
    assert_eq!(latest_from_matches(&vec![], "1.21"), Err("No compatible NeoForge version found for MC 1.21".to_string()));
}

#[test]
fn installer_download_plan() {
    let d = neoforge_installer_download("21.1.5", "/srv/mc");
    assert_eq!(d.url, "https://maven.neoforged.net/releases/net/neoforged/neoforge/21.1.5/neoforge-21.1.5-installer.jar");
    assert_eq!(d.path, "/srv/mc/neoforge-installer.jar");
    assert_eq!(d.display_name, "neoforge-21.1.5-installer.jar");
    assert_eq!(installer_args("/srv/mc/neoforge-installer.jar"), vec!["-jar", "/srv/mc/neoforge-installer.jar", "--installServer"]);
}

#[test]
fn post_install_plans() {
    let p = post_install_neoforge("/srv/mc");
    assert_eq!(p.eula_path, "/srv/mc/eula.txt");
    assert_eq!(p.eula_text, "eula=true");
    assert_eq!(
        p.remove_if_present,
        vec![
            "/srv/mc/neoforge-installer.jar.log",
            "/srv/mc/installer.log",
            "/srv/mc/run.sh",
            "/srv/mc/run.bat",
            "/srv/mc/user_jvm_args.txt"
        ]
    );
    assert_eq!(p.make_executable, "/srv/mc/run.sh");
    let v = post_install_vanilla("/srv/mc/");
    assert_eq!(v.create_dirs, vec!["/srv/mc/logs", "/srv/mc/world"]);
    assert_eq!(v.make_executable, "/srv/mc/server.jar");
    assert!(v.remove_if_present.is_empty());
    let t = LoaderType::Vanilla.post_install("/x");
    assert_eq!(t.eula_path, "/x/eula.txt");
}

#[test]
fn launcher_readiness() {
    let p = paths();
    let l = ServerLauncher::Neoforge;
    assert_eq!(
        l.required_files(&p, "21.1.5"),
        vec![
            "/srv/mc/libraries/net/neoforged/neoforge/21.1.5/unix_args.txt",
            "/srv/mc/libraries/net/neoforged/neoforge/21.1.5/win_args.txt"
        ]
    );
    let some = vec!["/srv/mc/libraries/net/neoforged/neoforge/21.1.5/unix_args.txt".to_string()];
    assert!(!l.is_ready(&p, "21.1.5", &some));
    let all = vec![
        "/srv/mc/libraries/net/neoforged/neoforge/21.1.5/win_args.txt".to_string(),
        "/srv/mc/libraries/net/neoforged/neoforge/21.1.5/unix_args.txt".to_string(),
    ];
    assert!(l.is_ready(&p, "21.1.5", &all));
    assert!(ServerLauncher::Vanilla.is_ready(&p, "x", &vec!["/srv/mc/server.jar".to_string()]));
    assert!(!ServerLauncher::Vanilla.is_ready(&p, "x", &vec![]));
}

#[test]
fn launch_commands() {
    let p = paths();
    let c = ServerConfig::default();
    let cmd = ServerLauncher::Neoforge.launch_command(&p, &c, "21.1.5", false, false);
    assert_eq!(cmd.program, "java");
    assert_eq!(cmd.current_dir, "/srv/mc");
    assert_eq!(
        cmd.args,
        vec![
            "-Xmx4G",
            "-Xms2G",
            "-XX:+UseG1GC",
            "-Dsun.rmi.dgc.server.gcInterval=2147483646",
            "@libraries/net/neoforged/neoforge/21.1.5/unix_args.txt",
            "nogui"
        ]
    );
    let cmd = ServerLauncher::Neoforge.launch_command(&p, &c, "21.1.5", true, true);
    assert_eq!(cmd.args.last().unwrap(), "@libraries/net/neoforged/neoforge/21.1.5/win_args.txt");
    let cmd = ServerLauncher::Vanilla.launch_command(&p, &c, "1.21", true, false);
    assert_eq!(cmd.args, vec!["-Xmx4G", "-Xms2G", "-jar", "server.jar", "nogui"]);
}

fn config(kind: InstanceType, loader: &str) -> ConduitConfig {
    let mut c = ConduitConfig::default();
    c.instance_type = kind;
    c.loader = loader.to_string();
    c
}

#[test]
fn install_needs_a_server_with_neoforge() {
    assert!(matches!(loader_for_install(&config(InstanceType::Client, "neoforge@1")), Err(CoreError::ServerOnlyFeature)));
    match loader_for_install(&config(InstanceType::Server, "fabric@1")) {
        Err(CoreError::UnsupportedLoader(n)) => assert_eq!(n, "fabric"),
        _ => panic!("expected an unsupported loader"),
    }
    match loader_for_install(&config(InstanceType::Server, "neoforge")) {
        Ok((LoaderType::NeoForge, info)) => {
            assert_eq!(info.version, "latest");
            assert!(needs_latest(&info));
        },
        _ => panic!("expected NeoForge"),
    }
}

#[test]
fn start_picks_launcher_from_lock() {
    assert_eq!(launcher_for_lock(&None).err().unwrap(), "No loader version found in lock file");
    match launcher_for_lock(&Some("NeoForge@21.1.5".to_string())) {
        Ok((LoaderType::NeoForge, ServerLauncher::Neoforge, info)) => {
            assert_eq!(info.name, "NeoForge");
            assert_eq!(info.version, "21.1.5");
            assert_eq!(
                not_ready_message(&info),
                "Loader NeoForge version 21.1.5 is not installed or files are missing. Run setup first."
            );
        },
        _ => panic!("expected NeoForge"),
    }
    assert!(matches!(launcher_for_lock(&Some("vanilla".to_string())), Ok((LoaderType::Vanilla, ServerLauncher::Vanilla, _))));
    assert_eq!(launcher_for_lock(&Some("forge@1".to_string())).err().unwrap(), "Unsupported loader: forge");
}

#[test]
fn vanilla_download() {
    assert!(needs_latest_release("latest"));
    assert!(!needs_latest_release("1.21"));
    assert_eq!(vanilla_target("latest", Some("1.21.4".to_string())), "1.21.4");
    assert_eq!(vanilla_target("1.20.1", Some("1.21.4".to_string())), "1.20.1");
    assert_eq!(vanilla_target("1.20.1", None), "1.20.1");
    let p = vanilla_server_download("1.21.4", Some("https://piston/server.jar".to_string()), "/srv").ok().unwrap();
    assert_eq!(p.url, "https://piston/server.jar");
    assert_eq!(p.path, "/srv/server.jar");
    assert_eq!(p.display_name, "minecraft-server-1.21.4.jar");
    assert_eq!(vanilla_server_download("1.0", None, "/srv").err().unwrap(), "No server download found for version 1.0");
}

#[test]
fn manifest_loader_launcher() {
    assert!(matches!(launcher_for_manifest_loader("NeoForge@21.1"), Ok(ServerLauncher::Neoforge)));
    assert_eq!(
        launcher_for_manifest_loader("fabric").err().unwrap(),
        "Unsupported loader for launching: fabric"
    );
}
