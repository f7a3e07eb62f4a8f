use conduit_cli::engine::resolver::loader::{loader_query, LoaderQuery};
use conduit_cli::domain::addon::AddonType;
use conduit_cli::domain::loader::Loader;
use conduit_cli::domain::source::{AddonSource, SourceType};
use conduit_cli::engine::modrinth::models::Project;
use conduit_cli::engine::modrinth::ModrinthAPI;
use conduit_cli::engine::resolver::addon::{
    build_resolved_addon, check_project, loader_filter, AddonDependency, AddonFile, AddonProject, AddonVersion,
    ApiError, ResolveWalk, ResolvedAddon,
};
use conduit_cli::engine::resolver::loader::resolved_loader;

fn project(kind: &str, categories: Vec<&str>) -> AddonProject {
    AddonProject {
        id: "AANobbMI".to_string(),
        slug: "sodium".to_string(),
        project_type: kind.to_string(),
        categories: categories.into_iter().map(|c| c.to_string()).collect(),
    }
}

fn file(name: &str, primary: bool) -> AddonFile {
    AddonFile {
        filename: name.to_string(),
        url: format!("https://cdn/{name}"),
        primary,
        sha1: format!("sha1-{name}"),
        sha512: format!("sha512-{name}"),
    }
}

fn dep(id: Option<&str>, kind: &str) -> AddonDependency {
    AddonDependency { project_id: id.map(|s| s.to_string()), dependency_type: kind.to_string() }
}

fn not_found(r: Result<ResolvedAddon, ApiError>) -> String {
    match r {
        Err(ApiError::NotFound(m)) => m,
        _ => panic!("expected NotFound"),
    }
}

#[test]
fn resource_packs_and_modpacks_are_refused() {
    match check_project(&project("modpack", vec![]), "fabulously-optimized") {
        Err(ApiError::NotFound(m)) => assert_eq!(m, "fabulously-optimized (modpack) isn't supported"),
        _ => panic!("expected a refusal"),
    }
    assert!(check_project(&project("resourcepack", vec![]), "x").is_err());
    assert!(check_project(&project("mod", vec![]), "x").is_ok());
    assert_eq!(loader_filter("NeoForge"), vec!["neoforge"]);
}

#[test]
fn resolve_picks_primary_file_and_required_deps() {
    let versions = vec![AddonVersion {
        loaders: vec!["fabric".to_string(), "quilt".to_string(), "neoforge".to_string()],
        files: vec![file("a-sources.jar", false), file("a.jar", true), file("b.jar", true)],
        dependencies: vec![dep(Some("P1"), "required"), dep(Some("P2"), "optional"), dep(None, "required"), dep(Some("P3"), "required")],
    }];
    let a = build_resolved_addon(&project("mod", vec![]), &versions, "sodium", "1.21.1", "fabric").ok().unwrap();
    assert_eq!(a.slug, "sodium");
    assert_eq!(a.file_name, "a.jar");
    assert_eq!(a.download_url, "https://cdn/a.jar");
    assert_eq!(a.addon_type, AddonType::Mod);
    assert_eq!(a.loaders.len(), 2);
    assert!(matches!(a.loaders[0], Loader::Fabric));
    assert!(matches!(&a.loaders[1], Loader::Neoforge { version } if version == "1.21.1"));
    assert_eq!(a.dependencies, vec!["P1", "P3"]);
    let AddonSource { source_type: SourceType::Modrinth { id, slug }, hash } = a.source;
    assert_eq!(id, "AANobbMI");
    assert_eq!(slug, "sodium");
    assert_eq!(hash.sha1.as_deref(), Some("sha1-a.jar"));
    assert_eq!(hash.sha512.as_deref(), Some("sha512-a.jar"));
    assert!(hash.sha256.is_none());
}

#[test]
fn resolve_falls_back_to_first_file_and_classifies() {
    let versions = vec![AddonVersion {
        loaders: vec!["paper".to_string()],
        files: vec![file("x.jar", false), file("y.jar", false)],
        dependencies: vec![],
    }];
    let a = build_resolved_addon(&project("mod", vec![]), &versions, "s", "1.21", "paper").ok().unwrap();
    assert_eq!(a.file_name, "x.jar");
    assert_eq!(a.addon_type, AddonType::Plugin);
    let versions = vec![AddonVersion { loaders: vec!["datapack".to_string(), "paper".to_string()], files: vec![file("d.zip", true)], dependencies: vec![] }];
    assert_eq!(build_resolved_addon(&project("mod", vec![]), &versions, "s", "1.21", "x").ok().unwrap().addon_type, AddonType::Datapack);
    let versions = vec![AddonVersion { loaders: vec!["bukkit".to_string()], files: vec![file("p.jar", true)], dependencies: vec![] }];
    assert_eq!(build_resolved_addon(&project("plugin", vec!["plugin"]), &versions, "s", "1.21", "x").ok().unwrap().addon_type, AddonType::Plugin);
}

#[test]
fn resolve_errors() {
    assert_eq!(
        not_found(build_resolved_addon(&project("mod", vec![]), &vec![], "sodium", "1.21.1", "NeoForge")),
        "No compatible version for sodium on 1.21.1/NeoForge"
    );
    let versions = vec![AddonVersion { loaders: vec![], files: vec![], dependencies: vec![] }];
    assert_eq!(not_found(build_resolved_addon(&project("mod", vec![]), &versions, "sodium", "1.21", "x")), "No files found for sodium");
}

fn addon(id: &str, deps: Vec<&str>) -> ResolvedAddon {
    ResolvedAddon {
        slug: id.to_string(),
        file_name: format!("{id}.jar"),
        addon_type: AddonType::Mod,
        loaders: vec![],
        download_url: String::new(),
        source: AddonSource {
            source_type: SourceType::Modrinth { id: id.to_string(), slug: id.to_string() },
            hash: conduit_cli::domain::source::Hash { sha1: None, sha256: None, sha512: None },
        },
        dependencies: deps.into_iter().map(|d| d.to_string()).collect(),
    }
}

#[test]
fn walk_resolves_each_dependency_once() {
    let mut w = ResolveWalk::start("a");
    let s = w.next_slug().unwrap();
    assert_eq!(s, "a");
    w.record(s, addon("a", vec!["b", "c"]));
    let s = w.next_slug().unwrap();
    assert_eq!(s, "c");
    w.record(s, addon("c", vec!["a", "b"]));
    let s = w.next_slug().unwrap();
    assert_eq!(s, "b");
    w.record(s, addon("b", vec!["c"]));
    assert_eq!(w.next_slug(), None);
    let done = w.finish();
    let slugs: Vec<String> = done.iter().map(|a| a.slug.clone()).collect();
    assert_eq!(slugs, vec!["a", "c", "b"]);
}

#[test]
fn loader_downloads() {
    let r = resolved_loader(&Loader::Paper, "https://paper/x.jar".to_string(), "abc".to_string());
    assert_eq!(r.hash, "abc");
    assert_eq!(r.file_name, "server.jar");
    let r = resolved_loader(&Loader::Fabric, "u".to_string(), "abc".to_string());
    assert_eq!(r.hash, "");
    assert_eq!(r.file_name, "server-installer.jar");
    let r = resolved_loader(&Loader::Vanilla, "u".to_string(), "abc".to_string());
    assert_eq!(r.hash, "");
    assert_eq!(r.file_name, "server.jar");
}

fn mr_project(kind: &str) -> Project {
    Project {
        id: "1".to_string(),
        slug: "s".to_string(),
        title: "t".to_string(),
        description: "d".to_string(),
        project_type: kind.to_string(),
        downloads: 0,
        icon_url: None,
        client_side: "required".to_string(),
        server_side: "required".to_string(),
    }
}

#[test]
fn modrinth_requests_and_checks() {
    let api = ModrinthAPI { base_url: "https://api.modrinth.com/v2".to_string() };
    assert_eq!(api.project_url("sodium"), "https://api.modrinth.com/v2/project/sodium");
    assert_eq!(
        api.versions_url("sodium", Some("fabric"), Some("1.21")),
        "https://api.modrinth.com/v2/project/sodium/version?loaders=[\"fabric\"]&game_versions=[\"1.21\"]&"
    );
    assert_eq!(api.versions_url("x", None, None), "https://api.modrinth.com/v2/project/x/version?");
    assert!(api.check_project_type(mr_project("mod"), "s").is_ok());
    assert_eq!(
        api.check_project_type(mr_project("shader"), "iris").err().unwrap(),
        "Project 'iris' is a shader, but only 'mod' is supported."
    );
}

#[test]
fn loader_queries() {
    assert!(matches!(loader_query(&Loader::Vanilla, "1.21"), LoaderQuery::MojangServer { ref minecraft } if minecraft == "1.21"));
    assert!(matches!(loader_query(&Loader::Paper, "1.21"), LoaderQuery::PaperLatestBuild { .. }));
    assert!(matches!(loader_query(&Loader::Fabric, "1.21"), LoaderQuery::FabricLatestInstaller));
    assert!(matches!(loader_query(&Loader::Forge { version: "1.20.1".to_string() }, "x"), LoaderQuery::ForgeLatestBuild { ref version } if version == "1.20.1"));
    assert!(matches!(loader_query(&Loader::Neoforge { version: "21.1.5".to_string() }, "x"), LoaderQuery::NeoforgeInstaller { ref version } if version == "21.1.5"));
}

#[test]
fn walk_ends_with_every_dependency_resolved() {
    let mut w = ResolveWalk::start("root");
    let s = w.next_slug().unwrap();
    w.record(s, addon("root", vec!["lib", "api"]));
    let s = w.next_slug().unwrap();
    assert_eq!(s, "api");
    w.record(s, addon("api", vec!["root", "lib"]));
    let s = w.next_slug().unwrap();
    assert_eq!(s, "lib");
    w.record(s, addon("lib", vec!["api"]));
    assert_eq!(w.next_slug(), None);
    let done = w.finish();
    let ids: Vec<String> = done.iter().map(|a| a.slug.clone()).collect();
    for a in &done {
        for d in &a.dependencies {
            assert!(ids.contains(d));
        }
    }
    assert_eq!(ids.len(), 3);
}

fn addon_from(slug: &str, id: &str, deps: Vec<&str>) -> ResolvedAddon {
    let mut a = addon(id, deps);
    a.slug = slug.to_string();
    a
}

#[test]
fn walk_resolves_each_project_once() {
    let mut w = ResolveWalk::start("sodium");
    let s = w.next_slug().unwrap();
    w.record(s, addon_from("sodium", "AANobbMI", vec!["P1", "P2"]));
    let s = w.next_slug().unwrap();
    assert_eq!(s, "P2");
    w.record(s, addon_from("p2", "P2", vec!["AANobbMI", "P1"]));
    let s = w.next_slug().unwrap();
    assert_eq!(s, "P1");
    w.record(s, addon_from("p1", "P1", vec!["P2", "AANobbMI"]));
    assert_eq!(w.next_slug(), None);
    let done = w.finish();
    let mut ids: Vec<String> = done
        .iter()
        .map(|a| match &a.source.source_type {
            SourceType::Modrinth { id, .. } => id.clone(),
        })
        .collect();
    ids.sort();
    assert_eq!(ids, vec!["AANobbMI", "P1", "P2"]);
}

#[test]
fn root_listing_itself_is_resolved_again_by_id() {
    let mut w = ResolveWalk::start("sodium");
    let s = w.next_slug().unwrap();
    w.record(s, addon_from("sodium", "AANobbMI", vec!["AANobbMI"]));
    assert_eq!(w.next_slug(), Some("AANobbMI".to_string()));
}
