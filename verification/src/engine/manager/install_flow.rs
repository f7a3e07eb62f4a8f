//! Installing a project's loader as a sequence of steps on disk and over
//! the network. The library decides each step from the state of the
//! installation and the outcome of the step before; the caller performs the
//! step and reports how it went.
use vstd::prelude::*;
use crate::domain::loader::LoaderKind;
use crate::engine::manager::install_loader::{
    expected_hash, install_target, installed_snapshot, installer_args, leftover_names, needs_jar_rename,
    needs_runtime_stash, old_forge_spec, post_install_steps, reusable_loader, same_instance, InstallError,
    forge_server_jar, forge_server_jar_name,
};
use crate::engine::paths::{join, join_path};
use crate::engine::resolver::loader::ResolvedLoader;
use crate::engine::schemas::lock::{HashKind, InstanceSnapshot};
use crate::engine::schemas::manifest::ProjectInfo;
use crate::text::{has_infix, str_eq, views};

verus! {

/// What an installation starts from: the project root, what the manifest
/// asks for, what the lock says is installed, the names of the runtime
/// directories (under `.conduit_runtimes`) of the installed and of the
/// wanted loader and Minecraft version, and the project's own files, which
/// putting the installed runtime aside leaves in place.
pub struct InstallPlan {
    pub project_root: String,
    pub project: ProjectInfo,
    pub instance: InstanceSnapshot,
    pub installed_runtime_id: String,
    pub target_runtime_id: String,
    pub project_files: Vec<String>,
}

/// Where the runtime of the installed loader is put aside.
pub open spec fn stash_dir(p: InstallPlan) -> Seq<char> {
    join_path(join_path(p.project_root@, ".conduit_runtimes"@), p.installed_runtime_id@)
}

/// Where a runtime of the wanted loader was put aside before, if ever.
pub open spec fn target_dir(p: InstallPlan) -> Seq<char> {
    join_path(join_path(p.project_root@, ".conduit_runtimes"@), p.target_runtime_id@)
}

/// The step an installation waits on.
#[derive(Clone, Copy, PartialEq, Eq, Structural)]
pub enum InstallStage {
    MakingStash,
    ListingRoot,
    MovingOut,
    SavingStashLock,
    ProbingTarget,
    ListingTarget,
    MovingBack,
    RemovingTarget,
    FetchingCached,
    LinkingCached,
    Resolving,
    Downloading,
    CopyingInstaller,
    RunningInstaller,
    RemovingInstaller,
    LinkingServer,
    WritingEula,
    ListingForJar,
    RenamingJar,
    Tidying,
    SavingLock,
    Finished,
}

/// The state of an installation: the step it waits on, whether the
/// download is an installer, and the digest and kind of the stored loader
/// once it is downloaded.
pub struct InstallState {
    pub stage: InstallStage,
    pub installer: bool,
    pub fetched: Option<(String, HashKind)>,
}

/// A step for the caller to perform.
pub enum InstallAction {
    /// Create the directory and those above it.
    CreateDir(String),
    /// List the names of the directory's entries.
    ListDir(String),
    /// Move each path to the other; a move that fails is passed over.
    MoveEntries(Vec<(String, String)>),
    /// Save the lock as it was read to this path; a failure is passed over.
    SaveLockCopy(String),
    /// Whether the path exists.
    CheckExists(String),
    /// Remove the directory and all under it; a failure is passed over.
    RemoveDirAll(String),
    /// Fetch into the store the object of this digest and kind.
    FetchStored(String, HashKind),
    /// Link the stored object of this digest and kind to the path.
    LinkObject(String, HashKind, String),
    /// Resolve the manifest's loader for its Minecraft version.
    ResolveLoader,
    /// Download the URL into the store, checked against the digest if any.
    Download(String, Option<crate::domain::source::Hash>),
    /// Copy the stored object of this digest and kind to the path.
    CopyObject(String, HashKind, String),
    /// Run `java` with these arguments in the project root.
    RunJava(Vec<String>),
    /// Remove the file; a failure is passed over.
    RemoveFile(String),
    /// Write the text to the file.
    WriteFile(String, String),
    /// Remove each of the files that exists; failures are passed over.
    RemoveIfPresent(Vec<String>),
    /// Save the lock with this instance.
    SaveLock(InstanceSnapshot),
    /// The installation is over, with this outcome.
    Finish(Result<(), InstallError>),
}

/// How a step went.
pub enum InstallEvent {
    Done,
    Failed(InstallError),
    Listing(Vec<String>),
    Exists(bool),
    Fetched(String, HashKind),
    Resolved(ResolvedLoader),
}

/// The outcomes a step can have.
pub open spec fn event_fits(stage: InstallStage, e: InstallEvent) -> bool {
    match stage {
        InstallStage::MakingStash | InstallStage::LinkingCached | InstallStage::CopyingInstaller
        | InstallStage::RunningInstaller | InstallStage::LinkingServer | InstallStage::WritingEula
        | InstallStage::SavingLock => e is Done || e is Failed,
        InstallStage::ListingRoot | InstallStage::ListingTarget | InstallStage::ListingForJar => e is Listing
            || e is Failed,
        InstallStage::MovingOut | InstallStage::SavingStashLock | InstallStage::MovingBack
        | InstallStage::RemovingTarget | InstallStage::RemovingInstaller | InstallStage::RenamingJar
        | InstallStage::Tidying => e is Done,
        InstallStage::ProbingTarget => e is Exists,
        InstallStage::FetchingCached | InstallStage::Downloading => e is Fetched || e is Failed,
        InstallStage::Resolving => e is Resolved || e is Failed,
        InstallStage::Finished => false,
    }
}

/// From the download on, the state knows the stored loader.
pub open spec fn state_wf(s: InstallState) -> bool {
    match s.stage {
        InstallStage::CopyingInstaller | InstallStage::RunningInstaller | InstallStage::RemovingInstaller
        | InstallStage::LinkingServer | InstallStage::WritingEula | InstallStage::ListingForJar
        | InstallStage::RenamingJar | InstallStage::Tidying | InstallStage::SavingLock => s.fetched is Some,
        _ => true,
    }
}

/// The names of a listing that are not excluded, in order.
pub open spec fn kept_names(names: Seq<Seq<char>>, excluded: Seq<Seq<char>>) -> Seq<Seq<char>>
    decreases names.len(),
{
    if names.len() == 0 {
        Seq::empty()
    } else {
        let prev = kept_names(names.drop_last(), excluded);
        if excluded.contains(names.last()) {
            prev
        } else {
            prev.push(names.last())
        }
    }
}

/// Each kept name moved from one directory to the other.
pub open spec fn moves_spec(names: Seq<Seq<char>>, excluded: Seq<Seq<char>>, from: Seq<char>, to: Seq<char>) -> Seq<
    (Seq<char>, Seq<char>),
> {
    kept_names(names, excluded).map_values(|n: Seq<char>| (join_path(from, n), join_path(to, n)))
}

pub open spec fn pair_views(v: Seq<(String, String)>) -> Seq<(Seq<char>, Seq<char>)> {
    v.map_values(|p: (String, String)| (p.0@, p.1@))
}

/// What putting the installed runtime aside leaves in place: the project's
/// own files and the runtimes directory.
pub open spec fn stash_excluded(p: InstallPlan) -> Seq<Seq<char>> {
    views(p.project_files@).push(".conduit_runtimes"@)
}

/// What bringing a runtime back leaves where it was: its manifest and lock.
pub open spec fn restore_excluded() -> Seq<Seq<char>> {
    seq!["conduit.toml"@, "conduit.lock"@]
}

/// The moves from `from` to `to` of the listed names that are not excluded.
pub fn moves_between(names: &Vec<String>, excluded: &Vec<String>, from: &str, to: &str) -> (r: Vec<(String, String)>)
    ensures
        pair_views(r@) == moves_spec(views(names@), views(excluded@), from@, to@),
{
    let ghost ns = views(names@);
    let ghost ex = views(excluded@);
    let mut r: Vec<(String, String)> = Vec::new();
    for i in 0..names.len()
        invariant
            ns == views(names@),
            ex == views(excluded@),
            pair_views(r@) == moves_spec(ns.take(i as int), ex, from@, to@),
    {
        proof {
            assert(ns.take(i + 1).drop_last() =~= ns.take(i as int));
            assert(ns.take(i + 1).last() == names@[i as int]@);
        }
        let name = &names[i];
        let mut skip = false;
        for j in 0..excluded.len()
            invariant
                ex == views(excluded@),
                skip == exists|k: int| 0 <= k < j && #[trigger] ex[k] == name@,
        {
            assert(ex[j as int] == excluded@[j as int]@);
            if str_eq(excluded[j].as_str(), name.as_str()) {
                skip = true;
            }
        }
        proof {
            if ex.contains(name@) {
                let k = choose|k: int| 0 <= k < ex.len() && ex[k] == name@;
                assert(ex[k] == name@);
            }
        }
        if !skip {
            let ghost prev = pair_views(r@);
            r.push((join(from, name.as_str()), join(to, name.as_str())));
            proof {
                assert(pair_views(r@) =~= prev.push((join_path(from@, name@), join_path(to@, name@))));
                assert(moves_spec(ns.take(i + 1), ex, from@, to@) =~= moves_spec(ns.take(i as int), ex, from@, to@).push(
                    (join_path(from@, name@), join_path(to@, name@)),
                ));
            }
        } else {
            assert(moves_spec(ns.take(i + 1), ex, from@, to@) =~= moves_spec(ns.take(i as int), ex, from@, to@));
        }
    }
    assert(ns.take(ns.len() as int) =~= ns);
    r
}

/// The loader stored from an earlier installation that can be linked
/// again: its digest and kind, when the lock names both, the digest is not
/// empty and the instance is the one the manifest asks for.
pub open spec fn cached_loader(i: InstanceSnapshot, p: ProjectInfo) -> Option<(Seq<char>, HashKind)> {
    match (i.loader_hash, i.hash_kind) {
        (Some(h), Some(k)) => if h@.len() > 0 && same_instance(i, p) {
            Some((h@, k))
        } else {
            None
        },
        _ => None,
    }
}

/// The first step of an installation: putting the installed runtime aside
/// where a loader is installed and the manifest now asks for another, else
/// looking for a runtime of the wanted one put aside before.
pub fn install_start(plan: &InstallPlan) -> (r: (InstallState, InstallAction))
    ensures
        state_wf(r.0),
        r.0.fetched is None,
        needs_runtime_stash_spec(plan.instance, plan.project) ==> (r.0.stage == InstallStage::MakingStash && (
        r.1 matches InstallAction::CreateDir(d) && d@ == stash_dir(*plan))),
        !needs_runtime_stash_spec(plan.instance, plan.project) ==> (r.0.stage == InstallStage::ProbingTarget && (
        r.1 matches InstallAction::CheckExists(d) && d@ == target_dir(*plan))),
{
    let base = join(plan.project_root.as_str(), ".conduit_runtimes");
    if needs_runtime_stash(&plan.instance, &plan.project) {
        let d = join(base.as_str(), plan.installed_runtime_id.as_str());
        (InstallState { stage: InstallStage::MakingStash, installer: false, fetched: None }, InstallAction::CreateDir(d))
    } else {
        let d = join(base.as_str(), plan.target_runtime_id.as_str());
        (
            InstallState { stage: InstallStage::ProbingTarget, installer: false, fetched: None },
            InstallAction::CheckExists(d),
        )
    }
}

/// A Forge loader for Minecraft 1.16 or older.
pub open spec fn old_forge_loader(l: LoaderKind) -> bool {
    l matches LoaderKind::Forge(v) && old_forge_spec(v)
}

pub open spec fn needs_runtime_stash_spec(i: InstanceSnapshot, p: ProjectInfo) -> bool {
    i.loader_hash is Some && !same_instance(i, p)
}

/// After the runtimes are sorted out: link the cached loader again where
/// there is one, else resolve the loader.
fn after_migration(plan: &InstallPlan) -> (r: (InstallState, InstallAction))
    ensures
        r.0.fetched is None,
        match cached_loader(plan.instance, plan.project) {
            Some((h, k)) => r.0.stage == InstallStage::FetchingCached && (r.1 matches InstallAction::FetchStored(
                h2,
                k2,
            ) && h2@ == h && k2 == k),
            None => r.0.stage == InstallStage::Resolving && r.1 is ResolveLoader,
        },
{
    match reusable_loader(&plan.instance, &plan.project) {
        Some((h, k)) => (
            InstallState { stage: InstallStage::FetchingCached, installer: false, fetched: None },
            InstallAction::FetchStored(h, k),
        ),
        None => (
            InstallState { stage: InstallStage::Resolving, installer: false, fetched: None },
            InstallAction::ResolveLoader,
        ),
    }
}

/// The steps that tidy up after the loader is in place: remove the
/// installer's log and run scripts where they exist.
fn tidy_action(plan: &InstallPlan) -> (a: InstallAction)
    ensures
        a matches InstallAction::RemoveIfPresent(v) && views(v@) == leftover_names().map_values(
            |n: Seq<char>| join_path(plan.project_root@, n),
        ),
{
    let none: Vec<String> = Vec::new();
    let steps = post_install_steps(&plan.project.loader, plan.project_root.as_str(), &none);
    InstallAction::RemoveIfPresent(steps.remove_if_present)
}

/// The next step of an installation from the outcome of the one before.
/// A failure of a step whose failure the installation does not pass over
/// ends it with that error; a failed fetch of the cached loader falls back
/// to resolving the loader.
#[verifier::rlimit(40)]
pub fn install_step(plan: &InstallPlan, state: InstallState, event: InstallEvent) -> (r: (InstallState, InstallAction))
    requires
        state_wf(state),
        event_fits(state.stage, event),
    ensures
        state_wf(r.0),
        // a failure that ends the installation
        event matches InstallEvent::Failed(e) ==> (state.stage != InstallStage::FetchingCached ==> (r.0.stage
            == InstallStage::Finished && r.1 == InstallAction::Finish(Err(e)))),
        // putting the installed runtime aside
        state.stage == InstallStage::MakingStash && event is Done ==> (r.0.stage == InstallStage::ListingRoot && (
        r.1 matches InstallAction::ListDir(d) && d@ == plan.project_root@)),
        event matches InstallEvent::Listing(names) ==> (state.stage == InstallStage::ListingRoot ==> (r.0.stage
            == InstallStage::MovingOut && (r.1 matches InstallAction::MoveEntries(v) && pair_views(v@) == moves_spec(
            views(names@),
            stash_excluded(*plan),
            plan.project_root@,
            stash_dir(*plan),
        )))),
        state.stage == InstallStage::MovingOut ==> (r.0.stage == InstallStage::SavingStashLock && (
        r.1 matches InstallAction::SaveLockCopy(p) && p@ == join_path(stash_dir(*plan), "conduit.lock"@))),
        state.stage == InstallStage::SavingStashLock ==> (r.0.stage == InstallStage::ProbingTarget && (
        r.1 matches InstallAction::CheckExists(d) && d@ == target_dir(*plan))),
        // bringing back a runtime of the wanted loader
        state.stage == InstallStage::ProbingTarget && event == InstallEvent::Exists(true) ==> (r.0.stage
            == InstallStage::ListingTarget && (r.1 matches InstallAction::ListDir(d) && d@ == target_dir(*plan))),
        event matches InstallEvent::Listing(names) ==> (state.stage == InstallStage::ListingTarget ==> (r.0.stage
            == InstallStage::MovingBack && (r.1 matches InstallAction::MoveEntries(v) && pair_views(v@) == moves_spec(
            views(names@),
            restore_excluded(),
            target_dir(*plan),
            plan.project_root@,
        )))),
        state.stage == InstallStage::MovingBack ==> (r.0.stage == InstallStage::RemovingTarget && (
        r.1 matches InstallAction::RemoveDirAll(d) && d@ == target_dir(*plan))),
        // linking the cached loader again, or resolving the loader
        (state.stage == InstallStage::ProbingTarget && event == InstallEvent::Exists(false)) || state.stage
            == InstallStage::RemovingTarget ==> match cached_loader(plan.instance, plan.project) {
            Some((h, k)) => r.0.stage == InstallStage::FetchingCached && (r.1 matches InstallAction::FetchStored(
                h2,
                k2,
            ) && h2@ == h && k2 == k),
            None => r.0.stage == InstallStage::Resolving && r.1 is ResolveLoader,
        },
        event matches InstallEvent::Fetched(h, k) ==> (state.stage == InstallStage::FetchingCached ==> (r.0.stage
            == InstallStage::LinkingCached && (r.1 matches InstallAction::LinkObject(h2, k2, p) && h2@ == h@ && k2
            == k && p@ == join_path(plan.project_root@, "server.jar"@)))),
        state.stage == InstallStage::FetchingCached && event is Failed ==> (r.0.stage == InstallStage::Resolving
            && r.1 is ResolveLoader),
        state.stage == InstallStage::LinkingCached && event is Done ==> (r.0.stage == InstallStage::Finished && r.1
            == InstallAction::Finish(Ok(()))),
        // downloading the resolved loader
        event matches InstallEvent::Resolved(res) ==> (r.0.stage == InstallStage::Downloading && r.0.installer
            == has_infix(res.file_name@, "installer"@) && (r.1 matches InstallAction::Download(url, h) && url@
            == res.url@ && (h is None <==> res.hash@.len() == 0) && (h matches Some(hh) ==> (
        if vstd::utf8::encode_utf8(res.hash@).len() as usize == 64 {
            hh.sha256 matches Some(s) && s@ == res.hash@ && hh.sha1 is None && hh.sha512 is None
        } else {
            hh.sha1 matches Some(s) && s@ == res.hash@ && hh.sha256 is None && hh.sha512 is None
        })))),
        event matches InstallEvent::Fetched(h, k) ==> (state.stage == InstallStage::Downloading ==> ((
        r.0.fetched matches Some((h2, k2)) && h2@ == h@ && k2 == k) && if state.installer {
            r.0.stage == InstallStage::CopyingInstaller && (r.1 matches InstallAction::CopyObject(h3, k3, p) && h3@
                == h@ && k3 == k && p@ == join_path(plan.project_root@, "installer.jar"@))
        } else {
            r.0.stage == InstallStage::LinkingServer && (r.1 matches InstallAction::LinkObject(h3, k3, p) && h3@
                == h@ && k3 == k && p@ == join_path(plan.project_root@, "server.jar"@))
        })),
        // running the installer
        state.stage == InstallStage::CopyingInstaller && event is Done ==> (r.0.stage
            == InstallStage::RunningInstaller && (r.1 matches InstallAction::RunJava(args) && views(args@) == seq![
            "-jar"@,
            join_path(plan.project_root@, "installer.jar"@),
        ] + match plan.project.loader@ {
            LoaderKind::Fabric => seq!["server"@, "-mcversion"@, plan.project.minecraft@, "-downloadMinecraft"@],
            _ => seq!["--installServer"@],
        })),
        state.stage == InstallStage::RunningInstaller && event is Done ==> (r.0.stage
            == InstallStage::RemovingInstaller && (r.1 matches InstallAction::RemoveFile(p) && p@ == join_path(
            plan.project_root@,
            "installer.jar"@,
        ))),
        // after the loader is in place
        (state.stage == InstallStage::RemovingInstaller || state.stage == InstallStage::LinkingServer) && event
            is Done ==> (r.0.stage == InstallStage::WritingEula && (r.1 matches InstallAction::WriteFile(p, t) && p@
            == join_path(plan.project_root@, "eula.txt"@) && t@ == "eula=true"@)),
        state.stage == InstallStage::WritingEula && event is Done && old_forge_loader(plan.project.loader@) ==> (
        r.0.stage == InstallStage::ListingForJar && (r.1 matches InstallAction::ListDir(d) && d@
            == plan.project_root@)),
        (state.stage == InstallStage::WritingEula && event is Done && !old_forge_loader(plan.project.loader@))
            || state.stage == InstallStage::RenamingJar ==> (r.0.stage == InstallStage::Tidying && (
        r.1 matches InstallAction::RemoveIfPresent(v) && views(v@) == leftover_names().map_values(
            |n: Seq<char>| join_path(plan.project_root@, n),
        ))),
        event matches InstallEvent::Listing(names) ==> (state.stage == InstallStage::ListingForJar ==> (r.0.stage
            == InstallStage::RenamingJar && (r.1 matches InstallAction::MoveEntries(v) && ((v@.len() == 0 && forall|
            j: int,
        | 0 <= j < names@.len() ==> !forge_server_jar_name(#[trigger] names@[j]@)) || (v@.len() == 1 && exists|
            i: int,
        |
            0 <= i < names@.len() && forge_server_jar_name(names@[i]@) && (forall|j: int|
                0 <= j < i ==> !forge_server_jar_name(#[trigger] names@[j]@)) && v@[0].0@ == join_path(
                plan.project_root@,
                names@[i]@,
            ) && v@[0].1@ == join_path(plan.project_root@, "server.jar"@)))))),
        state.stage == InstallStage::Tidying ==> (r.0.stage == InstallStage::SavingLock && (
        r.1 matches InstallAction::SaveLock(snap) && (state.fetched matches Some((h, k)) && (
        snap.loader_hash matches Some(h2) && h2@ == h@) && snap.hash_kind == Some(k))
            && snap.minecraft_version@ == plan.project.minecraft@ && snap.loader@ == plan.project.loader@)),
        state.stage == InstallStage::SavingLock && event is Done ==> (r.0.stage == InstallStage::Finished && r.1
            == InstallAction::Finish(Ok(()))),
{
    let root = plan.project_root.as_str();
    let base = join(root, ".conduit_runtimes");
    let stage = state.stage;
    let installer = state.installer;
    let fetched = state.fetched;
    match event {
        InstallEvent::Failed(e) => {
            if stage == InstallStage::FetchingCached {
                return (
                    InstallState { stage: InstallStage::Resolving, installer: false, fetched: None },
                    InstallAction::ResolveLoader,
                );
            }
            return (InstallState { stage: InstallStage::Finished, installer, fetched }, InstallAction::Finish(Err(e)));
        },
        InstallEvent::Listing(names) => {
            if stage == InstallStage::ListingRoot {
                let stash = join(base.as_str(), plan.installed_runtime_id.as_str());
                let mut excluded: Vec<String> = Vec::new();
                for i in 0..plan.project_files.len()
                    invariant
                        views(excluded@) == views(plan.project_files@).take(i as int),
                {
                    let ghost prev = views(excluded@);
                    excluded.push(plan.project_files[i].clone());
                    assert(views(excluded@) =~= prev.push(plan.project_files@[i as int]@));
                    assert(views(plan.project_files@).take(i + 1) =~= views(plan.project_files@).take(i as int).push(
                        plan.project_files@[i as int]@,
                    ));
                }
                excluded.push(".conduit_runtimes".to_string());
                assert(views(plan.project_files@).take(plan.project_files@.len() as int) =~= views(
                    plan.project_files@,
                ));
                assert(views(excluded@) =~= stash_excluded(*plan));
                let moves = moves_between(&names, &excluded, root, stash.as_str());
                return (
                    InstallState { stage: InstallStage::MovingOut, installer, fetched },
                    InstallAction::MoveEntries(moves),
                );
            } else if stage == InstallStage::ListingTarget {
                let target = join(base.as_str(), plan.target_runtime_id.as_str());
                let excluded: Vec<String> = vec!["conduit.toml".to_string(), "conduit.lock".to_string()];
                assert(views(excluded@) =~= restore_excluded());
                let moves = moves_between(&names, &excluded, target.as_str(), root);
                return (
                    InstallState { stage: InstallStage::MovingBack, installer, fetched },
                    InstallAction::MoveEntries(moves),
                );
            } else {
                let mut v: Vec<(String, String)> = Vec::new();
                match forge_server_jar(&names) {
                    Some(i) => {
                        v.push((join(root, names[i].as_str()), join(root, "server.jar")));
                    },
                    None => {},
                }
                return (
                    InstallState { stage: InstallStage::RenamingJar, installer, fetched },
                    InstallAction::MoveEntries(v),
                );
            }
        },
        InstallEvent::Exists(there) => {
            if there {
                let target = join(base.as_str(), plan.target_runtime_id.as_str());
                return (
                    InstallState { stage: InstallStage::ListingTarget, installer, fetched },
                    InstallAction::ListDir(target),
                );
            }
            return after_migration(plan);
        },
        InstallEvent::Fetched(h, k) => {
            if stage == InstallStage::FetchingCached {
                let p = join(root, "server.jar");
                return (
                    InstallState { stage: InstallStage::LinkingCached, installer, fetched },
                    InstallAction::LinkObject(h, k, p),
                );
            }
            let h2 = h.clone();
            if installer {
                let p = join(root, "installer.jar");
                return (
                    InstallState { stage: InstallStage::CopyingInstaller, installer, fetched: Some((h, k)) },
                    InstallAction::CopyObject(h2, k, p),
                );
            }
            let p = join(root, "server.jar");
            return (
                InstallState { stage: InstallStage::LinkingServer, installer, fetched: Some((h, k)) },
                InstallAction::LinkObject(h2, k, p),
            );
        },
        InstallEvent::Resolved(res) => {
            let (is_installer, _) = install_target(root, res.file_name.as_str());
            let h = expected_hash(res.hash.as_str());
            return (
                InstallState { stage: InstallStage::Downloading, installer: is_installer, fetched: None },
                InstallAction::Download(res.url, h),
            );
        },
        InstallEvent::Done => {},
    }
    match stage {
        InstallStage::MakingStash => (
            InstallState { stage: InstallStage::ListingRoot, installer, fetched },
            InstallAction::ListDir(plan.project_root.clone()),
        ),
        InstallStage::MovingOut => {
            let stash = join(base.as_str(), plan.installed_runtime_id.as_str());
            let p = join(stash.as_str(), "conduit.lock");
            (InstallState { stage: InstallStage::SavingStashLock, installer, fetched }, InstallAction::SaveLockCopy(p))
        },
        InstallStage::SavingStashLock => {
            let target = join(base.as_str(), plan.target_runtime_id.as_str());
            (
                InstallState { stage: InstallStage::ProbingTarget, installer, fetched },
                InstallAction::CheckExists(target),
            )
        },
        InstallStage::MovingBack => {
            let target = join(base.as_str(), plan.target_runtime_id.as_str());
            (
                InstallState { stage: InstallStage::RemovingTarget, installer, fetched },
                InstallAction::RemoveDirAll(target),
            )
        },
        InstallStage::RemovingTarget => after_migration(plan),
        InstallStage::LinkingCached => (
            InstallState { stage: InstallStage::Finished, installer, fetched },
            InstallAction::Finish(Ok(())),
        ),
        InstallStage::CopyingInstaller => {
            let p = join(root, "installer.jar");
            let args = installer_args(p.as_str(), &plan.project.loader, plan.project.minecraft.as_str());
            (InstallState { stage: InstallStage::RunningInstaller, installer, fetched }, InstallAction::RunJava(args))
        },
        InstallStage::RunningInstaller => {
            let p = join(root, "installer.jar");
            (InstallState { stage: InstallStage::RemovingInstaller, installer, fetched }, InstallAction::RemoveFile(p))
        },
        InstallStage::RemovingInstaller | InstallStage::LinkingServer => {
            let p = join(root, "eula.txt");
            (
                InstallState { stage: InstallStage::WritingEula, installer, fetched },
                InstallAction::WriteFile(p, "eula=true".to_string()),
            )
        },
        InstallStage::WritingEula => {
            if needs_jar_rename(&plan.project.loader) {
                (
                    InstallState { stage: InstallStage::ListingForJar, installer, fetched },
                    InstallAction::ListDir(plan.project_root.clone()),
                )
            } else {
                (InstallState { stage: InstallStage::Tidying, installer, fetched }, tidy_action(plan))
            }
        },
        InstallStage::RenamingJar => (InstallState { stage: InstallStage::Tidying, installer, fetched }, tidy_action(plan)),
        InstallStage::Tidying => {
            match fetched {
                Some((h, k)) => {
                    let snap = installed_snapshot(&plan.project, h.clone(), k);
                    (
                        InstallState { stage: InstallStage::SavingLock, installer, fetched: Some((h, k)) },
                        InstallAction::SaveLock(snap),
                    )
                },
                // `state_wf` rules this out: tidying comes after the download
                None => (InstallState { stage: InstallStage::Finished, installer, fetched: None }, InstallAction::Finish(Ok(()))),
            }
        },
        InstallStage::SavingLock => (
            InstallState { stage: InstallStage::Finished, installer, fetched },
            InstallAction::Finish(Ok(())),
        ),
        // no other step is answered by `Done` (see `event_fits`)
        _ => (InstallState { stage: InstallStage::Finished, installer, fetched }, InstallAction::Finish(Ok(()))),
    }
}

} // verus!
