//! Starting the server: when it is ready to start and with which command.
use vstd::prelude::*;
use crate::engine::io::server::config::ServerConfig;
use crate::engine::paths::{join, join_path, CorePaths};
use crate::text::{concat2, contains_str, views};

pub mod chat;

verus! {

pub enum ServerLauncher {
    Neoforge,
    Vanilla,
}

/// A program to run, its arguments and the directory to run it in.
pub struct LaunchCommand {
    pub program: String,
    pub args: Vec<String>,
    pub current_dir: String,
}

pub open spec fn neoforge_dir_spec(project_dir: Seq<char>, version: Seq<char>) -> Seq<char> {
    join_path(join_path(join_path(project_dir, "libraries"@), "net/neoforged/neoforge"@), version)
}

/// The files that must exist before the server can start: the two argument
/// files of the NeoForge version, or `server.jar` for Vanilla.
pub open spec fn required_files_spec(l: ServerLauncher, project_dir: Seq<char>, version: Seq<char>) -> Seq<Seq<char>> {
    match l {
        ServerLauncher::Neoforge => seq![
            join_path(neoforge_dir_spec(project_dir, version), "unix_args.txt"@),
            join_path(neoforge_dir_spec(project_dir, version), "win_args.txt"@),
        ],
        ServerLauncher::Vanilla => seq![join_path(project_dir, "server.jar"@)],
    }
}

/// The argument file the JVM reads, relative to the project directory.
pub open spec fn args_file_spec(loader_version: Seq<char>, windows: bool) -> Seq<char> {
    join_path(
        join_path(join_path("libraries"@, "net/neoforged/neoforge"@), loader_version),
        if windows { "win_args.txt"@ } else { "unix_args.txt"@ },
    )
}

/// The arguments of `java` for each launcher.
pub open spec fn launch_args_spec(
    l: ServerLauncher,
    max_ram: Seq<char>,
    min_ram: Seq<char>,
    jvm_args: Seq<Seq<char>>,
    loader_version: Seq<char>,
    show_gui: bool,
    windows: bool,
) -> Seq<Seq<char>> {
    match l {
        ServerLauncher::Neoforge => seq!["-Xmx"@ + max_ram, "-Xms"@ + min_ram] + jvm_args
            + seq!["@"@ + args_file_spec(loader_version, windows)]
            + if show_gui { Seq::empty() } else { seq!["nogui"@] },
        ServerLauncher::Vanilla => seq![
            "-Xmx"@ + max_ram,
            "-Xms"@ + min_ram,
            "-jar"@,
            "server.jar"@,
            "nogui"@,
        ],
    }
}

impl ServerLauncher {
    /// The files that must exist before the server can start.
    pub fn required_files(&self, paths: &CorePaths, version: &str) -> (r: Vec<String>)
        ensures
            views(r@) == required_files_spec(*self, paths.project_dir@, version@),
    {
        match self {
            ServerLauncher::Neoforge => {
                let dir = paths.neoforge_version_dir(version);
                let a = join(dir.as_str(), "unix_args.txt");
                let b = join(dir.as_str(), "win_args.txt");
                let r = vec![a, b];
                assert(views(r@) =~= required_files_spec(*self, paths.project_dir@, version@));
                r
            },
            ServerLauncher::Vanilla => {
                let a = join(paths.project_dir(), "server.jar");
                let r = vec![a];
                assert(views(r@) =~= required_files_spec(*self, paths.project_dir@, version@));
                r
            },
        }
    }

    /// Whether every file the server needs is among `existing`, the files
    /// found on disk.
    pub fn is_ready(&self, paths: &CorePaths, version: &str, existing: &Vec<String>) -> (b: bool)
        ensures
            b == (forall|i: int|
                0 <= i < required_files_spec(*self, paths.project_dir@, version@).len()
                    ==> views(existing@).contains(#[trigger] required_files_spec(*self, paths.project_dir@, version@)[i])),
    {
        let req = self.required_files(paths, version);
        let ghost rs = required_files_spec(*self, paths.project_dir@, version@);
        for i in 0..req.len()
            invariant
                views(req@) == rs,
                rs == required_files_spec(*self, paths.project_dir@, version@),
                forall|j: int| 0 <= j < i ==> views(existing@).contains(#[trigger] rs[j]),
        {
            assert(rs[i as int] == req@[i as int]@);
            if !contains_str(existing, req[i].as_str()) {
                assert(!views(existing@).contains(rs[i as int]));
                return false;
            }
        }
        true
    }

    /// The command that starts the server: `java` in the project directory,
    /// with the memory limits of `config`, and for NeoForge its JVM
    /// arguments and the argument file of `loader_version` (`win_args.txt`
    /// when `windows`), then `nogui` unless the window is wanted.
    pub fn launch_command(
        &self,
        paths: &CorePaths,
        config: &ServerConfig,
        loader_version: &str,
        show_gui: bool,
        windows: bool,
    ) -> (r: LaunchCommand)
        ensures
            r.program@ == "java"@,
            r.current_dir@ == paths.project_dir@,
            views(r.args@) == launch_args_spec(
                *self,
                config.performance.max_ram@,
                config.performance.min_ram@,
                views(config.performance.jvm_args@),
                loader_version@,
                show_gui,
                windows,
            ),
    {
        let xmx = concat2("-Xmx", config.performance.max_ram.as_str());
        let xms = concat2("-Xms", config.performance.min_ram.as_str());
        match self {
            ServerLauncher::Neoforge => {
                let mut args: Vec<String> = Vec::new();
                args.push(xmx);
                args.push(xms);
                let jvm = &config.performance.jvm_args;
                for i in 0..jvm.len()
                    invariant
                        views(args@) == seq!["-Xmx"@ + config.performance.max_ram@, "-Xms"@
                            + config.performance.min_ram@] + views(jvm@).take(i as int),
                {
                    let ghost prev = views(args@);
                    args.push(jvm[i].clone());
                    assert(views(args@) =~= prev.push(jvm@[i as int]@));
                    assert(views(jvm@).take(i + 1) =~= views(jvm@).take(i as int).push(jvm@[i as int]@));
                    assert(views(args@) =~= seq!["-Xmx"@ + config.performance.max_ram@, "-Xms"@
                        + config.performance.min_ram@] + views(jvm@).take(i + 1));
                }
                assert(views(jvm@).take(jvm@.len() as int) =~= views(jvm@));
                let arg_file = if windows {
                    "win_args.txt"
                } else {
                    "unix_args.txt"
                };
                let base = join("libraries", "net/neoforged/neoforge");
                let dir = join(base.as_str(), loader_version);
                let rel = join(dir.as_str(), arg_file);
                let ghost before = views(args@);
                args.push(concat2("@", rel.as_str()));
                if !show_gui {
                    args.push("nogui".to_string());
                }
                proof {
                    let want = launch_args_spec(
                        *self,
                        config.performance.max_ram@,
                        config.performance.min_ram@,
                        views(config.performance.jvm_args@),
                        loader_version@,
                        show_gui,
                        windows,
                    );
                    assert(views(args@) =~= want);
                }
                LaunchCommand { program: "java".to_string(), args, current_dir: paths.project_dir().to_string() }
            },
            ServerLauncher::Vanilla => {
                let args = vec![xmx, xms, "-jar".to_string(), "server.jar".to_string(), "nogui".to_string()];
                assert(views(args@) =~= launch_args_spec(
                    *self,
                    config.performance.max_ram@,
                    config.performance.min_ram@,
                    views(config.performance.jvm_args@),
                    loader_version@,
                    show_gui,
                    windows,
                ));
                LaunchCommand { program: "java".to_string(), args, current_dir: paths.project_dir().to_string() }
            },
        }
    }
}

} // verus!
