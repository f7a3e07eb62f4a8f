//! Starting an installed server: which entry point the loader has, and the
//! `java` arguments that reach it.
use vstd::prelude::*;
use crate::domain::loader::{Loader, LoaderKind};
use crate::text::{concat2, contains_sub, has_infix, lemma_split_len, parse_u32, parse_u32_spec, split_char, split_seq, views};

verus! {

pub enum StartError {
    Io(String),
    NotInstalled,
    NoEntryPoint,
}

pub open spec fn parse_or_zero(s: Seq<char>) -> u32 {
    match parse_u32_spec(s) {
        Some(v) => v,
        None => 0,
    }
}

/// Whether a Forge version (`<minecraft>-<forge>`) is one that starts from
/// an argument file: Minecraft 1.17 and later, or a version numbered from
/// 25 up; an unreadable number counts as 0.
pub open spec fn modern_forge_spec(version: Seq<char>) -> bool {
    let parts = split_seq(split_seq(version, '-')[0], '.');
    let major = parse_or_zero(parts[0]);
    let minor = if parts.len() > 1 { parse_or_zero(parts[1]) } else { 0 };
    major >= 25 || (major == 1 && minor >= 17)
}

pub fn parse_u32_or_zero(s: &str) -> (r: u32)
    ensures
        r == parse_or_zero(s@),
{
    match parse_u32(s) {
        Some(v) => v,
        None => 0,
    }
}

/// Whether a Forge version starts from an argument file.
pub fn modern_forge(version: &str) -> (b: bool)
    ensures
        b == modern_forge_spec(version@),
{
    let pieces = split_char(version, '-');
    proof {
        lemma_split_len(version@, '-');
        assert(pieces@[0]@ == views(pieces@)[0]);
    }
    let parts = split_char(pieces[0].as_str(), '.');
    proof {
        lemma_split_len(pieces@[0]@, '.');
        assert(parts@[0]@ == views(parts@)[0]);
    }
    let major = parse_u32_or_zero(parts[0].as_str());
    let minor = if parts.len() > 1 {
        assert(parts@[1]@ == views(parts@)[1]);
        parse_u32_or_zero(parts[1].as_str())
    } else {
        0
    };
    major >= 25 || (major == 1 && minor >= 17)
}

/// An argument file found under `libraries`: its full path and its path
/// relative to the project.
pub struct ArgsCandidate {
    pub full_path: String,
    pub relative_path: String,
}

pub open spec fn candidate_views(v: Seq<ArgsCandidate>) -> Seq<(Seq<char>, Seq<char>)> {
    v.map_values(|c: ArgsCandidate| (c.full_path@, c.relative_path@))
}

/// The position of the first candidate whose full path mentions `version`.
pub open spec fn first_mentioning(c: Seq<(Seq<char>, Seq<char>)>, version: Seq<char>) -> Option<int>
    decreases c.len(),
{
    if c.len() == 0 {
        None
    } else {
        match first_mentioning(c.drop_last(), version) {
            Some(i) => Some(i),
            None => if has_infix(c.last().0, version) { Some(c.len() - 1) } else { None },
        }
    }
}

/// The argument file to start from, among those found in walk order: the
/// first whose path mentions the loader version, else the last found.
pub open spec fn select_args_spec(c: Seq<(Seq<char>, Seq<char>)>, version: Seq<char>) -> Option<Seq<char>> {
    match first_mentioning(c, version) {
        Some(i) => Some(c[i].1),
        None => if c.len() > 0 { Some(c.last().1) } else { None },
    }
}

proof fn lemma_first_mentioning(c: Seq<(Seq<char>, Seq<char>)>, version: Seq<char>)
    ensures
        match first_mentioning(c, version) {
            Some(i) => 0 <= i < c.len() && has_infix(c[i].0, version) && forall|j: int| 0 <= j < i ==> !has_infix(#[trigger] c[j].0, version),
            None => forall|j: int| 0 <= j < c.len() ==> !has_infix(#[trigger] c[j].0, version),
        },
    decreases c.len(),
{
    if c.len() > 0 {
        lemma_first_mentioning(c.drop_last(), version);
        match first_mentioning(c.drop_last(), version) {
            Some(i) => {
                assert forall|j: int| 0 <= j < i implies !has_infix(#[trigger] c[j].0, version) by {
                    assert(c[j] == c.drop_last()[j]);
                }
                assert(c[i] == c.drop_last()[i]);
            },
            None => {
                assert forall|j: int| 0 <= j < c.len() - 1 implies !has_infix(#[trigger] c[j].0, version) by {
                    assert(c[j] == c.drop_last()[j]);
                }
            },
        }
    }
}

/// Picks the argument file to start from.
pub fn select_args_file(candidates: &Vec<ArgsCandidate>, loader_version: &str) -> (r: Option<String>)
    ensures
        match r {
            Some(s) => select_args_spec(candidate_views(candidates@), loader_version@) == Some(s@),
            None => select_args_spec(candidate_views(candidates@), loader_version@) is None,
        },
{
    let ghost c = candidate_views(candidates@);
    proof {
        lemma_first_mentioning(c, loader_version@);
    }
    for i in 0..candidates.len()
        invariant
            c == candidate_views(candidates@),
            forall|j: int| 0 <= j < i ==> !has_infix(#[trigger] c[j].0, loader_version@),
            match first_mentioning(c, loader_version@) {
                Some(k) => 0 <= k < c.len() && has_infix(c[k].0, loader_version@) && forall|j: int| 0 <= j < k ==> !has_infix(#[trigger] c[j].0, loader_version@),
                None => forall|j: int| 0 <= j < c.len() ==> !has_infix(#[trigger] c[j].0, loader_version@),
            },
    {
        assert(c[i as int].0 == candidates@[i as int].full_path@);
        if contains_sub(candidates[i].full_path.as_str(), loader_version) {
            proof {
                match first_mentioning(c, loader_version@) {
                    Some(k) => {
                        if k < i {
                            assert(!has_infix(c[k].0, loader_version@));
                        }
                        if k > i {
                            assert(!has_infix(c[i as int].0, loader_version@));
                        }
                    },
                    None => {
                        assert(!has_infix(c[i as int].0, loader_version@));
                    },
                }
            }
            return Some(candidates[i].relative_path.clone());
        }
    }
    proof {
        match first_mentioning(c, loader_version@) {
            Some(k) => {
                assert(!has_infix(c[k].0, loader_version@));
            },
            None => {},
        }
    }
    if candidates.len() > 0 {
        Some(candidates[candidates.len() - 1].relative_path.clone())
    } else {
        None
    }
}

/// The arguments that reach a loader's entry point, or `None` where it
/// starts from an argument file and none was found: NeoForge and a modern
/// Forge start from `@<args file>`, Fabric from its launch jar when it is
/// there, everything else from `server.jar`.
pub open spec fn loader_args_spec(l: LoaderKind, args_file: Option<Seq<char>>, fabric_launcher_exists: bool) -> Option<Seq<Seq<char>>> {
    let from_file = match args_file {
        Some(f) => Some(seq!["@"@ + f]),
        None => None,
    };
    match l {
        LoaderKind::Neoforge(_) => from_file,
        LoaderKind::Forge(v) => if modern_forge_spec(v) { from_file } else { Some(seq!["-jar"@, "server.jar"@]) },
        LoaderKind::Fabric => Some(seq![
            "-jar"@,
            if fabric_launcher_exists { "fabric-server-launch.jar"@ } else { "server.jar"@ },
        ]),
        _ => Some(seq!["-jar"@, "server.jar"@]),
    }
}

/// Whether the loader starts from an argument file, and so needs one found.
pub open spec fn needs_args_file_spec(l: LoaderKind) -> bool {
    match l {
        LoaderKind::Neoforge(_) => true,
        LoaderKind::Forge(v) => modern_forge_spec(v),
        _ => false,
    }
}

pub fn needs_args_file(loader: &Loader) -> (b: bool)
    ensures
        b == needs_args_file_spec(loader@),
{
    match loader {
        Loader::Neoforge { .. } => true,
        Loader::Forge { version } => modern_forge(version.as_str()),
        _ => false,
    }
}

/// The arguments that reach the loader's entry point; `args_file` is the
/// file `select_args_file` picked, where the loader needs one.
pub fn loader_args(loader: &Loader, args_file: Option<String>, fabric_launcher_exists: bool) -> (r: Option<Vec<String>>)
    ensures
        match r {
            Some(v) => loader_args_spec(loader@, match args_file {
                Some(f) => Some(f@),
                None => None,
            }, fabric_launcher_exists) == Some(views(v@)),
            None => loader_args_spec(loader@, match args_file {
                Some(f) => Some(f@),
                None => None,
            }, fabric_launcher_exists) is None,
        },
{
    let jar_args = |jar: &str| -> (v: Vec<String>)
        ensures
            views(v@) == seq!["-jar"@, jar@],
        {
            let v = vec!["-jar".to_string(), jar.to_string()];
            assert(views(v@) =~= seq!["-jar"@, jar@]);
            v
        };
    let use_file = match loader {
        Loader::Neoforge { .. } => true,
        Loader::Forge { version } => modern_forge(version.as_str()),
        _ => false,
    };
    if use_file {
        match args_file {
            Some(f) => {
                let v = vec![concat2("@", f.as_str())];
                assert(views(v@) =~= seq!["@"@ + f@]);
                Some(v)
            },
            None => None,
        }
    } else {
        match loader {
            Loader::Fabric => {
                if fabric_launcher_exists {
                    Some(jar_args("fabric-server-launch.jar"))
                } else {
                    Some(jar_args("server.jar"))
                }
            },
            _ => Some(jar_args("server.jar")),
        }
    }
}

/// The whole argument list of `java` when starting: the entry point, then
/// `nogui`; no entry point is `NoEntryPoint`.
pub fn setup_loader_args(loader: &Loader, args_file: Option<String>, fabric_launcher_exists: bool) -> (r: Result<Vec<String>, StartError>)
    ensures
        match loader_args_spec(loader@, match args_file {
            Some(f) => Some(f@),
            None => None,
        }, fabric_launcher_exists) {
            Some(a) => r matches Ok(v) && views(v@) == a.push("nogui"@),
            None => r matches Err(StartError::NoEntryPoint),
        },
{
    match loader_args(loader, args_file, fabric_launcher_exists) {
        Some(mut v) => {
            let ghost before = views(v@);
            v.push("nogui".to_string());
            assert(views(v@) =~= before.push("nogui"@));
            Ok(v)
        },
        None => Err(StartError::NoEntryPoint),
    }
}


/// Every loader that needs no argument file gets an entry point without
/// one: Vanilla, Paper and Purpur start with `-jar server.jar`, an old Forge
/// too, Fabric with `-jar` and its launcher where there is one; a loader
/// that needs an argument file starts from `@` and that file, and has no
/// entry point without it.
pub proof fn lemma_entry_points(l: LoaderKind, args_file: Option<Seq<char>>, fabric_launcher_exists: bool)
    ensures
        !needs_args_file_spec(l) ==> loader_args_spec(l, args_file, fabric_launcher_exists) is Some,
        (l is Vanilla || l is Paper || l is Purpur) ==> loader_args_spec(l, args_file, fabric_launcher_exists)
            == Some(seq!["-jar"@, "server.jar"@]),
        (l matches LoaderKind::Forge(v) && !modern_forge_spec(v)) ==> loader_args_spec(
            l,
            args_file,
            fabric_launcher_exists,
        ) == Some(seq!["-jar"@, "server.jar"@]),
        l is Fabric ==> loader_args_spec(l, args_file, fabric_launcher_exists) == Some(
            seq!["-jar"@, if fabric_launcher_exists { "fabric-server-launch.jar"@ } else { "server.jar"@ }],
        ),
        l is Neoforge ==> needs_args_file_spec(l),
        needs_args_file_spec(l) ==> loader_args_spec(l, args_file, fabric_launcher_exists) == match args_file {
            Some(f) => Some(seq!["@"@ + f]),
            None => None::<Seq<Seq<char>>>,
        },
{
}

} // verus!
