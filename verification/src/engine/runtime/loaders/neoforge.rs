//! Which NeoForge version serves a Minecraft version, read from the maven
//! metadata of NeoForge, and where its installer is downloaded from.
use vstd::prelude::*;
use crate::engine::paths::{join, join_path};
use crate::text::{concat2, concat3, lemma_split_len, push_str, split_char, split_seq, str_eq, views};

verus! {

/// The characters that `regex::escape` puts a backslash before.
pub open spec fn is_regex_meta(c: char) -> bool {
    c == '\\' || c == '.' || c == '+' || c == '*' || c == '?' || c == '(' || c == ')' || c == '|'
        || c == '[' || c == ']' || c == '{' || c == '}' || c == '^' || c == '$' || c == '#'
        || c == '&' || c == '-' || c == '~'
}

/// `s` with a backslash before each regex meta character.
pub open spec fn regex_escape_spec(s: Seq<char>) -> Seq<char>
    decreases s.len(),
{
    if s.len() == 0 {
        Seq::empty()
    } else {
        regex_escape_spec(s.drop_last()) + if is_regex_meta(s.last()) {
            seq!['\\', s.last()]
        } else {
            seq![s.last()]
        }
    }
}

/// Calls `regex::escape`. Claimed: a backslash is put before each of the
/// meta characters `\ . + * ? ( ) | [ ] { } ^ $ # & - ~` and every other
/// character is kept, as its source shows.
#[verifier::external_body]
fn regex_escape(s: &str) -> (r: String)
    ensures
        r@ == regex_escape_spec(s@),
{
    regex::escape(s)
}

pub open spec fn opt_views(v: Seq<Option<String>>) -> Seq<Option<Seq<char>>> {
    v.map_values(|o: Option<String>| match o {
        Some(s) => Some(s@),
        None => None,
    })
}

/// What compiling `pattern` with `regex::Regex::new` and walking
/// `captures_iter` over `haystack` gives: the text of group 1 of each match,
/// in order, or the compile error's message.
pub uninterp spec fn regex_group_one(pattern: Seq<char>, haystack: Seq<char>) -> Result<Seq<Option<Seq<char>>>, Seq<char>>;

/// Calls `regex::Regex::new` and `Regex::captures_iter`. Claimed: the result
/// is `regex_group_one` of the pattern and the haystack; nothing is stated of
/// the regex semantics themselves.
#[verifier::external_body]
fn capture_group_one(pattern: &str, haystack: &str) -> (r: Result<Vec<Option<String>>, String>)
    ensures
        match r {
            Ok(v) => regex_group_one(pattern@, haystack@) == Ok::<Seq<Option<Seq<char>>>, Seq<char>>(opt_views(v@)),
            Err(e) => regex_group_one(pattern@, haystack@) == Err::<Seq<Option<Seq<char>>>, Seq<char>>(e@),
        },
{
    match regex::Regex::new(pattern) {
        Ok(re) => Ok(re.captures_iter(haystack).map(|c| c.get(1).map(|m| m.as_str().to_string())).collect()),
        Err(e) => Err(e.to_string()),
    }
}

/// The `major.minor.` that NeoForge versions for a Minecraft version begin
/// with: for `1.x.y` it is `x.y.` (`y` being `0` when absent), for a version
/// that does not begin with `1` its first two parts.
pub open spec fn neoforge_prefix_spec(mc_version: Seq<char>) -> Seq<char> {
    let parts = split_seq(mc_version, '.');
    let major = if parts[0] == "1"@ {
        if parts.len() > 1 { parts[1] } else { Seq::empty() }
    } else {
        parts[0]
    };
    let minor = if parts[0] == "1"@ {
        if parts.len() > 2 { parts[2] } else { "0"@ }
    } else {
        if parts.len() > 1 { parts[1] } else { "0"@ }
    };
    major + "."@ + minor + "."@
}

pub open spec fn neoforge_pattern_spec(mc_version: Seq<char>) -> Seq<char> {
    "<version>("@ + regex_escape_spec(neoforge_prefix_spec(mc_version)) + ".*?)</version>"@
}

pub open spec fn no_version_message(mc_version: Seq<char>) -> Seq<char> {
    "No compatible NeoForge version found for MC "@ + mc_version
}

pub fn neoforge_prefix(mc_version: &str) -> (r: String)
    ensures
        r@ == neoforge_prefix_spec(mc_version@),
{
    let parts = split_char(mc_version, '.');
    proof {
        lemma_split_len(mc_version@, '.');
        assert(forall|i: int| 0 <= i < parts@.len() ==> #[trigger] parts@[i]@ == views(parts@)[i]);
    }
    let first_is_one = str_eq(parts[0].as_str(), "1");
    let major: String = if first_is_one {
        if parts.len() > 1 {
            parts[1].clone()
        } else {
            String::new()
        }
    } else {
        parts[0].clone()
    };
    let minor: String = if first_is_one {
        if parts.len() > 2 {
            parts[2].clone()
        } else {
            "0".to_string()
        }
    } else {
        if parts.len() > 1 {
            parts[1].clone()
        } else {
            "0".to_string()
        }
    };
    let mut r = String::new();
    push_str(&mut r, major.as_str());
    push_str(&mut r, ".");
    push_str(&mut r, minor.as_str());
    push_str(&mut r, ".");
    proof {
        assert(r@ =~= neoforge_prefix_spec(mc_version@));
    }
    r
}

/// The newest version among the captured ones: the last, as the metadata
/// lists versions oldest first.
pub fn latest_from_matches(groups: &Vec<Option<String>>, mc_version: &str) -> (r: Result<String, String>)
    requires
        groups@.len() > 0 ==> groups@.last() is Some,
    ensures
        groups@.len() == 0 ==> r is Err && r->Err_0@ == no_version_message(mc_version@),
        groups@.len() > 0 ==> r is Ok && Some(r->Ok_0@) == opt_views(groups@).last(),
{
    if groups.len() == 0 {
        return Err(concat2("No compatible NeoForge version found for MC ", mc_version));
    }
    let last = &groups[groups.len() - 1];
    match last {
        Some(v) => Ok(v.clone()),
        None => Err(String::new()),
    }
}

/// The latest NeoForge version for `mc_version` in the maven metadata
/// `metadata`: group 1 of the last match of `<version>(PREFIX.*?)</version>`,
/// PREFIX being the escaped `major.minor.` of the Minecraft version.
pub fn get_latest_neoforge_version(mc_version: &str, metadata: &str) -> (r: Result<String, String>)
    ensures
        match regex_group_one(neoforge_pattern_spec(mc_version@), metadata@) {
            Err(e) => r is Err && r->Err_0@ == e,
            Ok(gs) => if gs.len() == 0 {
                r is Err && r->Err_0@ == no_version_message(mc_version@)
            } else {
                match gs.last() {
                    Some(v) => r is Ok && r->Ok_0@ == v,
                    None => r is Err && r->Err_0@ == Seq::<char>::empty(),
                }
            },
        },
{
    let prefix = neoforge_prefix(mc_version);
    let escaped = regex_escape(prefix.as_str());
    let pattern = concat3("<version>(", escaped.as_str(), ".*?)</version>");
    match capture_group_one(pattern.as_str(), metadata) {
        Err(e) => Err(e),
        Ok(groups) => {
            if groups.len() > 0 && groups[groups.len() - 1].is_none() {
                return Err(String::new());
            }
            latest_from_matches(&groups, mc_version)
        },
    }
}

/// Where the installer of a NeoForge version is downloaded from.
pub open spec fn installer_url_spec(version: Seq<char>) -> Seq<char> {
    "https://maven.neoforged.net/releases/net/neoforged/neoforge/"@ + version + "/neoforge-"@ + version
        + "-installer.jar"@
}

/// A download: from where, to which file, and the name shown meanwhile.
pub struct DownloadPlan {
    pub url: String,
    pub path: String,
    pub display_name: String,
}

/// The download of the installer of `version` into `install_path`, saved as
/// `neoforge-installer.jar`.
pub fn neoforge_installer_download(version: &str, install_path: &str) -> (r: DownloadPlan)
    ensures
        r.url@ == installer_url_spec(version@),
        r.path@ == join_path(install_path@, "neoforge-installer.jar"@),
        r.display_name@ == "neoforge-"@ + version@ + "-installer.jar"@,
{
    let mut url = String::new();
    push_str(&mut url, "https://maven.neoforged.net/releases/net/neoforged/neoforge/");
    push_str(&mut url, version);
    push_str(&mut url, "/neoforge-");
    push_str(&mut url, version);
    push_str(&mut url, "-installer.jar");
    proof {
        assert(url@ =~= installer_url_spec(version@));
    }
    DownloadPlan {
        url,
        path: join(install_path, "neoforge-installer.jar"),
        display_name: concat3("neoforge-", version, "-installer.jar"),
    }
}

/// The arguments of `java` that run a NeoForge installer as a server
/// installation.
pub fn installer_args(installer_path: &str) -> (r: Vec<String>)
    ensures
        views(r@) == seq!["-jar"@, installer_path@, "--installServer"@],
{
    let r = vec!["-jar".to_string(), installer_path.to_string(), "--installServer".to_string()];
    assert(views(r@) =~= seq!["-jar"@, installer_path@, "--installServer"@]);
    r
}

} // verus!
