//! The Modrinth API: its models, and the requests and checks around them.
use vstd::prelude::*;
use crate::engine::modrinth::models::Project;
use crate::text::{push_str, str_eq};

pub mod models;

verus! {

pub struct ModrinthAPI {
    pub base_url: String,
}

pub open spec fn project_url_spec(base: Seq<char>, id_or_slug: Seq<char>) -> Seq<char> {
    base + "/project/"@ + id_or_slug
}

/// The versions query: the loader and the game version filters, each only
/// when given, each followed by `&`.
pub open spec fn versions_url_spec(
    base: Seq<char>,
    id_or_slug: Seq<char>,
    loader: Option<Seq<char>>,
    game_version: Option<Seq<char>>,
) -> Seq<char> {
    base + "/project/"@ + id_or_slug + "/version?"@ + match loader {
        Some(l) => "loaders=[\""@ + l + "\"]&"@,
        None => Seq::empty(),
    } + match game_version {
        Some(g) => "game_versions=[\""@ + g + "\"]&"@,
        None => Seq::empty(),
    }
}

pub open spec fn not_a_mod_message(id_or_slug: Seq<char>, project_type: Seq<char>) -> Seq<char> {
    "Project '"@ + id_or_slug + "' is a "@ + project_type + ", but only 'mod' is supported."@
}

impl ModrinthAPI {
    pub fn project_url(&self, id_or_slug: &str) -> (r: String)
        ensures
            r@ == project_url_spec(self.base_url@, id_or_slug@),
    {
        let mut r = self.base_url.clone();
        push_str(&mut r, "/project/");
        push_str(&mut r, id_or_slug);
        r
    }

    pub fn versions_url(&self, id_or_slug: &str, loader: Option<&str>, game_version: Option<&str>) -> (r: String)
        ensures
            r@ == versions_url_spec(self.base_url@, id_or_slug@, match loader {
                Some(l) => Some(l@),
                None => None,
            }, match game_version {
                Some(g) => Some(g@),
                None => None,
            }),
    {
        let mut r = self.base_url.clone();
        push_str(&mut r, "/project/");
        push_str(&mut r, id_or_slug);
        push_str(&mut r, "/version?");
        if let Some(l) = loader {
            push_str(&mut r, "loaders=[\"");
            push_str(&mut r, l);
            push_str(&mut r, "\"]&");
        }
        if let Some(g) = game_version {
            push_str(&mut r, "game_versions=[\"");
            push_str(&mut r, g);
            push_str(&mut r, "\"]&");
        }
        proof {
            let want = versions_url_spec(self.base_url@, id_or_slug@, match loader {
                Some(l) => Some(l@),
                None => None,
            }, match game_version {
                Some(g) => Some(g@),
                None => None,
            });
            assert(r@ =~= want);
        }
        r
    }

    /// Only mods are installed: any other project type is refused.
    pub fn check_project_type(&self, project: Project, id_or_slug: &str) -> (r: Result<Project, String>)
        ensures
            project.project_type@ == "mod"@ ==> r == Ok::<Project, String>(project),
            project.project_type@ != "mod"@ ==> (r matches Err(m) && m@ == not_a_mod_message(
                id_or_slug@,
                project.project_type@,
            )),
    {
        if !str_eq(project.project_type.as_str(), "mod") {
            let mut m = "Project '".to_string();
            push_str(&mut m, id_or_slug);
            push_str(&mut m, "' is a ");
            push_str(&mut m, project.project_type.as_str());
            push_str(&mut m, ", but only 'mod' is supported.");
            return Err(m);
        }
        Ok(project)
    }
}

} // verus!
