//! Loaders named by a `name@version` string, as the project's first layout
//! reads them.
use vstd::prelude::*;
use crate::text::{lemma_split_len, split_char, split_seq, views};

verus! {

pub struct LoaderInfo {
    pub name: String,
    pub version: String,
}

impl LoaderInfo {
    /// The name is what comes before the first `@`; the version what lies
    /// between the first and the second `@`, or `latest` without an `@`.
    pub fn parse(loader_str: &str) -> (r: LoaderInfo)
        ensures
            r.name@ == split_seq(loader_str@, '@')[0],
            r.version@ == (if split_seq(loader_str@, '@').len() > 1 {
                split_seq(loader_str@, '@')[1]
            } else {
                "latest"@
            }),
    {
        let parts = split_char(loader_str, '@');
        proof {
            lemma_split_len(loader_str@, '@');
            assert(parts@[0]@ == views(parts@)[0]);
        }
        let name = parts[0].clone();
        let version = if parts.len() > 1 {
            assert(parts@[1]@ == views(parts@)[1]);
            parts[1].clone()
        } else {
            "latest".to_string()
        };
        LoaderInfo { name, version }
    }
}

pub enum Loader {
    NeoForge,
}

} // verus!
