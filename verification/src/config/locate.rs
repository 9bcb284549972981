//! Where configuration files are looked for.
use vstd::prelude::*;

use crate::host::{parent, path_exists, path_parent};
use crate::collections::string_views;
use crate::text::{join_path, path_join_spec, to_owned_string};

verus! {

/// The name of a project's configuration file.
pub const CONFIG_FILE_NAME: &'static str = "herd.toml";

/// The `n`-th ancestor of directory `start` (`start` itself for `n == 0`),
/// while there is one.
pub open spec fn ancestor(start: Seq<char>, n: nat) -> Option<Seq<char>>
    decreases n,
{
    if n == 0 {
        Some(start)
    } else {
        match ancestor(start, (n - 1) as nat) {
            Some(d) => path_parent(d),
            None => None,
        }
    }
}

/// `cands` lists, for `start` and each of its ancestors in turn, the path of
/// a configuration file there, and the last directory has no parent.
pub open spec fn is_candidate_chain(start: Seq<char>, cands: Seq<Seq<char>>) -> bool {
    &&& forall|i: int|
        0 <= i < cands.len() ==> (#[trigger] ancestor(start, i as nat) matches Some(d) && cands[i]
            == path_join_spec(d, "herd.toml"@))
    &&& ancestor(start, cands.len()) is None
}

/// The paths at which a configuration file for `start_dir` may lie:
/// `herd.toml` in `start_dir`, then in each of its ancestors, upward.
pub fn candidate_paths(start_dir: &str) -> (cands: Vec<String>)
    ensures
        is_candidate_chain(start_dir@, string_views(cands@)),
{
    let mut dir = to_owned_string(start_dir);
    let mut cands: Vec<String> = Vec::new();
    loop
        invariant
            ancestor(start_dir@, cands@.len()) == Some(dir@),
            forall|i: int|
                0 <= i < cands@.len() ==> (#[trigger] ancestor(start_dir@, i as nat) matches Some(d)
                    && cands@[i]@ == path_join_spec(d, "herd.toml"@)),
        decreases dir@.len(),
    {
        let candidate = join_path(dir.as_str(), CONFIG_FILE_NAME);
        proof {
            assert(CONFIG_FILE_NAME@ == "herd.toml"@);
        }
        cands.push(candidate);
        match parent(dir.as_str()) {
            Some(p) => {
                dir = p;
            },
            None => {
                proof {
                    assert(string_views(cands@).len() == cands@.len());
                    assert forall|i: int| 0 <= i < cands@.len() implies (#[trigger] ancestor(
                        start_dir@,
                        i as nat,
                    ) matches Some(d) && string_views(cands@)[i] == path_join_spec(d, "herd.toml"@)) by {
                        assert(string_views(cands@)[i] == cands@[i]@);
                    }
                }
                return cands;
            },
        }
    }
}

/// The first of `cands` whose entry in `found` holds.
pub open spec fn first_found_spec(cands: Seq<Seq<char>>, found: Seq<bool>) -> Option<Seq<char>>
    decreases cands.len(),
{
    if cands.len() == 0 {
        None
    } else if found[0] {
        Some(cands[0])
    } else {
        first_found_spec(cands.drop_first(), found.drop_first())
    }
}

pub open spec fn option_string_view(r: Option<String>) -> Option<Seq<char>> {
    match r {
        Some(p) => Some(p@),
        None => None,
    }
}

/// The first candidate reported to exist: `found[i]` tells whether
/// `cands[i]` exists.
pub fn first_found(cands: &Vec<String>, found: &Vec<bool>) -> (r: Option<String>)
    requires
        cands@.len() == found@.len(),
    ensures
        option_string_view(r) == first_found_spec(string_views(cands@), found@),
{
    let mut i: usize = 0;
    proof {
        assert(string_views(cands@).skip(0) == string_views(cands@));
        assert(found@.skip(0) == found@);
    }
    while i < cands.len()
        invariant
            i <= cands@.len(),
            cands@.len() == found@.len(),
            first_found_spec(string_views(cands@), found@) == first_found_spec(
                string_views(cands@).skip(i as int),
                found@.skip(i as int),
            ),
        decreases cands@.len() - i,
    {
        proof {
            let c = string_views(cands@).skip(i as int);
            assert(c[0] == cands@[i as int]@);
            assert(c.drop_first() == string_views(cands@).skip(i + 1));
            assert(found@.skip(i as int).drop_first() == found@.skip(i + 1));
        }
        if found[i] {
            return Some(to_owned_string(cands[i].as_str()));
        }
        i = i + 1;
    }
    None
}

/// The configuration file that applies in `start_dir`: the first
/// `herd.toml` found going upward from `start_dir` through its ancestors
/// (`candidate_paths`).  Which files exist is a fact of the disk at the moment
/// of the search; whatever it is, the answer is the first candidate found.
pub fn find_config_file(start_dir: &str) -> (r: Option<String>)
    ensures
        exists|cands: Seq<Seq<char>>, found: Seq<bool>|
            #![trigger first_found_spec(cands, found)]
            is_candidate_chain(start_dir@, cands) && found.len() == cands.len() && option_string_view(r)
                == first_found_spec(cands, found),
{
    let cands = candidate_paths(start_dir);
    let mut found: Vec<bool> = Vec::new();
    let mut i: usize = 0;
    while i < cands.len()
        invariant
            i <= cands@.len(),
            found@.len() == i,
        decreases cands@.len() - i,
    {
        found.push(path_exists(cands[i].as_str()));
        i = i + 1;
    }
    let r = first_found(&cands, &found);
    assert(first_found_spec(string_views(cands@), found@) == option_string_view(r));
    r
}

} // verus!
