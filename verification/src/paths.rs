//! Where the calculator keeps its files: the user configuration, the
//! exported history, configuration files shipped beside the program, and
//! the gauge-table override file.
//!
//! Paths are handled as text; joining, taking the parent and comparing are
//! those of `std::path::Path`.
use vstd::prelude::*;

use crate::errors::SteelCalError;
use crate::{CONFIG_FILENAME, HISTORY_FILENAME};

verus! {

/// What `Path::join` returns for these two paths (as text).
pub uninterp spec fn joined(base: Seq<char>, rest: Seq<char>) -> Seq<char>;

/// What `Path::parent` returns for this path (as text).
pub uninterp spec fn parent_of(path: Seq<char>) -> Option<Seq<char>>;

/// What `==` on `Path` (which compares components) says of these paths.
pub uninterp spec fn same_path(a: Seq<char>, b: Seq<char>) -> bool;

/// `Path::join`.
#[verifier::external_body]
pub(crate) fn path_join(base: &str, rest: &str) -> (r: String)
    ensures
        r@ == joined(base@, rest@),
{
    std::path::Path::new(base).join(rest).to_string_lossy().into_owned()
}

/// `Path::parent`.
#[verifier::external_body]
pub(crate) fn path_parent(path: &str) -> (r: Option<String>)
    ensures
        match r {
            Some(p) => parent_of(path@) == Some(p@),
            None => parent_of(path@) is None,
        },
{
    std::path::Path::new(path).parent().map(|p| p.to_string_lossy().into_owned())
}

/// `==` on `Path`.
#[verifier::external_body]
pub(crate) fn path_eq(a: &str, b: &str) -> (r: bool)
    ensures
        r == same_path(a@, b@),
{
    std::path::Path::new(a) == std::path::Path::new(b)
}

/// The user configuration file inside the user data directory, or the
/// error that finding that directory gave.
pub fn config_path(user_data_dir: Result<String, SteelCalError>) -> (r: Result<String, SteelCalError>)
    ensures
        match user_data_dir {
            Ok(d) => r matches Ok(p) && p@ == joined(d@, CONFIG_FILENAME@),
            Err(e) => r == Err::<String, SteelCalError>(e),
        },
{
    match user_data_dir {
        Ok(d) => Ok(path_join(d.as_str(), CONFIG_FILENAME)),
        Err(e) => Err(e),
    }
}

/// The history export file inside the user data directory, or the error
/// that finding that directory gave.
pub fn history_export_path(user_data_dir: Result<String, SteelCalError>) -> (r: Result<String, SteelCalError>)
    ensures
        match user_data_dir {
            Ok(d) => r matches Ok(p) && p@ == joined(d@, HISTORY_FILENAME@),
            Err(e) => r == Err::<String, SteelCalError>(e),
        },
{
    match user_data_dir {
        Ok(d) => Ok(path_join(d.as_str(), HISTORY_FILENAME)),
        Err(e) => Err(e),
    }
}

/// Whether some path of `paths` is the same path as `p`.
pub open spec fn has_same_path(paths: Seq<Seq<char>>, p: Seq<char>) -> bool {
    exists|i: int| 0 <= i < paths.len() && same_path(paths[i], p)
}

/// The configuration files that may sit beside the program: in `app_dir`,
/// then in `bundle_dir`; a file is left out when it is the active
/// configuration file or a path already listed.
pub open spec fn sidecar_candidates(roots: Seq<Seq<char>>, active: Seq<char>) -> Seq<Seq<char>>
    decreases roots.len(),
{
    if roots.len() == 0 {
        Seq::empty()
    } else {
        let before = sidecar_candidates(roots.drop_last(), active);
        let c = joined(roots.last(), CONFIG_FILENAME@);
        if !same_path(c, active) && !has_same_path(before, c) {
            before.push(c)
        } else {
            before
        }
    }
}

/// The roots searched for a shipped configuration file.
pub open spec fn sidecar_roots(app_dir: Seq<char>, bundle_dir: Option<Seq<char>>) -> Seq<Seq<char>> {
    match bundle_dir {
        Some(b) => seq![app_dir, b],
        None => seq![app_dir],
    }
}

/// The texts of a list of strings.
pub open spec fn texts(list: Seq<String>) -> Seq<Seq<char>> {
    Seq::new(list.len(), |i: int| list[i]@)
}

fn listed_already(list: &Vec<String>, p: &str) -> (r: bool)
    ensures
        r == has_same_path(texts(list@), p@),
{
    let ghost v = texts(list@);
    let mut i: usize = 0;
    while i < list.len()
        invariant
            i <= list.len(),
            v == texts(list@),
            forall|k: int| 0 <= k < i ==> !same_path(v[k], p@),
        decreases list.len() - i,
    {
        if path_eq(list[i].as_str(), p) {
            assert(same_path(v[i as int], p@));
            return true;
        }
        i = i + 1;
    }
    false
}

fn add_candidate(list: &mut Vec<String>, root: &str, active_config_path: &str)
    ensures
        ({
            let before = texts(old(list)@);
            let after = texts(final(list)@);
            let c = joined(root@, CONFIG_FILENAME@);
            after == if !same_path(c, active_config_path@) && !has_same_path(before, c) {
                before.push(c)
            } else {
                before
            }
        }),
{
    let candidate = path_join(root, CONFIG_FILENAME);
    if !path_eq(candidate.as_str(), active_config_path) && !listed_already(list, candidate.as_str()) {
        let ghost before = list@;
        list.push(candidate);
        assert(texts(list@) =~= texts(before).push(candidate@));
    }
}

/// Configuration files shipped beside the program (see
/// `sidecar_candidates`), in search order.
pub fn sidecar_config_candidates(app_dir: &str, bundle_dir: Option<&str>, active_config_path: &str) -> (r: Vec<String>)
    ensures
        texts(r@) == sidecar_candidates(
            sidecar_roots(
                app_dir@,
                match bundle_dir {
                    Some(b) => Some(b@),
                    None => None,
                },
            ),
            active_config_path@,
        ),
{
    let ghost bv = match bundle_dir {
        Some(b) => Some(b@),
        None => None,
    };
    let ghost roots = sidecar_roots(app_dir@, bv);
    let ghost first = seq![app_dir@];
    let mut list: Vec<String> = Vec::new();
    add_candidate(&mut list, app_dir, active_config_path);
    proof {
        assert(first.drop_last() =~= Seq::<Seq<char>>::empty());
        assert(texts(Seq::<String>::empty()) =~= Seq::<Seq<char>>::empty());
        assert(sidecar_candidates(first.drop_last(), active_config_path@) =~= Seq::<Seq<char>>::empty());
        assert(texts(list@) == sidecar_candidates(first, active_config_path@));
    }
    match bundle_dir {
        Some(b) => {
            add_candidate(&mut list, b, active_config_path);
            assert(roots.drop_last() =~= first);
        },
        None => {
            assert(roots =~= first);
        },
    }
    list
}

/// Where the gauge-table override file is looked for: `assets/` beside the
/// program when the program's directory is known, else `assets/` under the
/// working directory.
pub open spec fn override_path(current_exe: Option<Seq<char>>) -> Seq<char> {
    match current_exe {
        Some(exe) => match parent_of(exe) {
            Some(dir) => joined(dir, "assets/gauge_tables.override.json"@),
            None => "assets/gauge_tables.override.json"@,
        },
        None => "assets/gauge_tables.override.json"@,
    }
}

/// The override file path for the running program (see `override_path`).
pub fn resolve_override_path(current_exe: Option<&str>) -> (r: String)
    ensures
        r@ == override_path(
            match current_exe {
                Some(e) => Some(e@),
                None => None,
            },
        ),
{
    match current_exe {
        Some(exe) => match path_parent(exe) {
            Some(dir) => path_join(dir.as_str(), "assets/gauge_tables.override.json"),
            None => String::from_str("assets/gauge_tables.override.json"),
        },
        None => String::from_str("assets/gauge_tables.override.json"),
    }
}

} // verus!
