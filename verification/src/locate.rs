//! Choosing the configuration file among the places where it may lie.

use vstd::prelude::*;
use vstd::string::*;

verus! {

/// The path of `part` under the directory `base`: the two with one `/`
/// between them, which is left out where `base` is empty or ends in one.
pub open spec fn joined(base: Seq<char>, part: Seq<char>) -> Seq<char> {
    if base.len() == 0 || base.last() == '/' {
        base + part
    } else {
        base + "/"@ + part
    }
}

/// Where the configuration file lies under the user's configuration
/// directory `base`: `admiral.d/admiral.toml` below it.
pub open spec fn xdg_candidate(base: Seq<char>) -> Seq<char> {
    joined(joined(base, "admiral.d"@), "admiral.toml"@)
}

/// Where the configuration file lies under the home directory `base`:
/// `.config/admiral.d/admiral.toml` below it.
pub open spec fn home_candidate(base: Seq<char>) -> Seq<char> {
    joined(joined(joined(base, ".config"@), "admiral.d"@), "admiral.toml"@)
}

/// The path of `part` under the directory `base`.
pub fn join(base: String, part: &str) -> (path: String)
    ensures
        path@ == joined(base@, part@),
{
    let n: usize = base.as_str().unicode_len();
    if n == 0 || base.as_str().get_char(n - 1) == '/' {
        base.concat(part)
    } else {
        base.concat("/").concat(part)
    }
}

/// The two places where the configuration file may lie: the first under
/// the user's configuration directory, the second under the home directory,
/// each `None` where the environment does not name that directory.
pub fn config_candidates(xdg_config_home: Option<String>, home: Option<String>) -> (places: (
    Option<String>,
    Option<String>,
))
    ensures
        places.0 is Some <==> xdg_config_home is Some,
        places.0 is Some ==> places.0->0@ == xdg_candidate(xdg_config_home->0@),
        places.1 is Some <==> home is Some,
        places.1 is Some ==> places.1->0@ == home_candidate(home->0@),
{
    let xdg = match xdg_config_home {
        Some(base) => Some(join(join(base, "admiral.d"), "admiral.toml")),
        None => None,
    };
    let dot_home = match home {
        Some(base) => Some(join(join(join(base, ".config"), "admiral.d"), "admiral.toml")),
        None => None,
    };
    (xdg, dot_home)
}

/// The file that is taken: the one under the user's configuration
/// directory if it is there and readable, else the one under the home
/// directory if that is.
pub open spec fn chosen(
    xdg_path: Option<String>,
    xdg_exists: bool,
    home_path: Option<String>,
    home_exists: bool,
) -> Option<String> {
    if xdg_path is Some && xdg_exists {
        xdg_path
    } else if home_path is Some && home_exists {
        home_path
    } else {
        None
    }
}

/// Keeps `path` if something exists there.
pub fn if_readable(path: String, exists: bool) -> (kept: Option<String>)
    ensures
        exists ==> kept == Some(path),
        !exists ==> kept.is_none(),
{
    if exists {
        Some(path)
    } else {
        None
    }
}

/// Chooses the configuration file: `xdg_path` is where it would lie under
/// the user's configuration directory and `home_path` where it would lie
/// under the home directory, each `None` where the environment does not name
/// that directory; `xdg_exists` and `home_exists` say whether a file is
/// there.
pub fn get_config_file(
    xdg_path: Option<String>,
    xdg_exists: bool,
    home_path: Option<String>,
    home_exists: bool,
) -> (file: Option<String>)
    ensures
        file == chosen(xdg_path, xdg_exists, home_path, home_exists),
{
    let xdg = match xdg_path {
        Some(path) => if_readable(path, xdg_exists),
        None => None,
    };
    let home = match home_path {
        Some(path) => if_readable(path, home_exists),
        None => None,
    };
    match xdg {
        Some(path) => Some(path),
        None => home,
    }
}

} // verus!
