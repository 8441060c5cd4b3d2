//! Saved settings and the paths they live at.

use vstd::prelude::*;

verus! {

/// The settings kept between runs; a missing entry falls back to the
/// default.
#[derive(Debug)]
pub struct Config {
    pub download_path: Option<String>,
    pub year: Option<u32>,
    pub concurrency: Option<usize>,
}

impl Default for Config {
    /// No entry set.
    fn default() -> (c: Config)
        ensures
            c.download_path is None,
            c.year is None,
            c.concurrency is None,
    {
        Config { download_path: None, year: None, concurrency: None }
    }
}

impl Config {
    /// The settings as they currently are.
    pub fn from_current(download_path: &str, year: Option<u32>, concurrency: usize) -> (c: Config)
        ensures
            c.download_path matches Some(p) && p@ == download_path@,
            c.year == year,
            c.concurrency == Some(concurrency),
    {
        Config { download_path: Some(download_path.to_owned()), year, concurrency: Some(concurrency) }
    }
}

/// `path` appended to `base` as a path component: an absolute `path`
/// replaces `base`, and a separator is put between them when `base` is not
/// empty and does not end with one.
pub open spec fn joined(base: Seq<char>, path: Seq<char>) -> Seq<char> {
    if path.len() > 0 && path[0] == '/' {
        path
    } else if base.len() == 0 {
        path
    } else if base.last() == '/' {
        base + path
    } else {
        base + "/"@ + path
    }
}

/// Appends `path` to `base` as `joined` describes.
pub fn join_path(base: &str, path: &str) -> (r: String)
    ensures
        r@ == joined(base@, path@),
{
    proof {
        reveal_strlit("/");
    }
    let pn = path.unicode_len();
    if pn > 0 && path.get_char(0) == '/' {
        return path.to_owned();
    }
    let bn = base.unicode_len();
    if bn == 0 {
        return path.to_owned();
    }
    let mut r = base.to_owned();
    if base.get_char(bn - 1) != '/' {
        r.append("/");
    }
    r.append(path);
    r
}

/// A path with a leading `~` taken relative to the home directory (after
/// one `/` that follows the `~`), when the home directory is known; any
/// other path as it is.
pub open spec fn resolved_path(path: Seq<char>, home: Option<Seq<char>>) -> Seq<char> {
    if path.len() > 0 && path[0] == '~' && home is Some {
        let rest = path.drop_first();
        let rest = if rest.len() > 0 && rest[0] == '/' {
            rest.drop_first()
        } else {
            rest
        };
        joined(home->0, rest)
    } else {
        path
    }
}

/// Resolves `path` against a known (or unknown) home directory.
pub fn resolve_path_with_home(path: &str, home: Option<String>) -> (r: String)
    ensures
        r@ == resolved_path(
            path@,
            match home {
                Some(h) => Some(h@),
                None => None,
            },
        ),
{
    let n = path.unicode_len();
    if n > 0 && path.get_char(0) == '~' {
        if let Some(h) = home {
            let skip: usize = if n > 1 && path.get_char(1) == '/' {
                2
            } else {
                1
            };
            let rest = path.substring_char(skip, n);
            proof {
                if skip == 2 {
                    assert(path@.drop_first().drop_first() =~= path@.subrange(2, n as int));
                } else {
                    assert(path@.drop_first() =~= path@.subrange(1, n as int));
                }
            }
            return join_path(h.as_str(), rest);
        }
    }
    path.to_owned()
}

/// The user's home directory, as `dirs::home_dir` finds it from the
/// environment. Trusted; nothing is claimed of the result, which depends on
/// the environment.
#[verifier::external_body]
fn home_directory() -> Option<String> {
    match dirs::home_dir() {
        Some(p) => Some(p.to_string_lossy().into_owned()),
        None => None,
    }
}

/// The user's configuration directory, as `dirs::config_dir` finds it.
/// Trusted; nothing is claimed of the result, which depends on the
/// environment.
#[verifier::external_body]
fn config_directory() -> Option<String> {
    match dirs::config_dir() {
        Some(p) => Some(p.to_string_lossy().into_owned()),
        None => None,
    }
}

/// Resolves a leading `~` of `path` against the user's home directory.
pub fn resolve_path(path: &str) -> (r: String)
    ensures
        !(path@.len() > 0 && path@[0] == '~') ==> r@ == path@,
        path@.len() > 0 && path@[0] == '~' ==> r@ == path@ || exists|h: Seq<char>| r@ == resolved_path(path@, Some(h)),
{
    let home = home_directory();
    resolve_path_with_home(path, home)
}

/// Where the settings file lives inside a configuration directory.
pub open spec fn settings_file_in(dir: Seq<char>) -> Seq<char> {
    joined(joined(dir, "moocs-collect"@), "settings.json"@)
}

/// The settings file inside `dir`, when the directory is known.
pub fn config_path_in(dir: Option<String>) -> (r: Option<String>)
    ensures
        dir is None ==> r is None,
        dir matches Some(d) ==> r matches Some(p) && p@ == settings_file_in(d@),
{
    match dir {
        Some(d) => {
            let app = join_path(d.as_str(), "moocs-collect");
            Some(join_path(app.as_str(), "settings.json"))
        },
        None => None,
    }
}

/// The settings file inside the user's configuration directory, when the
/// directory is known.
pub fn config_path() -> (r: Option<String>)
    ensures
        r matches Some(p) ==> exists|d: Seq<char>| p@ == settings_file_in(d),
{
    config_path_in(config_directory())
}

} // verus!
