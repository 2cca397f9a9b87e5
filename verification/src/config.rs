//! Where the bookmarks file goes: the optional setting read from
//! `config.toml`, the default, and the expansion of a leading `~/`.

use vstd::prelude::*;

use crate::paths::{join_path, path_join};

verus! {

/// The name of the configuration file, looked up in the working directory.
pub const CONFIG_FILE: &'static str = "config.toml";

/// The directory of the bookmarks file when the configuration names none.
pub const DEFAULT_OUTPUT_DIR: &'static str = "~/Documents/Projects/Continual Study and Research";

/// The name of the bookmarks file in the default directory.
pub const DEFAULT_FILE_NAME: &'static str = "/bookmarks.json";

/// The settings as written in `config.toml`, every one optional.
pub struct RawConfig {
    pub output_path: Option<String>,
}

/// The settings the program runs with.
pub struct Config {
    /// Where the full bookmarks file is written.
    pub output_path: String,
}

/// The default output path, before `~` is expanded.
pub open spec fn default_output_path() -> Seq<char> {
    DEFAULT_OUTPUT_DIR@ + DEFAULT_FILE_NAME@
}

/// `path` starts with the two characters `~/`.
pub open spec fn starts_with_home(path: Seq<char>) -> bool {
    path.len() >= 2 && path[0] == '~' && path[1] == '/'
}

/// `path` with a leading `~/` replaced by the home directory joined with the
/// rest, when the path has one and the home directory is known; else `path`.
pub open spec fn tilde_expanded(path: Seq<char>, home: Option<Seq<char>>) -> Seq<char> {
    if starts_with_home(path) && home is Some {
        path_join(home->0, path.subrange(2, path.len() as int))
    } else {
        path
    }
}

/// The view of an optional string.
pub open spec fn opt_view(s: Option<String>) -> Option<Seq<char>> {
    match s {
        Some(t) => Some(t@),
        None => None,
    }
}

/// Expands a leading `~/` in `path` to the home directory `home`
/// (the value of `$HOME`, where it is set).
pub fn expand_tilde(path: &str, home: Option<&str>) -> (expanded: String)
    ensures
        expanded@ == tilde_expanded(
            path@,
            match home {
                Some(h) => Some(h@),
                None => None,
            },
        ),
{
    let len = path.unicode_len();
    if len >= 2 && path.get_char(0) == '~' && path.get_char(1) == '/' {
        match home {
            Some(h) => {
                let rest = path.substring_char(2, len);
                return join_path(h, rest);
            },
            None => {},
        }
    }
    String::from_str(path)
}

/// A path that does not begin with `~/` is left as it is, and so is every
/// path when the home directory is unknown. A path that begins with `~/` and
/// an absolute home directory gives a path that begins with the home
/// directory, ends with what followed `~/`, and no longer begins with `~/`.
pub proof fn law_tilde_expansion(path: Seq<char>, home: Option<Seq<char>>)
    ensures
        !(path.len() >= 2 && path[0] == '~' && path[1] == '/') ==> tilde_expanded(path, home)
            == path,
        home is None ==> tilde_expanded(path, home) == path,
        path.len() >= 2 && path[0] == '~' && path[1] == '/' && home is Some && crate::paths::is_absolute(home->0)
            && !crate::paths::is_absolute(path.subrange(2, path.len() as int)) ==> {
            let e = tilde_expanded(path, home);
            let h = home->0;
            let rest = path.subrange(2, path.len() as int);
            &&& e.subrange(0, h.len() as int) == h
            &&& e.subrange(e.len() - rest.len(), e.len() as int) == rest
            &&& e[0] == '/'
        },
{
    if path.len() >= 2 && path[0] == '~' && path[1] == '/' && home is Some {
        let h = home->0;
        let rest = path.subrange(2, path.len() as int);
        crate::paths::law_join_keeps_both_parts(h, rest);
        if crate::paths::is_absolute(h) && !crate::paths::is_absolute(rest) {
            let e = tilde_expanded(path, home);
            assert(e.subrange(0, h.len() as int)[0] == h[0]);
        }
    }
}

/// Expanding `~` twice changes nothing more than expanding it once, as long
/// as the home directory is an absolute path (or unknown).
pub proof fn law_expand_tilde_idempotent(path: Seq<char>, home: Option<Seq<char>>)
    requires
        home matches Some(h) ==> crate::paths::is_absolute(h),
    ensures
        tilde_expanded(tilde_expanded(path, home), home) == tilde_expanded(path, home),
{
    let once = tilde_expanded(path, home);
    if starts_with_home(path) && home is Some {
        let h = home->0;
        let rest = path.subrange(2, path.len() as int);
        if !crate::paths::is_absolute(rest) {
            assert(once[0] == h[0]);
        }
        assert(!starts_with_home(once));
    }
}

impl Config {
    /// The settings that follow from `raw`: its output path, or the default one,
    /// with a leading `~/` expanded against `home`.
    pub fn from_raw(raw: RawConfig, home: Option<&str>) -> (config: Config)
        ensures
            config.output_path@ == tilde_expanded(
                match raw.output_path {
                    Some(p) => p@,
                    None => default_output_path(),
                },
                match home {
                    Some(h) => Some(h@),
                    None => None,
                },
            ),
    {
        let path_str = match raw.output_path {
            Some(p) => p,
            None => String::from_str(DEFAULT_OUTPUT_DIR).concat(DEFAULT_FILE_NAME),
        };
        Config { output_path: expand_tilde(path_str.as_str(), home) }
    }
}

} // verus!
