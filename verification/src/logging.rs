//! Where the log files live and which rotated log files are old enough to go.

use vstd::prelude::*;

use crate::config::opt_view;
use crate::filter::{Timestamp, is_before};
use crate::paths::{join_path, path_join};

verus! {

/// The base name of the log file; rotated files carry a date after it.
pub const LOG_PREFIX: &'static str = "raindrop_sync.log";

/// How many days rotated log files are kept.
pub const LOG_RETENTION_DAYS: u64 = 7;

/// The directory of this program under the state directory.
pub const APP_DIR: &'static str = "raindrop_sync";

/// The state directory under the home directory.
pub const LOCAL_STATE_DIR: &'static str = ".local/state";

/// The state directory: `$XDG_STATE_HOME` where it is set, else
/// `~/.local/state`, else `.local/state` relative to the working directory.
pub open spec fn state_base(xdg_state_home: Option<Seq<char>>, home: Option<Seq<char>>) -> Seq<
    char,
> {
    match xdg_state_home {
        Some(x) => x,
        None => match home {
            Some(h) => path_join(h, LOCAL_STATE_DIR@),
            None => LOCAL_STATE_DIR@,
        },
    }
}

/// The state directory of this program, given the values of `$XDG_STATE_HOME`
/// and `$HOME` where they are set.
pub fn state_dir_from(xdg_state_home: Option<String>, home: Option<String>) -> (dir: String)
    ensures
        dir@ == path_join(state_base(opt_view(xdg_state_home), opt_view(home)), APP_DIR@),
{
    let base = match xdg_state_home {
        Some(x) => x,
        None => match home {
            Some(h) => join_path(h.as_str(), LOCAL_STATE_DIR),
            None => String::from_str(LOCAL_STATE_DIR),
        },
    };
    join_path(base.as_str(), APP_DIR)
}

/// `s` begins with `prefix`.
pub open spec fn has_prefix(s: Seq<char>, prefix: Seq<char>) -> bool {
    prefix.len() <= s.len() && s.subrange(0, prefix.len() as int) == prefix
}

/// Whether `s` begins with `prefix`.
pub fn starts_with(s: &str, prefix: &str) -> (b: bool)
    ensures
        b == has_prefix(s@, prefix@),
{
    let n = s.unicode_len();
    let m = prefix.unicode_len();
    if m > n {
        return false;
    }
    let mut i: usize = 0;
    while i < m
        invariant
            m == prefix@.len(),
            n == s@.len(),
            m <= n,
            i <= m,
            forall|j: int| 0 <= j < i ==> s@[j] == prefix@[j],
        decreases m - i,
    {
        if s.get_char(i) != prefix.get_char(i) {
            assert(s@.subrange(0, m as int)[i as int] != prefix@[i as int]);
            return false;
        }
        i = i + 1;
    }
    assert(s@.subrange(0, m as int) =~= prefix@);
    true
}

/// `name` is a rotated log file: it begins with `LOG_PREFIX` and is not the
/// base name itself.
pub open spec fn is_rotated_log(name: Seq<char>) -> bool {
    has_prefix(name, LOG_PREFIX@) && name != LOG_PREFIX@
}

/// Whether the file `name` is a rotated log file of this program.
pub fn is_rotated_log_name(name: &str) -> (b: bool)
    ensures
        b == is_rotated_log(name@),
{
    if !starts_with(name, LOG_PREFIX) {
        return false;
    }
    let same_length = name.unicode_len() == LOG_PREFIX.unicode_len();
    proof {
        if same_length {
            assert(name@ =~= name@.subrange(0, LOG_PREFIX@.len() as int));
        }
    }
    !same_length
}

/// A rotated log file is one whose name is longer than `LOG_PREFIX` and
/// agrees with it character by character over its length.
pub proof fn law_rotated_log_names(name: Seq<char>)
    ensures
        is_rotated_log(name) <==> (name.len() > LOG_PREFIX@.len() && forall|i: int|
            0 <= i < LOG_PREFIX@.len() ==> name[i] == LOG_PREFIX@[i]),
{
    let p = LOG_PREFIX@;
    if name.len() > p.len() && forall|i: int| 0 <= i < p.len() ==> name[i] == p[i] {
        assert(name.subrange(0, p.len() as int) =~= p);
    }
    if is_rotated_log(name) {
        assert forall|i: int| 0 <= i < p.len() implies name[i] == p[i] by {
            assert(name.subrange(0, p.len() as int)[i] == p[i]);
        }
        if name.len() == p.len() {
            assert(name =~= name.subrange(0, p.len() as int));
        }
    }
}

/// The state directory lies under `$XDG_STATE_HOME` where that is set, else
/// under `$HOME`'s `.local/state`, and always ends in this program's directory.
pub proof fn law_state_dir_placement(xdg_state_home: Option<Seq<char>>, home: Option<Seq<char>>)
    ensures
        ({
            let d = path_join(state_base(xdg_state_home, home), APP_DIR@);
            &&& d.len() >= APP_DIR@.len()
            &&& d.subrange(d.len() - APP_DIR@.len(), d.len() as int) == APP_DIR@
            &&& xdg_state_home matches Some(x) ==> d.subrange(0, x.len() as int) == x
            &&& (xdg_state_home is None && home is Some) ==> d.subrange(
                0,
                home->0.len() as int,
            ) == home->0
        }),
{
    reveal_strlit("raindrop_sync");
    reveal_strlit(".local/state");
    let base = state_base(xdg_state_home, home);
    crate::paths::law_join_keeps_both_parts(base, APP_DIR@);
    if xdg_state_home is None && home is Some {
        let h = home->0;
        crate::paths::law_join_keeps_both_parts(h, LOCAL_STATE_DIR@);
        let d = path_join(base, APP_DIR@);
        assert(d.subrange(0, h.len() as int) =~= base.subrange(0, base.len() as int).subrange(0, h.len() as int));
    }
}

/// The retention period in seconds.
pub open spec fn retention_secs() -> int {
    LOG_RETENTION_DAYS * 24 * 60 * 60
}

/// The instant before which rotated log files are removed: the retention
/// period before `now`.
pub fn retention_cutoff(now: Timestamp) -> (cutoff: Timestamp)
    requires
        now.secs >= i64::MIN + retention_secs(),
    ensures
        cutoff.secs == now.secs - retention_secs(),
        cutoff.nanos == now.nanos,
{
    let period: i64 = (LOG_RETENTION_DAYS * 24 * 60 * 60) as i64;
    Timestamp { secs: now.secs - period, nanos: now.nanos }
}

/// Whether the file `name`, last modified at `modified`, is a rotated log file
/// older than `cutoff`, to be removed.
pub fn should_remove_log(name: &str, modified: &Timestamp, cutoff: &Timestamp) -> (remove: bool)
    ensures
        remove == (is_rotated_log(name@) && is_before(*modified, *cutoff)),
{
    is_rotated_log_name(name) && (modified.secs < cutoff.secs || (modified.secs == cutoff.secs
        && modified.nanos < cutoff.nanos))
}

} // verus!
