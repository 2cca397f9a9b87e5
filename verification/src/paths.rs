//! Paths held as strings with `/` as the separator, joined the way a Unix
//! `PathBuf` joins them.

use vstd::prelude::*;

verus! {

/// The separator character of a path.
pub open spec fn separator() -> char {
    '/'
}

/// `p` is absolute: it starts at the root.
pub open spec fn is_absolute(p: Seq<char>) -> bool {
    p.len() > 0 && p[0] == separator()
}

/// `base` joined with `rest`: an absolute `rest` replaces `base`; otherwise a
/// separator is put between the two unless `base` is empty or already ends in one.
pub open spec fn path_join(base: Seq<char>, rest: Seq<char>) -> Seq<char> {
    if is_absolute(rest) {
        rest
    } else if base.len() > 0 && base.last() != separator() {
        base + seq![separator()] + rest
    } else {
        base + rest
    }
}

/// Joining a relative path keeps both parts: the result begins with `base`
/// and ends with `rest`. Joining an absolute path gives that path.
pub proof fn law_join_keeps_both_parts(base: Seq<char>, rest: Seq<char>)
    ensures
        !is_absolute(rest) ==> {
            let j = path_join(base, rest);
            &&& j.len() >= base.len() + rest.len()
            &&& j.subrange(0, base.len() as int) == base
            &&& j.subrange(j.len() - rest.len(), j.len() as int) == rest
            &&& j.len() <= base.len() + rest.len() + 1
            &&& (j.len() == base.len() + rest.len() + 1 <==> (base.len() > 0 && base.last()
                != '/'))
            &&& j.len() == base.len() + rest.len() + 1 ==> j[base.len() as int] == '/'
        },
        is_absolute(rest) ==> path_join(base, rest) == rest,
{
    if !is_absolute(rest) {
        let j = path_join(base, rest);
        if base.len() > 0 && base.last() != separator() {
            assert(j.subrange(0, base.len() as int) =~= base);
            assert(j.subrange(j.len() - rest.len(), j.len() as int) =~= rest);
        } else {
            assert(j.subrange(0, base.len() as int) =~= base);
            assert(j.subrange(j.len() - rest.len(), j.len() as int) =~= rest);
        }
    }
}

/// Joins `rest` onto `base`, as `PathBuf::from(base).join(rest)` does on Unix.
pub fn join_path(base: &str, rest: &str) -> (joined: String)
    ensures
        joined@ == path_join(base@, rest@),
{
    let rest_len = rest.unicode_len();
    if rest_len > 0 && rest.get_char(0) == '/' {
        return String::from_str(rest);
    }
    let base_len = base.unicode_len();
    if base_len > 0 && base.get_char(base_len - 1) != '/' {
        let sep = "/";
        proof {
            reveal_strlit("/");
        }
        let joined = String::from_str(base).concat(sep).concat(rest);
        assert(sep@ == seq![separator()]);
        joined
    } else {
        String::from_str(base).concat(rest)
    }
}

} // verus!
