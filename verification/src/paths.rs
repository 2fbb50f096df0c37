//! Deriving a server's logical name from its directory path.

use vstd::prelude::*;
use vstd::string::StrSliceExecFns;
use crate::text::{str_copy, substring_copy};

verus! {

/// A path separator, on either slash convention.
pub open spec fn is_sep_char(c: char) -> bool {
    c == '/' || c == '\\'
}

/// `st .. e` spans the last path component of `t`: everything after `e`
/// is trailing separators, the span holds none, and a separator (or the
/// start of the path) stands just before it.
pub open spec fn name_span(t: Seq<char>, st: int, e: int) -> bool {
    &&& 0 <= st <= e <= t.len()
    &&& (forall|i: int| e <= i < t.len() ==> is_sep_char(t[i]))
    &&& (e == 0 || !is_sep_char(t[e - 1]))
    &&& (forall|i: int| st <= i < e ==> !is_sep_char(t[i]))
    &&& (st == 0 || is_sep_char(t[st - 1]))
}

/// Whether `c` separates path components.
fn is_sep_char_exec(c: char) -> (r: bool)
    ensures
        r == is_sep_char(c),
{
    c == '/' || c == '\\'
}

/// The last path component of `server_path`, trailing separators
/// ignored; the whole path when no component can be split off.
pub fn get_server_name_from_path(server_path: &str) -> (r: String)
    ensures
        exists|st: int, e: int|
            #[trigger] name_span(server_path@, st, e) && r@ == if st < e {
                server_path@.subrange(st, e)
            } else {
                server_path@
            },
{
    let n = server_path.unicode_len();
    let mut e = n;
    while e > 0 && is_sep_char_exec(server_path.get_char(e - 1))
        invariant
            e <= n,
            n == server_path@.len(),
            forall|i: int| e <= i < n ==> is_sep_char(server_path@[i]),
        decreases e,
    {
        e = e - 1;
    }
    let mut st = e;
    while st > 0 && !is_sep_char_exec(server_path.get_char(st - 1))
        invariant
            st <= e <= n,
            n == server_path@.len(),
            forall|i: int| st <= i < e ==> !is_sep_char(server_path@[i]),
        decreases st,
    {
        st = st - 1;
    }
    proof {
        assert(name_span(server_path@, st as int, e as int));
    }
    if st < e {
        substring_copy(server_path, st, e)
    } else {
        str_copy(server_path)
    }
}

} // verus!
