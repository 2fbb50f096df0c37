//! Tunnel address detection over unstructured text.
//!
//! A tunnel address is a hostname of one of two vendor suffix families:
//! a word run followed by `.share.playit.gg`, or a word run, a dot and a
//! host-character run ending in `joinmc.link`.  Text is matched against an
//! ordered set of forms, most specific first:
//!
//! 1. exact: the whole text is a tunnel address;
//! 2. contextual: a keyword (`tunnel`, `link`, `connect`, `url`,
//!    `address`, `server`), an optional separator (`is`, `at` or `:`
//!    between optional spaces), then an address;
//! 3. event phrase: one of a few literal phrases (`Tunnel created`,
//!    `Connected as`, `Tunnel ready`, `is now available`) followed
//!    eventually by an address;
//! 4. bare: an address anywhere in the text.
//!
//! The first form that matches wins.  Within a form, the playit family is
//! preferred over the joinmc family and the leftmost occurrence wins.

use vstd::prelude::*;
use vstd::string::StrSliceExecFns;
use crate::text::{lines_of, match_at, match_at_exec, str_copy, substring_copy};

verus! {

/// A character that may stand in the leading label of an address.
pub open spec fn is_word_char(c: char) -> bool {
    ('a' <= c && c <= 'z') || ('A' <= c && c <= 'Z') || ('0' <= c && c <= '9') || c == '_' || c
        == '-'
}

/// A character that may stand anywhere in an address before its suffix.
pub open spec fn is_host_char(c: char) -> bool {
    is_word_char(c) || c == '.'
}

/// A separator character inside a contextual form.
pub open spec fn is_space_char(c: char) -> bool {
    c == ' ' || c == '\t'
}

/// The suffix of the playit address family.
pub open spec fn suffix_playit() -> Seq<char> {
    ".share.playit.gg"@
}

/// The suffix of the joinmc address family.
pub open spec fn suffix_joinmc() -> Seq<char> {
    "joinmc.link"@
}

/// A playit-family address occupies `s .. p + 16`: a non-empty word run
/// `s .. p` directly followed by the playit suffix at `p`.
pub open spec fn playit_from(t: Seq<char>, s: int, p: int) -> bool {
    &&& match_at(t, suffix_playit(), p)
    &&& 0 <= s < p
    &&& forall|i: int| s <= i < p ==> is_word_char(t[i])
}

/// A joinmc-family address occupies `s .. p + 11`: a prefix `s .. p` of
/// host characters that starts with a word character and holds a dot with
/// at least one character between the dot and the joinmc suffix at `p`.
pub open spec fn joinmc_from(t: Seq<char>, s: int, p: int) -> bool {
    &&& match_at(t, suffix_joinmc(), p)
    &&& 0 <= s < p
    &&& forall|i: int| s <= i < p ==> is_host_char(t[i])
    &&& is_word_char(t[s])
    &&& exists|m: int| s < m && m + 1 < p && t[m] == '.'
}

/// An address of either family starts at `s` and ends at `e`.
pub open spec fn host_from(t: Seq<char>, s: int, e: int) -> bool {
    ||| exists|p: int| playit_from(t, s, p) && e == p + suffix_playit().len()
    ||| exists|p: int| joinmc_from(t, s, p) && e == p + suffix_joinmc().len()
}

/// The end of the address captured at start `s`: a playit-family match is
/// preferred, else the joinmc-family match with the leftmost suffix.
pub open spec fn capture_from(t: Seq<char>, s: int, e: int) -> bool {
    if exists|p: int| playit_from(t, s, p) {
        exists|p: int| playit_from(t, s, p) && e == p + suffix_playit().len()
    } else {
        exists|p: int|
            joinmc_from(t, s, p) && e == p + suffix_joinmc().len() && (forall|p2: int|
                joinmc_from(t, s, p2) ==> p <= p2)
    }
}

/// Whether `c` may stand in the leading label of an address.
pub fn is_word_char_exec(c: char) -> (r: bool)
    ensures
        r == is_word_char(c),
{
    ('a' <= c && c <= 'z') || ('A' <= c && c <= 'Z') || ('0' <= c && c <= '9') || c == '_' || c
        == '-'
}

/// Whether `c` may stand anywhere in an address before its suffix.
pub fn is_host_char_exec(c: char) -> (r: bool)
    ensures
        r == is_host_char(c),
{
    is_word_char_exec(c) || c == '.'
}

/// Whether `c` separates words inside a contextual form.
pub fn is_space_char_exec(c: char) -> (r: bool)
    ensures
        r == is_space_char(c),
{
    c == ' ' || c == '\t'
}

/// The end of the address starting exactly at `h`, if one starts there:
/// the playit family is preferred, else the leftmost joinmc suffix.
fn host_capture_from(s: &str, h: usize) -> (r: Option<usize>)
    requires
        h <= s@.len(),
    ensures
        match r {
            Some(e) => h < e <= s@.len() && capture_from(s@, h as int, e as int) && host_from(
                s@,
                h as int,
                e as int,
            ),
            None => forall|e: int| !host_from(s@, h as int, e),
        },
{
    let n = s.unicode_len();
    if h == n || !is_word_char_exec(s.get_char(h)) {
        proof {
            assert(forall|p: int| !playit_from(s@, h as int, p));
            assert(forall|p: int| !joinmc_from(s@, h as int, p));
        }
        return None;
    }
    // scan the host run from h: its end, the end of its leading word run,
    // and its first dot
    let mut rend = h;
    let mut wend: usize = h;
    let mut first_dot: Option<usize> = None;
    while rend < n && is_host_char_exec(s.get_char(rend))
        invariant
            h <= rend <= n,
            h <= wend <= rend,
            n == s@.len(),
            h < n,
            is_word_char(s@[h as int]),
            forall|i: int| h <= i < rend ==> is_host_char(s@[i]),
            forall|i: int| h <= i < wend ==> is_word_char(s@[i]),
            wend < rend ==> !is_word_char(s@[wend as int]),
            match first_dot {
                Some(m) => h < m < rend && s@[m as int] == '.' && (forall|i: int|
                    h < i < m ==> s@[i] != '.'),
                None => forall|i: int| h < i < rend ==> s@[i] != '.',
            },
        decreases n - rend,
    {
        if first_dot.is_none() && s.get_char(rend) == '.' {
            first_dot = Some(rend);
        }
        if wend == rend && is_word_char_exec(s.get_char(rend)) {
            wend = wend + 1;
        }
        rend = rend + 1;
    }
    proof {
        assert(rend == n || !is_host_char(s@[rend as int]));
    }
    // the playit family: its suffix starts with a dot, so it can stand
    // only at the end of the maximal word run
    if wend > h && match_at_exec(s, ".share.playit.gg", wend) {
        proof {
            reveal_strlit(".share.playit.gg");
            assert(playit_from(s@, h as int, wend as int));
            assert(suffix_playit().len() == 16);
            assert(capture_from(s@, h as int, wend + 16));
        }
        return Some(wend + 16);
    }
    proof {
        reveal_strlit(".share.playit.gg");
        assert forall|p: int| !playit_from(s@, h as int, p) by {
            if playit_from(s@, h as int, p) {
                assert(s@.subrange(p, p + 16)[0] == s@[p]);
                assert(s@[p] == '.');
                if p < wend {
                    assert(is_word_char(s@[p]));
                    assert(false);
                } else if p > wend {
                    // the word run would have to reach past wend
                    assert(is_word_char(s@[wend as int]));
                    if wend < rend {
                        assert(false);
                    } else {
                        // wend == rend: the run ended at rend
                        assert(p + 16 <= n);
                        assert(rend < n);
                        assert(is_host_char(s@[rend as int]));
                        assert(false);
                    }
                } else {
                    assert(false);
                }
            }
        }
    }
    // the joinmc family: its suffix starts with a word character, so it
    // may stand anywhere after the first dot, with one character between
    match first_dot {
        None => {
            proof {
                reveal_strlit("joinmc.link");
                assert forall|p: int| !joinmc_from(s@, h as int, p) by {
                    if joinmc_from(s@, h as int, p) {
                        assert(p <= rend) by {
                            if p > rend {
                                assert(p + 11 <= n);
                                assert(rend < n ==> is_host_char(s@[rend as int]));
                                assert(rend == n ==> p > n);
                            }
                        }
                        let m = choose|m: int| h < m && m + 1 < p && s@[m] == '.';
                        assert(s@[m] == '.');
                        assert(false);
                    }
                }
                assert(forall|e: int| !host_from(s@, h as int, e));
            }
            None
        },
        Some(fd) => {
            if fd + 1 >= rend {
                proof {
                    assert forall|p2: int| !joinmc_from(s@, h as int, p2) by {
                        if joinmc_from(s@, h as int, p2) {
                            assert(p2 <= rend) by {
                                if p2 > rend {
                                    reveal_strlit("joinmc.link");
                                    assert(p2 + 11 <= n);
                                    assert(rend < n ==> is_host_char(s@[rend as int]));
                                    assert(rend == n ==> p2 > n);
                                }
                            }
                            let m = choose|m: int| h < m && m + 1 < p2 && s@[m] == '.';
                            assert(s@[m] == '.');
                            assert(m >= fd);
                            assert(false);
                        }
                    }
                    assert(forall|e: int| !host_from(s@, h as int, e));
                }
                return None;
            }
            proof {
                assert forall|p2: int| p2 < fd + 2 implies !joinmc_from(s@, h as int, p2) by {
                    if joinmc_from(s@, h as int, p2) {
                        let m = choose|m: int| h < m && m + 1 < p2 && s@[m] == '.';
                        assert(s@[m] == '.');
                        assert(false);
                    }
                }
            }
            let mut p = fd + 2;
            while p < rend
                invariant
                    fd + 2 <= p <= rend,
                    h < fd < rend <= n,
                    n == s@.len(),
                    s@[fd as int] == '.',
                    forall|i: int| h < i < fd ==> s@[i] != '.',
                    forall|i: int| h <= i < rend ==> is_host_char(s@[i]),
                    is_word_char(s@[h as int]),
                    rend == n || !is_host_char(s@[rend as int]),
                    forall|p2: int| !playit_from(s@, h as int, p2),
                    forall|p2: int| p2 < p ==> !joinmc_from(s@, h as int, p2),
                decreases rend - p,
            {
                if match_at_exec(s, "joinmc.link", p) {
                    proof {
                        reveal_strlit("joinmc.link");
                        assert(h < fd && fd + 1 < p && s@[fd as int] == '.');
                        assert(joinmc_from(s@, h as int, p as int));
                        assert(suffix_joinmc().len() == 11);
                        assert(capture_from(s@, h as int, p + 11));
                    }
                    return Some(p + 11);
                }
                proof {
                    assert(!joinmc_from(s@, h as int, p as int));
                }
                p = p + 1;
            }
            // the last possible suffix position is the run end itself
            if match_at_exec(s, "joinmc.link", rend) {
                proof {
                    reveal_strlit("joinmc.link");
                    assert(h < fd && fd + 1 < rend && s@[fd as int] == '.');
                    assert(joinmc_from(s@, h as int, rend as int));
                    assert(suffix_joinmc().len() == 11);
                    assert(capture_from(s@, h as int, rend + 11));
                }
                return Some(rend + 11);
            }
            proof {
                assert forall|p2: int| !joinmc_from(s@, h as int, p2) by {
                    if joinmc_from(s@, h as int, p2) {
                        assert(p2 <= rend) by {
                            if p2 > rend {
                                reveal_strlit("joinmc.link");
                                assert(p2 + 11 <= n);
                                assert(rend < n ==> is_host_char(s@[rend as int]));
                                assert(rend == n ==> p2 > n);
                            }
                        }
                        assert(p2 < rend || p2 == rend);
                        assert(false);
                    }
                }
                assert(forall|e: int| !host_from(s@, h as int, e));
            }
            None
        },
    }
}

/// A playit-family address at `s .. p + 16` whose word run cannot be
/// extended further left: the canonical bare occurrence for suffix `p`.
pub open spec fn playit_at(t: Seq<char>, s: int, p: int) -> bool {
    playit_from(t, s, p) && (s == 0 || !is_word_char(t[s - 1]))
}

/// A joinmc-family address at `s .. p + 11` with the leftmost valid start
/// for suffix `p`.
pub open spec fn joinmc_at(t: Seq<char>, s: int, p: int) -> bool {
    joinmc_from(t, s, p) && (forall|s2: int| joinmc_from(t, s2, p) ==> s <= s2)
}

/// Some playit-family address stands in `t`.
pub open spec fn has_bare_playit(t: Seq<char>) -> bool {
    exists|s: int, p: int| playit_from(t, s, p)
}

/// Some joinmc-family address stands in `t`.
pub open spec fn has_bare_joinmc(t: Seq<char>) -> bool {
    exists|s: int, p: int| joinmc_from(t, s, p)
}

/// The leftmost playit-family occurrence: no address of the family has
/// an earlier suffix.
pub open spec fn leftmost_playit(t: Seq<char>, s: int, p: int) -> bool {
    playit_at(t, s, p) && (forall|s2: int, p2: int| playit_from(t, s2, p2) ==> p <= p2)
}

/// The leftmost joinmc-family occurrence: no address of the family has
/// an earlier suffix.
pub open spec fn leftmost_joinmc(t: Seq<char>, s: int, p: int) -> bool {
    joinmc_at(t, s, p) && (forall|s2: int, p2: int| joinmc_from(t, s2, p2) ==> p <= p2)
}

/// A bare playit-family result: `st .. e` spans the leftmost occurrence.
pub open spec fn bare_playit_span(t: Seq<char>, st: int, e: int) -> bool {
    exists|p: int| #[trigger] leftmost_playit(t, st, p) && e == p + suffix_playit().len()
}

/// A bare joinmc-family result: `st .. e` spans the leftmost occurrence.
pub open spec fn bare_joinmc_span(t: Seq<char>, st: int, e: int) -> bool {
    exists|p: int| #[trigger] leftmost_joinmc(t, st, p) && e == p + suffix_joinmc().len()
}

/// `u` is the bare capture of `t`: the leftmost playit-family address if
/// any (maximal to the left), else the leftmost joinmc-family address.
pub open spec fn is_bare_capture(t: Seq<char>, u: Seq<char>) -> bool {
    if has_bare_playit(t) {
        exists|s: int, e: int| #[trigger] bare_playit_span(t, s, e) && u == t.subrange(s, e)
    } else if has_bare_joinmc(t) {
        exists|s: int, e: int| #[trigger] bare_joinmc_span(t, s, e) && u == t.subrange(s, e)
    } else {
        false
    }
}

/// A dot stands strictly between `lo` and `hi`.
pub open spec fn dot_between(t: Seq<char>, lo: int, hi: int) -> bool {
    exists|m: int| lo < m < hi && t[m] == '.'
}

/// Whether a dot stands strictly between `lo` and `hi`.
fn dot_between_exec(s: &str, lo: usize, hi: usize) -> (r: bool)
    requires
        hi <= s@.len(),
    ensures
        r == dot_between(s@, lo as int, hi as int),
{
    if lo >= hi {
        return false;
    }
    let mut i = lo + 1;
    while i < hi
        invariant
            lo + 1 <= i <= hi <= s@.len(),
            forall|j: int| lo < j < i ==> s@[j] != '.',
        decreases hi - i,
    {
        if s.get_char(i) == '.' {
            return true;
        }
        i = i + 1;
    }
    false
}

/// The leftmost playit-family address: its suffix position is smallest,
/// and its word run is extended as far left as it goes.
fn find_bare_playit(s: &str) -> (r: Option<(usize, usize)>)
    ensures
        r matches Some((st, e)) ==> bare_playit_span(s@, st as int, e as int) && st < e
            <= s@.len(),
        r is None ==> !has_bare_playit(s@),
{
    let n = s.unicode_len();
    let mut from: usize = 0;
    loop
        invariant
            from <= n + 1,
            n == s@.len(),
            forall|s2: int, p2: int| p2 < from ==> !playit_from(s@, s2, p2),
        decreases n + 1 - from,
    {
        if from > n {
            proof {
                assert forall|s2: int, p2: int| !playit_from(s@, s2, p2) by {
                    if playit_from(s@, s2, p2) {
                        assert(p2 + suffix_playit().len() <= n);
                    }
                }
            }
            return None;
        }
        match crate::text::find_pat_from(s, ".share.playit.gg", from) {
            None => {
                proof {
                    assert forall|s2: int, p2: int| !playit_from(s@, s2, p2) by {
                        if playit_from(s@, s2, p2) {
                            assert(match_at(s@, ".share.playit.gg"@, p2));
                            assert(p2 < from);
                        }
                    }
                }
                return None;
            },
            Some(p) => {
                // extend the word run as far left as it goes
                let mut st = p;
                while st > 0 && is_word_char_exec(s.get_char(st - 1))
                    invariant
                        st <= p <= n,
                        n == s@.len(),
                        forall|i: int| st <= i < p ==> is_word_char(s@[i]),
                    decreases st,
                {
                    st = st - 1;
                }
                if st < p {
                    proof {
                        reveal_strlit(".share.playit.gg");
                        assert(playit_at(s@, st as int, p as int));
                        assert forall|s2: int, p2: int| playit_from(s@, s2, p2) implies p <= p2 by {
                            if p2 < p {
                                if p2 < from {
                                } else {
                                    assert(match_at(s@, ".share.playit.gg"@, p2));
                                }
                            }
                        }
                        assert(leftmost_playit(s@, st as int, p as int));
                        assert(suffix_playit().len() == 16);
                        assert(p + 16 <= s@.len());
                        assert(bare_playit_span(s@, st as int, (p + 16) as int));
                    }
                    return Some((st, p + 16));
                }
                proof {
                    reveal_strlit(".share.playit.gg");
                    assert(p + 16 <= s@.len());
                    assert forall|s2: int| !playit_from(s@, s2, p as int) by {
                        if playit_from(s@, s2, p as int) {
                            assert(st == p);
                            assert(is_word_char(s@[p - 1]));
                        }
                    }
                    assert forall|s2: int, p2: int| p2 < from + 1 && p2 > p - 1 implies !playit_from(
                        s@,
                        s2,
                        p2,
                    ) by {}
                }
                from = p + 1;
            },
        }
    }
}

/// The leftmost joinmc-family address: its suffix position is smallest,
/// and its start is the leftmost valid one for that suffix.
fn find_bare_joinmc(s: &str) -> (r: Option<(usize, usize)>)
    ensures
        r matches Some((st, e)) ==> bare_joinmc_span(s@, st as int, e as int) && st < e
            <= s@.len(),
        r is None ==> !has_bare_joinmc(s@),
{
    let n = s.unicode_len();
    let mut from: usize = 0;
    loop
        invariant
            from <= n + 1,
            n == s@.len(),
            forall|s2: int, p2: int| p2 < from ==> !joinmc_from(s@, s2, p2),
        decreases n + 1 - from,
    {
        if from > n {
            proof {
                assert forall|s2: int, p2: int| !joinmc_from(s@, s2, p2) by {
                    if joinmc_from(s@, s2, p2) {
                        assert(p2 + suffix_joinmc().len() <= n);
                    }
                }
            }
            return None;
        }
        match crate::text::find_pat_from(s, "joinmc.link", from) {
            None => {
                proof {
                    assert forall|s2: int, p2: int| !joinmc_from(s@, s2, p2) by {
                        if joinmc_from(s@, s2, p2) {
                            assert(match_at(s@, "joinmc.link"@, p2));
                            assert(p2 < from);
                        }
                    }
                }
                return None;
            },
            Some(p) => {
                match leftmost_joinmc_start(s, p) {
                    Some(st) => {
                        proof {
                            reveal_strlit("joinmc.link");
                            assert forall|s2: int, p2: int| joinmc_from(s@, s2, p2) implies p
                                <= p2 by {
                                if p2 < p {
                                    if p2 >= from {
                                        assert(match_at(s@, "joinmc.link"@, p2));
                                    }
                                }
                            }
                            assert(leftmost_joinmc(s@, st as int, p as int));
                            assert(suffix_joinmc().len() == 11);
                            assert(p + 11 <= s@.len());
                            assert(bare_joinmc_span(s@, st as int, (p + 11) as int));
                        }
                        return Some((st, p + 11));
                    },
                    None => {
                        proof {
                            reveal_strlit("joinmc.link");
                            assert(p + 11 <= s@.len());
                            assert(forall|s2: int| !joinmc_from(s@, s2, p as int));
                        }
                        from = p + 1;
                    },
                }
            },
        }
    }
}

/// The leftmost valid start of a joinmc-family address whose suffix
/// stands at `p`.
fn leftmost_joinmc_start(s: &str, p: usize) -> (r: Option<usize>)
    requires
        p <= s@.len(),
    ensures
        match r {
            Some(st) => joinmc_at(s@, st as int, p as int),
            None => forall|s2: int| !joinmc_from(s@, s2, p as int),
        },
{
    if p == 0 {
        return None;
    }
    // the run of host characters just before p
    let mut s0 = p;
    while s0 > 0 && is_host_char_exec(s.get_char(s0 - 1))
        invariant
            s0 <= p <= s@.len(),
            forall|i: int| s0 <= i < p ==> is_host_char(s@[i]),
        decreases s0,
    {
        s0 = s0 - 1;
    }
    let mut st = s0;
    while st < p
        invariant
            s0 <= st <= p <= s@.len(),
            forall|i: int| s0 <= i < p ==> is_host_char(s@[i]),
            s0 == 0 || !is_host_char(s@[s0 - 1]),
            forall|s2: int| s2 < st ==> !joinmc_from(s@, s2, p as int),
        decreases p - st,
    {
        if is_word_char_exec(s.get_char(st)) && dot_between_exec(s, st, p - 1) {
            proof {
                let m = choose|m: int| st < m < p - 1 && s@[m] == '.';
                assert(s@[m] == '.' && st < m && m + 1 < p);
            }
            if match_at_exec(s, "joinmc.link", p) {
                proof {
                    assert(joinmc_from(s@, st as int, p as int));
                }
                return Some(st);
            } else {
                proof {
                    assert(forall|s2: int| !joinmc_from(s@, s2, p as int));
                }
                return None;
            }
        }
        proof {
            assert forall|s2: int| s2 == st implies !joinmc_from(s@, s2, p as int) by {
                if joinmc_from(s@, st as int, p as int) {
                    let m = choose|m: int| st < m && m + 1 < p && s@[m] == '.';
                    assert(dot_between(s@, st as int, p - 1));
                }
            }
        }
        st = st + 1;
    }
    proof {
        assert forall|s2: int| !joinmc_from(s@, s2, p as int) by {
            if joinmc_from(s@, s2, p as int) {
                if s2 < s0 {
                    // the run would have to extend past s0
                    assert(s0 >= 1);
                    assert(s2 <= s0 - 1 < p);
                    assert(is_host_char(s@[s0 - 1]));
                } else {
                    assert(s2 < p);
                }
            }
        }
    }
    None
}

/// The keywords that open a contextual form.
pub open spec fn keywords() -> Seq<Seq<char>> {
    seq!["tunnel"@, "link"@, "connect"@, "url"@, "address"@, "server"@]
}

/// The separator tokens that may stand between a keyword and the address.
pub open spec fn sep_tokens() -> Seq<Seq<char>> {
    seq!["is"@, "at"@, ":"@]
}

/// Every character in `a .. b` is a space.
pub open spec fn space_run(t: Seq<char>, a: int, b: int) -> bool {
    forall|i: int| a <= i < b ==> is_space_char(t[i])
}

/// Some keyword occupies `i .. j`.
pub open spec fn keyword_at(t: Seq<char>, i: int, j: int) -> bool {
    exists|k: int|
        0 <= k < keywords().len() && match_at(t, keywords()[k], i) && j == i + keywords()[k].len()
}

/// A separator spans `j .. h`: optional spaces, an optional single token,
/// optional spaces.
pub open spec fn sep_span(t: Seq<char>, j: int, h: int) -> bool {
    exists|j1: int, jm: int|
        j <= j1 <= jm <= h && space_run(t, j, j1) && space_run(t, jm, h) && (j1 == jm || exists|
            k: int,
        |
            0 <= k < sep_tokens().len() && match_at(t, sep_tokens()[k], j1) && jm == j1
                + sep_tokens()[k].len())
}

/// A contextual occurrence: a keyword ending at `j`, a separator to `h`,
/// and an address starting exactly at `h`.
pub open spec fn has_contextual(t: Seq<char>) -> bool {
    exists|i: int, j: int, h: int, e: int|
        keyword_at(t, i, j) && sep_span(t, j, h) && host_from(t, h, e)
}

/// `u` is the address of some contextual occurrence in `t`, captured with
/// the family preference of `capture_from`.
pub open spec fn is_contextual_capture(t: Seq<char>, u: Seq<char>) -> bool {
    exists|i: int, j: int, h: int, e: int|
        keyword_at(t, i, j) && sep_span(t, j, h) && capture_from(t, h, e) && u == t.subrange(h, e)
}

/// An address never begins with a space, so a separator's trailing space
/// run pins the address start to the end of the maximal space run.
proof fn lemma_host_starts_with_word(t: Seq<char>, s: int, e: int)
    requires
        host_from(t, s, e),
    ensures
        0 <= s < t.len(),
        is_word_char(t[s]),
        !is_space_char(t[s]),
{
    if exists|p: int| playit_from(t, s, p) && e == p + suffix_playit().len() {
        let p = choose|p: int| playit_from(t, s, p) && e == p + suffix_playit().len();
        assert(is_word_char(t[s]));
        assert(p + suffix_playit().len() <= t.len());
    } else {
        let p = choose|p: int| joinmc_from(t, s, p) && e == p + suffix_joinmc().len();
        assert(is_word_char(t[s]));
        assert(p + suffix_joinmc().len() <= t.len());
    }
}

/// The position after the maximal space run starting at `j`.
fn skip_spaces(s: &str, j: usize) -> (q: usize)
    requires
        j <= s@.len(),
    ensures
        j <= q <= s@.len(),
        space_run(s@, j as int, q as int),
        q == s@.len() || !is_space_char(s@[q as int]),
{
    let n = s.unicode_len();
    let mut q = j;
    while q < n && is_space_char_exec(s.get_char(q))
        invariant
            j <= q <= n,
            n == s@.len(),
            space_run(s@, j as int, q as int),
        decreases n - q,
    {
        q = q + 1;
    }
    q
}

/// Try to match a separator and an address after a keyword that ends at
/// `j`: a token branch first (as the separator grammar prefers), then the
/// bare-spaces branch.
fn attempt_after_keyword(s: &str, j: usize) -> (r: Option<(usize, usize)>)
    requires
        j <= s@.len(),
    ensures
        r matches Some((h, e)) ==> sep_span(s@, j as int, h as int) && capture_from(
            s@,
            h as int,
            e as int,
        ) && host_from(s@, h as int, e as int) && h < e <= s@.len(),
        r is None ==> forall|h: int, e: int|
            sep_span(s@, j as int, h) ==> !host_from(s@, h, e),
{
    let n = s.unicode_len();
    let q1 = skip_spaces(s, j);
    let m_is = match_at_exec(s, "is", q1);
    let q2_is = if m_is {
        proof {
            reveal_strlit("is");
            assert(q1 + 2 <= s@.len());
        }
        skip_spaces(s, q1 + 2)
    } else {
        q1
    };
    if m_is {
        match host_capture_from(s, q2_is) {
            Some(e) => {
                proof {
                    reveal_strlit("is");
                    assert(sep_tokens()[0] == "is"@);
                    assert(sep_span(s@, j as int, q2_is as int));
                }
                return Some((q2_is, e));
            },
            None => {},
        }
    }
    let m_at = match_at_exec(s, "at", q1);
    let q2_at = if m_at {
        proof {
            reveal_strlit("at");
            assert(q1 + 2 <= s@.len());
        }
        skip_spaces(s, q1 + 2)
    } else {
        q1
    };
    if m_at {
        match host_capture_from(s, q2_at) {
            Some(e) => {
                proof {
                    reveal_strlit("at");
                    assert(sep_tokens()[1] == "at"@);
                    assert(sep_span(s@, j as int, q2_at as int));
                }
                return Some((q2_at, e));
            },
            None => {},
        }
    }
    let m_colon = match_at_exec(s, ":", q1);
    let q2_colon = if m_colon {
        proof {
            reveal_strlit(":");
            assert(q1 + 1 <= s@.len());
        }
        skip_spaces(s, q1 + 1)
    } else {
        q1
    };
    if m_colon {
        match host_capture_from(s, q2_colon) {
            Some(e) => {
                proof {
                    reveal_strlit(":");
                    assert(sep_tokens()[2] == ":"@);
                    assert(sep_span(s@, j as int, q2_colon as int));
                }
                return Some((q2_colon, e));
            },
            None => {},
        }
    }
    match host_capture_from(s, q1) {
        Some(e) => {
            proof {
                assert(space_run(s@, j as int, q1 as int));
                assert(space_run(s@, q1 as int, q1 as int));
                assert(sep_span(s@, j as int, q1 as int));
            }
            return Some((q1, e));
        },
        None => {},
    }
    proof {
        reveal_strlit("is");
        reveal_strlit("at");
        reveal_strlit(":");
        assert forall|h: int, e: int| sep_span(s@, j as int, h) implies !host_from(s@, h, e) by {
            if sep_span(s@, j as int, h) && host_from(s@, h, e) {
                lemma_host_starts_with_word(s@, h, e);
                let (j1, jm) = choose|j1: int, jm: int|
                    j <= j1 <= jm <= h && space_run(s@, j as int, j1) && space_run(s@, jm, h) && (
                    j1 == jm || exists|k: int|
                        0 <= k < sep_tokens().len() && match_at(s@, sep_tokens()[k], j1) && jm
                            == j1 + sep_tokens()[k].len());
                if j1 == jm {
                    // spaces only: the address must start right after the
                    // maximal space run
                    assert(h == q1);
                    assert(false);
                } else {
                    let k = choose|k: int|
                        0 <= k < sep_tokens().len() && match_at(s@, sep_tokens()[k], j1) && jm
                            == j1 + sep_tokens()[k].len();
                    assert(sep_tokens()[0] == "is"@ && sep_tokens()[1] == "at"@ && sep_tokens()[2]
                        == ":"@);
                    // the token starts with a non-space, so it begins at q1
                    assert(s@.subrange(j1, j1 + sep_tokens()[k].len())[0] == s@[j1]);
                    assert(!is_space_char(s@[j1]));
                    assert(j1 == q1);
                    if k == 0 {
                        assert(m_is);
                        assert(h == q2_is);
                        assert(false);
                    } else if k == 1 {
                        assert(m_at);
                        assert(h == q2_at);
                        assert(false);
                    } else {
                        assert(m_colon);
                        assert(h == q2_colon);
                        assert(false);
                    }
                }
            }
        }
    }
    None
}

/// The contextual capture whose keyword stands at `i`, if any.
fn contextual_at(s: &str, i: usize) -> (r: Option<(usize, usize)>)
    requires
        i <= s@.len(),
    ensures
        r matches Some((h, e)) ==> (exists|j: int| #[trigger] keyword_at(s@, i as int, j)
            && sep_span(s@, j, h as int)) && capture_from(s@, h as int, e as int) && host_from(
            s@,
            h as int,
            e as int,
        ) && h < e <= s@.len(),
        r is None ==> forall|j: int, h: int, e: int|
            keyword_at(s@, i as int, j) && sep_span(s@, j, h) ==> !host_from(s@, h, e),
{
    let n = s.unicode_len();
    let m0 = match_at_exec(s, "tunnel", i);
    let m1 = match_at_exec(s, "link", i);
    let m2 = match_at_exec(s, "connect", i);
    let m3 = match_at_exec(s, "url", i);
    let m4 = match_at_exec(s, "address", i);
    let m5 = match_at_exec(s, "server", i);
    proof {
        reveal_strlit("tunnel");
        reveal_strlit("link");
        reveal_strlit("connect");
        reveal_strlit("url");
        reveal_strlit("address");
        reveal_strlit("server");
        assert(keywords()[0] == "tunnel"@ && keywords()[1] == "link"@ && keywords()[2]
            == "connect"@ && keywords()[3] == "url"@ && keywords()[4] == "address"@ && keywords()[5]
            == "server"@);
    }
    if m0 {
        proof {
            reveal_strlit("tunnel");
            assert(i + 6 <= s@.len());
        }
        let attempt = attempt_after_keyword(s, i + 6);
        match attempt {
            Some((h, e)) => {
                proof {
                    assert(keyword_at(s@, i as int, i + 6));
                }
                return Some((h, e));
            },
            None => {},
        }
    }
    if m1 {
        proof {
            reveal_strlit("link");
            assert(i + 4 <= s@.len());
        }
        let attempt = attempt_after_keyword(s, i + 4);
        match attempt {
            Some((h, e)) => {
                proof {
                    assert(keyword_at(s@, i as int, i + 4));
                }
                return Some((h, e));
            },
            None => {},
        }
    }
    if m2 {
        proof {
            reveal_strlit("connect");
            assert(i + 7 <= s@.len());
        }
        let attempt = attempt_after_keyword(s, i + 7);
        match attempt {
            Some((h, e)) => {
                proof {
                    assert(keyword_at(s@, i as int, i + 7));
                }
                return Some((h, e));
            },
            None => {},
        }
    }
    if m3 {
        proof {
            reveal_strlit("url");
            assert(i + 3 <= s@.len());
        }
        let attempt = attempt_after_keyword(s, i + 3);
        match attempt {
            Some((h, e)) => {
                proof {
                    assert(keyword_at(s@, i as int, i + 3));
                }
                return Some((h, e));
            },
            None => {},
        }
    }
    if m4 {
        proof {
            reveal_strlit("address");
            assert(i + 7 <= s@.len());
        }
        let attempt = attempt_after_keyword(s, i + 7);
        match attempt {
            Some((h, e)) => {
                proof {
                    assert(keyword_at(s@, i as int, i + 7));
                }
                return Some((h, e));
            },
            None => {},
        }
    }
    if m5 {
        proof {
            reveal_strlit("server");
            assert(i + 6 <= s@.len());
        }
        let attempt = attempt_after_keyword(s, i + 6);
        match attempt {
            Some((h, e)) => {
                proof {
                    assert(keyword_at(s@, i as int, i + 6));
                }
                return Some((h, e));
            },
            None => {},
        }
    }
    proof {
        reveal_strlit("tunnel");
        reveal_strlit("link");
        reveal_strlit("connect");
        reveal_strlit("url");
        reveal_strlit("address");
        reveal_strlit("server");
        assert forall|j: int, h: int, e: int|
            keyword_at(s@, i as int, j) && sep_span(s@, j, h) implies !host_from(s@, h, e) by {
            if keyword_at(s@, i as int, j) {
                let k = choose|k: int|
                    0 <= k < keywords().len() && match_at(s@, keywords()[k], i as int) && j == i
                        + keywords()[k].len();
                assert(0 <= k < 6);
            }
        }
    }
    None
}

/// The bare capture of the whole text: the leftmost address, playit
/// family first.
fn find_bare(s: &str) -> (r: Option<String>)
    ensures
        match r {
            Some(u) => is_bare_capture(s@, u@),
            None => !has_bare_playit(s@) && !has_bare_joinmc(s@),
        },
{
    match find_bare_playit(s) {
        Some((st, e)) => Some(substring_copy(s, st, e)),
        None => {
            match find_bare_joinmc(s) {
                Some((st, e)) => Some(substring_copy(s, st, e)),
                None => None,
            }
        },
    }
}

/// The capture of the contextual occurrence whose keyword stands
/// leftmost, if any.
fn find_contextual(s: &str) -> (r: Option<String>)
    ensures
        r matches Some(u) ==> is_contextual_capture(s@, u@) && has_contextual(s@),
        r is None ==> !has_contextual(s@),
{
    let n = s.unicode_len();
    let mut i: usize = 0;
    while i < n
        invariant
            i <= n,
            n == s@.len(),
            forall|i2: int, j: int, h: int, e: int|
                0 <= i2 < i && keyword_at(s@, i2, j) && sep_span(s@, j, h) ==> !host_from(
                    s@,
                    h,
                    e,
                ),
        decreases n - i,
    {
        match contextual_at(s, i) {
            Some((h, e)) => {
                let u = substring_copy(s, h, e);
                proof {
                    assert(is_contextual_capture(s@, u@));
                    assert(has_contextual(s@));
                }
                return Some(u);
            },
            None => {},
        }
        i = i + 1;
    }
    proof {
        assert forall|i2: int, j: int, h: int, e: int|
            keyword_at(s@, i2, j) && sep_span(s@, j, h) implies !host_from(s@, h, e) by {
            if keyword_at(s@, i2, j) {
                let k = choose|k: int|
                    0 <= k < keywords().len() && match_at(s@, keywords()[k], i2) && j == i2
                        + keywords()[k].len();
                reveal_strlit("tunnel");
                reveal_strlit("link");
                reveal_strlit("connect");
                reveal_strlit("url");
                reveal_strlit("address");
                reveal_strlit("server");
                assert(keywords()[0] == "tunnel"@ && keywords()[1] == "link"@ && keywords()[2]
                    == "connect"@ && keywords()[3] == "url"@ && keywords()[4] == "address"@
                    && keywords()[5] == "server"@);
                assert(0 <= i2 && i2 + keywords()[k].len() <= n);
                assert(i2 < n);
            }
        }
    }
    None
}

/// The literal phrases that announce a tunnel address in output.
pub open spec fn phrases() -> Seq<Seq<char>> {
    seq!["Tunnel created"@, "Connected as"@, "Tunnel ready"@, "is now available"@]
}

/// Some phrase occupies `i .. j`.
pub open spec fn phrase_at(t: Seq<char>, i: int, j: int) -> bool {
    exists|k: int|
        0 <= k < phrases().len() && match_at(t, phrases()[k], i) && j == i + phrases()[k].len()
}

/// Some phrase ends at `j`.
pub open spec fn phrase_end(t: Seq<char>, j: int) -> bool {
    exists|i: int| phrase_at(t, i, j)
}

/// A phrase occurrence is followed, anywhere later, by an address.
pub open spec fn has_phrase_host(t: Seq<char>) -> bool {
    exists|j: int, h: int, e: int| phrase_end(t, j) && j <= h && host_from(t, h, e)
}

/// `u` is the address that follows some phrase occurrence, captured with
/// the family preference of `capture_from`.
pub open spec fn is_phrase_capture(t: Seq<char>, u: Seq<char>) -> bool {
    exists|j: int, h: int, e: int|
        phrase_end(t, j) && j <= h && capture_from(t, h, e) && u == t.subrange(h, e)
}

/// The smallest position at which some phrase occurrence ends.
fn earliest_phrase_end(s: &str) -> (r: Option<usize>)
    ensures
        r matches Some(j) ==> phrase_end(s@, j as int) && (forall|j2: int|
            phrase_end(s@, j2) ==> j <= j2),
        r is None ==> forall|j: int| !phrase_end(s@, j),
{
    let n = s.unicode_len();
    let mut best: Option<usize> = None;
    let mut i: usize = 0;
    while i < n
        invariant
            i <= n,
            n == s@.len(),
            match best {
                Some(b) => phrase_end(s@, b as int) && (forall|i2: int, k: int|
                    0 <= i2 < i && 0 <= k < phrases().len() && match_at(s@, phrases()[k], i2)
                        ==> b <= i2 + phrases()[k].len()),
                None => forall|i2: int, k: int|
                    0 <= i2 < i && 0 <= k < phrases().len() ==> !match_at(s@, phrases()[k], i2),
            },
        decreases n - i,
    {
        proof {
            reveal_strlit("Tunnel created");
            reveal_strlit("Connected as");
            reveal_strlit("Tunnel ready");
            reveal_strlit("is now available");
            assert(phrases()[0] == "Tunnel created"@ && phrases()[1] == "Connected as"@
                && phrases()[2] == "Tunnel ready"@ && phrases()[3] == "is now available"@);
        }
        let m0 = match_at_exec(s, "Tunnel created", i);
        let m1 = match_at_exec(s, "Connected as", i);
        let m2 = match_at_exec(s, "Tunnel ready", i);
        let m3 = match_at_exec(s, "is now available", i);
        if m0 {
            let j = i + 14;
            proof {
                assert(phrase_at(s@, i as int, j as int));
            }
            best = update_best(best, j);
        }
        if m1 {
            let j = i + 12;
            proof {
                assert(phrase_at(s@, i as int, j as int));
            }
            best = update_best(best, j);
        }
        if m2 {
            let j = i + 12;
            proof {
                assert(phrase_at(s@, i as int, j as int));
            }
            best = update_best(best, j);
        }
        if m3 {
            let j = i + 16;
            proof {
                assert(phrase_at(s@, i as int, j as int));
            }
            best = update_best(best, j);
        }
        i = i + 1;
    }
    proof {
        reveal_strlit("Tunnel created");
        reveal_strlit("Connected as");
        reveal_strlit("Tunnel ready");
        reveal_strlit("is now available");
        match best {
            Some(b) => {
                assert forall|j2: int| phrase_end(s@, j2) implies b <= j2 by {
                    let i2 = choose|i2: int| phrase_at(s@, i2, j2);
                    let k = choose|k: int|
                        0 <= k < phrases().len() && match_at(s@, phrases()[k], i2) && j2 == i2
                            + phrases()[k].len();
                    assert(phrases()[k].len() >= 1);
                    assert(0 <= i2 < n);
                }
            },
            None => {
                assert forall|j2: int| !phrase_end(s@, j2) by {
                    if phrase_end(s@, j2) {
                        let i2 = choose|i2: int| phrase_at(s@, i2, j2);
                        let k = choose|k: int|
                            0 <= k < phrases().len() && match_at(s@, phrases()[k], i2) && j2 == i2
                                + phrases()[k].len();
                        assert(phrases()[k].len() >= 1);
                        assert(0 <= i2 < n);
                    }
                }
            },
        }
    }
    best
}

/// The smaller of the held end and a newly found one.
fn update_best(best: Option<usize>, j: usize) -> (r: Option<usize>)
    ensures
        r matches Some(b) ==> (b == j || (best matches Some(b0) && b == b0)) && b <= j && (
        best matches Some(b0) ==> b <= b0),
        r is Some,
{
    match best {
        Some(b) => if j < b {
            Some(j)
        } else {
            Some(b)
        },
        None => Some(j),
    }
}

/// The capture of the address that follows the earliest phrase, if any.
fn find_phrase(s: &str) -> (r: Option<String>)
    ensures
        r matches Some(u) ==> is_phrase_capture(s@, u@) && has_phrase_host(s@),
        r is None ==> !has_phrase_host(s@),
{
    let n = s.unicode_len();
    match earliest_phrase_end(s) {
        None => {
            proof {
                assert forall|j: int, h: int, e: int|
                    phrase_end(s@, j) && j <= h implies !host_from(s@, h, e) by {}
            }
            None
        },
        Some(j) => {
            if j > n {
                proof {
                    let i2 = choose|i2: int| phrase_at(s@, i2, j as int);
                    assert(false);
                }
                return None;
            }
            let mut h = j;
            while h < n
                invariant
                    j <= h <= n,
                    n == s@.len(),
                    phrase_end(s@, j as int),
                    forall|j2: int| phrase_end(s@, j2) ==> j <= j2,
                    forall|h2: int, e: int| j <= h2 < h ==> !host_from(s@, h2, e),
                decreases n - h,
            {
                match host_capture_from(s, h) {
                    Some(e) => {
                        let u = substring_copy(s, h, e);
                        proof {
                            assert(is_phrase_capture(s@, u@));
                            assert(has_phrase_host(s@));
                        }
                        return Some(u);
                    },
                    None => {},
                }
                h = h + 1;
            }
            match host_capture_from(s, n) {
                Some(e) => {
                    let u = substring_copy(s, n, e);
                    proof {
                        assert(is_phrase_capture(s@, u@));
                        assert(has_phrase_host(s@));
                    }
                    Some(u)
                },
                None => {
                    proof {
                        assert forall|j2: int, h2: int, e: int|
                            phrase_end(s@, j2) && j2 <= h2 implies !host_from(s@, h2, e) by {
                            if phrase_end(s@, j2) && j2 <= h2 && host_from(s@, h2, e) {
                                lemma_host_starts_with_word(s@, h2, e);
                                assert(j <= j2);
                                assert(h2 < n);
                            }
                        }
                    }
                    None
                },
            }
        },
    }
}

/// The whole text is exactly an address of one of the two families.
pub open spec fn is_exact_host(t: Seq<char>) -> bool {
    host_from(t, 0, t.len() as int)
}

/// Whether every character in `a .. b` may stand in a leading label.
fn all_word_chars(s: &str, a: usize, b: usize) -> (r: bool)
    requires
        a <= b <= s@.len(),
    ensures
        r == forall|i: int| a <= i < b ==> is_word_char(s@[i]),
{
    let mut i = a;
    while i < b
        invariant
            a <= i <= b <= s@.len(),
            forall|k: int| a <= k < i ==> is_word_char(s@[k]),
        decreases b - i,
    {
        if !is_word_char_exec(s.get_char(i)) {
            return false;
        }
        i = i + 1;
    }
    true
}

/// Whether every character in `a .. b` may stand in an address prefix.
fn all_host_chars(s: &str, a: usize, b: usize) -> (r: bool)
    requires
        a <= b <= s@.len(),
    ensures
        r == forall|i: int| a <= i < b ==> is_host_char(s@[i]),
{
    let mut i = a;
    while i < b
        invariant
            a <= i <= b <= s@.len(),
            forall|k: int| a <= k < i ==> is_host_char(s@[k]),
        decreases b - i,
    {
        if !is_host_char_exec(s.get_char(i)) {
            return false;
        }
        i = i + 1;
    }
    true
}

/// Whether the whole text is exactly an address.
fn exact_host(s: &str) -> (r: bool)
    ensures
        r == is_exact_host(s@),
{
    let n = s.unicode_len();
    proof {
        reveal_strlit(".share.playit.gg");
        reveal_strlit("joinmc.link");
    }
    let playit_exact = if n >= 17 {
        match_at_exec(s, ".share.playit.gg", n - 16) && all_word_chars(s, 0, n - 16)
    } else {
        false
    };
    let joinmc_exact = if n >= 13 {
        match_at_exec(s, "joinmc.link", n - 11) && all_host_chars(s, 0, n - 11)
            && is_word_char_exec(s.get_char(0)) && dot_between_exec(s, 0, n - 12)
    } else {
        false
    };
    let r = playit_exact || joinmc_exact;
    proof {
        reveal_strlit(".share.playit.gg");
        reveal_strlit("joinmc.link");
        if playit_exact {
            assert(playit_from(s@, 0, n - 16));
            assert(is_exact_host(s@));
        } else if joinmc_exact {
            assert(dot_between(s@, 0, n - 12));
            let m = choose|m: int| 0 < m < n - 12 && s@[m] == '.';
            assert(0 < m && m + 1 < n - 11 && s@[m] == '.');
            assert(joinmc_from(s@, 0, n - 11));
            assert(is_exact_host(s@));
        } else {
            assert(!is_exact_host(s@)) by {
                if host_from(s@, 0, s@.len() as int) {
                    if exists|p: int| playit_from(s@, 0, p) && s@.len() == p
                        + suffix_playit().len() {
                        let p = choose|p: int|
                            playit_from(s@, 0, p) && s@.len() == p + suffix_playit().len();
                        assert(p == n - 16);
                        assert(n >= 17);
                    } else {
                        let p = choose|p: int|
                            joinmc_from(s@, 0, p) && s@.len() == p + suffix_joinmc().len();
                        assert(p == n - 11);
                        assert(p >= 1);
                        let m = choose|m: int| 0 < m && m + 1 < p && s@[m] == '.';
                        assert(m + 1 < n - 11);
                        assert(n >= 13);
                        assert(dot_between(s@, 0, n - 12));
                    }
                }
            }
        }
    }
    r
}

/// The text holds an address in some recognised form.
pub open spec fn text_matches(t: Seq<char>) -> bool {
    is_exact_host(t) || has_contextual(t) || has_phrase_host(t) || has_bare_playit(t)
        || has_bare_joinmc(t)
}

/// What `detect_in_text` returns for `t`: the address of the most
/// specific form that matches, exact before contextual before phrase
/// before bare.
pub open spec fn is_text_capture(t: Seq<char>, u: Seq<char>) -> bool {
    if is_exact_host(t) {
        u == t
    } else if has_contextual(t) {
        is_contextual_capture(t, u)
    } else if has_phrase_host(t) {
        is_phrase_capture(t, u)
    } else {
        is_bare_capture(t, u)
    }
}

/// Extract a tunnel address from `t`, trying the forms in their fixed
/// priority order: exact, contextual, event phrase, bare.  Returns the
/// capture of the first form that matches, or nothing when no form does.
pub fn detect_in_text(s: &str) -> (r: Option<String>)
    ensures
        r matches Some(u) ==> is_text_capture(s@, u@) && text_matches(s@),
        r is Some <==> text_matches(s@),
{
    if exact_host(s) {
        return Some(str_copy(s));
    }
    match find_contextual(s) {
        Some(u) => {
            return Some(u);
        },
        None => {},
    }
    match find_phrase(s) {
        Some(u) => {
            return Some(u);
        },
        None => {},
    }
    match find_bare(s) {
        Some(u) => Some(u),
        None => None,
    }
}

/// The priority contract of the contextual form: on text that holds a
/// contextual occurrence (and is not itself exactly an address), the
/// detector's capture is a contextual capture, whatever bare addresses
/// stand elsewhere in the text.
pub proof fn lemma_contextual_beats_bare(t: Seq<char>, u: Seq<char>)
    requires
        !is_exact_host(t),
        has_contextual(t),
        is_text_capture(t, u),
    ensures
        is_contextual_capture(t, u),
{
}

/// Some line of the sequence holds an address in some recognised form.
pub open spec fn some_line_matches(ls: Seq<Seq<char>>) -> bool {
    exists|i: int| 0 <= i < ls.len() && text_matches(#[trigger] ls[i])
}

/// `u` is the capture of the first line that holds an address.
pub open spec fn is_first_line_capture(ls: Seq<Seq<char>>, u: Seq<char>) -> bool {
    exists|i: int|
        {
            &&& 0 <= i < ls.len()
            &&& text_matches(#[trigger] ls[i])
            &&& is_text_capture(ls[i], u)
            &&& forall|j: int| 0 <= j < i ==> !text_matches(ls[j])
        }
}

/// Scan buffered log lines, oldest first, and return the capture of the
/// first line that holds an address in any form.
pub fn search_tunnel_url_in_logs(logs: &Vec<String>) -> (r: Option<String>)
    ensures
        r is Some <==> some_line_matches(lines_of(logs@)),
        r matches Some(u) ==> is_first_line_capture(lines_of(logs@), u@),
{
    let ghost view = lines_of(logs@);
    let mut i: usize = 0;
    while i < logs.len()
        invariant
            i <= logs@.len(),
            view == lines_of(logs@),
            forall|i2: int| 0 <= i2 < i ==> !text_matches(view[i2]),
        decreases logs@.len() - i,
    {
        match detect_in_text(logs[i].as_str()) {
            Some(u) => {
                proof {
                    assert(view[i as int] == logs@[i as int]@);
                    assert(is_first_line_capture(view, u@));
                }
                return Some(u);
            },
            None => {},
        }
        i = i + 1;
    }
    None
}

/// Scan TOML configuration text, treated as raw text, for an address.
pub fn search_tunnel_url_in_toml(content: &str) -> (r: Option<String>)
    ensures
        r matches Some(u) ==> is_text_capture(content@, u@),
        r is Some <==> text_matches(content@),
{
    detect_in_text(content)
}

} // verus!
