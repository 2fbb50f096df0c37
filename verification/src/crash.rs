//! Crash heuristic over a log snapshot.
//!
//! A coarse keyword scan of the most recent lines; false positives are
//! accepted by design, callers needing precision must filter further.

use vstd::prelude::*;
use crate::log_buffer::last_k;
use crate::text::{contains_seq, contains_sub};

verus! {

/// How many of the most recent lines are scanned.
pub const CRASH_WINDOW: usize = 20;

/// The fixed keyword set that flags a probable crash.
pub open spec fn crash_keywords() -> Seq<Seq<char>> {
    seq![
        "Exception"@,
        "Error"@,
        "Crash"@,
        "Fatal"@,
        "java.lang.OutOfMemoryError"@,
        "java.lang.StackOverflowError"@,
        "Server crashed"@,
    ]
}

/// The line holds at least one crash keyword.
pub open spec fn line_has_crash_keyword(l: Seq<char>) -> bool {
    exists|k: int| 0 <= k < crash_keywords().len() && contains_seq(l, crash_keywords()[k])
}

/// Some line among the most recent `CRASH_WINDOW` holds a crash keyword.
pub open spec fn crash_in_logs(logs: Seq<Seq<char>>) -> bool {
    exists|i: int|
        0 <= i < last_k(logs, CRASH_WINDOW as int).len() && line_has_crash_keyword(
            last_k(logs, CRASH_WINDOW as int)[i],
        )
}

/// Whether one line holds any of the crash keywords.
fn line_has_keyword(line: &str) -> (r: bool)
    ensures
        r == line_has_crash_keyword(line@),
{
    let r = contains_sub(line, "Exception") || contains_sub(line, "Error") || contains_sub(
        line,
        "Crash",
    ) || contains_sub(line, "Fatal") || contains_sub(line, "java.lang.OutOfMemoryError")
        || contains_sub(line, "java.lang.StackOverflowError") || contains_sub(
        line,
        "Server crashed",
    );
    proof {
        if r {
            assert(line_has_crash_keyword(line@)) by {
                assert(crash_keywords()[0] == "Exception"@);
                assert(crash_keywords()[1] == "Error"@);
                assert(crash_keywords()[2] == "Crash"@);
                assert(crash_keywords()[3] == "Fatal"@);
                assert(crash_keywords()[4] == "java.lang.OutOfMemoryError"@);
                assert(crash_keywords()[5] == "java.lang.StackOverflowError"@);
                assert(crash_keywords()[6] == "Server crashed"@);
            }
        } else {
            assert(forall|k: int| 0 <= k < crash_keywords().len() ==> !contains_seq(
                line@,
                crash_keywords()[k],
            )) by {
                assert(crash_keywords()[0] == "Exception"@);
                assert(crash_keywords()[1] == "Error"@);
                assert(crash_keywords()[2] == "Crash"@);
                assert(crash_keywords()[3] == "Fatal"@);
                assert(crash_keywords()[4] == "java.lang.OutOfMemoryError"@);
                assert(crash_keywords()[5] == "java.lang.StackOverflowError"@);
                assert(crash_keywords()[6] == "Server crashed"@);
            }
        }
    }
    r
}

/// Scan the most recent `CRASH_WINDOW` lines for any of the crash keywords.
/// Returns true exactly when one of those lines holds a keyword.
pub fn detect_crash_in_logs(logs: &Vec<String>) -> (r: bool)
    ensures
        r == crash_in_logs(logs@.map_values(|l: String| l@)),
{
    let ghost view = logs@.map_values(|l: String| l@);
    let ghost window = last_k(view, CRASH_WINDOW as int);
    let len = logs.len();
    let start = if len > CRASH_WINDOW {
        len - CRASH_WINDOW
    } else {
        0
    };
    proof {
        assert(window.len() == len - start);
        assert(forall|j: int| 0 <= j < window.len() ==> window[j] == view[start + j]);
    }
    let mut i: usize = start;
    while i < len
        invariant
            start <= i <= len,
            len == logs@.len(),
            view == logs@.map_values(|l: String| l@),
            window == last_k(view, CRASH_WINDOW as int),
            window.len() == len - start,
            forall|j: int| 0 <= j < window.len() ==> window[j] == view[start + j],
            forall|j: int| start <= j < i ==> !line_has_crash_keyword(view[j]),
        decreases len - i,
    {
        if line_has_keyword(&logs[i]) {
            proof {
                assert(window[i - start] == view[i as int]);
            }
            return true;
        }
        i = i + 1;
    }
    false
}

/// When none of the most recent `CRASH_WINDOW` lines holds a keyword, no
/// crash is flagged, whatever stands in the older lines.
pub proof fn lemma_clean_window_no_crash(logs: Seq<Seq<char>>)
    requires
        forall|i: int|
            0 <= i < last_k(logs, CRASH_WINDOW as int).len() ==> !line_has_crash_keyword(
                last_k(logs, CRASH_WINDOW as int)[i],
            ),
    ensures
        !crash_in_logs(logs),
{
}

/// A line that is exactly the literal crash marker, standing anywhere in
/// the most recent `CRASH_WINDOW` lines, flags a crash.
pub proof fn lemma_marker_in_window_flags_crash(logs: Seq<Seq<char>>, i: int)
    requires
        0 <= i < logs.len(),
        logs.len() - CRASH_WINDOW <= i,
        logs[i] == "Server crashed"@,
    ensures
        crash_in_logs(logs),
{
    let window = last_k(logs, CRASH_WINDOW as int);
    let j = if logs.len() <= CRASH_WINDOW {
        i
    } else {
        i - (logs.len() - CRASH_WINDOW)
    };
    assert(window[j] == logs[i]);
    let marker = "Server crashed"@;
    assert(logs[i].subrange(0, marker.len() as int) =~= marker);
    assert(crate::text::match_at(logs[i], marker, 0));
    assert(crash_keywords()[6] == marker);
    assert(line_has_crash_keyword(window[j]));
}

/// The scan stops at the window boundary: a marker just outside the most
/// recent `CRASH_WINDOW` lines does not flag a crash when the window itself
/// is clean.
pub proof fn lemma_marker_outside_window_ignored(logs: Seq<Seq<char>>, i: int)
    requires
        0 <= i < logs.len() - CRASH_WINDOW,
        forall|j: int|
            0 <= j < last_k(logs, CRASH_WINDOW as int).len() ==> !line_has_crash_keyword(
                last_k(logs, CRASH_WINDOW as int)[j],
            ),
    ensures
        !crash_in_logs(logs),
{
    lemma_clean_window_no_crash(logs);
}

} // verus!
