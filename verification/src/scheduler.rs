//! The background backup scheduler and archive retention.
//!
//! One global loop at a time wakes every interval, archives every server
//! directory and prunes old archives.  The loop itself (sleeping,
//! walking directories, writing ZIP files) runs in the embedding
//! application; this state machine decides whether a loop may keep
//! running, and which archives a prune pass deletes.  Enabling while a
//! loop runs replaces it: the generation count moves on, and the old
//! loop stops at its next wake.

use vstd::prelude::*;
use vstd::seq_lib::group_to_multiset_ensures;
use crate::text::str_eq;

verus! {

/// How many archives a prune pass keeps per default.
pub const BACKUP_KEEP_COUNT: usize = 10;

/// One archive on disk, as the scheduler reasons about it.
#[derive(Clone)]
pub struct BackupRecord {
    /// The archive's file name.
    pub name: String,
    /// Its modification time, in seconds since the epoch.
    pub mtime: u64,
    /// Its size in bytes.
    pub size: u64,
}

/// The scheduler's state: stopped or running, with the interval of the
/// current loop and a generation count that identifies it.
pub struct BackupScheduler {
    running: bool,
    interval_hours: u64,
    generation: u64,
}

/// A loop carrying `token` keeps running only while the scheduler is
/// enabled and the token still names the current loop.
pub open spec fn wake_continues(s: BackupScheduler, token: u64) -> bool {
    s.is_running() && token == s.generation()
}

impl BackupScheduler {
    pub closed spec fn is_running(&self) -> bool {
        self.running
    }

    pub closed spec fn interval(&self) -> u64 {
        self.interval_hours
    }

    pub closed spec fn generation(&self) -> u64 {
        self.generation
    }

    pub fn new() -> (r: BackupScheduler)
        ensures
            !r.is_running(),
            r.generation() == 0,
    {
        BackupScheduler { running: false, interval_hours: 0, generation: 0 }
    }

    /// Start a new loop with the given interval, tearing down any
    /// running one: the generation moves on, so an older loop observes
    /// `on_wake` false and ends.  Returns the new loop's token.
    pub fn enable(&mut self, interval_hours: u64) -> (token: u64)
        requires
            old(self).generation() < u64::MAX,
        ensures
            final(self).is_running(),
            final(self).interval() == interval_hours,
            final(self).generation() == old(self).generation() + 1,
            token == final(self).generation(),
            wake_continues(*final(self), token),
            forall|t: u64| t != token ==> !wake_continues(*final(self), t),
    {
        self.running = true;
        self.interval_hours = interval_hours;
        self.generation = self.generation + 1;
        self.generation
    }

    /// Signal the running loop to stop at its next wake.
    pub fn disable(&mut self)
        ensures
            !final(self).is_running(),
            final(self).generation() == old(self).generation(),
            forall|t: u64| !wake_continues(*final(self), t),
    {
        self.running = false;
    }

    /// Whether a loop is currently enabled.
    pub fn enabled(&self) -> (r: bool)
        ensures
            r == self.is_running(),
    {
        self.running
    }

    /// The generation count of the current loop.
    pub fn current_generation(&self) -> (r: u64)
        ensures
            r == self.generation(),
    {
        self.generation
    }

    /// Asked by a loop after each sleep: whether it may run its pass and
    /// sleep again.
    pub fn on_wake(&self, token: u64) -> (r: bool)
        ensures
            r == wake_continues(*self, token),
    {
        self.running && token == self.generation
    }
}

/// No two loops run concurrently: after a new loop is started, a wake of
/// any loop but the newest one ends it.
pub proof fn lemma_single_loop(s: BackupScheduler, stale: u64)
    requires
        stale != s.generation(),
    ensures
        !wake_continues(s, stale),
{
}

/// Split the archives into the ones a prune pass keeps and the ones it
/// deletes: at most `keep` archives remain, and every kept archive was
/// modified no earlier than every deleted one.
pub fn prune_plan(records: Vec<BackupRecord>, keep: usize) -> (r: (
    Vec<BackupRecord>,
    Vec<BackupRecord>,
))
    ensures
        r.0@.len() == if records@.len() < keep {
            records@.len() as int
        } else {
            keep as int
        },
        r.0@.to_multiset().add(r.1@.to_multiset()) =~= records@.to_multiset(),
        forall|a: int, b: int|
            0 <= a < r.0@.len() && 0 <= b < r.1@.len() ==> r.0@[a].mtime >= r.1@[b].mtime,
{
    broadcast use group_to_multiset_ensures;

    let ghost all = records@;
    let mut remaining = records;
    let mut kept: Vec<BackupRecord> = Vec::new();
    while kept.len() < keep && remaining.len() > 0
        invariant
            kept@.len() <= keep,
            kept@.len() + remaining@.len() == all.len(),
            kept@.len() < keep ==> kept@.len() + remaining@.len() == all.len(),
            kept@.to_multiset().add(remaining@.to_multiset()) =~= all.to_multiset(),
            forall|a: int, b: int|
                0 <= a < kept@.len() && 0 <= b < remaining@.len() ==> kept@[a].mtime
                    >= remaining@[b].mtime,
        decreases remaining@.len(),
    {
        let mut best: usize = 0;
        let mut bi: usize = 1;
        while bi < remaining.len()
            invariant
                best < remaining@.len(),
                bi <= remaining@.len(),
                remaining@.len() > 0,
                forall|j: int| 0 <= j < bi ==> remaining@[j].mtime <= remaining@[best as int].mtime,
            decreases remaining@.len() - bi,
        {
            if remaining[bi].mtime > remaining[best].mtime {
                best = bi;
            }
            bi = bi + 1;
        }
        let ghost pre_remaining = remaining@;
        let ghost pre_kept = kept@;
        let rec = remaining.remove(best);
        kept.push(rec);
        proof {
            broadcast use group_to_multiset_ensures;

            assert(pre_remaining.remove(best as int).to_multiset() =~= pre_remaining.to_multiset()
                .remove(pre_remaining[best as int]));
            assert(pre_kept.push(rec).to_multiset() =~= pre_kept.to_multiset().insert(rec));
            assert(kept@.to_multiset().add(remaining@.to_multiset()) =~= all.to_multiset());
            assert forall|a: int, b: int|
                0 <= a < kept@.len() && 0 <= b < remaining@.len() implies kept@[a].mtime
                >= remaining@[b].mtime by {
                if a < pre_kept.len() {
                    if b < best {
                        assert(remaining@[b] == pre_remaining[b]);
                    } else {
                        assert(remaining@[b] == pre_remaining[b + 1]);
                    }
                } else {
                    assert(kept@[a] == rec);
                    if b < best {
                        assert(remaining@[b] == pre_remaining[b]);
                    } else {
                        assert(remaining@[b] == pre_remaining[b + 1]);
                    }
                }
            }
        }
    }
    (kept, remaining)
}

/// The name of the archive written for `server` at timestamp `ts`.
pub fn backup_archive_name(server: &str, ts: &str) -> (r: String)
    ensures
        r@ == server@ + "_"@ + ts@ + ".zip"@,
{
    let mut name = crate::text::str_copy(server);
    name.append("_");
    name.append(ts);
    name.append(".zip");
    name
}

/// Relies on chrono's Local::now and DelayedFormat: the current local
/// time rendered as year, month, day, hour, minute and second separated
/// as in `2024-01-31_23-59-59`.  The value depends on the clock, so
/// nothing is promised of it.
#[verifier::external_body]
fn now_timestamp() -> String {
    chrono::Local::now().format("%Y-%m-%d_%H-%M-%S").to_string()
}

/// The name of a fresh archive for `server`, stamped with the current
/// local time.
pub fn create_backup_name(server: &str) -> (r: String)
    ensures
        exists|ts: Seq<char>| r@ == server@ + "_"@ + ts + ".zip"@,
{
    let ts = now_timestamp();
    let r = backup_archive_name(server, ts.as_str());
    proof {
        assert(r@ == server@ + "_"@ + ts@ + ".zip"@);
    }
    r
}

/// Whether a directory entry is transient state that a backup excludes.
pub fn is_transient_dir(name: &str) -> (r: bool)
    ensures
        r == (name@ == "logs"@ || name@ == "crash-reports"@ || name@ == "cache"@),
{
    str_eq(name, "logs") || str_eq(name, "crash-reports") || str_eq(name, "cache")
}

/// The loop's sleep in seconds for a configured interval in hours,
/// saturating instead of overflowing.
pub fn interval_sleep_secs(interval_hours: u64) -> (r: u64)
    ensures
        r == if interval_hours <= u64::MAX / 3600 {
            interval_hours * 3600
        } else {
            u64::MAX as int
        },
{
    if interval_hours <= u64::MAX / 3600 {
        proof {
            assert(interval_hours * 3600 <= (u64::MAX / 3600) * 3600) by (nonlinear_arith)
                requires
                    interval_hours <= u64::MAX / 3600,
            ;
        }
        interval_hours * 3600
    } else {
        u64::MAX
    }
}

} // verus!
