//! Start/stop decisions, command routing and log capture for managed
//! processes.
//!
//! The supervisor owns the process registry, one log buffer per name, and
//! the per-name restart bookkeeping.  It performs no I/O itself: the
//! embedding application spawns processes, reads their output pipes and
//! writes their input pipes, and drives this state machine with the
//! outcomes.  A start runs as `start_precheck` (liveness gate), then the
//! spawn outside, then `complete_start` on success; a command as
//! `prepare_command` (returns the exact line to write), the pipe write
//! outside, then `record_command`; a stop as `begin_stop` (which removes
//! the entry and says whether a graceful shutdown line can be sent),
//! then a poll loop outside asking `stop_poll` after each probe.

use vstd::prelude::*;
use crate::crash::{crash_in_logs, detect_crash_in_logs};
use crate::errors::{SendError, StartError, StopError};
use crate::log_buffer::{last_k, LogBuffer, SERVER_LOG_CAPACITY};
use crate::name_map::NameMap;
use crate::registry::{ProcessHandle, ProcessRegistry};
use crate::text::str_copy;

verus! {

/// How often liveness is polled while waiting for a graceful exit.
pub const STOP_POLL_INTERVAL_MS: u64 = 500;

/// How long a stopping process is given before it is forcibly terminated.
pub const DEFAULT_GRACE_MS: u64 = 10_000;

/// How many trailing lines of a persisted log file are returned when no
/// lines are buffered in memory.
pub const FILE_TAIL_LINES: usize = 200;

/// The graceful shutdown line written to a stopping process.
pub const STOP_COMMAND: &'static str = "stop";

/// Per-name restart bookkeeping, kept independently of whether a process
/// is currently live.
#[derive(Clone, Copy, PartialEq, Eq, Structural)]
pub struct RestartPolicy {
    pub auto_restart: bool,
    pub crash_count: u32,
}

/// What a stop operation took out of the registry: enough to drive the
/// graceful-then-forced shutdown outside.
#[derive(Clone, Copy, PartialEq, Eq, Structural)]
pub struct StopTicket {
    /// The opaque handle id of the process to shut down.
    pub pid: u64,
    /// Whether an input pipe is open, so the graceful shutdown line can be
    /// sent before falling back to forced termination.
    pub send_stop: bool,
}

/// The next step of a stop poll loop.
#[derive(Clone, Copy, PartialEq, Eq, Structural, Debug)]
pub enum StopAction {
    /// The process has exited; the stop is complete.
    Done,
    /// Keep waiting and probe again after the poll interval.
    Wait,
    /// The grace period is over; terminate forcibly.
    Kill,
}

/// The line appended for an error-stream capture, distinguishing stream
/// origin inside the shared buffer.
pub open spec fn tagged_line(line: Seq<char>, from_err: bool) -> Seq<char> {
    if from_err {
        "[ERROR] "@ + line
    } else {
        line
    }
}

/// The synthetic line recording a sent command alongside the output.
pub open spec fn command_echo(command: Seq<char>) -> Seq<char> {
    "> "@ + command
}

/// How a capture step changes the log store: the named buffer gets `line`
/// appended under its capacity bound, every other buffer is untouched, and
/// a name without a buffer drops the line.
pub open spec fn append_effect(
    pre: Map<Seq<char>, LogBuffer>,
    post: Map<Seq<char>, LogBuffer>,
    name: Seq<char>,
    line: Seq<char>,
) -> bool {
    &&& (pre.contains_key(name) ==> {
        &&& post.contains_key(name)
        &&& post[name]@ =~= last_k(pre[name]@.push(line), SERVER_LOG_CAPACITY as int)
        &&& forall|k: Seq<char>|
            k != name ==> (#[trigger] post.contains_key(k)) == pre.contains_key(k) && (
            pre.contains_key(k) ==> post[k] == pre[k])
    })
    &&& (!pre.contains_key(name) ==> post == pre)
}

pub struct ProcessSupervisor {
    registry: ProcessRegistry,
    logs: NameMap<LogBuffer>,
    policy: NameMap<RestartPolicy>,
}

impl ProcessSupervisor {
    /// The registered processes, by name.
    pub closed spec fn procs(&self) -> Map<Seq<char>, ProcessHandle> {
        self.registry@
    }

    /// The kept log buffers, by name.
    pub closed spec fn logs(&self) -> Map<Seq<char>, LogBuffer> {
        self.logs@
    }

    /// The restart bookkeeping, by name.
    pub closed spec fn policy(&self) -> Map<Seq<char>, RestartPolicy> {
        self.policy@
    }

    pub closed spec fn wf(&self) -> bool {
        &&& self.registry.wf()
        &&& self.logs.wf()
        &&& self.policy.wf()
        &&& forall|k: Seq<char>| #[trigger] self.logs@.contains_key(k) ==> self.logs@[k].wf()
            && self.logs@[k].cap() == SERVER_LOG_CAPACITY
    }

    pub fn new() -> (r: ProcessSupervisor)
        ensures
            r.wf(),
            r.procs() =~= Map::<Seq<char>, ProcessHandle>::empty(),
            r.logs() =~= Map::<Seq<char>, LogBuffer>::empty(),
            r.policy() =~= Map::<Seq<char>, RestartPolicy>::empty(),
    {
        ProcessSupervisor {
            registry: ProcessRegistry::new(),
            logs: NameMap::new(),
            policy: NameMap::new(),
        }
    }

    /// The liveness gate of a start operation: record the probe outcome
    /// and refuse the start while a live process holds the name.  A probe
    /// that observed termination heals the registry, so a stale entry does
    /// not block a restart.
    pub fn start_precheck(&mut self, name: &str, probe_alive: bool) -> (r: Result<(), StartError>)
        requires
            old(self).wf(),
        ensures
            final(self).wf(),
            final(self).logs() == old(self).logs(),
            final(self).policy() == old(self).policy(),
            r is Err <==> (old(self).procs().contains_key(name@) && probe_alive),
            r matches Err(e) ==> (e matches StartError::AlreadyRunning) && final(self).procs()
                =~= old(self).procs(),
            r is Ok ==> final(self).procs() =~= old(self).procs().remove(name@),
    {
        if self.registry.note_probe(name, probe_alive) {
            Err(StartError::AlreadyRunning)
        } else {
            proof {
                if old(self).procs().contains_key(name@) && probe_alive {
                    assert(false);
                }
                if probe_alive {
                    assert(self.procs() =~= old(self).procs().remove(name@));
                }
            }
            Ok(())
        }
    }

    /// Register a process that was just spawned: allocate a fresh log
    /// buffer for the name (replacing any prior buffer) and record the
    /// handle.  A name that is still held is refused, never replaced.
    pub fn complete_start(&mut self, name: &str, pid: u64, has_input: bool) -> (r: Result<
        (),
        StartError,
    >)
        requires
            old(self).wf(),
        ensures
            final(self).wf(),
            final(self).policy() == old(self).policy(),
            r is Err <==> old(self).procs().contains_key(name@),
            r matches Err(e) ==> (e matches StartError::AlreadyRunning) && final(self).procs()
                =~= old(self).procs() && final(self).logs() == old(self).logs(),
            r is Ok ==> {
                &&& final(self).procs() =~= old(self).procs().insert(
                    name@,
                    (ProcessHandle { pid, has_input }),
                )
                &&& final(self).logs().contains_key(name@)
                &&& final(self).logs()[name@]@ =~= Seq::<Seq<char>>::empty()
                &&& forall|k: Seq<char>|
                    k != name@ ==> #[trigger] final(self).logs().contains_key(k) == old(self).logs().contains_key(k) && (old(self).logs().contains_key(k)
                        ==> final(self).logs()[k] == old(self).logs()[k])
            },
    {
        let fresh = LogBuffer::new(SERVER_LOG_CAPACITY);
        match self.registry.register(str_copy(name), ProcessHandle { pid, has_input }) {
            Ok(()) => {
                self.logs.insert(str_copy(name), fresh);
                Ok(())
            },
            Err(e) => Err(e),
        }
    }

    /// Capture one line of process output: tag error-stream lines and
    /// append to the name's buffer.  Output for a name whose buffer was
    /// cleared is dropped.
    #[verifier::rlimit(60)]
    pub fn on_output_line(&mut self, name: &str, line: &str, from_err: bool)
        requires
            old(self).wf(),
        ensures
            final(self).wf(),
            final(self).procs() == old(self).procs(),
            final(self).policy() == old(self).policy(),
            append_effect(
                old(self).logs(),
                final(self).logs(),
                name@,
                tagged_line(line@, from_err),
            ),
    {
        let tagged = if from_err {
            let mut t = str_copy("[ERROR] ");
            t.append(line);
            t
        } else {
            str_copy(line)
        };
        let ghost tv = tagged@;
        self.append_to_buffer(name, tagged);
        proof {
            assert(tv == tagged_line(line@, from_err));
        }
    }

    /// Append one already tagged line to the buffer held for `name`.
    fn append_to_buffer(&mut self, name: &str, line: String)
        requires
            old(self).wf(),
        ensures
            final(self).wf(),
            final(self).procs() == old(self).procs(),
            final(self).policy() == old(self).policy(),
            append_effect(old(self).logs(), final(self).logs(), name@, line@),
    {
        let ghost pre = self.logs();
        match self.logs.remove(name) {
            Some(mut buffer) => {
                proof {
                    assert(pre.contains_key(name@));
                    assert(pre[name@].wf() && pre[name@].cap() == SERVER_LOG_CAPACITY);
                }
                buffer.append(line);
                self.logs.insert(str_copy(name), buffer);
                proof {
                    assert(self.logs()[name@]@ =~= last_k(
                        pre[name@]@.push(line@),
                        SERVER_LOG_CAPACITY as int,
                    ));
                    assert forall|k: Seq<char>| #[trigger] self.logs().contains_key(k) implies
                        self.logs()[k].wf() && self.logs()[k].cap() == SERVER_LOG_CAPACITY by {
                        if k != name@ {
                            assert(pre.contains_key(k) && self.logs()[k] == pre[k]);
                        }
                    }
                    assert(append_effect(pre, self.logs(), name@, line@));
                }
            },
            None => {
                proof {
                    assert(self.logs() =~= pre);
                    assert(append_effect(pre, self.logs(), name@, line@));
                }
            },
        }
    }

    /// Decide whether a command can be sent to `name` and compute the
    /// exact line to write to its input pipe (the command followed by one
    /// newline).  A name with no registered process is `NotRunning`; a
    /// registered process without an input pipe is `NoInputChannel`.  This
    /// inspects in-memory state only and never blocks.
    pub fn prepare_command(&self, name: &str, command: &str) -> (r: Result<String, SendError>)
        requires
            self.wf(),
        ensures
            r matches Err(SendError::NotRunning) <==> !self.procs().contains_key(name@),
            r matches Err(SendError::NoInputChannel) <==> (self.procs().contains_key(name@)
                && !self.procs()[name@].has_input),
            r matches Ok(line) ==> self.procs().contains_key(name@)
                && self.procs()[name@].has_input && line@ == command@ + "\n"@,
            r is Ok <==> (self.procs().contains_key(name@) && self.procs()[name@].has_input),
    {
        match self.registry.lookup(name) {
            None => Err(SendError::NotRunning),
            Some(handle) => {
                if !handle.has_input {
                    Err(SendError::NoInputChannel)
                } else {
                    let mut line = str_copy(command);
                    line.append("\n");
                    Ok(line)
                }
            },
        }
    }

    /// Record a command that was successfully written to the process's
    /// input, so it shows in order alongside the captured output.
    pub fn record_command(&mut self, name: &str, command: &str)
        requires
            old(self).wf(),
        ensures
            final(self).wf(),
            final(self).procs() == old(self).procs(),
            final(self).policy() == old(self).policy(),
            append_effect(old(self).logs(), final(self).logs(), name@, command_echo(command@)),
    {
        let mut echo = str_copy("> ");
        echo.append(command);
        self.append_to_buffer(name, echo);
    }

    /// Take the name out of the registry and say how to shut the process
    /// down.  The entry is removed up front, so a second stop on the same
    /// name observes `NotFound`: stop is idempotent and never double-kills.
    pub fn begin_stop(&mut self, name: &str) -> (r: Result<StopTicket, StopError>)
        requires
            old(self).wf(),
        ensures
            final(self).wf(),
            final(self).logs() == old(self).logs(),
            final(self).policy() == old(self).policy(),
            final(self).procs() =~= old(self).procs().remove(name@),
            r is Err <==> !old(self).procs().contains_key(name@),
            r matches Err(e) ==> (e matches StopError::NotFound),
            r matches Ok(t) ==> old(self).procs().contains_key(name@) && t.pid == old(self).procs()[name@].pid && t.send_stop == old(self).procs()[name@].has_input,
    {
        match self.registry.remove(name) {
            Some(handle) => Ok(StopTicket { pid: handle.pid, send_stop: handle.has_input }),
            None => Err(StopError::NotFound),
        }
    }

    /// Record the outcome of a liveness probe for `name`: an observed exit
    /// removes the entry (self-healing).  Returns whether a registered
    /// process is still alive.
    pub fn note_probe(&mut self, name: &str, alive: bool) -> (r: bool)
        requires
            old(self).wf(),
        ensures
            final(self).wf(),
            final(self).logs() == old(self).logs(),
            final(self).policy() == old(self).policy(),
            r == (old(self).procs().contains_key(name@) && alive),
            final(self).procs() =~= if alive {
                old(self).procs()
            } else {
                old(self).procs().remove(name@)
            },
    {
        self.registry.note_probe(name, alive)
    }

    /// An immutable copy of the buffered lines for `name`, oldest first,
    /// or `None` when no buffer is held for the name.
    pub fn snapshot_logs(&self, name: &str) -> (r: Option<Vec<String>>)
        requires
            self.wf(),
        ensures
            match r {
                Some(lines) => self.logs().contains_key(name@) && lines@.map_values(
                    |l: String| l@,
                ) =~= self.logs()[name@]@,
                None => !self.logs().contains_key(name@),
            },
    {
        match self.logs.get(name) {
            Some(buffer) => Some(buffer.snapshot()),
            None => None,
        }
    }

    /// Drop the buffered lines for `name`.
    pub fn clear_logs(&mut self, name: &str)
        requires
            old(self).wf(),
        ensures
            final(self).wf(),
            final(self).procs() == old(self).procs(),
            final(self).policy() == old(self).policy(),
            final(self).logs() =~= old(self).logs().remove(name@),
    {
        let removed = self.logs.remove(name);
    }

    /// Whether the buffered lines for `name` currently look like a crash
    /// (keyword scan of the most recent lines); a name without a buffer is
    /// not flagged.
    pub fn detect_crash(&self, name: &str) -> (r: bool)
        requires
            self.wf(),
        ensures
            r == (self.logs().contains_key(name@) && crash_in_logs(self.logs()[name@]@)),
    {
        match self.snapshot_logs(name) {
            Some(lines) => detect_crash_in_logs(&lines),
            None => false,
        }
    }

    /// Switch automatic restart for `name` on or off, keeping its crash
    /// count.
    pub fn set_auto_restart(&mut self, name: &str, enabled: bool)
        requires
            old(self).wf(),
        ensures
            final(self).wf(),
            final(self).procs() == old(self).procs(),
            final(self).logs() == old(self).logs(),
            final(self).policy().contains_key(name@),
            final(self).policy()[name@].auto_restart == enabled,
            final(self).policy()[name@].crash_count == if old(self).policy().contains_key(name@) {
                old(self).policy()[name@].crash_count
            } else {
                0u32
            },
            forall|k: Seq<char>|
                k != name@ ==> #[trigger] final(self).policy().contains_key(k) == old(self).policy().contains_key(k) && (old(self).policy().contains_key(k) ==> final(self).policy()[k] == old(self).policy()[k]),
    {
        let count = match self.policy.get(name) {
            Some(p) => p.crash_count,
            None => 0,
        };
        self.policy.insert(str_copy(name), RestartPolicy { auto_restart: enabled, crash_count: count });
    }

    /// Count one observed crash for `name` (saturating), keeping its
    /// restart flag.
    pub fn note_crash(&mut self, name: &str)
        requires
            old(self).wf(),
        ensures
            final(self).wf(),
            final(self).procs() == old(self).procs(),
            final(self).logs() == old(self).logs(),
            final(self).policy().contains_key(name@),
            final(self).policy()[name@].crash_count == if old(self).policy().contains_key(name@) {
                if old(self).policy()[name@].crash_count < u32::MAX {
                    old(self).policy()[name@].crash_count + 1
                } else {
                    u32::MAX as int
                }
            } else {
                1int
            },
            final(self).policy()[name@].auto_restart == (old(self).policy().contains_key(name@)
                && old(self).policy()[name@].auto_restart),
    {
        let (enabled, count) = match self.policy.get(name) {
            Some(p) => (p.auto_restart, p.crash_count),
            None => (false, 0),
        };
        let bumped = if count < u32::MAX {
            count + 1
        } else {
            count
        };
        self.policy.insert(str_copy(name), RestartPolicy { auto_restart: enabled, crash_count: bumped });
    }

    /// The restart bookkeeping recorded for `name`.
    pub fn restart_policy(&self, name: &str) -> (r: Option<RestartPolicy>)
        requires
            self.wf(),
        ensures
            match r {
                Some(p) => self.policy().contains_key(name@) && p == self.policy()[name@],
                None => !self.policy().contains_key(name@),
            },
    {
        match self.policy.get(name) {
            Some(p) => Some(*p),
            None => None,
        }
    }
}

/// Decide the next step of a stop's poll loop from the probe outcome and
/// the time spent waiting: an observed exit completes the stop, an
/// exhausted grace period forces termination, anything else keeps waiting.
pub fn stop_poll(exited: bool, elapsed_ms: u64, grace_ms: u64) -> (r: StopAction)
    ensures
        r == (if exited {
            StopAction::Done
        } else if elapsed_ms > grace_ms {
            StopAction::Kill
        } else {
            StopAction::Wait
        }),
{
    if exited {
        StopAction::Done
    } else if elapsed_ms > grace_ms {
        StopAction::Kill
    } else {
        StopAction::Wait
    }
}

/// How many times removing a server's directory is attempted before the
/// failure is surfaced to the user.
pub const DELETE_RETRY_MAX: u32 = 5;

/// The pause between directory-removal attempts.
pub const DELETE_RETRY_BACKOFF_MS: u64 = 1000;

/// The next step of the directory-removal retry loop.
#[derive(Clone, Copy, PartialEq, Eq, Structural, Debug)]
pub enum RetryAction {
    /// The removal succeeded.
    Done,
    /// Pause for the backoff and try again.
    Retry,
    /// The retry budget is exhausted; surface the failure, naming the
    /// path and suggesting manual cleanup.
    GiveUp,
}

/// Decide the next step after a directory-removal attempt, counted from
/// one: success ends the loop, the budget bounds the attempts.
pub fn delete_retry_decision(attempt: u32, succeeded: bool) -> (r: RetryAction)
    ensures
        r == (if succeeded {
            RetryAction::Done
        } else if attempt >= DELETE_RETRY_MAX {
            RetryAction::GiveUp
        } else {
            RetryAction::Retry
        }),
{
    if succeeded {
        RetryAction::Done
    } else if attempt >= DELETE_RETRY_MAX {
        RetryAction::GiveUp
    } else {
        RetryAction::Retry
    }
}

/// Merge the in-memory snapshot for a name with the tail of its persisted
/// log file: the file lines beyond what is already represented in memory
/// (by count) follow the snapshot; with nothing in memory, the most recent
/// `FILE_TAIL_LINES` lines of the file stand alone.
pub fn merge_log_snapshot(memory: &Vec<String>, file_lines: &Vec<String>) -> (r: Vec<String>)
    ensures
        memory@.len() > 0 ==> r@.map_values(|l: String| l@) =~= memory@.map_values(|l: String| l@)
            + (if file_lines@.len() > memory@.len() {
            file_lines@.map_values(|l: String| l@).subrange(
                memory@.len() as int,
                file_lines@.len() as int,
            )
        } else {
            Seq::<Seq<char>>::empty()
        }),
        memory@.len() == 0 ==> r@.map_values(|l: String| l@) =~= last_k(
            file_lines@.map_values(|l: String| l@),
            FILE_TAIL_LINES as int,
        ),
{
    let mut r: Vec<String> = Vec::new();
    if memory.len() > 0 {
        let mut i: usize = 0;
        while i < memory.len()
            invariant
                i <= memory@.len(),
                r@.len() == i,
                forall|j: int| 0 <= j < i ==> r@[j]@ == memory@[j]@,
            decreases memory@.len() - i,
        {
            r.push(memory[i].clone());
            i = i + 1;
        }
        let mut j: usize = memory.len();
        while j < file_lines.len()
            invariant
                memory@.len() <= j <= file_lines@.len() || (j == memory@.len()
                    && file_lines@.len() <= memory@.len()),
                r@.len() == memory@.len() + j - memory@.len(),
                r@.len() == j,
                forall|k: int| 0 <= k < memory@.len() ==> r@[k]@ == memory@[k]@,
                forall|k: int| memory@.len() <= k < j ==> r@[k]@ == file_lines@[k]@,
            decreases file_lines@.len() - j,
        {
            r.push(file_lines[j].clone());
            j = j + 1;
        }
    } else {
        let len = file_lines.len();
        let start = if len > FILE_TAIL_LINES {
            len - FILE_TAIL_LINES
        } else {
            0
        };
        let mut i: usize = start;
        while i < len
            invariant
                start <= i <= len,
                len == file_lines@.len(),
                r@.len() == i - start,
                forall|j: int| 0 <= j < i - start ==> r@[j]@ == file_lines@[start + j]@,
            decreases len - i,
        {
            r.push(file_lines[i].clone());
            i = i + 1;
        }
    }
    proof {
        if memory@.len() > 0 {
            assert(r@.map_values(|l: String| l@) =~= memory@.map_values(|l: String| l@) + (
            if file_lines@.len() > memory@.len() {
                file_lines@.map_values(|l: String| l@).subrange(
                    memory@.len() as int,
                    file_lines@.len() as int,
                )
            } else {
                Seq::<Seq<char>>::empty()
            }));
        } else {
            assert(r@.map_values(|l: String| l@) =~= last_k(
                file_lines@.map_values(|l: String| l@),
                FILE_TAIL_LINES as int,
            ));
        }
    }
    r
}

/// Stopping twice in sequence yields success then `NotFound`: the first
/// stop removes the entry, after which the name is no longer held, so the
/// second is refused without touching any process.
pub proof fn lemma_stop_idempotent(m: Map<Seq<char>, ProcessHandle>, n: Seq<char>)
    requires
        m.contains_key(n),
    ensures
        !m.remove(n).contains_key(n),
{
}

} // verus!
