//! Supervision state for the single long-lived tunneling tool.
//!
//! One instance of the tool runs at a time; its output lines feed a
//! bounded scrollback and are scanned for a tunnel address as they
//! arrive.  The first address found is cached and handed out instantly;
//! stopping the tool clears the cache.  Spawning, OS-wide process
//! enumeration and killing by name are the embedding application's
//! business.

use vstd::prelude::*;
use crate::detector::{detect_tunnel_url, is_first_config_capture, some_config_matches, ConfigText};
use crate::errors::StartError;
use crate::log_buffer::{last_k, LogBuffer, TUNNEL_LOG_CAPACITY};
use crate::text::{lines_of, str_copy};
use crate::tunnel::{
    detect_in_text, is_first_line_capture, is_text_capture, some_line_matches, text_matches,
};

verus! {

pub struct PlayitSupervisor {
    running_pid: Option<u64>,
    tunnel_url: Option<String>,
    logs: LogBuffer,
}

impl PlayitSupervisor {
    /// The opaque handle id of the running tool, if one was started here.
    pub closed spec fn pid(&self) -> Option<u64> {
        self.running_pid
    }

    /// The cached tunnel address.
    pub closed spec fn url(&self) -> Option<Seq<char>> {
        match self.tunnel_url {
            Some(u) => Some(u@),
            None => None,
        }
    }

    /// The buffered output lines, oldest first.
    pub closed spec fn logs(&self) -> Seq<Seq<char>> {
        self.logs@
    }

    pub closed spec fn wf(&self) -> bool {
        self.logs.wf() && self.logs.cap() == TUNNEL_LOG_CAPACITY
    }

    pub fn new() -> (r: PlayitSupervisor)
        ensures
            r.wf(),
            r.pid() is None,
            r.url() is None,
            r.logs() =~= Seq::<Seq<char>>::empty(),
    {
        PlayitSupervisor {
            running_pid: None,
            tunnel_url: None,
            logs: LogBuffer::new(TUNNEL_LOG_CAPACITY),
        }
    }

    /// The liveness gate of a start: the tool may have been spawned
    /// outside this supervisor, so liveness is what OS-wide process
    /// enumeration reported.  A running tool refuses a second start.
    pub fn begin_start(&mut self, os_running: bool) -> (r: Result<(), StartError>)
        requires
            old(self).wf(),
        ensures
            final(self).wf(),
            *final(self) == *old(self),
            r is Err <==> os_running,
            r matches Err(e) ==> (e matches StartError::AlreadyRunning),
    {
        if os_running {
            Err(StartError::AlreadyRunning)
        } else {
            Ok(())
        }
    }

    /// Record the handle of a tool that was just spawned.
    pub fn complete_start(&mut self, pid: u64)
        requires
            old(self).wf(),
        ensures
            final(self).wf(),
            final(self).pid() == Some(pid),
            final(self).url() == old(self).url(),
            final(self).logs() == old(self).logs(),
    {
        self.running_pid = Some(pid);
    }

    /// Capture one line of the tool's output: append it to the
    /// scrollback and, while no address is cached yet, scan the line and
    /// cache the first address it yields.
    pub fn on_line(&mut self, line: &str)
        requires
            old(self).wf(),
        ensures
            final(self).wf(),
            final(self).pid() == old(self).pid(),
            final(self).logs() =~= last_k(
                old(self).logs().push(line@),
                TUNNEL_LOG_CAPACITY as int,
            ),
            old(self).url() matches Some(u) ==> final(self).url() == Some(u),
            old(self).url() is None && text_matches(line@) ==> (final(self).url() matches Some(u)
                && is_text_capture(line@, u)),
            old(self).url() is None && !text_matches(line@) ==> final(self).url() is None,
    {
        self.logs.append(str_copy(line));
        if self.tunnel_url.is_none() {
            match detect_in_text(line) {
                Some(u) => {
                    self.tunnel_url = Some(u);
                },
                None => {},
            }
        }
    }

    /// Stop the tool: forget the handle and clear the cached address.
    /// The scrollback is kept for later inspection.
    pub fn stop(&mut self)
        requires
            old(self).wf(),
        ensures
            final(self).wf(),
            final(self).pid() is None,
            final(self).url() is None,
            final(self).logs() == old(self).logs(),
    {
        self.running_pid = None;
        self.tunnel_url = None;
    }

    /// The cached tunnel address, if any.
    pub fn tunnel_url(&self) -> (r: Option<String>)
        ensures
            match r {
                Some(u) => self.url() == Some(u@),
                None => self.url() is None,
            },
    {
        match &self.tunnel_url {
            Some(u) => Some(u.clone()),
            None => None,
        }
    }

    /// Cache an address given by the caller, overriding any earlier one.
    pub fn set_tunnel_url(&mut self, url: String)
        requires
            old(self).wf(),
        ensures
            final(self).wf(),
            final(self).pid() == old(self).pid(),
            final(self).logs() == old(self).logs(),
            final(self).url() == Some(url@),
    {
        self.tunnel_url = Some(url);
    }

    /// An immutable copy of the buffered lines, oldest first.
    pub fn snapshot_logs(&self) -> (r: Vec<String>)
        ensures
            lines_of(r@) =~= self.logs(),
    {
        self.logs.snapshot()
    }

    /// Run the full source-priority search (cache, scrollback, the given
    /// configuration texts, the given recent-file texts), cache the first
    /// address found and return it: the capture of the first matching
    /// scrollback line, else of the first matching configuration text,
    /// else of the first matching recent text.
    pub fn detect(&mut self, configs: &Vec<ConfigText>, recents: &Vec<String>) -> (r: Option<
        String,
    >)
        requires
            old(self).wf(),
        ensures
            final(self).wf(),
            final(self).pid() == old(self).pid(),
            final(self).logs() == old(self).logs(),
            old(self).url() matches Some(c) ==> (r matches Some(u) && u@ == c),
            (old(self).url() is None && some_line_matches(old(self).logs())) ==> (r matches Some(u)
                && is_first_line_capture(old(self).logs(), u@)),
            (old(self).url() is None && !some_line_matches(old(self).logs())
                && some_config_matches(configs@)) ==> (r matches Some(u)
                && is_first_config_capture(configs@, u@)),
            (old(self).url() is None && !some_line_matches(old(self).logs())
                && !some_config_matches(configs@) && some_line_matches(lines_of(recents@))) ==> (
            r matches Some(u) && is_first_line_capture(lines_of(recents@), u@)),
            r matches Some(u) ==> final(self).url() == Some(u@),
            r is None ==> (old(self).url() is None && final(self).url() is None
                && !some_line_matches(old(self).logs()) && !some_config_matches(configs@)
                && !some_line_matches(lines_of(recents@))),
    {
        let scrollback = self.logs.snapshot();
        proof {
            assert(lines_of(scrollback@) =~= old(self).logs());
        }
        let found = detect_tunnel_url(&self.tunnel_url, &scrollback, configs, recents);
        match found {
            Some(u) => {
                let keep = str_copy(u.as_str());
                self.tunnel_url = Some(u);
                Some(keep)
            },
            None => None,
        }
    }
}

} // verus!
