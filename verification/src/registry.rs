//! The shared map from logical server name to its running process.
//!
//! The registry is the single source of truth for which names hold a live
//! process.  A name is registered when a start operation has spawned the
//! process and is removed by a stop operation or by a liveness probe that
//! observed natural termination (the registry is self-healing).  It never
//! holds two entries for one name, so at most one process is live per name.

use vstd::prelude::*;
use crate::errors::StartError;
use crate::name_map::NameMap;

verus! {

/// What the registry keeps of a running process: an opaque handle id
/// assigned by the embedding application, and whether an input pipe to the
/// process's standard input is open.
#[derive(Clone, Copy, PartialEq, Eq, Structural)]
pub struct ProcessHandle {
    pub pid: u64,
    pub has_input: bool,
}

/// Map from logical name to its live process handle.
pub struct ProcessRegistry {
    procs: NameMap<ProcessHandle>,
}

impl ProcessRegistry {
    /// The registered processes, by name.
    pub closed spec fn view(&self) -> Map<Seq<char>, ProcessHandle> {
        self.procs@
    }

    pub closed spec fn wf(&self) -> bool {
        self.procs.wf()
    }

    pub fn new() -> (r: ProcessRegistry)
        ensures
            r.wf(),
            r@ =~= Map::<Seq<char>, ProcessHandle>::empty(),
    {
        ProcessRegistry { procs: NameMap::new() }
    }

    /// Register a freshly spawned process under `name`.  A name that is
    /// already held is refused, never silently replaced.
    pub fn register(&mut self, name: String, handle: ProcessHandle) -> (r: Result<(), StartError>)
        requires
            old(self).wf(),
        ensures
            final(self).wf(),
            match r {
                Ok(()) => !old(self)@.contains_key(name@) && final(self)@ =~= old(self)@.insert(
                    name@,
                    handle,
                ),
                Err(e) => old(self)@.contains_key(name@) && final(self)@ =~= old(self)@ && (e
                    matches StartError::AlreadyRunning),
            },
    {
        if self.procs.contains(name.as_str()) {
            Err(StartError::AlreadyRunning)
        } else {
            self.procs.insert(name, handle);
            Ok(())
        }
    }

    /// The handle registered under `name`, if any.
    pub fn lookup(&self, name: &str) -> (r: Option<ProcessHandle>)
        requires
            self.wf(),
        ensures
            match r {
                Some(h) => self@.contains_key(name@) && h == self@[name@],
                None => !self@.contains_key(name@),
            },
    {
        match self.procs.get(name) {
            Some(h) => Some(*h),
            None => None,
        }
    }

    /// Remove and return the entry under `name`; removing an absent name
    /// changes nothing.
    pub fn remove(&mut self, name: &str) -> (r: Option<ProcessHandle>)
        requires
            old(self).wf(),
        ensures
            final(self).wf(),
            final(self)@ =~= old(self)@.remove(name@),
            match r {
                Some(h) => old(self)@.contains_key(name@) && h == old(self)@[name@],
                None => !old(self)@.contains_key(name@),
            },
    {
        self.procs.remove(name)
    }

    /// Record the outcome of a non-blocking liveness probe for `name`.
    /// A probe that observed termination removes the entry as a side
    /// effect.  Returns whether a registered process is (still) alive.
    pub fn note_probe(&mut self, name: &str, alive: bool) -> (r: bool)
        requires
            old(self).wf(),
        ensures
            final(self).wf(),
            r == (old(self)@.contains_key(name@) && alive),
            final(self)@ =~= if alive {
                old(self)@
            } else {
                old(self)@.remove(name@)
            },
    {
        if alive {
            self.procs.contains(name)
        } else {
            let removed = self.procs.remove(name);
            false
        }
    }

    /// How many processes are registered.
    pub closed spec fn spec_len(&self) -> nat {
        self.procs.spec_len()
    }

    /// The names of all registered processes, each exactly once.
    pub fn names(&self) -> (r: Vec<String>)
        requires
            self.wf(),
        ensures
            r@.len() == self.spec_len(),
            forall|i: int, j: int| 0 <= i < j < r@.len() ==> r@[i]@ != r@[j]@,
            forall|i: int| 0 <= i < r@.len() ==> self@.contains_key(#[trigger] r@[i]@),
            forall|k: Seq<char>| #[trigger] self@.contains_key(k) ==> exists|i: int|
                0 <= i < r@.len() && r@[i]@ == k,
    {
        self.procs.names()
    }
}

/// A successful start is possible exactly while the name is free.
pub open spec fn register_ok(m: Map<Seq<char>, ProcessHandle>, n: Seq<char>) -> bool {
    !m.contains_key(n)
}

/// Under any sequence of starts and stops on one name, at most one process
/// is ever live under that name: once a start has registered the name, a
/// second registration is refused until a stop (or an observed exit)
/// removes the entry, after which a start is possible again.
pub proof fn lemma_no_double_register(m: Map<Seq<char>, ProcessHandle>, n: Seq<char>, h: ProcessHandle)
    requires
        register_ok(m, n),
    ensures
        !register_ok(m.insert(n, h), n),
        register_ok(m.insert(n, h).remove(n), n),
{
}

} // verus!
