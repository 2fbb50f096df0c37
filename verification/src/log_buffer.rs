//! Bounded, ordered sequence of log lines with FIFO eviction.
//!
//! One buffer is kept per managed process.  Lines are appended at the back;
//! once the fixed capacity is reached the oldest line is evicted first, so
//! the buffer always holds the most recent lines in their original order.

use vstd::prelude::*;

verus! {

/// Default capacity of the per-server log buffer.
pub const SERVER_LOG_CAPACITY: usize = 500;

/// Default capacity of the tunnel tool's log buffer.
pub const TUNNEL_LOG_CAPACITY: usize = 100;

/// The suffix of `s` of length `k`, or all of `s` when it is shorter.
pub open spec fn last_k<A>(s: Seq<A>, k: int) -> Seq<A> {
    if s.len() <= k {
        s
    } else {
        s.subrange(s.len() - k, s.len() as int)
    }
}

/// Evicting after each single append reaches the same lines as bounding the
/// whole history at the end: pushing one line onto an already bounded
/// history and bounding again is bounding the unbounded history plus that
/// line.
pub proof fn lemma_last_k_push<A>(s: Seq<A>, k: int, x: A)
    requires
        0 < k,
    ensures
        last_k(last_k(s, k).push(x), k) =~= last_k(s.push(x), k),
{
    if s.len() > k {
        assert(last_k(s, k) =~= s.subrange(s.len() - k, s.len() as int));
        assert(last_k(last_k(s, k).push(x), k) =~= last_k(s.push(x), k));
    }
}

/// Appending more lines than the capacity bound always leaves exactly
/// `cap` lines: the most recent ones, in their original relative order.
pub proof fn lemma_overflow_keeps_capacity_most_recent<A>(held: Seq<A>, incoming: Seq<A>, cap: int)
    requires
        0 < cap,
        held.len() + incoming.len() >= cap,
    ensures
        last_k(held + incoming, cap).len() == cap,
        forall|i: int|
            0 <= i < cap ==> last_k(held + incoming, cap)[i] == (held + incoming)[held.len()
                + incoming.len() - cap + i],
{
}

/// A bounded, append-only-with-eviction sequence of text lines.
pub struct LogBuffer {
    lines: Vec<String>,
    capacity: usize,
}

impl LogBuffer {
    /// The lines currently held, oldest first.
    pub closed spec fn view(&self) -> Seq<Seq<char>> {
        self.lines@.map_values(|l: String| l@)
    }

    /// The fixed capacity bound.
    pub closed spec fn cap(&self) -> nat {
        self.capacity as nat
    }

    /// A buffer is well formed when it holds at most `cap` lines and the
    /// bound itself is positive.
    pub open spec fn wf(&self) -> bool {
        0 < self.cap() && self@.len() <= self.cap()
    }

    pub fn new(capacity: usize) -> (r: LogBuffer)
        requires
            0 < capacity,
        ensures
            r.wf(),
            r@ =~= Seq::<Seq<char>>::empty(),
            r.cap() == capacity,
    {
        LogBuffer { lines: Vec::new(), capacity }
    }

    /// How many lines are held.
    pub fn len(&self) -> (n: usize)
        ensures
            n == self@.len(),
    {
        self.lines.len()
    }

    /// Append one line at the back, evicting the oldest line first when the
    /// buffer is full.
    pub fn append(&mut self, line: String)
        requires
            old(self).wf(),
        ensures
            final(self).wf(),
            final(self).cap() == old(self).cap(),
            final(self)@ =~= last_k(old(self)@.push(line@), old(self).cap() as int),
    {
        if self.lines.len() == self.capacity {
            self.lines.remove(0);
        }
        self.lines.push(line);
        proof {
            assert(self@ =~= last_k(old(self)@.push(line@), old(self).cap() as int));
        }
    }

    /// Append every line of `lines` in order.  However many lines come in,
    /// at most `cap` remain: the most recent ones, in their original
    /// relative order.
    pub fn append_all(&mut self, lines: &Vec<String>)
        requires
            old(self).wf(),
        ensures
            final(self).wf(),
            final(self).cap() == old(self).cap(),
            final(self)@ =~= last_k(
                old(self)@ + lines@.map_values(|l: String| l@),
                old(self).cap() as int,
            ),
    {
        let ghost orig = self@;
        let ghost cap = self.cap() as int;
        let ghost incoming = lines@.map_values(|l: String| l@);
        let mut i: usize = 0;
        while i < lines.len()
            invariant
                i <= lines@.len(),
                incoming == lines@.map_values(|l: String| l@),
                self.wf(),
                self.cap() as int == cap,
                0 < cap,
                self@ =~= last_k(orig + incoming.subrange(0, i as int), cap),
            decreases lines@.len() - i,
        {
            let ghost sofar = orig + incoming.subrange(0, i as int);
            self.append(lines[i].clone());
            proof {
                lemma_last_k_push(sofar, cap, incoming[i as int]);
                assert(sofar.push(incoming[i as int]) =~= orig + incoming.subrange(0, i + 1));
            }
            i = i + 1;
        }
        proof {
            assert(incoming.subrange(0, incoming.len() as int) =~= incoming);
        }
    }

    /// An immutable copy of the held lines, oldest first.
    pub fn snapshot(&self) -> (r: Vec<String>)
        ensures
            r@.map_values(|l: String| l@) =~= self@,
    {
        let mut r: Vec<String> = Vec::new();
        let mut i: usize = 0;
        while i < self.lines.len()
            invariant
                i <= self.lines@.len(),
                r@.len() == i,
                forall|j: int| 0 <= j < i ==> r@[j]@ == self.lines@[j]@,
            decreases self.lines@.len() - i,
        {
            r.push(self.lines[i].clone());
            i = i + 1;
        }
        proof {
            assert(r@.map_values(|l: String| l@) =~= self@);
        }
        r
    }
}

} // verus!
