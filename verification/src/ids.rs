//! Identifiers of connections and sessions.
use vstd::prelude::*;
use vstd::string::*;

use crate::text;

verus! {

/// Identifies one accepted TCP connection. A client that reconnects gets a
/// fresh one.
#[derive(Debug, Clone, Copy, PartialEq, Eq, Structural, Hash)]
pub struct ConnId(pub u64);

/// Identifies one membership of a client in a network. It stays the same
/// across reconnects, until the session dies.
#[derive(Debug, Clone, Copy, PartialEq, Eq, Structural, Hash)]
pub struct SessionId(pub u64);

impl DeepView for ConnId {
    type V = ConnId;

    open spec fn deep_view(&self) -> ConnId {
        *self
    }
}

impl DeepView for SessionId {
    type V = SessionId;

    open spec fn deep_view(&self) -> SessionId {
        *self
    }
}

impl ConnId {
    /// A short label for people.
    pub fn to_text(&self) -> (r: String)
        ensures
            r@ == "conn#"@ + text::dec(self.0 as nat),
    {
        let n = text::dec_text(self.0);
        text::join2("conn#", n.as_str())
    }
}

impl SessionId {
    /// A short label for people.
    pub fn to_text(&self) -> (r: String)
        ensures
            r@ == "sid#"@ + text::dec(self.0 as nat),
    {
        let n = text::dec_text(self.0);
        text::join2("sid#", n.as_str())
    }
}

/// Hands out consecutive identifiers, shared between connections and
/// sessions. After the largest 64-bit number it starts over at 0.
#[derive(Debug)]
pub struct IdAllocator {
    next: u64,
}

/// The number after `n`.
pub open spec fn id_after(n: u64) -> u64 {
    if n == u64::MAX {
        0
    } else {
        (n + 1) as u64
    }
}

impl View for IdAllocator {
    type V = u64;

    /// The next number to hand out.
    closed spec fn view(&self) -> u64 {
        self.next
    }
}

impl IdAllocator {
    /// An allocator whose first identifier is `start`.
    pub fn starting_at(start: u64) -> (r: IdAllocator)
        ensures
            r@ == start,
    {
        IdAllocator { next: start }
    }

    fn bump(&mut self) -> (r: u64)
        ensures
            r == old(self)@,
            final(self)@ == id_after(old(self)@),
    {
        let n: u64 = self.next;
        self.next = if n == u64::MAX {
            0
        } else {
            n + 1
        };
        n
    }

    /// The next session identifier.
    pub fn next_session(&mut self) -> (r: SessionId)
        ensures
            r == SessionId(old(self)@),
            final(self)@ == id_after(old(self)@),
    {
        SessionId(self.bump())
    }

    /// The next connection identifier.
    pub fn next_conn(&mut self) -> (r: ConnId)
        ensures
            r == ConnId(old(self)@),
            final(self)@ == id_after(old(self)@),
    {
        ConnId(self.bump())
    }
}

impl Default for IdAllocator {
    fn default() -> (r: IdAllocator)
        ensures
            r@ == 0,
    {
        IdAllocator { next: 0 }
    }
}

/// The number handed out after `k` allocations.
pub open spec fn id_after_many(start: u64, k: nat) -> u64
    decreases k,
{
    if k == 0 {
        start
    } else {
        id_after(id_after_many(start, (k - 1) as nat))
    }
}

/// As long as the 64-bit range is not used up, the allocator counts up: the
/// identifier handed out after `k` others is `start + k`. Identifiers are
/// therefore strictly increasing, and none is handed out twice.
pub proof fn lemma_ids_count_up(start: u64, k: nat)
    requires
        start + k <= u64::MAX,
    ensures
        id_after_many(start, k) == start + k,
    decreases k,
{
    if k > 0 {
        lemma_ids_count_up(start, (k - 1) as nat);
    }
}

} // verus!
