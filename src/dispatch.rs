use vstd::prelude::*;

verus! {

/// The most publishes of one batch that may be in flight at once.
pub const MAX_IN_FLIGHT: usize = 10;

/// Paces the publishes of one batch of `total` requests: they are initiated
/// in batch order, and a new one starts only while fewer than
/// `MAX_IN_FLIGHT` are in flight.
pub struct DispatchWindow {
    total: usize,
    started: usize,
    finished: usize,
}

impl DispatchWindow {
    pub closed spec fn spec_total(self) -> nat {
        self.total as nat
    }

    pub closed spec fn spec_started(self) -> nat {
        self.started as nat
    }

    pub closed spec fn spec_finished(self) -> nat {
        self.finished as nat
    }

    pub open spec fn spec_in_flight(self) -> int {
        self.spec_started() - self.spec_finished()
    }

    /// The window's bookkeeping is consistent: nothing finishes before it
    /// starts, nothing beyond the batch starts, and the cap holds.
    pub open spec fn wf(self) -> bool {
        &&& self.spec_finished() <= self.spec_started() <= self.spec_total()
        &&& self.spec_in_flight() <= MAX_IN_FLIGHT
    }

    /// A window over a batch of `total` requests, none started.
    pub fn new(total: usize) -> (r: DispatchWindow)
        ensures
            r.wf(),
            r.spec_total() == total,
            r.spec_started() == 0,
            r.spec_finished() == 0,
    {
        DispatchWindow { total, started: 0, finished: 0 }
    }

    /// Whether the next request of the batch may be initiated now.
    pub fn can_start(&self) -> (r: bool)
        ensures
            r == (self.spec_started() < self.spec_total() && self.spec_in_flight() < MAX_IN_FLIGHT),
    {
        self.started < self.total && (self.finished >= self.started || self.started - self.finished < MAX_IN_FLIGHT)
    }

    /// Initiates the next request; returns its position in the batch.
    pub fn start(&mut self) -> (index: usize)
        requires
            old(self).wf(),
            old(self).spec_started() < old(self).spec_total(),
            old(self).spec_in_flight() < MAX_IN_FLIGHT,
        ensures
            final(self).wf(),
            index == old(self).spec_started(),
            final(self).spec_started() == old(self).spec_started() + 1,
            final(self).spec_finished() == old(self).spec_finished(),
            final(self).spec_total() == old(self).spec_total(),
    {
        let index = self.started;
        self.started = self.started + 1;
        index
    }

    /// Records that one in-flight publish has completed.
    pub fn finish(&mut self)
        requires
            old(self).wf(),
            old(self).spec_in_flight() > 0,
        ensures
            final(self).wf(),
            final(self).spec_started() == old(self).spec_started(),
            final(self).spec_finished() == old(self).spec_finished() + 1,
            final(self).spec_total() == old(self).spec_total(),
    {
        self.finished = self.finished + 1;
    }

    /// How many publishes are in flight.
    pub fn in_flight(&self) -> (r: usize)
        requires
            self.wf(),
        ensures
            r == self.spec_in_flight(),
    {
        self.started - self.finished
    }

    /// Whether every request of the batch has been initiated and completed.
    pub fn is_done(&self) -> (r: bool)
        requires
            self.wf(),
        ensures
            r == (self.spec_finished() == self.spec_total()),
    {
        self.finished == self.total
    }
}

/// However a batch is driven through the window's operations, no more than
/// `MAX_IN_FLIGHT` publishes are ever in flight at once.
pub proof fn lemma_in_flight_bounded(w: DispatchWindow)
    requires
        w.wf(),
    ensures
        0 <= w.spec_in_flight() <= MAX_IN_FLIGHT,
{
}

} // verus!
