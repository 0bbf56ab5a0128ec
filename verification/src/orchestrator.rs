//! Bounded-parallelism scheduling.
//!
//! An [`Orchestrator`] decides which identifier is admitted next and keeps
//! the number of items concurrently in flight at or below the configured
//! width. The driver alternates [`Orchestrator::try_admit`] (fill free
//! slots) with [`Orchestrator::complete`] (record one finished item's
//! outcome, freeing its slot) until [`Orchestrator::is_done`]. One item's
//! outcome never stops the rest: every identifier is admitted exactly once
//! and every admitted item's outcome is collected.

use vstd::prelude::*;
use crate::retry::DownloadOutcome;

verus! {

/// Scheduling state for one batch run.
pub struct Orchestrator {
    /// The identifiers, in input order; `ids[..next]` have been admitted.
    pub ids: Vec<String>,
    /// How many identifiers have been admitted so far.
    pub next: usize,
    /// Admitted items whose outcome is not yet recorded.
    pub in_flight: usize,
    /// Most items permitted in flight at once.
    pub width: usize,
    /// Recorded outcomes, in completion order.
    pub outcomes: Vec<DownloadOutcome>,
}

impl Orchestrator {
    /// Holds of every state the methods can produce.
    pub open spec fn wf(&self) -> bool {
        &&& self.width >= 1
        &&& self.in_flight <= self.width
        &&& self.next <= self.ids.len()
        &&& self.in_flight <= self.next
        &&& self.outcomes.len() + self.in_flight == self.next
    }

    /// A fresh run over `ids` with parallelism width `width`.
    pub fn new(ids: Vec<String>, width: usize) -> (r: Orchestrator)
        requires
            width >= 1,
        ensures
            r.wf(),
            r.ids == ids,
            r.next == 0,
            r.in_flight == 0,
            r.width == width,
            r.outcomes@ =~= Seq::<DownloadOutcome>::empty(),
    {
        Orchestrator { ids, next: 0, in_flight: 0, width, outcomes: Vec::new() }
    }

    /// Admits the next pending identifier when a slot is free.
    ///
    /// Returns the admitted identifier's position and value exactly when an
    /// identifier is pending and fewer than `width` items are in flight;
    /// otherwise changes nothing.
    pub fn try_admit(&mut self) -> (r: Option<(usize, String)>)
        requires
            old(self).wf(),
        ensures
            final(self).wf(),
            r is Some <==> (old(self).in_flight < old(self).width
                && old(self).next < old(self).ids.len()),
            r matches Some(p) ==> {
                &&& p.0 == old(self).next
                &&& p.1@ == old(self).ids@[old(self).next as int]@
                &&& final(self).next == old(self).next + 1
                &&& final(self).in_flight == old(self).in_flight + 1
            },
            r is None ==> *final(self) == *old(self),
            final(self).ids == old(self).ids,
            final(self).width == old(self).width,
            final(self).outcomes == old(self).outcomes,
    {
        if self.in_flight < self.width && self.next < self.ids.len() {
            let idx = self.next;
            let id = self.ids[idx].clone();
            self.next = self.next + 1;
            self.in_flight = self.in_flight + 1;
            Some((idx, id))
        } else {
            None
        }
    }

    /// Records one in-flight item's terminal outcome, freeing its slot.
    pub fn complete(&mut self, outcome: DownloadOutcome)
        requires
            old(self).wf(),
            old(self).in_flight >= 1,
        ensures
            final(self).wf(),
            final(self).in_flight == old(self).in_flight - 1,
            final(self).outcomes@ == old(self).outcomes@.push(outcome),
            final(self).ids == old(self).ids,
            final(self).next == old(self).next,
            final(self).width == old(self).width,
    {
        self.in_flight = self.in_flight - 1;
        self.outcomes.push(outcome);
    }

    /// True once every identifier was admitted and every outcome recorded.
    pub fn is_done(&self) -> (r: bool)
        ensures
            r == (self.next == self.ids.len() && self.in_flight == 0),
    {
        self.next == self.ids.len() && self.in_flight == 0
    }

    /// Items currently in flight.
    pub fn in_flight(&self) -> (r: usize)
        ensures
            r == self.in_flight,
    {
        self.in_flight
    }

    /// The recorded outcomes so far, in completion order.
    pub fn outcomes(&self) -> (r: &Vec<DownloadOutcome>)
        ensures
            r == &self.outcomes,
    {
        &self.outcomes
    }
}

/// Law: a run never holds more items in flight than the smaller of its
/// width and its identifier count, in every reachable state.
pub proof fn lemma_in_flight_bounded(o: Orchestrator)
    requires
        o.wf(),
    ensures
        o.in_flight <= o.width,
        o.in_flight <= o.ids.len(),
{
}

/// Law: a finished run has recorded exactly one outcome per identifier,
/// so no item's failure can have halted the batch.
pub proof fn lemma_every_item_completes(o: Orchestrator)
    requires
        o.wf(),
        o.next == o.ids.len(),
        o.in_flight == 0,
    ensures
        o.outcomes.len() == o.ids.len(),
{
}

} // verus!
