//! The per-worker state machine. A worker loops through claiming a port,
//! probing it, and reporting a discovery when the probe found the port open,
//! until the distributor is exhausted. The probe itself is a network call made
//! outside this crate; here it appears only as its outcome.

use vstd::prelude::*;

use crate::distributor::Distributor;
use crate::service::get_common_service_name;
use crate::service::spec_service_name;

verus! {

/// What a single probe of one port found. Any failure to connect within the
/// timeout — refused, timed out, unreachable — counts uniformly as `Closed`.
#[derive(Clone, Copy, PartialEq, Eq, Structural, Debug)]
pub enum ProbeOutcome {
    Open,
    Closed,
}

/// One worker's position in its claim / probe / report loop.
#[derive(Clone, Copy, PartialEq, Eq, Structural, Debug)]
pub enum WorkerState {
    /// About to ask the distributor for the next port.
    Claiming,
    /// Holds a claimed port and is about to probe it.
    Probing { port: u16 },
    /// Knows the probe's outcome and is about to report it.
    Reporting { port: u16, outcome: ProbeOutcome },
    /// The range is exhausted; the worker stops.
    Done,
}

/// A report that a port was found open, with the best-effort service name.
#[derive(Clone, PartialEq, Eq, Debug)]
pub struct Discovery {
    pub port: u16,
    pub service: String,
}

impl Discovery {
    /// The record a worker emits for an open port: that port together with its
    /// service-table name.
    pub open spec fn is_discovery_of(self, port: u16) -> bool {
        &&& self.port == port
        &&& self.service@ == spec_service_name(port)
    }
}

impl WorkerState {
    /// From `Claiming`: ask the distributor for a port. An answer moves the
    /// worker to `Probing` that port; exhaustion moves it to `Done`.
    pub fn claim_transition(self, dist: &mut Distributor) -> (next: WorkerState)
        requires
            self is Claiming,
        ensures
            final(dist).end == old(dist).end,
            old(dist).is_exhausted() ==> {
                &&& next == WorkerState::Done
                &&& *final(dist) == *old(dist)
            },
            !old(dist).is_exhausted() ==> {
                &&& next == (WorkerState::Probing { port: old(dist).remaining()[0] })
                &&& final(dist).remaining() =~= old(dist).remaining().drop_first()
                &&& final(dist).cursor == old(dist).cursor + 1
            },
    {
        match dist.claim() {
            Option::Some(port) => WorkerState::Probing { port },
            Option::None => WorkerState::Done,
        }
    }

    /// From `Probing`: take the probe's outcome for the claimed port. The
    /// worker always moves on to `Reporting`, whatever the outcome was.
    pub fn probe_transition(self, outcome: ProbeOutcome) -> (next: WorkerState)
        requires
            self is Probing,
        ensures
            self matches WorkerState::Probing { port } ==> next == (WorkerState::Reporting {
                port,
                outcome,
            }),
    {
        match self {
            WorkerState::Probing { port } => WorkerState::Reporting { port, outcome },
            _ => self,
        }
    }

    /// From `Reporting`: emit a discovery to the sink when the port was open,
    /// nothing when it was closed, then go back to `Claiming`. The emitted
    /// record pairs the port with its service-table name.
    pub fn report_transition(self, sink: &mut Vec<Discovery>) -> (next: WorkerState)
        requires
            self is Reporting,
        ensures
            next == WorkerState::Claiming,
            self matches WorkerState::Reporting { port, outcome } ==> {
                &&& outcome is Open ==> {
                    &&& final(sink)@.len() == old(sink)@.len() + 1
                    &&& final(sink)@[old(sink)@.len() as int].is_discovery_of(port)
                    &&& final(sink)@.subrange(0, old(sink)@.len() as int) =~= old(sink)@
                }
                &&& outcome is Closed ==> final(sink)@ == old(sink)@
            },
    {
        match self {
            WorkerState::Reporting { port, outcome: ProbeOutcome::Open } => {
                let service = String::from_str(get_common_service_name(port));
                sink.push(Discovery { port, service });
                WorkerState::Claiming
            },
            _ => WorkerState::Claiming,
        }
    }
}

} // verus!
