//! Orchestrator-level pieces: the immutable scan configuration and the laws
//! tying a whole scan's discoveries to the range and the set of open ports,
//! independently of how many workers ran it or in what order the probes
//! finished.

use vstd::prelude::*;

use crate::distributor::lemma_exhaustive_coverage;
use crate::distributor::range_seq;
use crate::distributor::Distributor;
use crate::resolve::IpAddress;
use crate::worker::Discovery;
use crate::worker::ProbeOutcome;
use crate::worker::WorkerState;

verus! {

/// An immutable snapshot of one scan's parameters, fixed before any worker
/// starts and shared read-only by all of them.
pub struct ScanConfig {
    pub target: IpAddress,
    pub start: u16,
    pub end: u16,
    pub threads: u16,
    pub timeout_ms: u64,
}

impl ScanConfig {
    pub fn new(target: IpAddress, start: u16, end: u16, threads: u16, timeout_ms: u64) -> (c:
        ScanConfig)
        ensures
            c.target == target,
            c.start == start,
            c.end == end,
            c.threads == threads,
            c.timeout_ms == timeout_ms,
    {
        ScanConfig { target, start, end, threads, timeout_ms }
    }
}

/// Whether a port of the range reads as open in the outcome table, which
/// holds one probe outcome per port, `start` first.
pub open spec fn open_pred(start: u16, outcomes: Seq<ProbeOutcome>) -> spec_fn(u16) -> bool {
    |p: u16| outcomes[p as int - start as int] is Open
}

/// The open ports among `start..=hi`, in increasing order, read from the
/// outcome table.
pub open spec fn open_ports_upto(start: u16, hi: int, outcomes: Seq<ProbeOutcome>) -> Seq<u16> {
    range_seq(start as int, hi).filter(open_pred(start, outcomes))
}

/// The open ports of the whole range, in increasing order.
pub open spec fn open_ports_of(start: u16, end: u16, outcomes: Seq<ProbeOutcome>) -> Seq<u16> {
    open_ports_upto(start, end as int, outcomes)
}

/// Runs one worker's claim / probe / report loop to completion over the whole
/// range, reading each probe's outcome from the table. The discoveries that
/// come out are exactly the open ports of the range, in increasing order,
/// each paired with its service name: every port is probed once, none is
/// skipped, and a degenerate range yields no discoveries at all.
pub fn scan_range(start: u16, end: u16, outcomes: &Vec<ProbeOutcome>) -> (sink: Vec<Discovery>)
    requires
        start <= end ==> outcomes@.len() >= end - start + 1,
    ensures
        sink@.len() == open_ports_of(start, end, outcomes@).len(),
        forall|i: int|
            0 <= i < sink@.len() ==> sink@[i].is_discovery_of(
                open_ports_of(start, end, outcomes@)[i],
            ),
{
    let mut dist = Distributor::new(start, end);
    let mut sink: Vec<Discovery> = Vec::new();
    loop
        invariant
            dist.end == end,
            start <= end ==> start <= dist.cursor <= end + 1,
            start > end ==> dist.cursor == start,
            start <= end ==> outcomes@.len() >= end - start + 1,
            sink@.len() == open_ports_upto(start, dist.cursor - 1, outcomes@).len(),
            forall|i: int|
                0 <= i < sink@.len() ==> sink@[i].is_discovery_of(
                    open_ports_upto(start, dist.cursor - 1, outcomes@)[i],
                ),
        ensures
            dist.is_exhausted(),
            start <= end ==> dist.cursor == end + 1,
            start > end ==> dist.cursor == start,
            sink@.len() == open_ports_upto(start, dist.cursor - 1, outcomes@).len(),
            forall|i: int|
                0 <= i < sink@.len() ==> sink@[i].is_discovery_of(
                    open_ports_upto(start, dist.cursor - 1, outcomes@)[i],
                ),
        decreases dist.remaining().len(),
    {
        let ghost opens_before = open_ports_upto(start, dist.cursor - 1, outcomes@);
        match WorkerState::Claiming.claim_transition(&mut dist) {
            WorkerState::Probing { port } => {
                let outcome = outcomes[(port - start) as usize];
                let probing = WorkerState::Probing { port };
                let reporting = probing.probe_transition(outcome);
                reporting.report_transition(&mut sink);
                proof {
                    reveal_with_fuel(Seq::<u16>::filter, 2);
                    let pred = open_pred(start, outcomes@);
                    let prev = range_seq(start as int, port - 1);
                    let now = range_seq(start as int, port as int);
                    assert(now =~= prev.push(port));
                    assert(prev.push(port).drop_last() =~= prev);
                    assert(now.filter(pred) == if pred(port) {
                        prev.filter(pred).push(port)
                    } else {
                        prev.filter(pred)
                    });
                    assert(pred(port) == (outcome is Open));
                    let opens_now = open_ports_upto(start, port as int, outcomes@);
                    assert forall|i: int| 0 <= i < sink@.len() implies sink@[i].is_discovery_of(
                        opens_now[i],
                    ) by {
                        if i < opens_before.len() {
                            assert(sink@[i] == sink@.subrange(0, opens_before.len() as int)[i]);
                        }
                    }
                }
            },
            _ => {
                break ;
            },
        }
    }
    proof {
        if start > end {
            assert(range_seq(start as int, dist.cursor - 1) =~= Seq::<u16>::empty());
            assert(range_seq(start as int, end as int) =~= Seq::<u16>::empty());
        }
    }
    sink
}

/// The open ports a scan discovers, given the ports its workers claimed and
/// the set of ports that were in fact open: exactly the claimed ports that
/// were open.
pub open spec fn discovered_ports(claimed: Seq<u16>, open_ports: Set<u16>) -> Set<u16> {
    claimed.to_set().intersect(open_ports)
}

/// Thread-count invariance: two scans that claim the same set of ports — in
/// whatever order, split among however many workers — discover exactly the
/// same open ports. Only timing can differ, never the result.
pub proof fn lemma_thread_count_invariance(
    claims_a: Seq<u16>,
    claims_b: Seq<u16>,
    open_ports: Set<u16>,
)
    requires
        claims_a.to_set() == claims_b.to_set(),
    ensures
        discovered_ports(claims_a, open_ports) == discovered_ports(claims_b, open_ports),
{
}

/// A full scan's discoveries: once the claimed ports cover the range exactly
/// — which `Distributor::claim` guarantees for any number of workers — the
/// discovered set is precisely the open ports within `[start, end]`.
pub proof fn lemma_full_scan_discoveries(
    start: u16,
    end: u16,
    claims: Seq<u16>,
    open_ports: Set<u16>,
)
    requires
        claims.to_set() == range_seq(start as int, end as int).to_set(),
    ensures
        discovered_ports(claims, open_ports) =~= Set::new(
            |p: u16| start <= p <= end && open_ports.contains(p),
        ),
{
    if start <= end {
        lemma_exhaustive_coverage(start, end);
    }
    assert forall|p: u16|
        discovered_ports(claims, open_ports).contains(p) <==> (start <= p <= end
            && open_ports.contains(p)) by {
        assert(claims.to_set().contains(p) == range_seq(start as int, end as int).contains(p));
    }
}

} // verus!
