//! The work distributor: a cursor over the port range that hands each port in
//! `[start, end]` out exactly once, in increasing order, and reports
//! exhaustion afterwards. In a running scan one distributor sits behind a
//! mutual-exclusion lock and is shared by all workers; every operation here is
//! a single critical section's worth of work.

use vstd::prelude::*;

verus! {

/// The ports `lo..=hi`, in increasing order; empty when `lo > hi`.
pub open spec fn range_seq(lo: int, hi: int) -> Seq<u16> {
    if lo > hi {
        Seq::empty()
    } else {
        Seq::new((hi - lo + 1) as nat, |i: int| (lo + i) as u16)
    }
}

/// Hands out each port of the range exactly once. The cursor is the next port
/// to hand out; it only ever grows. It is one wider than a port so that it can
/// pass the last port without wrapping.
pub struct Distributor {
    pub cursor: u32,
    pub end: u16,
}

impl Distributor {
    /// The ports not yet handed out, in the order they will be handed out.
    pub open spec fn remaining(self) -> Seq<u16> {
        range_seq(self.cursor as int, self.end as int)
    }

    /// Every port of the range has been handed out.
    pub open spec fn is_exhausted(self) -> bool {
        self.cursor > self.end
    }

    /// A fresh distributor over `[start, end]`; with `start > end` it is
    /// exhausted from the outset.
    pub fn new(start: u16, end: u16) -> (d: Distributor)
        ensures
            d.cursor == start,
            d.end == end,
            d.remaining() == range_seq(start as int, end as int),
    {
        Distributor { cursor: start as u32, end }
    }

    /// Claims the next unscanned port: returns the first remaining port and
    /// advances past it, or `None` once the range is exhausted. The cursor
    /// never moves backwards.
    pub fn claim(&mut self) -> (r: Option<u16>)
        ensures
            final(self).end == old(self).end,
            final(self).cursor >= old(self).cursor,
            match r {
                Option::Some(p) => {
                    &&& old(self).remaining().len() > 0
                    &&& p == old(self).remaining()[0]
                    &&& p == old(self).cursor
                    &&& final(self).cursor == old(self).cursor + 1
                    &&& final(self).remaining() =~= old(self).remaining().drop_first()
                },
                Option::None => {
                    &&& old(self).remaining().len() == 0
                    &&& old(self).is_exhausted()
                    &&& *final(self) == *old(self)
                },
            },
    {
        if self.cursor > self.end as u32 {
            None
        } else {
            let p = self.cursor as u16;
            self.cursor = self.cursor + 1;
            Some(p)
        }
    }

    /// Claims until exhaustion and returns every claimed port in claim order:
    /// exactly the remaining range, each port once.
    pub fn claim_all(&mut self) -> (claimed: Vec<u16>)
        ensures
            claimed@ =~= old(self).remaining(),
            final(self).is_exhausted(),
            final(self).end == old(self).end,
    {
        let mut claimed: Vec<u16> = Vec::new();
        loop
            invariant
                self.end == old(self).end,
                old(self).remaining() =~= claimed@ + self.remaining(),
            ensures
                self.end == old(self).end,
                self.is_exhausted(),
                old(self).remaining() =~= claimed@ + self.remaining(),
                self.remaining().len() == 0,
            decreases self.remaining().len(),
        {
            let ghost pre = claimed@;
            let ghost rem = self.remaining();
            match self.claim() {
                Option::Some(p) => {
                    claimed.push(p);
                    proof {
                        assert(rem =~= seq![p] + rem.drop_first());
                        assert(pre + rem =~= claimed@ + self.remaining());
                    }
                },
                Option::None => {
                    break;
                },
            }
        }
        claimed
    }
}

/// Exhaustive, non-overlapping coverage: for a range with `start <= end` the
/// ports handed out are exactly `{start, start + 1, ..., end}`, in strictly
/// increasing order — so no duplicates and no omissions. Together with
/// `claim`'s contract this holds however many workers interleave their
/// claims.
pub proof fn lemma_exhaustive_coverage(start: u16, end: u16)
    requires
        start <= end,
    ensures
        range_seq(start as int, end as int).len() == end - start + 1,
        forall|p: u16|
            #[trigger] range_seq(start as int, end as int).contains(p) <==> start <= p <= end,
        forall|i: int, j: int|
            0 <= i < j < range_seq(start as int, end as int).len()
                ==> range_seq(start as int, end as int)[i] < range_seq(
                start as int,
                end as int,
            )[j],
{
    let s = range_seq(start as int, end as int);
    assert forall|p: u16| #[trigger] s.contains(p) implies start <= p <= end by {
        let i = choose|i: int| 0 <= i < s.len() && s[i] == p;
        assert(s[i] == start + i);
    }
    assert forall|p: u16| start <= p <= end implies #[trigger] s.contains(p) by {
        assert(s[p - start] == p);
    }
}

/// A degenerate range (`start > end`) covers no ports at all: nothing is ever
/// handed out, and a fresh distributor over it is exhausted at once.
pub proof fn lemma_degenerate_range(start: u16, end: u16)
    requires
        start > end,
    ensures
        range_seq(start as int, end as int) =~= Seq::<u16>::empty(),
        (Distributor { cursor: start as u32, end }).is_exhausted(),
{
}

} // verus!
