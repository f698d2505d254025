//! The instrumented channel's diagnostics: in-flight and peak counters.
//!
//! Every sender handle of the channel accounts a send by a start/end pair
//! around the delivery attempt; the pair runs on both the success and the
//! failure path. The counters exist only for capacity tuning and never
//! affect delivery. The history of start/end operations is kept as ghost
//! state, so that the peak can be proved to dominate every in-flight
//! count ever observed, not only the current one.

use vstd::prelude::*;

verus! {

/// One accounting operation on the stats: a send beginning or ending.
pub enum StatsOp {
    Start,
    End,
}

/// The in-flight count after a history of operations.
pub open spec fn in_flight_after(ops: Seq<StatsOp>) -> int
    decreases ops.len(),
{
    if ops.len() == 0 {
        0
    } else {
        in_flight_after(ops.drop_last()) + if ops.last() is Start {
            1int
        } else {
            -1int
        }
    }
}

/// The peak in-flight count over a history of operations.
pub open spec fn peak_after(ops: Seq<StatsOp>) -> int
    decreases ops.len(),
{
    if ops.len() == 0 {
        0
    } else {
        let prev = peak_after(ops.drop_last());
        let cur = in_flight_after(ops);
        if cur > prev {
            cur
        } else {
            prev
        }
    }
}

/// The shared counters of one channel: the current number of in-flight
/// messages and the historical peak of that number.
pub struct ChannelStats {
    in_flight: usize,
    peak: usize,
    history: Ghost<Seq<StatsOp>>,
}

impl ChannelStats {
    /// The current in-flight count.
    pub closed spec fn in_flight_count(self) -> int {
        self.in_flight as int
    }

    /// The historical peak of the in-flight count.
    pub closed spec fn peak_count(self) -> int {
        self.peak as int
    }

    /// The start/end operations accounted so far, in order.
    pub closed spec fn history(self) -> Seq<StatsOp> {
        self.history@
    }

    /// The counters agree with the recorded history, and the peak
    /// dominates the current in-flight count.
    pub closed spec fn wf(self) -> bool {
        &&& self.in_flight_count() == in_flight_after(self.history())
        &&& self.peak_count() == peak_after(self.history())
        &&& self.peak_count() >= self.in_flight_count()
    }

    /// Fresh, zeroed stats.
    pub fn new() -> (r: ChannelStats)
        ensures
            r.wf(),
            r.in_flight_count() == 0,
            r.peak_count() == 0,
            r.history() == Seq::<StatsOp>::empty(),
    {
        ChannelStats { in_flight: 0, peak: 0, history: Ghost(Seq::empty()) }
    }

    /// Accounts for a send that is about to be attempted: raises the
    /// in-flight count and lifts the peak to it if it is now larger.
    pub fn record_send_start(&mut self)
        requires
            old(self).wf(),
            old(self).in_flight_count() < usize::MAX,
        ensures
            final(self).wf(),
            final(self).history() == old(self).history().push(StatsOp::Start),
            final(self).in_flight_count() == old(self).in_flight_count() + 1,
            final(self).peak_count() >= old(self).peak_count(),
            final(self).peak_count() == if final(self).in_flight_count() > old(self).peak_count() {
                final(self).in_flight_count()
            } else {
                old(self).peak_count()
            },
    {
        self.in_flight = self.in_flight + 1;
        if self.in_flight > self.peak {
            self.peak = self.in_flight;
        }
        proof {
            self.history@ = self.history@.push(StatsOp::Start);
            assert(self.history@.drop_last() =~= old(self).history@);
        }
    }

    /// Accounts for a send attempt that has finished, on the success and
    /// the failure path alike: lowers the in-flight count; the peak keeps
    /// its value.
    pub fn record_send_end(&mut self)
        requires
            old(self).wf(),
            old(self).in_flight_count() > 0,
        ensures
            final(self).wf(),
            final(self).history() == old(self).history().push(StatsOp::End),
            final(self).in_flight_count() == old(self).in_flight_count() - 1,
            final(self).peak_count() == old(self).peak_count(),
    {
        self.in_flight = self.in_flight - 1;
        proof {
            self.history@ = self.history@.push(StatsOp::End);
            assert(self.history@.drop_last() =~= old(self).history@);
        }
    }

    /// The current in-flight count.
    pub fn in_flight(&self) -> (r: usize)
        ensures
            r == self.in_flight_count(),
    {
        self.in_flight
    }

    /// The historical peak, readable at any time.
    pub fn peak(&self) -> (r: usize)
        ensures
            r == self.peak_count(),
    {
        self.peak
    }
}

/// The peak after a history dominates the in-flight count after it.
pub proof fn lemma_peak_dominates(ops: Seq<StatsOp>)
    ensures
        peak_after(ops) >= in_flight_after(ops),
        peak_after(ops) >= 0,
    decreases ops.len(),
{
    if ops.len() > 0 {
        lemma_peak_dominates(ops.drop_last());
    }
}

/// The peak never decreases as the history grows: the peak after any
/// prefix of a history is at most the peak after the whole of it.
pub proof fn lemma_peak_monotone(ops: Seq<StatsOp>, k: int)
    requires
        0 <= k <= ops.len(),
    ensures
        peak_after(ops.subrange(0, k)) <= peak_after(ops),
    decreases ops.len() - k,
{
    if k == ops.len() {
        assert(ops.subrange(0, k) =~= ops);
    } else {
        lemma_peak_monotone(ops, k + 1);
        let p = ops.subrange(0, k + 1);
        assert(p.drop_last() =~= ops.subrange(0, k));
    }
}

/// The stats invariant: whenever the counters are well formed, the peak
/// is at least every in-flight count the history has ever reached, and at
/// least the current one.
pub proof fn lemma_stats_invariant(s: ChannelStats, k: int)
    requires
        s.wf(),
        0 <= k <= s.history().len(),
    ensures
        s.peak_count() >= in_flight_after(s.history().subrange(0, k)),
        s.peak_count() >= s.in_flight_count(),
{
    lemma_peak_dominates(s.history().subrange(0, k));
    lemma_peak_monotone(s.history(), k);
}

} // verus!
