//! Running totals of the per-packet counters, overall and per worker.

use vstd::prelude::*;
use crate::headers::Counters;

verus! {

/// Whether every field of `a + b` fits in an `i32`.
pub open spec fn sum_fits(a: Counters, b: Counters) -> bool {
    &&& i32::MIN <= a.ip_ctr + b.ip_ctr <= i32::MAX
    &&& i32::MIN <= a.tcp_ctr + b.tcp_ctr <= i32::MAX
    &&& i32::MIN <= a.tcp_options_ctr + b.tcp_options_ctr <= i32::MAX
    &&& i32::MIN <= a.ip_options_ctr + b.ip_options_ctr <= i32::MAX
}

/// The field-wise sum of two sets of counters.
pub open spec fn plus(a: Counters, b: Counters) -> Counters {
    Counters {
        ip_ctr: (a.ip_ctr + b.ip_ctr) as i32,
        tcp_ctr: (a.tcp_ctr + b.tcp_ctr) as i32,
        tcp_options_ctr: (a.tcp_options_ctr + b.tcp_options_ctr) as i32,
        ip_options_ctr: (a.ip_options_ctr + b.ip_options_ctr) as i32,
    }
}

/// All counters zero.
pub open spec fn zero() -> Counters {
    Counters { ip_ctr: 0, tcp_ctr: 0, tcp_options_ctr: 0, ip_options_ctr: 0 }
}

/// All counters zero.
pub fn zero_counters() -> (c: Counters)
    ensures
        c == zero(),
{
    Counters { ip_ctr: 0, tcp_ctr: 0, tcp_options_ctr: 0, ip_options_ctr: 0 }
}

/// Adds `c` to `total`, field by field.
pub fn accumulate(total: &mut Counters, c: &Counters)
    requires
        sum_fits(*old(total), *c),
    ensures
        *final(total) == plus(*old(total), *c),
{
    total.ip_ctr = total.ip_ctr + c.ip_ctr;
    total.tcp_ctr = total.tcp_ctr + c.tcp_ctr;
    total.tcp_options_ctr = total.tcp_options_ctr + c.tcp_options_ctr;
    total.ip_options_ctr = total.ip_options_ctr + c.ip_options_ctr;
}

/// Adding zero counters changes nothing, and adding is commutative: the
/// totals do not depend on the order in which two reports arrive.
pub proof fn law_accumulate(a: Counters, b: Counters)
    ensures
        sum_fits(a, zero()),
        plus(a, zero()) == a,
        sum_fits(a, b) == sum_fits(b, a),
        plus(a, b) == plus(b, a),
{
}

/// A counter report from a worker thread.
#[derive(Clone, Copy, Debug, PartialEq, Eq, Structural)]
pub struct WorkerMsg {
    pub worker_id: usize,
    pub counters: Counters,
}

/// Number of worker threads, numbered from 1.
pub const WORKERS: usize = 5;

/// The totals after adding the counters of `ws`, in order, to `t`.
pub open spec fn add_all(t: Counters, ws: Seq<Counters>) -> Counters
    decreases ws.len(),
{
    if ws.len() == 0 {
        t
    } else {
        plus(add_all(t, ws.drop_last()), ws.last())
    }
}

/// Every partial sum of adding `ws`, in order, to `t` fits in `i32`.
pub open spec fn add_all_fits(t: Counters, ws: Seq<Counters>) -> bool {
    forall|k: int| 0 <= k < ws.len() ==> sum_fits(add_all(t, ws.take(k)), #[trigger] ws[k])
}

/// The statistics of the multi-threaded processor: the counters of each
/// worker, and totals that each report adds every worker's counters to.
pub struct WorkerStats {
    workers: Vec<Counters>,
    totals: Counters,
}

impl WorkerStats {
    /// The counters of each worker, worker `i` at position `i - 1`.
    pub closed spec fn workers(&self) -> Seq<Counters> {
        self.workers@
    }

    /// The running totals.
    pub closed spec fn totals(&self) -> Counters {
        self.totals
    }

    /// There is one set of counters per worker.
    pub open spec fn wf(&self) -> bool {
        self.workers().len() == WORKERS
    }

    /// Every worker and the totals at zero.
    pub fn new() -> (s: WorkerStats)
        ensures
            s.wf(),
            forall|i: int| 0 <= i < WORKERS ==> #[trigger] s.workers()[i] == zero(),
            s.totals() == zero(),
    {
        let mut workers: Vec<Counters> = Vec::new();
        let mut i: usize = 0;
        while i < WORKERS
            invariant
                i <= WORKERS,
                workers@.len() == i,
                forall|j: int| 0 <= j < i ==> #[trigger] workers@[j] == zero(),
            decreases WORKERS - i,
        {
            workers.push(zero_counters());
            i = i + 1;
        }
        WorkerStats { workers, totals: zero_counters() }
    }

    /// The counters of worker `id`.
    pub fn worker(&self, id: usize) -> (c: Counters)
        requires
            self.wf(),
            1 <= id <= WORKERS,
        ensures
            c == self.workers()[id - 1],
    {
        self.workers[id - 1]
    }

    /// The running totals.
    pub fn total(&self) -> (c: Counters)
        ensures
            c == self.totals(),
    {
        self.totals
    }

    /// Adds a report to the counters of the worker that sent it.
    pub fn absorb(&mut self, msg: &WorkerMsg)
        requires
            old(self).wf(),
            1 <= msg.worker_id <= WORKERS,
            sum_fits(old(self).workers()[msg.worker_id - 1], msg.counters),
        ensures
            final(self).wf(),
            final(self).workers() == old(self).workers().update(
                msg.worker_id - 1,
                plus(old(self).workers()[msg.worker_id - 1], msg.counters),
            ),
            final(self).totals() == old(self).totals(),
    {
        let i = msg.worker_id - 1;
        let mut c = self.workers[i];
        accumulate(&mut c, &msg.counters);
        self.workers.set(i, c);
    }

    /// Adds the counters of every worker, from worker 1 to worker 5, to the
    /// totals, which are not reset between reports.
    pub fn report(&mut self)
        requires
            old(self).wf(),
            add_all_fits(old(self).totals(), old(self).workers()),
        ensures
            final(self).wf(),
            final(self).workers() == old(self).workers(),
            final(self).totals() == add_all(old(self).totals(), old(self).workers()),
    {
        let ghost t0 = self.totals;
        let mut i: usize = 0;
        while i < WORKERS
            invariant
                i <= WORKERS,
                self.workers@.len() == WORKERS,
                self.workers@ == old(self).workers@,
                t0 == old(self).totals,
                add_all_fits(t0, self.workers@),
                self.totals == add_all(t0, self.workers@.take(i as int)),
            decreases WORKERS - i,
        {
            assert(self.workers@.take(i + 1).drop_last() =~= self.workers@.take(i as int));
            let c = self.workers[i];
            accumulate(&mut self.totals, &c);
            i = i + 1;
        }
        assert(self.workers@.take(WORKERS as int) =~= self.workers@);
    }
}

} // verus!
