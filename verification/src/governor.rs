//! The concurrency governor's state machine.
//!
//! The dispatcher partitions the targets into consecutive waves of at most
//! `batch` tasks, and every task must hold one of `rate` permits while its
//! probe is in flight. The shell drives the real semaphore and task pool;
//! this module is the decision logic, and it proves the bound the design
//! promises: no more than `min(batch, rate)` probes are ever in flight at
//! once.

use vstd::prelude::*;

verus! {

/// The governor's state: the wave and permit-pool bookkeeping.
///
/// `waiting` tasks of the current wave have been launched but do not hold a
/// permit yet; `holding` tasks hold a permit (their probe is in flight).
/// A wave ends only when both counts are back to zero.
pub struct Governor {
    /// Batch concurrency: the largest number of tasks launched per wave.
    pub batch: usize,
    /// The size of the rate-limit permit pool.
    pub rate: usize,
    /// Tasks of the current wave that have not acquired a permit yet.
    pub waiting: usize,
    /// Tasks currently holding a permit: the in-flight probes.
    pub holding: usize,
}

impl Governor {
    /// The state invariant: the wave fits the batch bound and no more
    /// permits are out than the pool has.
    pub open spec fn inv(&self) -> bool {
        &&& self.waiting + self.holding <= self.batch
        &&& self.holding <= self.rate
    }

    /// A fresh governor with no wave running.
    pub fn new(batch: usize, rate: usize) -> (r: Governor)
        ensures
            r.inv(),
            r.batch == batch,
            r.rate == rate,
            r.waiting == 0,
            r.holding == 0,
    {
        Governor { batch, rate, waiting: 0, holding: 0 }
    }

    /// The wave is over: every task has finished and released its permit.
    pub fn wave_done(&self) -> (r: bool)
        ensures
            r == (self.waiting == 0 && self.holding == 0),
    {
        self.waiting == 0 && self.holding == 0
    }

    /// Launches the next wave of `n` tasks. Only legal between waves, and
    /// only up to the batch bound.
    pub fn launch_wave(&mut self, n: usize)
        requires
            old(self).inv(),
            old(self).waiting == 0,
            old(self).holding == 0,
            n <= old(self).batch,
        ensures
            final(self).inv(),
            final(self).batch == old(self).batch,
            final(self).rate == old(self).rate,
            final(self).waiting == n,
            final(self).holding == 0,
    {
        self.waiting = n;
    }

    /// May a waiting task acquire a permit now? The semaphore blocks it
    /// otherwise.
    pub fn can_acquire(&self) -> (r: bool)
        ensures
            r == (self.waiting > 0 && self.holding < self.rate),
    {
        self.waiting > 0 && self.holding < self.rate
    }

    /// A waiting task acquires a permit; its probe goes in flight.
    pub fn acquire(&mut self)
        requires
            old(self).inv(),
            old(self).waiting > 0,
            old(self).holding < old(self).rate,
        ensures
            final(self).inv(),
            final(self).batch == old(self).batch,
            final(self).rate == old(self).rate,
            final(self).waiting == old(self).waiting - 1,
            final(self).holding == old(self).holding + 1,
    {
        self.waiting = self.waiting - 1;
        self.holding = self.holding + 1;
    }

    /// A task releases its permit, on every exit path: with a result, with
    /// a transport failure, or with a crashed task.
    pub fn release(&mut self)
        requires
            old(self).inv(),
            old(self).holding > 0,
        ensures
            final(self).inv(),
            final(self).batch == old(self).batch,
            final(self).rate == old(self).rate,
            final(self).waiting == old(self).waiting,
            final(self).holding == old(self).holding - 1,
    {
        self.holding = self.holding - 1;
    }
}

/// The rate-limit bound: in every reachable state, the number of in-flight
/// probes is at most `min(batch, rate)`. `inv` holds in every reachable
/// state, since `new` establishes it and each transition keeps it.
pub proof fn lemma_in_flight_bound(g: Governor)
    requires
        g.inv(),
    ensures
        g.holding <= g.batch,
        g.holding <= g.rate,
{
}

} // verus!
