//! The two countdown components: a repeating trigger that fires once per
//! advance call whenever one or more whole intervals have elapsed, and a
//! one-shot removal timer that fires exactly once when its duration runs out.

use vstd::prelude::*;
use vstd::arithmetic::div_mod::lemma_mod_decreases;
use vstd::arithmetic::div_mod::lemma_mod_division_less_than_divisor;
use vstd::arithmetic::div_mod::lemma_mod_multiples_vanish;

verus! {

/// Number of time ticks in one second of simulated time.
pub const TICKS_PER_SECOND: u64 = 1000;

/// A repeating countdown. `advance` accumulates frame deltas; on each call
/// that reaches the interval it reports a fire and keeps the overshoot
/// (the new elapsed time is the total modulo the interval, not zero), so a
/// leftover remainder combines with subsequent deltas. At most one fire is
/// reported per call, however many intervals the delta spans.
#[derive(Clone, Copy, PartialEq, Eq, Structural, Debug)]
pub struct Trigger {
    pub interval: u64,
    pub elapsed: u64,
}

impl Trigger {
    /// A trigger is well formed when its interval is positive and the
    /// accumulated time has not yet reached the interval.
    pub open spec fn wf(self) -> bool {
        0 < self.interval && self.elapsed < self.interval
    }

    /// One advance step as a mathematical function: the trigger afterwards,
    /// and whether that step fired.
    pub open spec fn step(self, delta: u64) -> (Trigger, bool) {
        let total = self.elapsed + delta;
        if total >= self.interval {
            (
                Trigger {
                    interval: self.interval,
                    elapsed: (total % (self.interval as int)) as u64,
                },
                true,
            )
        } else {
            (Trigger { interval: self.interval, elapsed: total as u64 }, false)
        }
    }

    pub fn new(interval: u64) -> (r: Trigger)
        requires
            0 < interval,
        ensures
            r.wf(),
            r.interval == interval,
            r.elapsed == 0,
    {
        Trigger { interval, elapsed: 0 }
    }

    /// Advances the trigger by one frame delta and reports whether it fired.
    pub fn advance(&mut self, delta: u64) -> (fired: bool)
        requires
            old(self).wf(),
        ensures
            final(self).wf(),
            (*final(self), fired) == old(self).step(delta),
    {
        let room = self.interval - self.elapsed;
        if delta >= room {
            let overshoot = delta - room;
            proof {
                // elapsed + delta == interval + overshoot, and adding one
                // whole interval does not change the remainder.
                lemma_mod_multiples_vanish(
                    1,
                    overshoot as int,
                    self.interval as int,
                );
            }
            self.elapsed = overshoot % self.interval;
            true
        } else {
            self.elapsed = self.elapsed + delta;
            false
        }
    }
}

/// The trigger state and the number of fires after a whole sequence of
/// `advance` calls.
pub open spec fn trigger_run(t: Trigger, deltas: Seq<u64>) -> (Trigger, nat)
    decreases deltas.len(),
{
    if deltas.len() == 0 {
        (t, 0)
    } else {
        let prev = trigger_run(t, deltas.drop_last());
        let stepped = prev.0.step(deltas.last());
        (stepped.0, prev.1 + if stepped.1 { 1nat } else { 0nat })
    }
}

/// Law: over any sequence of `advance` calls, the trigger fires at most once
/// per call, so the total number of fires never exceeds the number of calls.
pub proof fn lemma_trigger_fires_at_most_calls(t: Trigger, deltas: Seq<u64>)
    ensures
        trigger_run(t, deltas).1 <= deltas.len(),
    decreases deltas.len(),
{
    if deltas.len() > 0 {
        lemma_trigger_fires_at_most_calls(t, deltas.drop_last());
    }
}

/// The total time of a sequence of advance deltas.
pub open spec fn sum_deltas(deltas: Seq<u64>) -> int
    decreases deltas.len(),
{
    if deltas.len() == 0 {
        0
    } else {
        sum_deltas(deltas.drop_last()) + deltas.last()
    }
}

/// Law: fires never outrun time. Over any sequence of `advance` calls,
/// each fire accounts for at least one whole interval of elapsed time, so
/// the fire count times the interval, plus the leftover the trigger still
/// holds, never exceeds the time handed in.
pub proof fn lemma_trigger_fires_bounded_by_time(t: Trigger, deltas: Seq<u64>)
    requires
        t.wf(),
    ensures
        trigger_run(t, deltas).0.wf(),
        trigger_run(t, deltas).0.interval == t.interval,
        (trigger_run(t, deltas).1 as int) * (t.interval as int) + trigger_run(t, deltas).0.elapsed
            <= t.elapsed + sum_deltas(deltas),
    decreases deltas.len(),
{
    if deltas.len() > 0 {
        lemma_trigger_fires_bounded_by_time(t, deltas.drop_last());
        let prev = trigger_run(t, deltas.drop_last());
        let d = deltas.last();
        let total = prev.0.elapsed + d;
        if total >= t.interval {
            // One whole interval is consumed: the leftover is the total
            // modulo the interval, which also sits below total - interval.
            lemma_mod_division_less_than_divisor(total, t.interval as int);
            lemma_mod_multiples_vanish(1, total - t.interval, t.interval as int);
            lemma_mod_decreases((total - t.interval) as nat, t.interval as nat);
            assert((total - t.interval) % (t.interval as int) <= total - t.interval);
            assert(((prev.1 + 1) as int) * (t.interval as int) == (prev.1 as int) * (
            t.interval as int) + t.interval) by (nonlinear_arith);
        }
    }
}

/// A one-shot removal timer attached to a transient entity. `advance`
/// reports true exactly once, on the call where the remaining time is
/// exhausted; afterwards the timer is expired and can never fire again.
#[derive(Clone, Copy, PartialEq, Eq, Structural, Debug)]
pub struct DelayedDespawn {
    pub duration: u64,
    pub elapsed: u64,
    pub expired: bool,
}

impl DelayedDespawn {
    /// A timer never accumulates past its duration.
    pub open spec fn wf(self) -> bool {
        self.elapsed <= self.duration
    }

    /// One advance step as a mathematical function: the timer afterwards,
    /// and whether that step fired.
    pub open spec fn step(self, delta: u64) -> (DelayedDespawn, bool) {
        if self.expired {
            (self, false)
        } else if self.elapsed + delta >= self.duration {
            (
                DelayedDespawn {
                    duration: self.duration,
                    elapsed: self.duration,
                    expired: true,
                },
                true,
            )
        } else {
            (
                DelayedDespawn {
                    duration: self.duration,
                    elapsed: (self.elapsed + delta) as u64,
                    expired: false,
                },
                false,
            )
        }
    }

    /// A fresh timer that will fire once `ticks` time has elapsed.
    pub fn after(ticks: u64) -> (r: DelayedDespawn)
        ensures
            r.wf(),
            r.duration == ticks,
            r.elapsed == 0,
            !r.expired,
    {
        DelayedDespawn { duration: ticks, elapsed: 0, expired: false }
    }

    /// Advances the timer by one frame delta and reports whether it just
    /// expired.
    pub fn advance(&mut self, delta: u64) -> (fired: bool)
        requires
            old(self).wf(),
        ensures
            final(self).wf(),
            (*final(self), fired) == old(self).step(delta),
    {
        if self.expired {
            false
        } else if delta >= self.duration - self.elapsed {
            self.elapsed = self.duration;
            self.expired = true;
            true
        } else {
            self.elapsed = self.elapsed + delta;
            false
        }
    }
}

/// The timer state and the number of fires after a whole sequence of
/// `advance` calls.
pub open spec fn despawn_run(d: DelayedDespawn, deltas: Seq<u64>) -> (
    DelayedDespawn,
    nat,
)
    decreases deltas.len(),
{
    if deltas.len() == 0 {
        (d, 0)
    } else {
        let prev = despawn_run(d, deltas.drop_last());
        let stepped = prev.0.step(deltas.last());
        (stepped.0, prev.1 + if stepped.1 { 1nat } else { 0nat })
    }
}

/// Law: a removal timer fires at most once over any sequence of `advance`
/// calls, and it ends expired exactly when it started expired or fired.
pub proof fn lemma_despawn_fires_at_most_once(d: DelayedDespawn, deltas: Seq<u64>)
    ensures
        despawn_run(d, deltas).1 <= if d.expired { 0nat } else { 1nat },
        despawn_run(d, deltas).0.expired == (d.expired || despawn_run(d, deltas).1 > 0),
    decreases deltas.len(),
{
    if deltas.len() > 0 {
        lemma_despawn_fires_at_most_once(d, deltas.drop_last());
    }
}

} // verus!
