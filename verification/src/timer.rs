//! A fixed-interval or one-shot clock, counting milliseconds. Created
//! stopped; once started, each update subtracts the elapsed time, and when
//! the remainder is used up the timer fires a tick: a looping timer rearms
//! itself at its full period, any other stops.

use vstd::prelude::*;

verus! {

#[derive(Clone, Copy, PartialEq, Eq, Structural, Debug)]
pub struct Timer {
    /// Milliseconds until the next tick, while active.
    pub time_remaining: u64,
    pub active: bool,
    pub loops: bool,
    /// The period, in milliseconds.
    pub time: u64,
}

/// One update: an inactive timer ignores time; an active one consumes `dt`,
/// and fires when its remainder is used up, discarding any overshoot.
pub open spec fn timer_update_spec(t: Timer, dt: u64) -> (Timer, bool) {
    if !t.active {
        (t, false)
    } else if dt >= t.time_remaining {
        if t.loops {
            (Timer { time_remaining: t.time, ..t }, true)
        } else {
            (Timer { time_remaining: 0, active: false, ..t }, true)
        }
    } else {
        (Timer { time_remaining: (t.time_remaining - dt) as u64, ..t }, false)
    }
}

impl Timer {
    /// A stopped timer with period `time` milliseconds.
    pub fn new(time: u64, loops: bool) -> (t: Timer)
        ensures
            t == (Timer { time_remaining: 0, active: false, loops, time }),
    {
        Timer { time_remaining: 0, active: false, loops, time }
    }

    /// Arm the timer at its full period.
    pub fn start(&mut self)
        ensures
            *final(self) == (Timer {
                active: true,
                time_remaining: old(self).time,
                ..*old(self)
            }),
    {
        self.active = true;
        self.time_remaining = self.time;
    }

    /// Stop the timer unconditionally.
    pub fn stop(&mut self)
        ensures
            *final(self) == (Timer { active: false, time_remaining: 0, ..*old(self) }),
    {
        self.active = false;
        self.time_remaining = 0;
    }

    /// Consume `dt` milliseconds; true exactly when a tick fires.
    pub fn update(&mut self, dt: u64) -> (fired: bool)
        ensures
            *final(self) == timer_update_spec(*old(self), dt).0,
            fired == timer_update_spec(*old(self), dt).1,
    {
        if !self.active {
            return false;
        }
        if dt >= self.time_remaining {
            if self.loops {
                self.time_remaining = self.time;
            } else {
                self.active = false;
                self.time_remaining = 0;
            }
            true
        } else {
            self.time_remaining = self.time_remaining - dt;
            false
        }
    }
}

/// The milliseconds a sequence of updates hands the timer, in total.
pub open spec fn sum_spec(dts: Seq<u64>) -> int
    decreases dts.len(),
{
    if dts.len() == 0 {
        0
    } else {
        dts[0] + sum_spec(dts.drop_first())
    }
}

/// The timer after a sequence of updates, with the number of ticks fired.
pub open spec fn run_updates(t: Timer, dts: Seq<u64>) -> (Timer, nat)
    decreases dts.len(),
{
    if dts.len() == 0 {
        (t, 0)
    } else {
        let step = timer_update_spec(t, dts[0]);
        let rest = run_updates(step.0, dts.drop_first());
        (rest.0, rest.1 + if step.1 {
            1nat
        } else {
            0nat
        })
    }
}

pub proof fn lemma_sum_nonneg(dts: Seq<u64>)
    ensures
        sum_spec(dts) >= 0,
        dts.len() > 0 ==> sum_spec(dts.drop_first()) >= 0 && sum_spec(dts) >= dts[0],
    decreases dts.len(),
{
    if dts.len() > 0 {
        lemma_sum_nonneg(dts.drop_first());
    }
}

/// Updates that hand the timer no time at all never fire a tick, as long as
/// an active timer still has a positive remainder.
proof fn lemma_timer_no_time_no_tick(t: Timer, dts: Seq<u64>)
    requires
        sum_spec(dts) == 0,
        t.active ==> t.time_remaining >= 1,
    ensures
        run_updates(t, dts).1 == 0,
    decreases dts.len(),
{
    if dts.len() > 0 {
        lemma_sum_nonneg(dts.drop_first());
        assert(dts[0] == 0);
        let step = timer_update_spec(t, dts[0]);
        assert(!step.1);
        lemma_timer_no_time_no_tick(step.0, dts.drop_first());
    }
}

/// An active timer fires exactly one tick over any sequence of updates whose
/// elapsed time sums to exactly its remainder.
proof fn lemma_timer_one_tick_from(t: Timer, dts: Seq<u64>)
    requires
        t.active,
        t.time_remaining >= 1,
        sum_spec(dts) == t.time_remaining,
        t.loops ==> t.time >= 1,
    ensures
        run_updates(t, dts).1 == 1,
    decreases dts.len(),
{
    lemma_sum_nonneg(dts);
    if dts.len() == 0 {
        assert(false);
    } else {
        let d = dts[0];
        lemma_sum_nonneg(dts.drop_first());
        let step = timer_update_spec(t, d);
        if d >= t.time_remaining {
            assert(sum_spec(dts.drop_first()) == 0);
            assert(step.1);
            lemma_timer_no_time_no_tick(step.0, dts.drop_first());
        } else {
            assert(!step.1);
            lemma_timer_one_tick_from(step.0, dts.drop_first());
        }
    }
}

/// A freshly started timer with a positive period fires exactly one tick
/// over any sequence of updates whose elapsed time sums to exactly one
/// period — however that time is split across the calls.
pub proof fn lemma_timer_one_tick(t: Timer, dts: Seq<u64>)
    requires
        t.active,
        t.time_remaining == t.time,
        t.time >= 1,
        sum_spec(dts) == t.time,
    ensures
        run_updates(t, dts).1 == 1,
{
    lemma_timer_one_tick_from(t, dts);
}

} // verus!
