//! Repeating timers that count microseconds.

use vstd::prelude::*;
use vstd::arithmetic::div_mod::{lemma_mod_multiples_vanish, lemma_small_mod};

verus! {

/// A repeating timer. It fires on the tick that carries the elapsed time to
/// or past the period, and then starts over with what is left.
#[derive(Clone, Copy, Debug, PartialEq, Eq, Structural)]
pub struct Timer {
    pub period_us: u64,
    pub elapsed_us: u64,
    pub finished: bool,
}

impl Timer {
    /// The period is positive and the elapsed time is short of it.
    pub open spec fn wf(self) -> bool {
        0 < self.period_us && self.elapsed_us < self.period_us
    }

    /// The timer after `delta_us` more microseconds.
    pub open spec fn ticked(self, delta_us: u64) -> Timer {
        Timer {
            period_us: self.period_us,
            elapsed_us: ((self.elapsed_us + delta_us) % (self.period_us as int)) as u64,
            finished: self.elapsed_us + delta_us >= self.period_us,
        }
    }

    /// A timer of the given period, in milliseconds, that has not run yet.
    /// There is no timer of period zero.
    pub fn from_millis(millis: u32) -> (timer: Option<Timer>)
        ensures
            millis == 0 ==> timer is None,
            millis > 0 ==> timer == Some(
                Timer { period_us: (millis * 1000) as u64, elapsed_us: 0, finished: false },
            ),
            timer matches Some(t) ==> t.wf(),
    {
        if millis == 0 {
            None
        } else {
            let period: u64 = millis as u64 * 1000;
            Some(Timer { period_us: period, elapsed_us: 0, finished: false })
        }
    }

    /// Tells whether the timer is well formed.
    pub fn is_valid(&self) -> (valid: bool)
        ensures
            valid == self.wf(),
    {
        0 < self.period_us && self.elapsed_us < self.period_us
    }

    /// Tells whether the last tick carried the timer to or past its period.
    pub fn finished(&self) -> (fired: bool)
        ensures
            fired == self.finished,
    {
        self.finished
    }

    /// Advances the timer by `delta_us` microseconds.
    pub fn tick(&mut self, delta_us: u64)
        requires
            old(self).wf(),
        ensures
            *final(self) == old(self).ticked(delta_us),
            final(self).wf(),
    {
        let room: u64 = self.period_us - self.elapsed_us;
        if delta_us >= room {
            let over: u64 = delta_us - room;
            proof {
                lemma_mod_multiples_vanish(1, over as int, self.period_us as int);
                assert(self.elapsed_us + delta_us == self.period_us * 1 + over);
            }
            self.elapsed_us = over % self.period_us;
            self.finished = true;
        } else {
            proof {
                lemma_small_mod((self.elapsed_us + delta_us) as nat, self.period_us as nat);
            }
            self.elapsed_us = self.elapsed_us + delta_us;
            self.finished = false;
        }
    }
}

} // verus!
