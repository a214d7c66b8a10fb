use vstd::prelude::*;

verus! {

/// A countdown measured in milliseconds. A repeating timer starts over each
/// time it fires; a one-shot timer fires once and then stays finished.
#[derive(Debug, Clone, Copy, PartialEq, Eq, Structural)]
pub struct Timer {
    pub duration: u64,
    pub elapsed: u64,
    pub repeating: bool,
}

impl Timer {
    pub open spec fn wf(self) -> bool {
        0 < self.duration && self.elapsed <= self.duration && (self.repeating ==> self.elapsed
            < self.duration)
    }

    /// A one-shot timer that has already fired.
    pub open spec fn spent(self) -> bool {
        !self.repeating && self.elapsed == self.duration
    }

    /// Whether a tick of `delta` makes the timer fire.
    pub open spec fn fires(self, delta: int) -> bool {
        !self.spent() && self.elapsed + delta >= self.duration
    }

    /// The timer after a tick of `delta` milliseconds.
    pub open spec fn after(self, delta: int) -> Timer {
        if self.spent() {
            self
        } else if self.elapsed + delta < self.duration {
            Timer { elapsed: (self.elapsed + delta) as u64, ..self }
        } else if self.repeating {
            Timer { elapsed: ((self.elapsed + delta) % (self.duration as int)) as u64, ..self }
        } else {
            Timer { elapsed: self.duration, ..self }
        }
    }

    /// A fresh timer of `duration` milliseconds.
    pub fn from_millis(duration: u64, repeating: bool) -> (r: Timer)
        requires
            0 < duration,
        ensures
            r == (Timer { duration, elapsed: 0, repeating }),
            r.wf(),
    {
        Timer { duration, elapsed: 0, repeating }
    }

    /// Advances the timer by `delta` milliseconds; true when it fired in
    /// this tick.
    pub fn tick(&mut self, delta: u64) -> (fired: bool)
        requires
            old(self).wf(),
        ensures
            fired == old(self).fires(delta as int),
            *final(self) == old(self).after(delta as int),
            final(self).wf(),
    {
        if !self.repeating && self.elapsed == self.duration {
            return false;
        }
        let left = self.duration - self.elapsed;
        if delta < left {
            self.elapsed = self.elapsed + delta;
            false
        } else if self.repeating {
            let over = delta - left;
            proof {
                let (e, d, dur) = (self.elapsed as int, delta as int, self.duration as int);
                assert((e + d) % dur == (d - (dur - e)) % dur) by {
                    vstd::arithmetic::div_mod::lemma_mod_sub_multiples_vanish(e + d, dur);
                }
            }
            self.elapsed = over % self.duration;
            true
        } else {
            self.elapsed = self.duration;
            true
        }
    }
}

} // verus!
