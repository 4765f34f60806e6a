use vstd::prelude::*;

verus! {

/// Decouples the fixed simulation step from the frame rate: elapsed wall
/// time, in microseconds, is accumulated and spent in whole steps.
pub struct StepClock {
    step_micros: u64,
    leftover: u64,
    steps_taken: u64,
}

impl StepClock {
    pub closed spec fn step_len(&self) -> int {
        self.step_micros as int
    }

    /// Time accumulated but not yet spent on a step.
    pub closed spec fn pending(&self) -> int {
        self.leftover as int
    }

    /// Steps handed out so far, saturating at the largest `u64`.
    pub closed spec fn total_steps(&self) -> int {
        self.steps_taken as int
    }

    pub open spec fn wf(&self) -> bool {
        self.step_len() > 0 && self.pending() < self.step_len()
    }

    /// A clock with the given step length; a zero length is refused.
    pub fn new(step_micros: u64) -> (r: Option<StepClock>)
        ensures
            step_micros == 0 <==> r.is_none(),
            r matches Some(c) ==> c.wf() && c.step_len() == step_micros && c.pending() == 0
                && c.total_steps() == 0,
    {
        if step_micros == 0 {
            None
        } else {
            Some(StepClock { step_micros, leftover: 0, steps_taken: 0 })
        }
    }

    /// Adds `elapsed` microseconds and returns how many whole steps to run
    /// now; the remainder is kept for the next frame.
    pub fn advance(&mut self, elapsed: u64) -> (r: u64)
        requires
            old(self).wf(),
        ensures
            final(self).wf(),
            final(self).step_len() == old(self).step_len(),
            r == (old(self).pending() + elapsed) / old(self).step_len(),
            final(self).pending() == (old(self).pending() + elapsed) % old(self).step_len(),
            final(self).total_steps() == if old(self).total_steps() + r > u64::MAX {
                u64::MAX as int
            } else {
                old(self).total_steps() + r
            },
    {
        let total: u128 = self.leftover as u128 + elapsed as u128;
        let step: u128 = self.step_micros as u128;
        let n: u128 = total / step;
        let rest: u128 = total % step;
        assert(n <= total) by (nonlinear_arith)
            requires
                step >= 1,
                n == total / step,
                total >= 0,
        ;
        assert(n <= u64::MAX) by {
            assert(total < 2 * 0x1_0000_0000_0000_0000u128);
            if step == 1 {
                assert(n == total) by (nonlinear_arith)
                    requires
                        step == 1,
                        n == total / step,
                ;
                assert(total <= u64::MAX) by (nonlinear_arith)
                    requires
                        total == self.leftover + elapsed,
                        self.leftover < step,
                        step == 1,
                ;
            } else {
                assert(n <= total / 2) by (nonlinear_arith)
                    requires
                        step >= 2,
                        n == total / step,
                        total >= 0,
                ;
            }
        }
        self.leftover = rest as u64;
        self.steps_taken = self.steps_taken.saturating_add(n as u64);
        n as u64
    }
}

} // verus!
