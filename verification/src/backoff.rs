//! Idle backoff for a consumer that finds its queue empty: spin briefly,
//! then yield to the scheduler, then park.

use vstd::prelude::*;

verus! {

/// Last step that spins; step `s` spins `2^s` times.
pub const SPIN_LIMIT: u32 = 6;

/// Last step that yields.
pub const YIELD_LIMIT: u32 = 10;

/// How long a parked consumer sleeps, in microseconds.
pub const PARK_MICROS: u64 = 100;

/// What an idle consumer does next.
#[derive(Debug, Clone, Copy, PartialEq, Eq, Structural)]
pub enum Pause {
    /// Execute this many spin-pause instructions.
    Spin(u32),
    /// Give the time slice back to the scheduler.
    Yield,
    /// Sleep for this many microseconds.
    Park(u64),
}

/// Two to the power `step`, for the steps that spin.
pub open spec fn spins_at(step: u32) -> u32 {
    if step == 0 {
        1
    } else if step == 1 {
        2
    } else if step == 2 {
        4
    } else if step == 3 {
        8
    } else if step == 4 {
        16
    } else if step == 5 {
        32
    } else {
        64
    }
}

/// The pause taken at `step`: a spin up to step 6, a yield up to step 10, a
/// park from step 11 on.
pub open spec fn pause_at(step: u32) -> Pause {
    if step <= SPIN_LIMIT {
        Pause::Spin(spins_at(step))
    } else if step <= YIELD_LIMIT {
        Pause::Yield
    } else {
        Pause::Park(PARK_MICROS)
    }
}

/// The step after `step`: one more, never beyond 11.
pub open spec fn step_after(step: u32) -> u32 {
    if step >= YIELD_LIMIT + 1 {
        (YIELD_LIMIT + 1) as u32
    } else {
        (step + 1) as u32
    }
}

/// The backoff state: how many empty polls in a row, capped at 11.
#[derive(Debug, Clone, Copy)]
pub struct Backoff {
    step: u32,
}

impl View for Backoff {
    type V = u32;

    closed spec fn view(&self) -> u32 {
        self.step
    }
}

impl Backoff {
    /// A backoff at step 0.
    pub fn new() -> (b: Backoff)
        ensures
            b@ == 0,
    {
        Backoff { step: 0 }
    }

    /// Back to step 0, after any successful work.
    pub fn reset(&mut self)
        ensures
            final(self)@ == 0,
    {
        self.step = 0;
    }

    /// True while the next pause is a spin.
    pub fn is_spinning(&self) -> (b: bool)
        ensures
            b == (self@ <= SPIN_LIMIT),
    {
        self.step <= SPIN_LIMIT
    }

    /// The current step.
    pub fn step(&self) -> (s: u32)
        ensures
            s == self@,
    {
        self.step
    }

    /// Returns the pause for the current step and moves to the next step.
    /// The caller performs the pause.
    pub fn snooze(&mut self) -> (p: Pause)
        ensures
            p == pause_at(old(self)@),
            final(self)@ == step_after(old(self)@),
    {
        let p = if self.step <= SPIN_LIMIT {
            let spins: u32 = 1u32 << self.step;
            proof {
                let s: u32 = self.step;
                assert(s <= 6 ==> 1u32 << s == (if s == 0 {
                    1u32
                } else if s == 1 {
                    2u32
                } else if s == 2 {
                    4u32
                } else if s == 3 {
                    8u32
                } else if s == 4 {
                    16u32
                } else if s == 5 {
                    32u32
                } else {
                    64u32
                })) by (bit_vector);
            }
            Pause::Spin(spins)
        } else if self.step <= YIELD_LIMIT {
            Pause::Yield
        } else {
            Pause::Park(PARK_MICROS)
        };
        self.step = if self.step >= YIELD_LIMIT + 1 {
            YIELD_LIMIT + 1
        } else {
            self.step + 1
        };
        p
    }
}

impl Default for Backoff {
    fn default() -> (b: Backoff)
        ensures
            b@ == 0,
    {
        Backoff::new()
    }
}

/// After any number of empty polls the step is at most 11, and from step 11
/// on every pause is a park.
pub proof fn lemma_step_saturates(step: u32)
    ensures
        step <= YIELD_LIMIT + 1 ==> step_after(step) <= YIELD_LIMIT + 1,
        step_after((YIELD_LIMIT + 1) as u32) == YIELD_LIMIT + 1,
        step >= YIELD_LIMIT + 1 ==> pause_at(step) == Pause::Park(PARK_MICROS),
{
}

} // verus!
