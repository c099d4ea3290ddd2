use vstd::prelude::*;

verus! {

/// Tracks, in CPU clock cycles, when the next maskable interrupt should be
/// considered; the dispatcher feeds it the cycle count once per step.
pub struct Interruptor {
    pub next_interrupt: u32,
}

impl Interruptor {
    pub fn new() -> (r: Self)
        ensures
            r.next_interrupt == 0,
    {
        Interruptor { next_interrupt: 0 }
    }

    /// Note the current cycle count; interrupt timing itself is driven by
    /// the attached devices through the port bus's poll.
    pub fn set_cycle(&mut self, cycles: u64)
        ensures
            *final(self) == *old(self),
    {
    }
}

} // verus!
