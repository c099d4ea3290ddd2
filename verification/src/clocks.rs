use vstd::prelude::*;

verus! {

/// Number of values a 64-bit cycle counter can take; the counter wraps at
/// this modulus.
pub open spec fn cycle_modulus() -> int {
    0x1_0000_0000_0000_0000
}

/// Cycle count after adding `inc` T-states to `cycles`, wrapping on overflow.
pub open spec fn cycles_after(cycles: u64, inc: u32) -> int {
    (cycles + inc) % cycle_modulus()
}

/// Monotonically increasing (wrapping) counter of CPU clock cycles.
pub struct Clock {
    pub cycles: u64,
}

impl Clock {
    pub fn new() -> (r: Self)
        ensures
            r.cycles == 0,
    {
        Self { cycles: 0 }
    }

    pub fn increment(&mut self, inc: u32)
        ensures
            final(self).cycles == cycles_after(old(self).cycles, inc),
    {
        self.cycles = self.cycles.wrapping_add(inc as u64);
    }
}

} // verus!
