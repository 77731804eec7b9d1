use vstd::prelude::*;

verus! {

/// One step of the linear congruential generator: `s * 1664525 +
/// 1013904223` modulo 2^32.
pub open spec fn lcg_step(s: u32) -> u32 {
    ((s as int * 1664525 + 1013904223) % 0x1_0000_0000) as u32
}

/// The linear congruential generator that deals the pieces.
#[derive(Debug, Clone, Copy, PartialEq, Eq, Structural)]
pub struct Lcg(pub u32);

impl Lcg {
    /// A generator with state `seed`.
    pub fn new(seed: u32) -> (r: Self)
        ensures
            r.0 == seed,
    {
        Lcg(seed)
    }

    /// Advances the state by one step and returns the new state.
    pub fn next_u32(&mut self) -> (r: u32)
        ensures
            r == lcg_step(old(self).0),
            final(self).0 == r,
    {
        self.0 = lcg_next(self.0);
        self.0
    }
}

/// The state after `s` in the generator's sequence.
pub fn lcg_next(s: u32) -> (r: u32)
    ensures
        r == lcg_step(s),
{
    let r = s.wrapping_mul(1664525).wrapping_add(1013904223);
    assert(r == lcg_step(s)) by (bit_vector)
        requires
            r == s.wrapping_mul(1664525).wrapping_add(1013904223),
    ;
    r
}

} // verus!
