use vstd::prelude::*;
use vstd::wrapping::u64_specs::{wrapping_add, wrapping_mul};

verus! {

/// A source of pseudo-random numbers. A type that states its draws sets
/// `draws_known`; for one that does not, only the bounds of a draw are promised.
pub trait Rand: Sized {
    /// Whether `next_below` and `after_below` give the next draw.
    open spec fn draws_known(&self) -> bool {
        false
    }

    /// The number that the next draw below `upper_bound` gives.
    open spec fn next_below(&self, upper_bound: usize) -> usize {
        0
    }

    /// The source after that draw.
    open spec fn after_below(&self, upper_bound: usize) -> Self {
        *self
    }

    /// A number in `[0, upper_bound)`.
    fn below(&mut self, upper_bound: usize) -> (r: usize)
        requires
            upper_bound > 0,
        ensures
            r < upper_bound,
            old(self).draws_known() ==> r == old(self).next_below(upper_bound) && *final(self)
                == old(self).after_below(upper_bound) && final(self).draws_known(),
    ;

    /// A number in `[0, upper_bound)`, or zero, drawing nothing, where `upper_bound`
    /// is zero.
    fn below_or_zero(&mut self, upper_bound: usize) -> (r: usize)
        ensures
            upper_bound == 0 ==> r == 0 && *final(self) == *old(self),
            upper_bound > 0 ==> r < upper_bound,
            upper_bound > 0 && old(self).draws_known() ==> r == old(self).next_below(upper_bound)
                && *final(self) == old(self).after_below(upper_bound),
    {
        if upper_bound == 0 {
            0
        } else {
            self.below(upper_bound)
        }
    }
}

/// The step that SplitMix64 adds to its state before each output.
pub const SPLITMIX_GAMMA: u64 = 0x9e37_79b9_7f4a_7c15;

/// The SplitMix64 output for the state `z`.
pub open spec fn splitmix_mix(z: u64) -> u64 {
    let z1 = wrapping_mul(z ^ (z >> 30u64), 0xbf58_476d_1ce4_e5b9);
    let z2 = wrapping_mul(z1 ^ (z1 >> 27u64), 0x94d0_49bb_1331_11eb);
    z2 ^ (z2 >> 31u64)
}

/// A seedable generator: the SplitMix64 sequence. It is this library's own
/// generator, so a given seed gives other numbers than other generators do.
#[derive(Debug, Clone, Copy)]
pub struct StdRand {
    state: u64,
}

impl StdRand {
    /// The state the next output is made from.
    pub closed spec fn state_spec(&self) -> u64 {
        self.state
    }

    pub fn with_seed(seed: u64) -> (r: StdRand)
        ensures
            r.state_spec() == seed,
    {
        StdRand { state: seed }
    }

    /// The next number of the sequence.
    pub fn next(&mut self) -> (r: u64)
        ensures
            final(self).state_spec() == wrapping_add(old(self).state_spec(), SPLITMIX_GAMMA),
            r == splitmix_mix(final(self).state_spec()),
    {
        self.state = self.state.wrapping_add(SPLITMIX_GAMMA);
        let z = self.state;
        let z1 = (z ^ (z >> 30u64)).wrapping_mul(0xbf58_476d_1ce4_e5b9);
        let z2 = (z1 ^ (z1 >> 27u64)).wrapping_mul(0x94d0_49bb_1331_11eb);
        z2 ^ (z2 >> 31u64)
    }
}

impl Rand for StdRand {
    open spec fn draws_known(&self) -> bool {
        true
    }

    open spec fn next_below(&self, upper_bound: usize) -> usize {
        (splitmix_mix(wrapping_add(self.state_spec(), SPLITMIX_GAMMA)) % (upper_bound as u64)) as usize
    }

    closed spec fn after_below(&self, upper_bound: usize) -> StdRand {
        StdRand { state: wrapping_add(self.state, SPLITMIX_GAMMA) }
    }

    fn below(&mut self, upper_bound: usize) -> (r: usize) {
        let x = self.next();
        (x % (upper_bound as u64)) as usize
    }
}

} // verus!
