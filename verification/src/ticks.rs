//! The counter that says when readings are due.
use vstd::prelude::*;

verus! {

/// A count of the ticks since the readings were last taken. It can always count
/// one more.
#[derive(Debug, Clone, Copy)]
pub struct TickCounter {
    count: u64,
}

impl View for TickCounter {
    type V = nat;

    closed spec fn view(&self) -> nat {
        self.count as nat
    }
}

impl TickCounter {
    #[verifier::type_invariant]
    spec fn can_count_on(self) -> bool {
        self.count < u64::MAX
    }

    /// A counter that has counted nothing.
    pub fn new() -> (r: Self)
        ensures
            r@ == 0,
    {
        TickCounter { count: 0 }
    }

    /// The ticks counted.
    pub fn count(&self) -> (r: u64)
        ensures
            r == self@,
    {
        self.count
    }

    /// Counts one tick, and says whether that makes `interval` ticks or more; the
    /// count then starts over.
    pub fn advance(&mut self, interval: u64) -> (due: bool)
        ensures
            due == (old(self)@ + 1 >= interval),
            final(self)@ == (if due {
                0
            } else {
                old(self)@ + 1
            }),
    {
        proof {
            use_type_invariant(&*self);
        }
        let next = self.count + 1;
        if next >= interval {
            self.count = 0;
            true
        } else {
            self.count = next;
            false
        }
    }
}

} // verus!
