//! A counter that several threads increment. Callers share it behind a lock;
//! each operation here runs while the lock is held.

use vstd::prelude::*;

verus! {

/// A counter of increments.
pub struct SharedCounter {
    value: i32,
}

impl View for SharedCounter {
    type V = int;

    closed spec fn view(&self) -> int {
        self.value as int
    }
}

impl SharedCounter {
    /// A counter at zero.
    pub fn new() -> (c: SharedCounter)
        ensures
            c@ == 0,
    {
        SharedCounter { value: 0 }
    }

    /// Adds one and returns the new value.
    pub fn increment(&mut self) -> (r: i32)
        requires
            old(self)@ < i32::MAX,
        ensures
            final(self)@ == old(self)@ + 1,
            r == final(self)@,
    {
        self.value = self.value + 1;
        self.value
    }

    /// The current value.
    pub fn get(&self) -> (r: i32)
        ensures
            r == self@,
    {
        self.value
    }
}

/// Law: a fresh counter incremented `n` times reads `n`, and the increments
/// hand out 1, 2, ..., `n` in turn.
pub proof fn law_counter_counts(values: Seq<int>, n: nat)
    requires
        values.len() == n + 1,
        values[0] == 0,
        forall|i: int| 0 <= i < n ==> #[trigger] values[i + 1] == values[i] + 1,
    ensures
        values[n as int] == n,
        forall|i: int| 0 <= i <= n ==> #[trigger] values[i] == i,
    decreases n,
{
    if n > 0 {
        law_counter_counts(values.drop_last(), (n - 1) as nat);
        assert forall|i: int| 0 <= i <= n implies #[trigger] values[i] == i by {
            if i < n {
                assert(values.drop_last()[i] == values[i]);
            } else {
                assert(values.drop_last()[i - 1] == values[i - 1]);
            }
        }
    }
}

} // verus!
