use vstd::prelude::*;

verus! {

/// The fewest inputs a pilot reads.
pub const MIN_INPUTS: usize = 1;

/// The most inputs a pilot reads.
pub const MAX_INPUTS: usize = 12;

/// The number of inputs a pilot asked for `requested` reads: the request
/// held between `MIN_INPUTS` and `MAX_INPUTS`.
pub fn input_count_for(requested: usize) -> (r: usize)
    ensures
        r == if requested < 1 {
            1
        } else if requested > 12 {
            12
        } else {
            requested
        },
{
    if requested < MIN_INPUTS {
        MIN_INPUTS
    } else if requested > MAX_INPUTS {
        MAX_INPUTS
    } else {
        requested
    }
}

/// Which of a pilot's two setups evolution builds on.
#[derive(Copy, Clone, Debug, PartialEq, Eq, Structural)]
pub enum Survivor {
    /// The active setup becomes the previous one and evolves on.
    Active,
    /// The previous setup replaces the active one and evolves again.
    Previous,
}

/// The setup with more rewards survives; on equal rewards the one with the
/// longer run (larger age) does, the previous one on equal ages too.
pub fn survivor(prev_rewards: u64, active_rewards: u64, prev_age: u64, active_age: u64) -> (r:
    Survivor)
    ensures
        r == if prev_rewards != active_rewards {
            if prev_rewards < active_rewards {
                Survivor::Active
            } else {
                Survivor::Previous
            }
        } else if prev_age < active_age {
            Survivor::Active
        } else {
            Survivor::Previous
        },
{
    if prev_rewards < active_rewards {
        Survivor::Active
    } else if prev_rewards > active_rewards {
        Survivor::Previous
    } else if prev_age < active_age {
        Survivor::Active
    } else {
        Survivor::Previous
    }
}

} // verus!
