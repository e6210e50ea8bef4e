use vstd::prelude::*;

verus! {

/// A two-input boolean operator that a node applies to what it bought.
#[derive(Copy, Clone, Debug, PartialEq, Eq, Structural)]
pub enum Task {
    And,
    Nand,
    Or,
    Xor,
}

impl Task {
    /// The truth table of the task.
    pub open spec fn apply(self, a: bool, b: bool) -> bool {
        match self {
            Task::And => a && b,
            Task::Nand => !(a && b),
            Task::Or => a || b,
            Task::Xor => a != b,
        }
    }

    /// Applies the task to its two inputs.
    pub fn evaluate(&self, a: bool, b: bool) -> (r: bool)
        ensures
            r == self.apply(a, b),
    {
        match self {
            Task::And => a && b,
            Task::Nand => !(a && b),
            Task::Or => a || b,
            Task::Xor => a != b,
        }
    }

    /// The task numbered `k`, counting And, Nand, Or, Xor from zero, modulo four.
    pub open spec fn numbered(k: u8) -> Task {
        if k % 4 == 0 {
            Task::And
        } else if k % 4 == 1 {
            Task::Nand
        } else if k % 4 == 2 {
            Task::Or
        } else {
            Task::Xor
        }
    }

    /// Picks the task numbered `k` (see `numbered`).
    pub fn from_index(k: u8) -> (r: Task)
        ensures
            r == Task::numbered(k),
    {
        if k % 4 == 0 {
            Task::And
        } else if k % 4 == 1 {
            Task::Nand
        } else if k % 4 == 2 {
            Task::Or
        } else {
            Task::Xor
        }
    }
}

/// Where a node takes one of its two inputs from during one evaluation.
#[derive(Copy, Clone, Debug, PartialEq, Eq, Structural)]
pub enum Link {
    /// An external sensor channel.
    Input(usize),
    /// A periodic pulse channel.
    Pulse(usize),
    /// The node in this slot of the next deeper layer.
    Node(usize),
}

/// The signals of one tick: the external inputs and the periodic pulses.
#[derive(Copy, Clone, Debug)]
pub struct Signals {
    pub input: [bool; 8],
    pub pulse: [bool; 8],
}

impl Signals {
    /// The value a signal link reads; a node link reads nothing here.
    pub open spec fn read(self, link: Link) -> bool {
        match link {
            Link::Input(c) => self.input@[c as int],
            Link::Pulse(c) => self.pulse@[c as int],
            Link::Node(_) => false,
        }
    }
}

} // verus!
