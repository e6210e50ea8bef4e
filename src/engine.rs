use vstd::prelude::*;
use crate::cookies::{sat_add, Cookies};
use crate::network::{
    agree_below_outer, grid_wf, lemma_bid_always_affordable, lemma_outcome_ignores_outer_layer,
    lemma_quotes_carry_over, work_outcome, Network, SLOTS,
};
use crate::node::Node;
use crate::task::Signals;

verus! {

broadcast use vstd::array::group_array_axioms;

/// Number of ticks after which the tick counter starts again from zero.
pub const AGE_PERIOD: u8 = 62;

/// The reward each outer node gets before any reward was given.
pub const NEUTRAL_REWARD: u8 = 128;

/// The period of pulse channel `i`: 2, 3, 7, 11, 13, 17, 19 and 31.
pub open spec fn pulse_period(i: int) -> int {
    if i == 0 {
        2
    } else if i == 1 {
        3
    } else if i == 2 {
        7
    } else if i == 3 {
        11
    } else if i == 4 {
        13
    } else if i == 5 {
        17
    } else if i == 6 {
        19
    } else {
        31
    }
}

/// Pulse channel `i` is on at the ticks whose counter its period divides.
pub open spec fn pulse_on(age: u8, i: int) -> bool {
    (age as int) % pulse_period(i) == 0
}

/// `p` holds the pulse channels at tick counter `age`.
pub open spec fn are_pulses(p: [bool; 8], age: u8) -> bool {
    forall|i: int| 0 <= i < 8 ==> #[trigger] p@[i] == pulse_on(age, i)
}

/// The pulse channels at tick counter `age`.
pub open spec fn pulse_signals(age: u8) -> [bool; 8] {
    choose|p: [bool; 8]| are_pulses(p, age)
}

/// The tick counter after `age`: one more, back to zero at `AGE_PERIOD`.
pub open spec fn next_age(age: u8) -> u8 {
    if age + 1 >= 62 {
        0
    } else {
        (age + 1) as u8
    }
}

/// The tick counter after `n` ticks of an engine that started at zero.
pub open spec fn age_after(n: nat) -> u8
    decreases n,
{
    if n == 0 {
        0
    } else {
        next_age(age_after((n - 1) as nat))
    }
}

/// The outcome of the bid of outer node `slot` in a tick with signals `sig`.
pub open spec fn outer_outcome(nodes: Seq<Node>, rewards: Seq<Cookies>, sig: Signals, slot: int) -> (
    bool,
    u8,
) {
    work_outcome(nodes, 0, slot, nodes[slot].task, nodes[slot].stock.0, rewards[slot].0, sig)
}

/// The outputs of the outer layer in a tick with signals `sig`.
pub open spec fn tick_outputs(nodes: Seq<Node>, rewards: Seq<Cookies>, sig: Signals) -> Seq<bool> {
    Seq::new(8, |slot: int| outer_outcome(nodes, rewards, sig, slot).0)
}

/// The grid after a tick with signals `sig`: each outer node keeps the balance
/// its bid left it with; every deeper node is as it was.
pub open spec fn after_tick(nodes: Seq<Node>, rewards: Seq<Cookies>, sig: Signals) -> Seq<Node> {
    Seq::new(
        nodes.len(),
        |i: int|
            if i < 8 {
                Node { stock: Cookies(outer_outcome(nodes, rewards, sig, i).1), ..nodes[i] }
            } else {
                nodes[i]
            },
    )
}

/// What an engine holds: its grid, its tick counter and the rewards for the
/// next tick.
pub struct EngineView {
    pub nodes: Seq<Node>,
    pub age: u8,
    pub rewards: Seq<Cookies>,
}

/// Runs the market one tick at a time for the outer layer of a grid.
pub struct Engine {
    network: Network,
    age: u8,
    rewards: [Cookies; 8],
}

/// The pulse channels at tick counter `age`.
pub fn pulses(age: u8) -> (r: [bool; 8])
    ensures
        are_pulses(r, age),
        r == pulse_signals(age),
{
    let r = [
        age % 2 == 0,
        age % 3 == 0,
        age % 7 == 0,
        age % 11 == 0,
        age % 13 == 0,
        age % 17 == 0,
        age % 19 == 0,
        age % 31 == 0,
    ];
    assert forall|i: int| 0 <= i < 8 implies #[trigger] r@[i] == pulse_on(age, i) by {}
    assert(are_pulses(r, age));
    let ghost p = pulse_signals(age);
    assert(p =~= r);
    r
}

impl View for Engine {
    type V = EngineView;

    closed spec fn view(&self) -> EngineView {
        EngineView { nodes: self.network@, age: self.age, rewards: self.rewards@ }
    }
}

impl Engine {
    /// The engine is sound: a full grid, a counter below `AGE_PERIOD` and one
    /// reward per outer node.
    pub open spec fn wf(&self) -> bool {
        &&& grid_wf(self@.nodes)
        &&& self@.age < 62
        &&& self@.rewards.len() == 8
    }

    /// An engine on `network`, at tick zero, with the neutral reward for every
    /// outer node.
    pub fn with_network(network: Network) -> (r: Engine)
        requires
            grid_wf(network@),
        ensures
            r.wf(),
            r@.nodes == network@,
            r@.age == 0,
            forall|i: int| 0 <= i < 8 ==> (#[trigger] r@.rewards[i]).0 == NEUTRAL_REWARD,
    {
        Engine { network, age: 0, rewards: [Cookies(NEUTRAL_REWARD); 8] }
    }

    /// An engine on a grid of random tasks and empty balances.
    pub fn new() -> (r: Engine)
        ensures
            r.wf(),
            r@.age == 0,
            forall|i: int| 0 <= i < 64 ==> (#[trigger] r@.nodes[i]).stock.0 == 0,
            forall|i: int| 0 <= i < 8 ==> (#[trigger] r@.rewards[i]).0 == NEUTRAL_REWARD,
    {
        Engine::with_network(Network::new())
    }

    /// The tick counter.
    pub fn age(&self) -> (r: u8)
        ensures
            r == self@.age,
    {
        self.age
    }

    /// The grid.
    pub fn network(&self) -> (r: &Network)
        ensures
            r@ == self@.nodes,
    {
        &self.network
    }

    /// The rewards kept for the next tick.
    pub fn rewards(&self) -> (r: [Cookies; 8])
        ensures
            r@ == self@.rewards,
    {
        self.rewards
    }

    /// Keeps `values` as the rewards of the outer nodes for the next tick.
    pub fn reward(&mut self, values: [u8; 8])
        requires
            old(self).wf(),
        ensures
            final(self).wf(),
            final(self)@.nodes == old(self)@.nodes,
            final(self)@.age == old(self)@.age,
            forall|i: int| 0 <= i < 8 ==> (#[trigger] final(self)@.rewards[i]).0 == values@[i],
    {
        let mut slot: usize = 0;
        while slot < SLOTS
            invariant
                slot <= 8,
                self.wf(),
                self@.nodes == old(self)@.nodes,
                self@.age == old(self)@.age,
                forall|i: int| 0 <= i < slot ==> (#[trigger] self@.rewards[i]).0 == values@[i],
            decreases 8 - slot,
        {
            self.rewards[slot] = Cookies(values[slot]);
            slot = slot + 1;
        }
    }

    /// Runs one tick on `input`: each outer node in turn bids on a copy with
    /// its reward and the copy, with the balance its bid left it, is stored
    /// back in the grid; the outer layer's outputs are returned and the counter
    /// moves on. No bid reads the outer layer, so the order does not matter.
    pub fn update(&mut self, input: [bool; 8]) -> (r: [bool; 8])
        requires
            old(self).wf(),
        ensures
            final(self).wf(),
            r@ == tick_outputs(
                old(self)@.nodes,
                old(self)@.rewards,
                Signals { input, pulse: pulse_signals(old(self)@.age) },
            ),
            final(self)@.nodes == after_tick(
                old(self)@.nodes,
                old(self)@.rewards,
                Signals { input, pulse: pulse_signals(old(self)@.age) },
            ),
            final(self)@.age == next_age(old(self)@.age),
            final(self)@.rewards == old(self)@.rewards,
    {
        let signals = Signals { input, pulse: pulses(self.age) };
        let quotes = self.network.quotes();
        let ghost nodes = self@.nodes;
        let ghost rewards = self@.rewards;
        let mut out = [false; 8];
        let mut slot: usize = 0;
        while slot < SLOTS
            invariant
                slot <= 8,
                self.wf(),
                self@.age == old(self)@.age,
                nodes == old(self)@.nodes,
                rewards == self@.rewards,
                grid_wf(nodes),
                quotes.quote(nodes),
                agree_below_outer(nodes, self@.nodes),
                forall|i: int|
                    0 <= i < 8 ==> #[trigger] self@.nodes[i] == if i < slot {
                        Node { stock: Cookies(outer_outcome(nodes, rewards, signals, i).1), ..nodes[i] }
                    } else {
                        nodes[i]
                    },
                forall|i: int|
                    0 <= i < slot ==> #[trigger] out@[i] == outer_outcome(nodes, rewards, signals, i).0,
            decreases 8 - slot,
        {
            let mut node = self.network.node(0, slot);
            proof {
                lemma_quotes_carry_over(&quotes, nodes, self@.nodes);
                lemma_outcome_ignores_outer_layer(
                    self@.nodes,
                    nodes,
                    0,
                    slot as int,
                    node.task,
                    node.stock.0,
                    rewards[slot as int].0,
                    signals,
                );
            }
            let done = node.work_quoted(self.rewards[slot], signals, &self.network, &quotes);
            out[slot] = done;
            self.network.write_back(node);
            slot = slot + 1;
        }
        self.age = if self.age + 1 >= AGE_PERIOD {
            0
        } else {
            self.age + 1
        };
        assert(self@.nodes =~= after_tick(nodes, rewards, signals));
        assert(out@ =~= tick_outputs(nodes, rewards, signals));
        out
    }
}

/// The tick counter runs through 0, 1, ..., 61 and starts again: after `n`
/// ticks from zero it stands at `n % 62`, so it is back to zero exactly on the
/// 62nd tick.
pub proof fn lemma_age_cycle(n: nat)
    ensures
        age_after(n) == n % 62,
        age_after(n) == 0 <==> n % 62 == 0,
    decreases n,
{
    if n > 0 {
        lemma_age_cycle((n - 1) as nat);
    }
}

/// A tick is a function of the engine's state and the input alone: engines
/// that hold the same grid, counter and rewards and get the same input give
/// the same outputs and end in the same state.
pub proof fn lemma_tick_is_determined(a: EngineView, b: EngineView, input: [bool; 8])
    requires
        a.nodes == b.nodes,
        a.age == b.age,
        a.rewards == b.rewards,
    ensures
        tick_outputs(a.nodes, a.rewards, Signals { input, pulse: pulse_signals(a.age) })
            == tick_outputs(b.nodes, b.rewards, Signals { input, pulse: pulse_signals(b.age) }),
        after_tick(a.nodes, a.rewards, Signals { input, pulse: pulse_signals(a.age) })
            == after_tick(b.nodes, b.rewards, Signals { input, pulse: pulse_signals(b.age) }),
        next_age(a.age) == next_age(b.age),
{
}

/// A tick changes the grid on the outer layer only, and there only the
/// balances: each outer node ends with its balance credited with its reward,
/// while every deeper node is left as it was.
pub proof fn lemma_tick_credits_outer_layer(nodes: Seq<Node>, rewards: Seq<Cookies>, sig: Signals)
    requires
        grid_wf(nodes),
        rewards.len() == 8,
    ensures
        grid_wf(after_tick(nodes, rewards, sig)),
        forall|i: int| 8 <= i < 64 ==> #[trigger] after_tick(nodes, rewards, sig)[i] == nodes[i],
        forall|s: int|
            0 <= s < 8 ==> {
                let after = #[trigger] after_tick(nodes, rewards, sig)[s];
                &&& after.layer == nodes[s].layer
                &&& after.slot == nodes[s].slot
                &&& after.task == nodes[s].task
                &&& after.stock.0 == sat_add(nodes[s].stock.0, rewards[s].0)
            },
{
    let after = after_tick(nodes, rewards, sig);
    assert forall|s: int| 0 <= s < 8 implies (#[trigger] after[s]).stock.0 == sat_add(
        nodes[s].stock.0,
        rewards[s].0,
    ) by {
        lemma_bid_always_affordable(nodes, 0, nodes[s].stock.0);
    }
    assert forall|l: int, s: int| 0 <= l < 8 && 0 <= s < 8 implies (#[trigger] after[l * 8
        + s]).layer == l && after[l * 8 + s].slot == s by {
        assert(nodes[l * 8 + s].layer == l);
    }
}

/// Rewards decide what an outer node has to bid with next: a tick after a
/// reward of 0 leaves each outer node with the balance it had, one after a
/// reward of 255 fills it to 255, so the first leaves strictly less wherever
/// the balance was not already full.
pub proof fn lemma_reward_decides_next_balance(
    nodes: Seq<Node>,
    none: Seq<Cookies>,
    full: Seq<Cookies>,
    sig: Signals,
)
    requires
        grid_wf(nodes),
        none.len() == 8,
        full.len() == 8,
        forall|s: int| 0 <= s < 8 ==> (#[trigger] none[s]).0 == 0,
        forall|s: int| 0 <= s < 8 ==> (#[trigger] full[s]).0 == 255,
    ensures
        forall|s: int|
            0 <= s < 8 ==> (#[trigger] after_tick(nodes, none, sig)[s]).stock == nodes[s].stock,
        forall|s: int| 0 <= s < 8 ==> (#[trigger] after_tick(nodes, full, sig)[s]).stock.0 == 255,
        forall|s: int|
            0 <= s < 8 && nodes[s].stock.0 < 255 ==> (#[trigger] after_tick(nodes, none, sig)[s]).stock.0
                < after_tick(nodes, full, sig)[s].stock.0,
{
    lemma_tick_credits_outer_layer(nodes, none, sig);
    lemma_tick_credits_outer_layer(nodes, full, sig);
}

} // verus!
