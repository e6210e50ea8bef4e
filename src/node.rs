use vstd::prelude::*;
use crate::cookies::{sat_add, sat_sub, Cookies};
use crate::network::{
    asking, chosen_links, grid_wf, lemma_price_unfold, outsourced, price, resolved, work_outcome,
    Network, Quotes, DEEPEST,
};
use crate::task::{Link, Signals, Task};

verus! {

/// A decision unit at `(layer, slot)` of the grid, with its task and balance.
#[derive(Copy, Clone, Debug)]
pub struct Node {
    pub layer: usize,
    pub slot: usize,
    pub task: Task,
    pub stock: Cookies,
}

/// Reads the value a link delivers: a signal, or the output of a copy of the
/// deeper node, rewarded with `pay`. The copy's new balance is dropped.
fn resolve_link(
    layer: usize,
    link: Link,
    pay: Cookies,
    signals: Signals,
    network: &Network,
    quotes: &Quotes,
) -> (r: bool)
    requires
        grid_wf(network@),
        quotes.quote(network@),
        layer < 8,
        match link {
            Link::Node(s) => s < 8,
            Link::Input(c) => c < 8,
            Link::Pulse(c) => c < 8,
        },
    ensures
        r == resolved(network@, layer as int, link, pay.0, signals),
    decreases 8 - layer, 0int,
{
    match link {
        Link::Input(c) => signals.input[c],
        Link::Pulse(c) => signals.pulse[c],
        Link::Node(s) => {
            if layer < DEEPEST {
                let mut child = network.node(layer + 1, s);
                child.work_quoted(pay, signals, network, quotes)
            } else {
                false
            }
        },
    }
}

impl Node {
    /// A node at `(layer, slot)` with `task` and an empty balance.
    pub fn new(layer: usize, slot: usize, task: Task) -> (r: Node)
        ensures
            r == (Node { layer, slot, task, stock: Cookies(0) }),
    {
        Node { layer, slot, task, stock: Cookies(0) }
    }

    /// The price this node asks, read from the quotes of the grid.
    pub(crate) fn proposition_quoted(&self, network: &Network, quotes: &Quotes) -> (r: Cookies)
        requires
            quotes.quote(network@),
            self.layer < 8,
        ensures
            r.0 == price(network@, self.layer as int, self.stock.0),
    {
        let deeper = if self.layer < DEEPEST {
            Cookies(quotes.best_price[self.layer + 1])
        } else {
            Cookies(0)
        };
        proof {
            lemma_price_unfold(network@, self.layer as int, self.stock.0, deeper.0);
        }
        asking(self.layer, self.stock, deeper)
    }

    /// The links this node chooses, read from the quotes of the grid.
    pub(crate) fn links_quoted(&self, network: &Network, quotes: &Quotes) -> (r: (Link, Link))
        requires
            quotes.quote(network@),
            self.layer < 8,
            self.slot < 8,
        ensures
            r == chosen_links(network@, self.layer as int, self.slot as int, self.stock.0),
            r.0 matches Link::Node(s) ==> s < 8,
            r.1 matches Link::Node(s) ==> s < 8,
    {
        if self.layer < DEEPEST && Cookies(quotes.best_price[self.layer + 1]) <= self.stock.half() {
            let c = quotes.best_slot[self.layer + 1];
            (Link::Node(c), Link::Node(c))
        } else if self.layer % 2 == 0 {
            (Link::Input(self.slot), Link::Pulse(self.slot))
        } else {
            (Link::Pulse(self.slot), Link::Input(self.slot))
        }
    }

    /// `outsource` with the quotes of the grid at hand.
    pub(crate) fn outsource_quoted(
        &self,
        pay: Cookies,
        signals: Signals,
        network: &Network,
        quotes: &Quotes,
    ) -> (r: bool)
        requires
            grid_wf(network@),
            quotes.quote(network@),
            self.layer < 8,
            self.slot < 8,
        ensures
            r == outsourced(
                network@,
                self.layer as int,
                self.slot as int,
                self.task,
                self.stock.0,
                pay.0,
                signals,
            ),
        decreases 8 - self.layer, 1int,
    {
        let links = self.links_quoted(network, quotes);
        let a = resolve_link(self.layer, links.0, pay, signals, network, quotes);
        let b = resolve_link(self.layer, links.1, pay, signals, network, quotes);
        self.task.evaluate(a, b)
    }

    /// `work` with the quotes of the grid at hand.
    pub(crate) fn work_quoted(
        &mut self,
        reward: Cookies,
        signals: Signals,
        network: &Network,
        quotes: &Quotes,
    ) -> (r: bool)
        requires
            grid_wf(network@),
            quotes.quote(network@),
            old(self).layer < 8,
            old(self).slot < 8,
        ensures
            (r, final(self).stock.0) == work_outcome(
                network@,
                old(self).layer as int,
                old(self).slot as int,
                old(self).task,
                old(self).stock.0,
                reward.0,
                signals,
            ),
            final(self).layer == old(self).layer,
            final(self).slot == old(self).slot,
            final(self).task == old(self).task,
        decreases 8 - old(self).layer, 2int,
    {
        let asked = self.proposition_quoted(network, quotes);
        if self.stock < asked.subtract(Cookies(1)) {
            return false;
        }
        self.stock.add_assign(reward);
        let pay = self.stock.subtract(Cookies(1)).half();
        self.outsource_quoted(pay, signals, network, quotes)
    }

    /// The price this node asks for its output: what its two chosen links cost
    /// (the price of a deeper node, nothing for a signal) plus a fee of one.
    pub fn proposition(&self, network: &Network) -> (r: Cookies)
        requires
            grid_wf(network@),
            self.layer < 8,
        ensures
            r.0 == price(network@, self.layer as int, self.stock.0),
    {
        let quotes = network.quotes();
        self.proposition_quoted(network, &quotes)
    }

    /// The two links this node would buy from with its current balance.
    pub fn find_resources(&self, network: &Network) -> (r: (Link, Link))
        requires
            grid_wf(network@),
            self.layer < 8,
            self.slot < 8,
        ensures
            r == chosen_links(network@, self.layer as int, self.slot as int, self.stock.0),
            self.layer == DEEPEST ==> !(r.0 is Node) && !(r.1 is Node),
    {
        let quotes = network.quotes();
        self.links_quoted(network, &quotes)
    }

    /// Resolves both chosen links, paying `pay` to each deeper node bought
    /// from, and applies the task to the two values.
    pub fn outsource(&self, pay: Cookies, signals: Signals, network: &Network) -> (r: bool)
        requires
            grid_wf(network@),
            self.layer < 8,
            self.slot < 8,
        ensures
            r == outsourced(
                network@,
                self.layer as int,
                self.slot as int,
                self.task,
                self.stock.0,
                pay.0,
                signals,
            ),
    {
        let quotes = network.quotes();
        self.outsource_quoted(pay, signals, network, &quotes)
    }

    /// Bids for this tick. A node that holds less than its price minus its fee
    /// answers `false` and keeps its balance; otherwise it is credited with
    /// `reward`, hands half of its new balance less one as reward to each
    /// deeper node it buys from (without taking it from its own balance), and
    /// answers its task applied to what it bought.
    pub fn work(&mut self, reward: Cookies, signals: Signals, network: &Network) -> (r: bool)
        requires
            grid_wf(network@),
            old(self).layer < 8,
            old(self).slot < 8,
        ensures
            (r, final(self).stock.0) == work_outcome(
                network@,
                old(self).layer as int,
                old(self).slot as int,
                old(self).task,
                old(self).stock.0,
                reward.0,
                signals,
            ),
            old(self).stock.0 < sat_sub(price(network@, old(self).layer as int, old(self).stock.0), 1)
                ==> !r && final(self).stock == old(self).stock,
            old(self).stock.0 >= sat_sub(price(network@, old(self).layer as int, old(self).stock.0), 1)
                ==> final(self).stock.0 == sat_add(old(self).stock.0, reward.0),
            final(self).layer == old(self).layer,
            final(self).slot == old(self).slot,
            final(self).task == old(self).task,
    {
        let quotes = network.quotes();
        self.work_quoted(reward, signals, network, &quotes)
    }
}

} // verus!
