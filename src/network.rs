use vstd::prelude::*;
use crate::chance::below;
use crate::cookies::{sat_add, sat_sub, Cookies};
use crate::node::Node;
use crate::task::{Link, Signals, Task};

verus! {

/// Number of layers of the grid; layer 0 is the outer layer.
pub const LAYERS: usize = 8;

/// Number of slots in each layer.
pub const SLOTS: usize = 8;

/// The deepest layer, whose nodes can only read signals.
pub const DEEPEST: usize = 7;

/// The stored balance of the node at `(layer, slot)`.
pub open spec fn stock_at(net: Seq<Node>, layer: int, slot: int) -> u8 {
    net[layer * 8 + slot].stock.0
}

/// A grid of 8 layers of 8 nodes, laid out layer by layer, each node
/// carrying its own address.
pub open spec fn grid_wf(net: Seq<Node>) -> bool {
    &&& net.len() == 64
    &&& forall|l: int, s: int|
        0 <= l < 8 && 0 <= s < 8 ==> (#[trigger] net[l * 8 + s]).layer == l && net[l * 8
            + s].slot == s
}

/// What a node at `layer` holding `stock` asks when the cheapest node one
/// layer deeper asks `deeper`: twice that price plus a fee of one if it would
/// buy from that node, only the fee if it falls back to signals.
///
/// A node buys from the deeper node only while that price is at most half its
/// own balance; the deepest layer always falls back.
pub open spec fn asking_price(layer: int, stock: u8, deeper: u8) -> u8 {
    if 0 <= layer < 7 && deeper <= stock / 2 {
        sat_add(sat_add(deeper, deeper), 1)
    } else {
        1
    }
}

/// The price a node at `layer` holding `stock` asks in the grid `net`.
pub open spec fn price(net: Seq<Node>, layer: int, stock: u8) -> u8
    decreases 8 - layer, 0int,
{
    if 0 <= layer < 7 {
        asking_price(layer, stock, cheapest_price(net, layer + 1, 8))
    } else {
        1
    }
}

/// The lowest price among the first `k` nodes of `layer` (for `1 <= layer <= 7`
/// and `k >= 1`).
pub open spec fn cheapest_price(net: Seq<Node>, layer: int, k: int) -> u8
    decreases 8 - layer, k + 1,
{
    if 1 <= layer <= 7 && k >= 1 {
        let here = price(net, layer, stock_at(net, layer, k - 1));
        if k == 1 {
            here
        } else {
            let before = cheapest_price(net, layer, k - 1);
            if here < before {
                here
            } else {
                before
            }
        }
    } else {
        0
    }
}

/// The first slot among the first `k` of `layer` that asks the lowest price.
pub open spec fn cheapest_slot(net: Seq<Node>, layer: int, k: int) -> int
    decreases k,
{
    if k <= 1 {
        0
    } else if price(net, layer, stock_at(net, layer, k - 1)) < cheapest_price(net, layer, k - 1) {
        k - 1
    } else {
        cheapest_slot(net, layer, k - 1)
    }
}

/// The two links that a node at `(layer, slot)` holding `stock` chooses.
///
/// Both take the cheapest node of the next layer when its price is at most
/// half the balance. Otherwise they fall back to the node's own channel: on an
/// even layer the first reads the input and the second the pulse, on an odd
/// layer the other way round.
pub open spec fn chosen_links(net: Seq<Node>, layer: int, slot: int, stock: u8) -> (Link, Link) {
    if 0 <= layer < 7 && cheapest_price(net, layer + 1, 8) <= stock / 2 {
        let c = cheapest_slot(net, layer + 1, 8) as usize;
        (Link::Node(c), Link::Node(c))
    } else if layer % 2 == 0 {
        (Link::Input(slot as usize), Link::Pulse(slot as usize))
    } else {
        (Link::Pulse(slot as usize), Link::Input(slot as usize))
    }
}

/// The outcome of a bid of a node at `(layer, slot)` with `task` and `stock`,
/// rewarded with `reward`: its output and its balance afterwards.
///
/// A node that holds less than its price minus its fee answers `false` and
/// keeps its balance. Otherwise it is credited with the reward, chooses its
/// links with the new balance and hands each deeper node it buys from half of
/// that balance less one as that node's reward. What it hands down is not
/// taken from its own balance: the balance afterwards is the credited one.
pub open spec fn work_outcome(
    net: Seq<Node>,
    layer: int,
    slot: int,
    task: Task,
    stock: u8,
    reward: u8,
    sig: Signals,
) -> (bool, u8)
    decreases 8 - layer, 2int,
{
    if stock < sat_sub(price(net, layer, stock), 1) {
        (false, stock)
    } else {
        let credited = sat_add(stock, reward);
        let pay = sat_sub(credited, 1) / 2;
        (outsourced(net, layer, slot, task, credited, pay, sig), credited)
    }
}

/// The output of a node at `(layer, slot)` holding `stock` that pays `pay` to
/// each deeper node it buys from: its task applied to its two links.
pub open spec fn outsourced(
    net: Seq<Node>,
    layer: int,
    slot: int,
    task: Task,
    stock: u8,
    pay: u8,
    sig: Signals,
) -> bool
    decreases 8 - layer, 1int,
{
    let links = chosen_links(net, layer, slot, stock);
    task.apply(resolved(net, layer, links.0, pay, sig), resolved(net, layer, links.1, pay, sig))
}

/// The value that a link of a node at `layer` delivers: a signal, or the
/// output of a copy of the deeper node rewarded with `pay`.
pub open spec fn resolved(net: Seq<Node>, layer: int, link: Link, pay: u8, sig: Signals) -> bool
    decreases 8 - layer, 0int,
{
    match link {
        Link::Node(s) => {
            if 0 <= layer < 7 {
                let child = net[(layer + 1) * 8 + s];
                work_outcome(net, layer + 1, s as int, child.task, child.stock.0, pay, sig).0
            } else {
                false
            }
        },
        _ => sig.read(link),
    }
}

/// What a node at `layer` holding `stock` asks when the cheapest node one
/// layer deeper asks `deeper` (see `asking_price`).
pub fn asking(layer: usize, stock: Cookies, deeper: Cookies) -> (r: Cookies)
    ensures
        r.0 == asking_price(layer as int, stock.0, deeper.0),
{
    if layer < DEEPEST && deeper <= stock.half() {
        deeper.add(deeper).add(Cookies(1))
    } else {
        Cookies(1)
    }
}

/// On every layer but the deepest, a price is what `asking_price` makes of the
/// cheapest price one layer deeper; on the deepest it is the fee alone.
pub proof fn lemma_price_unfold(net: Seq<Node>, layer: int, stock: u8, deeper: u8)
    requires
        0 <= layer < 8,
        layer < 7 ==> deeper == cheapest_price(net, layer + 1, 8),
    ensures
        price(net, layer, stock) == asking_price(layer, stock, deeper),
{
}

/// The deepest layer never links to a node: both of its links read signals.
pub proof fn lemma_deepest_layer_reads_signals(net: Seq<Node>, slot: int, stock: u8)
    ensures
        !(chosen_links(net, 7, slot, stock).0 is Node),
        !(chosen_links(net, 7, slot, stock).1 is Node),
{
}

/// A node can always cover the cost of what it buys: its price less its fee
/// never exceeds its balance, so the affordability gate of a bid never closes.
pub proof fn lemma_bid_always_affordable(net: Seq<Node>, layer: int, stock: u8)
    ensures
        sat_sub(price(net, layer, stock), 1) <= stock,
{
}

/// Two grids that agree on every layer below the outer one.
pub open spec fn agree_below_outer(n1: Seq<Node>, n2: Seq<Node>) -> bool {
    &&& n1.len() == 64
    &&& n2.len() == 64
    &&& forall|i: int| 8 <= i < 64 ==> #[trigger] n1[i] == n2[i]
}

proof fn lemma_price_agrees(n1: Seq<Node>, n2: Seq<Node>, layer: int, stock: u8)
    requires
        agree_below_outer(n1, n2),
        0 <= layer < 8,
    ensures
        price(n1, layer, stock) == price(n2, layer, stock),
    decreases 8 - layer, 0int,
{
    if layer < 7 {
        lemma_cheapest_agrees(n1, n2, layer + 1, 8);
    }
}

proof fn lemma_cheapest_agrees(n1: Seq<Node>, n2: Seq<Node>, layer: int, k: int)
    requires
        agree_below_outer(n1, n2),
        1 <= layer < 8,
        0 <= k <= 8,
    ensures
        cheapest_price(n1, layer, k) == cheapest_price(n2, layer, k),
        cheapest_slot(n1, layer, k) == cheapest_slot(n2, layer, k),
    decreases 8 - layer, k + 1,
{
    if k >= 1 {
        assert(n1[layer * 8 + k - 1] == n2[layer * 8 + k - 1]);
        lemma_price_agrees(n1, n2, layer, stock_at(n1, layer, k - 1));
        if k > 1 {
            lemma_cheapest_agrees(n1, n2, layer, k - 1);
        }
    }
}

proof fn lemma_cheapest_slot_bound(net: Seq<Node>, layer: int, k: int)
    requires
        1 <= k,
    ensures
        0 <= cheapest_slot(net, layer, k) < k,
    decreases k,
{
    if k > 1 {
        lemma_cheapest_slot_bound(net, layer, k - 1);
    }
}

proof fn lemma_links_agree(n1: Seq<Node>, n2: Seq<Node>, layer: int, slot: int, stock: u8)
    requires
        agree_below_outer(n1, n2),
        0 <= layer < 8,
    ensures
        chosen_links(n1, layer, slot, stock) == chosen_links(n2, layer, slot, stock),
        chosen_links(n1, layer, slot, stock).0 matches Link::Node(s) ==> s < 8,
        chosen_links(n1, layer, slot, stock).1 matches Link::Node(s) ==> s < 8,
{
    if layer < 7 {
        lemma_cheapest_agrees(n1, n2, layer + 1, 8);
        lemma_cheapest_slot_bound(n1, layer + 1, 8);
    }
}

proof fn lemma_work_agrees(
    n1: Seq<Node>,
    n2: Seq<Node>,
    layer: int,
    slot: int,
    task: Task,
    stock: u8,
    reward: u8,
    sig: Signals,
)
    requires
        agree_below_outer(n1, n2),
        0 <= layer < 8,
    ensures
        work_outcome(n1, layer, slot, task, stock, reward, sig) == work_outcome(
            n2,
            layer,
            slot,
            task,
            stock,
            reward,
            sig,
        ),
    decreases 8 - layer, 2int,
{
    lemma_price_agrees(n1, n2, layer, stock);
    let credited = sat_add(stock, reward);
    lemma_outsourced_agrees(n1, n2, layer, slot, task, credited, sat_sub(credited, 1) / 2, sig);
}

proof fn lemma_outsourced_agrees(
    n1: Seq<Node>,
    n2: Seq<Node>,
    layer: int,
    slot: int,
    task: Task,
    stock: u8,
    pay: u8,
    sig: Signals,
)
    requires
        agree_below_outer(n1, n2),
        0 <= layer < 8,
    ensures
        outsourced(n1, layer, slot, task, stock, pay, sig) == outsourced(
            n2,
            layer,
            slot,
            task,
            stock,
            pay,
            sig,
        ),
    decreases 8 - layer, 1int,
{
    lemma_links_agree(n1, n2, layer, slot, stock);
    let links = chosen_links(n1, layer, slot, stock);
    lemma_resolved_agrees(n1, n2, layer, links.0, pay, sig);
    lemma_resolved_agrees(n1, n2, layer, links.1, pay, sig);
}

proof fn lemma_resolved_agrees(
    n1: Seq<Node>,
    n2: Seq<Node>,
    layer: int,
    link: Link,
    pay: u8,
    sig: Signals,
)
    requires
        agree_below_outer(n1, n2),
        0 <= layer < 8,
        link matches Link::Node(s) ==> s < 8,
    ensures
        resolved(n1, layer, link, pay, sig) == resolved(n2, layer, link, pay, sig),
    decreases 8 - layer, 0int,
{
    if let Link::Node(s) = link {
        if layer < 7 {
            let i = (layer + 1) * 8 + s;
            assert(n1[i] == n2[i]);
            let child = n1[i];
            lemma_work_agrees(n1, n2, layer + 1, s as int, child.task, child.stock.0, pay, sig);
        }
    }
}

/// Only the layers below the outer one take part in a bid: two grids that
/// agree there give every node the same price, the same links and the same
/// outcome, whatever their outer layers hold. So storing an outer node's new
/// balance never changes the bid of another node, in any order.
pub proof fn lemma_outcome_ignores_outer_layer(
    n1: Seq<Node>,
    n2: Seq<Node>,
    layer: int,
    slot: int,
    task: Task,
    stock: u8,
    reward: u8,
    sig: Signals,
)
    requires
        agree_below_outer(n1, n2),
        0 <= layer < 8,
    ensures
        price(n1, layer, stock) == price(n2, layer, stock),
        chosen_links(n1, layer, slot, stock) == chosen_links(n2, layer, slot, stock),
        work_outcome(n1, layer, slot, task, stock, reward, sig) == work_outcome(
            n2,
            layer,
            slot,
            task,
            stock,
            reward,
            sig,
        ),
{
    lemma_price_agrees(n1, n2, layer, stock);
    lemma_links_agree(n1, n2, layer, slot, stock);
    lemma_work_agrees(n1, n2, layer, slot, task, stock, reward, sig);
}

/// For each layer below the outer one, the lowest price asked on it and the
/// first slot that asks it, for one state of the grid.
pub(crate) struct Quotes {
    pub(crate) best_price: Vec<u8>,
    pub(crate) best_slot: Vec<usize>,
}

impl Quotes {
    /// The quotes are those of the grid `net`.
    pub(crate) open spec fn quote(&self, net: Seq<Node>) -> bool {
        &&& self.best_price@.len() == 8
        &&& self.best_slot@.len() == 8
        &&& forall|l: int|
            1 <= l < 8 ==> {
                &&& #[trigger] self.best_price@[l] == cheapest_price(net, l, 8)
                &&& self.best_slot@[l] == cheapest_slot(net, l, 8)
                &&& self.best_slot@[l] < 8
            }
    }
}

/// Quotes depend on the layers below the outer one alone.
pub(crate) proof fn lemma_quotes_carry_over(q: &Quotes, n1: Seq<Node>, n2: Seq<Node>)
    requires
        q.quote(n1),
        agree_below_outer(n1, n2),
    ensures
        q.quote(n2),
{
    assert forall|l: int| 1 <= l < 8 implies {
        &&& #[trigger] q.best_price@[l] == cheapest_price(n2, l, 8)
        &&& q.best_slot@[l] == cheapest_slot(n2, l, 8)
        &&& q.best_slot@[l] < 8
    } by {
        assert(q.best_price@[l] == cheapest_price(n1, l, 8));
        lemma_cheapest_agrees(n1, n2, l, 8);
    }
}

/// The fixed grid of nodes.
pub struct Network {
    nodes: Vec<Node>,
}

impl View for Network {
    type V = Seq<Node>;

    closed spec fn view(&self) -> Seq<Node> {
        self.nodes@
    }
}

impl Network {
    /// A grid of nodes with random tasks and empty balances.
    pub fn new() -> (r: Network)
        ensures
            grid_wf(r@),
            forall|i: int| 0 <= i < 64 ==> (#[trigger] r@[i]).stock.0 == 0,
    {
        let mut rng = rand::thread_rng();
        let mut tasks: Vec<Task> = Vec::new();
        let mut i: usize = 0;
        while i < LAYERS * SLOTS
            invariant
                i <= 64,
                tasks@.len() == i,
            decreases 64 - i,
        {
            let k = below(&mut rng, 4);
            tasks.push(Task::from_index(k as u8));
            i = i + 1;
        }
        Network::from_tasks(tasks.as_slice())
    }

    /// A grid whose node `i` (layer `i / 8`, slot `i % 8`) has task `tasks[i]`
    /// and an empty balance.
    pub fn from_tasks(tasks: &[Task]) -> (r: Network)
        requires
            tasks@.len() == 64,
        ensures
            grid_wf(r@),
            forall|i: int| 0 <= i < 64 ==> (#[trigger] r@[i]).task == tasks@[i] && r@[i].stock.0 == 0,
    {
        let mut nodes: Vec<Node> = Vec::new();
        let mut layer: usize = 0;
        while layer < LAYERS
            invariant
                layer <= 8,
                tasks@.len() == 64,
                nodes@.len() == layer * 8,
                forall|l: int, s: int|
                    0 <= l < layer && 0 <= s < 8 ==> (#[trigger] nodes@[l * 8 + s]).layer == l
                        && nodes@[l * 8 + s].slot == s,
                forall|i: int|
                    0 <= i < layer * 8 ==> (#[trigger] nodes@[i]).task == tasks@[i] && nodes@[i].stock.0
                        == 0,
            decreases 8 - layer,
        {
            let mut slot: usize = 0;
            while slot < SLOTS
                invariant
                    layer < 8,
                    slot <= 8,
                    tasks@.len() == 64,
                    nodes@.len() == layer * 8 + slot,
                    forall|l: int, s: int|
                        0 <= l < layer && 0 <= s < 8 ==> (#[trigger] nodes@[l * 8 + s]).layer == l
                            && nodes@[l * 8 + s].slot == s,
                    forall|s: int|
                        0 <= s < slot ==> (#[trigger] nodes@[layer * 8 + s]).layer == layer
                            && nodes@[layer * 8 + s].slot == s,
                    forall|i: int|
                        0 <= i < layer * 8 + slot ==> (#[trigger] nodes@[i]).task == tasks@[i]
                            && nodes@[i].stock.0 == 0,
                decreases 8 - slot,
            {
                let task = tasks[layer * SLOTS + slot];
                nodes.push(Node { layer, slot, task, stock: Cookies(0) });
                slot = slot + 1;
            }
            assert forall|l: int, s: int|
                0 <= l < layer + 1 && 0 <= s < 8 implies (#[trigger] nodes@[l * 8 + s]).layer == l
                && nodes@[l * 8 + s].slot == s by {
                if l == layer {
                    assert(nodes@[layer * 8 + s].layer == layer);
                }
            }
            layer = layer + 1;
        }
        Network { nodes }
    }

    /// The node at `(layer, slot)`.
    pub fn node(&self, layer: usize, slot: usize) -> (r: Node)
        requires
            grid_wf(self@),
            layer < 8,
            slot < 8,
        ensures
            r == self@[layer * 8 + slot],
            r.layer == layer,
            r.slot == slot,
    {
        self.nodes[layer * SLOTS + slot]
    }

    /// The lowest price asked on `layer` and the first slot that asks it,
    /// given the lowest price `deeper` asked one layer deeper.
    fn cheapest_in(&self, layer: usize, deeper: Cookies) -> (r: (Cookies, usize))
        requires
            grid_wf(self@),
            1 <= layer < 8,
            layer < 7 ==> deeper.0 == cheapest_price(self@, layer + 1, 8),
        ensures
            r.0.0 == cheapest_price(self@, layer as int, 8),
            r.1 == cheapest_slot(self@, layer as int, 8),
            r.1 < 8,
    {
        let first = self.nodes[layer * SLOTS];
        proof {
            lemma_price_unfold(self@, layer as int, first.stock.0, deeper.0);
        }
        let mut best = asking(layer, first.stock, deeper);
        let mut best_slot: usize = 0;
        let mut slot: usize = 1;
        while slot < SLOTS
            invariant
                grid_wf(self@),
                1 <= layer < 8,
                layer < 7 ==> deeper.0 == cheapest_price(self@, layer + 1, 8),
                1 <= slot <= 8,
                best.0 == cheapest_price(self@, layer as int, slot as int),
                best_slot == cheapest_slot(self@, layer as int, slot as int),
                best_slot < slot,
            decreases 8 - slot,
        {
            let node = self.nodes[layer * SLOTS + slot];
            proof {
                lemma_price_unfold(self@, layer as int, node.stock.0, deeper.0);
            }
            let here = asking(layer, node.stock, deeper);
            if here < best {
                best = here;
                best_slot = slot;
            }
            slot = slot + 1;
        }
        (best, best_slot)
    }

    /// The quotes of the grid as it stands.
    pub(crate) fn quotes(&self) -> (q: Quotes)
        requires
            grid_wf(self@),
        ensures
            q.quote(self@),
    {
        let mut best_price: Vec<u8> = Vec::new();
        let mut best_slot: Vec<usize> = Vec::new();
        let mut i: usize = 0;
        while i < LAYERS
            invariant
                i <= 8,
                best_price@.len() == i,
                best_slot@.len() == i,
            decreases 8 - i,
        {
            best_price.push(0);
            best_slot.push(0);
            i = i + 1;
        }
        let mut done: usize = 0;
        while done < DEEPEST
            invariant
                grid_wf(self@),
                done <= 7,
                best_price@.len() == 8,
                best_slot@.len() == 8,
                forall|l: int|
                    8 - done <= l < 8 ==> {
                        &&& #[trigger] best_price@[l] == cheapest_price(self@, l, 8)
                        &&& best_slot@[l] == cheapest_slot(self@, l, 8)
                        &&& best_slot@[l] < 8
                    },
            decreases 7 - done,
        {
            let layer = DEEPEST - done;
            let deeper = if layer < DEEPEST {
                Cookies(best_price[layer + 1])
            } else {
                Cookies(0)
            };
            let (price, slot) = self.cheapest_in(layer, deeper);
            let ghost old_price = best_price@;
            best_price.set(layer, price.0);
            best_slot.set(layer, slot);
            assert forall|l: int| 8 - (done + 1) <= l < 8 implies {
                &&& #[trigger] best_price@[l] == cheapest_price(self@, l, 8)
                &&& best_slot@[l] == cheapest_slot(self@, l, 8)
                &&& best_slot@[l] < 8
            } by {
                if l != layer {
                    assert(best_price@[l] == old_price[l]);
                }
            }
            done = done + 1;
        }
        Quotes { best_price, best_slot }
    }

    /// Stores `node` in its place on the outer layer: the one place where a
    /// node's state persists from one tick to the next.
    pub fn write_back(&mut self, node: Node)
        requires
            grid_wf(old(self)@),
            node.layer == 0,
            node.slot < 8,
        ensures
            grid_wf(final(self)@),
            final(self)@ == old(self)@.update(node.slot as int, node),
    {
        self.nodes.set(node.slot, node);
        assert forall|l: int, s: int| 0 <= l < 8 && 0 <= s < 8 implies (#[trigger] self@[l * 8
            + s]).layer == l && self@[l * 8 + s].slot == s by {
            if l * 8 + s != node.slot {
                assert(self@[l * 8 + s] == old(self)@[l * 8 + s]);
            }
        }
    }

    /// Gives the node at `(layer, slot)` a new task.
    pub fn set_task(&mut self, layer: usize, slot: usize, task: Task)
        requires
            grid_wf(old(self)@),
            layer < 8,
            slot < 8,
        ensures
            grid_wf(final(self)@),
            final(self)@ == old(self)@.update(
                layer * 8 + slot,
                (Node { task, ..old(self)@[layer * 8 + slot] }),
            ),
    {
        let i = layer * SLOTS + slot;
        let mut node = self.nodes[i];
        node.task = task;
        self.nodes.set(i, node);
        assert forall|l: int, s: int| 0 <= l < 8 && 0 <= s < 8 implies (#[trigger] self@[l * 8
            + s]).layer == l && self@[l * 8 + s].slot == s by {
            if l * 8 + s != i {
                assert(self@[l * 8 + s] == old(self)@[l * 8 + s]);
            }
        }
    }
}

} // verus!
