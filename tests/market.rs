use cookie_market::{Cookies, Link, Network, Node, Signals, Task};

fn grid(task: Task) -> Network {
    Network::from_tasks(&vec![task; 64])
}

fn signals(input: bool, pulse: bool) -> Signals {
    Signals { input: [input; 8], pulse: [pulse; 8] }
}

#[test]
fn tasks_follow_their_truth_tables() {
    let cases = [(false, false), (false, true), (true, false), (true, true)];
    let and = [false, false, false, true];
    let nand = [true, true, true, false];
    let or = [false, true, true, true];
    let xor = [false, true, true, false];
    for (k, (a, b)) in cases.iter().enumerate() {
        assert_eq!(Task::And.evaluate(*a, *b), and[k]);
        assert_eq!(Task::Nand.evaluate(*a, *b), nand[k]);
        assert_eq!(Task::Or.evaluate(*a, *b), or[k]);
        assert_eq!(Task::Xor.evaluate(*a, *b), xor[k]);
    }
}

#[test]
fn tasks_are_numbered_from_zero() {
    assert_eq!(Task::from_index(0), Task::And);
    assert_eq!(Task::from_index(1), Task::Nand);
    assert_eq!(Task::from_index(2), Task::Or);
    assert_eq!(Task::from_index(3), Task::Xor);
    assert_eq!(Task::from_index(6), Task::Or);
}

#[test]
fn grid_nodes_know_their_address() {
    let net = Network::from_tasks(&(0..64).map(|i| Task::from_index(i as u8)).collect::<Vec<_>>());
    for layer in 0..8 {
        for slot in 0..8 {
            let n = net.node(layer, slot);
            assert_eq!((n.layer, n.slot), (layer, slot));
            assert_eq!(n.task, Task::from_index((layer * 8 + slot) as u8));
            assert_eq!(n.stock, Cookies(0));
        }
    }
}

#[test]
fn random_grid_starts_empty() {
    let net = Network::new();
    for layer in 0..8 {
        for slot in 0..8 {
            assert_eq!(net.node(layer, slot).stock, Cookies(0));
        }
    }
}

#[test]
fn deepest_layer_only_reads_signals() {
    let net = grid(Task::And);
    for slot in 0..8 {
        for stock in [0u8, 1, 2, 100, 255] {
            let mut node = net.node(7, slot);
            node.stock = Cookies(stock);
            let (a, b) = node.find_resources(&net);
            assert!(!matches!(a, Link::Node(_)));
            assert!(!matches!(b, Link::Node(_)));
            assert_eq!((a, b), (Link::Pulse(slot), Link::Input(slot)));
            assert_eq!(node.proposition(&net), Cookies(1));
        }
    }
}

#[test]
fn poor_node_falls_back_by_layer_parity() {
    let net = grid(Task::And);
    let even = net.node(0, 3);
    assert_eq!(even.find_resources(&net), (Link::Input(3), Link::Pulse(3)));
    let odd = net.node(1, 5);
    assert_eq!(odd.find_resources(&net), (Link::Pulse(5), Link::Input(5)));
    assert_eq!(even.proposition(&net), Cookies(1));
}

#[test]
fn node_buys_from_first_cheapest_deeper_node() {
    let net = grid(Task::And);
    let mut node = net.node(0, 4);
    node.stock = Cookies(2);
    assert_eq!(node.find_resources(&net), (Link::Node(0), Link::Node(0)));
    assert_eq!(node.proposition(&net), Cookies(3));
    node.stock = Cookies(1);
    assert_eq!(node.find_resources(&net), (Link::Input(4), Link::Pulse(4)));
    assert_eq!(node.proposition(&net), Cookies(1));
}

#[test]
fn bid_is_always_affordable_on_a_grid() {
    let net = grid(Task::Or);
    for layer in 0..8 {
        for stock in 0..=255u8 {
            let mut node = net.node(layer, 0);
            node.stock = Cookies(stock);
            let price = node.proposition(&net);
            assert!(price.subtract(Cookies(1)) <= node.stock);
        }
    }
}

#[test]
fn unrewarded_empty_node_reads_its_own_signals() {
    let net = grid(Task::And);
    let mut node = net.node(0, 2);
    assert!(node.work(Cookies(0), signals(true, true), &net));
    assert_eq!(node.stock, Cookies(0));
    let mut node = net.node(0, 2);
    assert!(!node.work(Cookies(0), signals(true, false), &net));
    let mut node = net.node(0, 2);
    node.task = Task::Nand;
    assert!(node.work(Cookies(0), signals(true, false), &net));
}

#[test]
fn successful_bid_credits_exactly_the_reward() {
    let net = grid(Task::And);
    for reward in [0u8, 1, 10, 128, 255] {
        let mut node = net.node(0, 6);
        node.stock = Cookies(40);
        node.work(Cookies(reward), signals(false, true), &net);
        assert_eq!(node.stock, Cookies(40).add(Cookies(reward)));
        assert_eq!((node.layer, node.slot, node.task), (0, 6, Task::And));
    }
}

#[test]
fn rewarded_node_buys_down_the_chain() {
    // With a reward of 10 the outer node pays 4 to node (1, 0), which pays 1
    // to node (2, 0), which is too poor to buy and reads input 0 and pulse 0.
    let net = grid(Task::And);
    let mut node = net.node(0, 5);
    assert!(node.work(Cookies(10), signals(true, true), &net));
    assert_eq!(node.stock, Cookies(10));
    let mut node = net.node(0, 5);
    let sig = Signals { input: [true, false, false, false, false, false, false, false], pulse: [false; 8] };
    assert!(!node.work(Cookies(10), sig, &net));

    let xor = grid(Task::Xor);
    let mut node = xor.node(0, 5);
    assert!(!node.work(Cookies(10), signals(true, false), &xor));

    let nand = grid(Task::Nand);
    let mut node = nand.node(0, 5);
    assert!(!node.work(Cookies(10), signals(true, true), &nand));
    let mut node = nand.node(0, 5);
    assert!(node.work(Cookies(10), signals(true, false), &nand));
}

#[test]
fn outsource_applies_the_task_to_both_links() {
    let net = grid(Task::Or);
    let node = Node::new(0, 1, Task::Or);
    assert!(node.outsource(Cookies(0), signals(false, true), &net));
    assert!(!node.outsource(Cookies(0), signals(false, false), &net));
}

#[test]
fn deeper_copies_do_not_change_the_grid() {
    let net = grid(Task::And);
    let mut node = net.node(0, 0);
    node.work(Cookies(255), signals(true, true), &net);
    for layer in 1..8 {
        for slot in 0..8 {
            assert_eq!(net.node(layer, slot).stock, Cookies(0));
        }
    }
}

#[test]
fn write_back_and_set_task_touch_one_node() {
    let mut net = grid(Task::And);
    let mut node = net.node(0, 3);
    node.stock = Cookies(77);
    net.write_back(node);
    assert_eq!(net.node(0, 3).stock, Cookies(77));
    assert_eq!(net.node(0, 2).stock, Cookies(0));
    net.set_task(4, 1, Task::Xor);
    assert_eq!(net.node(4, 1).task, Task::Xor);
    assert_eq!(net.node(4, 2).task, Task::And);
}
