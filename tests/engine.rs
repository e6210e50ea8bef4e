use cookie_market::{Cookies, Engine, Network, Task};

fn mixed_tasks() -> Vec<Task> {
    (0..64).map(|i| Task::from_index(i as u8)).collect()
}

fn engine_of(tasks: &[Task]) -> Engine {
    Engine::with_network(Network::from_tasks(tasks))
}

fn outer_stocks(engine: &Engine) -> Vec<u8> {
    (0..8).map(|s| engine.network().node(0, s).stock.0).collect()
}

#[test]
fn new_engine_starts_at_tick_zero_with_neutral_rewards() {
    let engine = Engine::new();
    assert_eq!(engine.age(), 0);
    assert_eq!(engine.rewards(), [Cookies(128); 8]);
    for layer in 0..8 {
        for slot in 0..8 {
            assert_eq!(engine.network().node(layer, slot).stock, Cookies(0));
        }
    }
}

#[test]
fn pulses_follow_their_periods() {
    assert_eq!(cookie_market::pulses(0), [true; 8]);
    assert_eq!(cookie_market::pulses(1), [false; 8]);
    assert_eq!(cookie_market::pulses(6), [true, true, false, false, false, false, false, false]);
    assert_eq!(cookie_market::pulses(21), [false, true, true, false, false, false, false, false]);
    assert_eq!(cookie_market::pulses(31), [false, false, false, false, false, false, false, true]);
}

#[test]
fn tick_output_of_a_mixed_grid() {
    // Every outer node buys down the slot-0 chain (all And) that ends in
    // input 0 and pulse 0; each outer node then applies its own task to
    // that value twice.
    let mut engine = engine_of(&mixed_tasks());
    let out = engine.update([true; 8]);
    assert_eq!(out, [true, false, true, false, true, false, true, false]);
    // At tick 1 every pulse is off.
    let out = engine.update([true; 8]);
    assert_eq!(out, [false, true, false, false, false, true, false, false]);
}

#[test]
fn tick_credits_outer_rewards_only() {
    let mut engine = engine_of(&mixed_tasks());
    engine.update([false; 8]);
    assert_eq!(outer_stocks(&engine), vec![128; 8]);
    for layer in 1..8 {
        for slot in 0..8 {
            assert_eq!(engine.network().node(layer, slot).stock, Cookies(0));
        }
    }
    engine.update([false; 8]);
    assert_eq!(outer_stocks(&engine), vec![255; 8]);
}

#[test]
fn reward_replaces_the_stored_rewards() {
    let mut engine = engine_of(&mixed_tasks());
    engine.reward([1, 2, 3, 4, 5, 6, 7, 8]);
    assert_eq!(engine.rewards(), [1, 2, 3, 4, 5, 6, 7, 8].map(Cookies));
    engine.update([false; 8]);
    assert_eq!(outer_stocks(&engine), vec![1, 2, 3, 4, 5, 6, 7, 8]);
    assert_eq!(engine.age(), 1);
}

#[test]
fn same_grid_gives_same_output_sequence() {
    let tasks = mixed_tasks();
    let mut a = engine_of(&tasks);
    let mut b = engine_of(&tasks);
    let inputs = [[false; 8], [true; 8], [true, false, true, false, true, false, true, false]];
    for k in 0..8 {
        let input = inputs[k % 3];
        assert_eq!(a.update(input), b.update(input));
        assert_eq!(a.age(), b.age());
        assert_eq!(outer_stocks(&a), outer_stocks(&b));
    }
}

#[test]
fn eight_idle_ticks_are_reproducible() {
    let tasks: Vec<Task> = (0..64).map(|i| Task::from_index((i * 7 + 3) as u8)).collect();
    let run = || {
        let mut engine = engine_of(&tasks);
        (0..8).map(|_| engine.update([false; 8])).collect::<Vec<_>>()
    };
    assert_eq!(run(), run());
}

#[test]
fn age_wraps_to_zero_on_the_62nd_tick() {
    let mut engine = engine_of(&mixed_tasks());
    for k in 1..=61u8 {
        engine.update([false; 8]);
        assert_eq!(engine.age(), k);
    }
    engine.update([false; 8]);
    assert_eq!(engine.age(), 0);
    engine.update([false; 8]);
    assert_eq!(engine.age(), 1);
}

#[test]
fn no_reward_leaves_less_to_bid_with_than_full_reward() {
    let tasks = mixed_tasks();
    let mut poor = engine_of(&tasks);
    let mut rich = engine_of(&tasks);
    poor.reward([0; 8]);
    rich.reward([255; 8]);
    poor.update([true; 8]);
    rich.update([true; 8]);
    for slot in 0..8 {
        let p = poor.network().node(0, slot);
        let r = rich.network().node(0, slot);
        assert_eq!(p.stock, Cookies(0));
        assert_eq!(r.stock, Cookies(255));
        assert!(p.stock < r.stock);
        assert!(p.proposition(poor.network()) < r.proposition(rich.network()));
    }
}
