use cookie_market::{Chain, DataBuffer, Mutation, Opperation};

fn negating_chain() -> Chain {
    let mut opp_list = [Opperation::default(); 16];
    for i in 0..16 {
        opp_list[i] = Opperation::Not(i, i + 8);
    }
    Chain { opp_list, age: 0 }
}

#[test]
fn execute_runs_operations_in_order() {
    let mut chain = negating_chain();
    let mut buf: DataBuffer = [false; 24];
    buf[0] = true;
    buf[3] = true;
    chain.execute(&mut buf);
    // Operations 0-7 negate the inputs into the cache, 8-15 negate the cache
    // into the outputs.
    for i in 0..8 {
        assert_eq!(buf[8 + i], !(i == 0 || i == 3));
        assert_eq!(buf[16 + i], i == 0 || i == 3);
    }
    assert_eq!(chain.age, 1);
}

#[test]
fn execute_combines_into_the_written_cell() {
    let mut chain = negating_chain();
    chain.opp_list[0] = Opperation::And(0, 8);
    chain.opp_list[1] = Opperation::Or(1, 8);
    chain.opp_list[2] = Opperation::Xor(2, 8);
    let mut buf: DataBuffer = [false; 24];
    buf[8] = true;
    buf[1] = false;
    buf[2] = true;
    chain.execute(&mut buf);
    // cell 8: true && false = false, || false = false, ^ true = true,
    // then operation 8 negates it into cell 16.
    assert!(!buf[16]);
    assert_eq!(chain.age, 1);
}

#[test]
fn cycle_rotates_the_kind_and_keeps_the_cells() {
    let mut op = Opperation::And(2, 10);
    op.cycle();
    assert_eq!(op, Opperation::Or(2, 10));
    op.cycle();
    assert_eq!(op, Opperation::Xor(2, 10));
    op.cycle();
    assert_eq!(op, Opperation::Not(2, 10));
    op.cycle();
    assert_eq!(op, Opperation::And(2, 10));
}

#[test]
fn set_write_moves_the_written_cell() {
    let mut op = Opperation::Xor(1, 9);
    op.set_write(12);
    assert_eq!(op, Opperation::Xor(1, 12));
    let mut op = Opperation::Not(4, 12);
    op.set_write(8);
    assert_eq!(op, Opperation::Not(4, 8));
}

#[test]
fn kinds_are_counted_from_and() {
    assert_eq!(Opperation::of_kind(0, 3, 11), Opperation::And(3, 11));
    assert_eq!(Opperation::of_kind(1, 3, 11), Opperation::Or(3, 11));
    assert_eq!(Opperation::of_kind(2, 3, 11), Opperation::Xor(3, 11));
    assert_eq!(Opperation::of_kind(3, 3, 11), Opperation::Not(3, 11));
}

#[test]
fn draws_pick_the_evolution_step() {
    assert_eq!(Mutation::from_draws(0, true, 13, 6), Mutation::Rewire { op: 5, to: 14 });
    assert_eq!(Mutation::from_draws(1, true, 13, 6), Mutation::Swap { a: 1, b: 6 });
    assert_eq!(Mutation::from_draws(1, false, 13, 6), Mutation::Swap { a: 9, b: 10 });
    assert_eq!(Mutation::from_draws(2, false, 13, 6), Mutation::Cycle { op: 13 });
    assert_eq!(Mutation::from_draws(3, true, 0, 0), Mutation::Cycle { op: 0 });
}

#[test]
fn execute_leaves_unwritten_cells_alone() {
    let mut chain = negating_chain();
    let mut buf: DataBuffer = [false; 24];
    buf[2] = true;
    buf[5] = true;
    let before = buf;
    chain.execute(&mut buf);
    for i in 0..8 {
        assert_eq!(buf[i], before[i]);
    }
}

#[test]
fn evolution_keeps_input_operations_reading_inputs() {
    let mut rng = rand::thread_rng();
    let mut chain = Chain::new(&mut rng);
    for _ in 0..200 {
        chain.evolve(&mut rng);
        for i in 0..8 {
            let r = match chain.opp_list[i] {
                Opperation::And(r, _) | Opperation::Or(r, _) | Opperation::Xor(r, _) | Opperation::Not(r, _) => r,
            };
            assert!(r < 8);
        }
    }
}

#[test]
fn default_operation_reads_zero_writes_seven() {
    assert_eq!(Opperation::default(), Opperation::And(0, 7));
}

#[test]
fn mutations_change_the_named_operations() {
    let mut chain = negating_chain();
    chain.mutate(Mutation::Swap { a: 1, b: 5 });
    assert_eq!(chain.opp_list[1], Opperation::Not(5, 13));
    assert_eq!(chain.opp_list[5], Opperation::Not(1, 9));
    chain.mutate(Mutation::Cycle { op: 3 });
    assert_eq!(chain.opp_list[3], Opperation::And(3, 11));
    chain.mutate(Mutation::Rewire { op: 2, to: 14 });
    assert_eq!(chain.opp_list[2], Opperation::Not(2, 14));
    assert_eq!(chain.age, 0);
}

#[test]
fn random_chain_wires_each_input_to_its_cache_cell() {
    let mut rng = rand::thread_rng();
    let chain = Chain::new(&mut rng);
    assert_eq!(chain.age, 0);
    for i in 0..16 {
        let (r, w) = match chain.opp_list[i] {
            Opperation::And(r, w) | Opperation::Or(r, w) | Opperation::Xor(r, w) | Opperation::Not(r, w) => (r, w),
        };
        assert_eq!((r, w), (i, i + 8));
    }
    let op = Opperation::from_rng(4, &mut rng);
    assert!(matches!(
        op,
        Opperation::And(4, 12) | Opperation::Or(4, 12) | Opperation::Xor(4, 12) | Opperation::Not(4, 12)
    ));
}

#[test]
fn evolution_changes_at_most_two_operations() {
    let mut rng = rand::thread_rng();
    for _ in 0..50 {
        let mut chain = negating_chain();
        let before = chain.opp_list;
        chain.evolve(&mut rng);
        let changed = (0..16).filter(|&i| chain.opp_list[i] != before[i]).count();
        assert!(changed <= 2);
        assert_eq!(chain.age, 0);
    }
}
