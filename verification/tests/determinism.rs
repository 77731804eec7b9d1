use tetris_core::engine::{Engine, InputEvent};

fn make_input_event(key: u8) -> InputEvent {
    InputEvent { key, pressed: true }
}

/// A small deterministic generator for the action lists below.
fn next(state: &mut u32) -> u32 {
    *state = state.wrapping_mul(1103515245).wrapping_add(12345);
    *state >> 8
}

#[test]
fn same_seed_same_input_same_hash() {
    let mut gen: u32 = 7;
    for case in 0..40u32 {
        let seed = next(&mut gen) % 1_000_000;
        let len = (next(&mut gen) % 200) as usize;
        let actions: Vec<u8> = (0..len).map(|_| (next(&mut gen) % 7) as u8).collect();
        let mut engine_a = Engine::<10, 20>::new();
        let mut engine_b = Engine::<10, 20>::new();
        engine_a.reset(seed);
        engine_b.reset(seed);
        for chunk in actions.chunks(10) {
            let inputs: Vec<InputEvent> = chunk.iter().map(|&a| make_input_event(a)).collect();
            engine_a.fixed_tick(&inputs);
            engine_b.fixed_tick(&inputs);
            assert_eq!(engine_a.state_hash(), engine_b.state_hash(), "case {case}");
        }
    }
}

#[test]
fn different_seed_different_hash() {
    let mut gen: u32 = 11;
    for _ in 0..40u32 {
        let seed_a = next(&mut gen) % 500_000;
        let seed_b = 500_001 + next(&mut gen) % 499_999;
        let mut engine_a = Engine::<10, 20>::new();
        let mut engine_b = Engine::<10, 20>::new();
        engine_a.reset(seed_a);
        engine_b.reset(seed_b);
        let inputs: Vec<InputEvent> = (0..50).map(|_| make_input_event(3)).collect();
        engine_a.fixed_tick(&inputs);
        engine_b.fixed_tick(&inputs);
        assert_ne!(engine_a.state_hash(), engine_b.state_hash());
    }
}

#[test]
fn different_input_same_hash_is_expected() {
    let mut engine_a = Engine::<10, 20>::new();
    let mut engine_b = Engine::<10, 20>::new();
    engine_a.reset(0);
    engine_b.reset(0);
    // MoveLeft then MoveRight at spawn = no net change, same state
    engine_a.fixed_tick(&[make_input_event(0), make_input_event(1)]);
    engine_a.fixed_tick(&[]);
    engine_b.fixed_tick(&[]);
    engine_b.fixed_tick(&[]);
    assert_eq!(engine_a.state_hash(), engine_b.state_hash());
}
