use tetris_core::rl::{action_mask, action_to_placement, placement_to_action, ACTION_SPACE_SIZE};
use tetris_core::types::Rot;

#[test]
fn rl_action_to_placement_maps_flat_index() {
    assert_eq!(action_to_placement(5), Some((1, Rot::R90)));
}

#[test]
fn obs_action_to_placement_maps_flat_index() {
    assert_eq!(action_to_placement(5), Some((1, Rot::R90)));
}
