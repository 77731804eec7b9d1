use vstd::prelude::*;
use crate::types::{Rot, rot_code, rot_of_code};

verus! {

/// Board width the learning interface is built for.
pub const BOARD_W: usize = 10;

/// Board height the learning interface is built for.
pub const BOARD_H: usize = 20;

/// Number of distinct pieces.
pub const PIECE_COUNT: usize = 7;

/// Number of preview pieces.
pub const NEXT_COUNT: usize = 5;

/// Number of placement actions: one per column and rotation.
pub const ACTION_SPACE_SIZE: usize = 40;

/// Length of an observation vector.
pub const OBS_DIM: usize = 80;

/// The action index of a placement in column `col` with rotation `rot`,
/// if the column is on the board: `col * 4 + rot`.
pub open spec fn action_index(col: int, rot: Rot) -> Option<int> {
    if 0 <= col < BOARD_W {
        Some(col * 4 + rot_code(rot))
    } else {
        None
    }
}

/// The placement an action index denotes, if it is in range: column
/// `action / 4`, rotation `action % 4`.
pub open spec fn placement_of(action: int) -> Option<(i8, Rot)> {
    if 0 <= action < ACTION_SPACE_SIZE {
        Some(((action / 4) as i8, rot_of_code(action % 4)))
    } else {
        None
    }
}

/// The placement an action index denotes; `None` past the action space.
pub fn action_to_placement(action: usize) -> (r: Option<(i8, Rot)>)
    ensures
        r == placement_of(action as int),
{
    if action >= ACTION_SPACE_SIZE {
        return None;
    }
    let col = (action / 4) as i8;
    let rot = match action % 4 {
        0 => Rot::R0,
        1 => Rot::R90,
        2 => Rot::R180,
        _ => Rot::R270,
    };
    Some((col, rot))
}

/// The action index of a placement; `None` for a column off the board
/// (negative columns included).
pub fn placement_to_action(col: i8, rot: Rot) -> (r: Option<usize>)
    ensures
        r matches Some(a) ==> action_index(col as int, rot) == Some(a as int),
        r is None ==> action_index(col as int, rot) is None,
{
    if col < 0 || col >= BOARD_W as i8 {
        return None;
    }
    Some(col as usize * 4 + rot.to_u8() as usize)
}

/// A mask over the action space with exactly the actions of `placements`
/// set (placements off the board are ignored).
pub fn action_mask(placements: &[(i8, Rot)]) -> (mask: Vec<bool>)
    ensures
        mask@.len() == ACTION_SPACE_SIZE,
        forall|a: int|
            0 <= a < ACTION_SPACE_SIZE ==> #[trigger] mask@[a] == exists|k: int|
                0 <= k < placements@.len() && action_index(placements@[k].0 as int, placements@[k].1)
                    == Some(a),
{
    let mut mask: Vec<bool> = Vec::new();
    let mut i: usize = 0;
    while i < ACTION_SPACE_SIZE
        invariant
            i <= ACTION_SPACE_SIZE,
            mask@.len() == i,
            forall|a: int| 0 <= a < i ==> !#[trigger] mask@[a],
        decreases ACTION_SPACE_SIZE - i,
    {
        mask.push(false);
        i = i + 1;
    }
    let mut k: usize = 0;
    while k < placements.len()
        invariant
            k <= placements.len(),
            mask@.len() == ACTION_SPACE_SIZE,
            forall|a: int|
                0 <= a < ACTION_SPACE_SIZE ==> #[trigger] mask@[a] == exists|j: int|
                    0 <= j < k && action_index(placements@[j].0 as int, placements@[j].1) == Some(a),
        decreases placements.len() - k,
    {
        let (col, rot) = placements[k];
        let idx = placement_to_action(col, rot);
        let ghost before = mask@;
        if let Some(index) = idx {
            mask.set(index, true);
        }
        proof {
            assert forall|a: int| 0 <= a < ACTION_SPACE_SIZE implies #[trigger] mask@[a] == exists|j: int|
                0 <= j < k + 1 && action_index(placements@[j].0 as int, placements@[j].1) == Some(a) by {
                if action_index(placements@[k as int].0 as int, placements@[k as int].1) == Some(a) {
                    assert(mask@[a]);
                } else {
                    if before[a] {
                        let j = choose|j: int|
                            0 <= j < k && action_index(placements@[j].0 as int, placements@[j].1) == Some(a);
                        assert(0 <= j < k + 1);
                    }
                    if exists|j: int| 0 <= j < k + 1 && action_index(placements@[j].0 as int, placements@[j].1) == Some(a) {
                        let j = choose|j: int|
                            0 <= j < k + 1 && action_index(placements@[j].0 as int, placements@[j].1) == Some(a);
                        assert(j < k);
                    }
                }
            }
        }
        k = k + 1;
    }
    mask
}

/// Decoding an action index and encoding the placement gives the index
/// back, for every index in the action space.
pub proof fn lemma_action_round_trip(action: int)
    requires
        0 <= action < ACTION_SPACE_SIZE,
    ensures
        placement_of(action) matches Some((col, rot)) && action_index(col as int, rot) == Some(action),
{
    let col = action / 4;
    let r = action % 4;
    assert(0 <= col < 10);
    assert((col as i8) as int == col);
    assert(rot_code(rot_of_code(r)) == r);
}

/// Encoding a placement on the board and decoding the index gives the
/// placement back.
pub proof fn lemma_placement_round_trip(col: i8, rot: Rot)
    requires
        0 <= col < BOARD_W,
    ensures
        action_index(col as int, rot) matches Some(a) && placement_of(a) == Some((col, rot)),
{
    let a = col * 4 + rot_code(rot);
    assert(a / 4 == col && a % 4 == rot_code(rot));
    crate::types::lemma_rot_code_round_trip(rot);
}

} // verus!
