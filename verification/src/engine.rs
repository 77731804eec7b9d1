use vstd::prelude::*;
use vstd::arithmetic::power::pow;
use crate::attack::{AttackResult, attack_outcome, calculate_attack, no_attack};
use crate::board::{Board, dims_ok, full_rows_from, rows_after_clear, clear_mask, lemma_kept_rows_len};
use crate::lockdelay::{LockDelay, LOCK_DELAY_TICKS, MAX_MOVE_RESETS};
use crate::rng::{lcg_next, lcg_step};
use crate::rules::{
    can_place, fits, hard_drop, lock_piece, try_move, try_rotate, moved, turned, first_kick,
    drop_y, locked_rows, lemma_fits_above_floor,
};
use crate::scoring::{ScoreTracker, scored, update_fits, fresh_tracker};
use crate::srs::srs_kick;
use crate::state::State;
use crate::types::{Piece, Rot, piece_of_code, rot_code};
use crate::hash::{hash_bytes, crc32_iso_hdlc, crc32_checksum, rows_bytes, push_u64, push_u32, push_piece_bytes, push_bag_bytes, flag};
use crate::piece::{bit16, piece_shape, shape_cell};
use crate::scoring::{lock_points, scoring_level};

verus! {

/// A player input, in the order of its numeric code 0..=6.
#[derive(Debug, Clone, Copy, PartialEq, Eq, Structural)]
pub enum Action {
    MoveLeft,
    MoveRight,
    SoftDrop,
    HardDrop,
    RotateCW,
    RotateCCW,
    Hold,
}

/// The action with numeric code `v`; unknown codes mean `MoveLeft`.
pub open spec fn action_of_code(v: int) -> Action {
    if v == 1 {
        Action::MoveRight
    } else if v == 2 {
        Action::SoftDrop
    } else if v == 3 {
        Action::HardDrop
    } else if v == 4 {
        Action::RotateCW
    } else if v == 5 {
        Action::RotateCCW
    } else if v == 6 {
        Action::Hold
    } else {
        Action::MoveLeft
    }
}

impl Action {
    /// The action with numeric code `v`; unknown codes mean `MoveLeft`.
    pub fn from_u8(v: u8) -> (r: Self)
        ensures
            r == action_of_code(v as int),
    {
        match v {
            0 => Action::MoveLeft,
            1 => Action::MoveRight,
            2 => Action::SoftDrop,
            3 => Action::HardDrop,
            4 => Action::RotateCW,
            5 => Action::RotateCCW,
            6 => Action::Hold,
            _ => Action::MoveLeft,
        }
    }
}

/// Length of one fixed simulation tick in milliseconds.
pub const FIXED_TICK_MS: u32 = 17;

/// One input of a fixed tick: an action code and whether its key went down.
#[derive(Debug, Clone, Copy)]
pub struct InputEvent {
    pub key: u8,
    pub pressed: bool,
}

/// What a fixed tick produced: the attack of a lock, if one happened (or
/// of the input that ended the tick), whether the tick ended on such an
/// event, and whether the game is over.
#[derive(Debug, Clone, Copy)]
pub struct TickResult {
    pub attack: Option<AttackResult>,
    pub cleared: bool,
    pub game_over: bool,
}

impl Default for TickResult {
    fn default() -> (r: Self)
        ensures
            r.attack is None,
            !r.cleared,
            !r.game_over,
    {
        TickResult { attack: None, cleared: false, game_over: false }
    }
}

/// Milliseconds per gravity row at `level` (clamped to 1..=15): the
/// guideline curve `(0.8 - (level - 1) * 0.007)^level` seconds, truncated to
/// whole milliseconds.
pub open spec fn gravity_ms(level: u32) -> u32 {
    if level <= 1 {
        800
    } else if level == 2 {
        628
    } else if level == 3 {
        485
    } else if level == 4 {
        368
    } else if level == 5 {
        274
    } else if level == 6 {
        200
    } else if level == 7 {
        143
    } else if level == 8 {
        101
    } else if level == 9 {
        69
    } else if level == 10 {
        47
    } else if level == 11 {
        31
    } else if level == 12 {
        20
    } else if level == 13 {
        12
    } else if level == 14 {
        8
    } else {
        4
    }
}

/// Milliseconds per gravity row at `level`; see `gravity_ms`.
pub fn gravity_interval_ms(level: u32) -> (r: u32)
    ensures
        r == gravity_ms(level),
        1 <= r <= 800,
{
    if level <= 1 {
        800
    } else if level == 2 {
        628
    } else if level == 3 {
        485
    } else if level == 4 {
        368
    } else if level == 5 {
        274
    } else if level == 6 {
        200
    } else if level == 7 {
        143
    } else if level == 8 {
        101
    } else if level == 9 {
        69
    } else if level == 10 {
        47
    } else if level == 11 {
        31
    } else if level == 12 {
        20
    } else if level == 13 {
        12
    } else if level == 14 {
        8
    } else {
        4
    }
}

#[verifier::spinoff_prover]
proof fn lemma_gravity_curve_1()
    ensures
        gravity_ms(1) as int * pow(1000, 0) <= pow(800, 1) < (gravity_ms(1) as int + 1) * pow(1000, 0),
{
    reveal(pow);
    assert(pow(800, 0) == 1);
    assert(pow(800, 1) == 800);
    assert(pow(1000, 0) == 1);
}

#[verifier::spinoff_prover]
proof fn lemma_gravity_curve_2()
    ensures
        gravity_ms(2) as int * pow(1000, 1) <= pow(793, 2) < (gravity_ms(2) as int + 1) * pow(1000, 1),
{
    reveal(pow);
    assert(pow(793, 0) == 1);
    assert(pow(793, 1) == 793);
    assert(pow(793, 2) == 628849);
    assert(pow(1000, 0) == 1);
    assert(pow(1000, 1) == 1000);
}

#[verifier::spinoff_prover]
proof fn lemma_gravity_curve_3()
    ensures
        gravity_ms(3) as int * pow(1000, 2) <= pow(786, 3) < (gravity_ms(3) as int + 1) * pow(1000, 2),
{
    reveal(pow);
    assert(pow(786, 0) == 1);
    assert(pow(786, 1) == 786);
    assert(pow(786, 2) == 617796);
    assert(pow(786, 3) == 485587656);
    assert(pow(1000, 0) == 1);
    assert(pow(1000, 1) == 1000);
    assert(pow(1000, 2) == 1000000);
}

#[verifier::spinoff_prover]
proof fn lemma_gravity_curve_4()
    ensures
        gravity_ms(4) as int * pow(1000, 3) <= pow(779, 4) < (gravity_ms(4) as int + 1) * pow(1000, 3),
{
    reveal(pow);
    assert(pow(779, 0) == 1);
    assert(pow(779, 1) == 779);
    assert(pow(779, 2) == 606841);
    assert(pow(779, 3) == 472729139);
    assert(pow(779, 4) == 368255999281);
    assert(pow(1000, 0) == 1);
    assert(pow(1000, 1) == 1000);
    assert(pow(1000, 2) == 1000000);
    assert(pow(1000, 3) == 1000000000);
}

#[verifier::spinoff_prover]
proof fn lemma_gravity_curve_5()
    ensures
        gravity_ms(5) as int * pow(1000, 4) <= pow(772, 5) < (gravity_ms(5) as int + 1) * pow(1000, 4),
{
    reveal(pow);
    assert(pow(772, 0) == 1);
    assert(pow(772, 1) == 772);
    assert(pow(772, 2) == 595984);
    assert(pow(772, 3) == 460099648);
    assert(pow(772, 4) == 355196928256);
    assert(pow(772, 5) == 274212028613632);
    assert(pow(1000, 0) == 1);
    assert(pow(1000, 1) == 1000);
    assert(pow(1000, 2) == 1000000);
    assert(pow(1000, 3) == 1000000000);
    assert(pow(1000, 4) == 1000000000000);
}

#[verifier::spinoff_prover]
proof fn lemma_gravity_curve_6()
    ensures
        gravity_ms(6) as int * pow(1000, 5) <= pow(765, 6) < (gravity_ms(6) as int + 1) * pow(1000, 5),
{
    reveal(pow);
    assert(pow(765, 0) == 1);
    assert(pow(765, 1) == 765);
    assert(pow(765, 2) == 585225);
    assert(pow(765, 3) == 447697125);
    assert(pow(765, 4) == 342488300625);
    assert(pow(765, 5) == 262003549978125);
    assert(pow(765, 6) == 200432715733265625);
    assert(pow(1000, 0) == 1);
    assert(pow(1000, 1) == 1000);
    assert(pow(1000, 2) == 1000000);
    assert(pow(1000, 3) == 1000000000);
    assert(pow(1000, 4) == 1000000000000);
    assert(pow(1000, 5) == 1000000000000000);
}

#[verifier::spinoff_prover]
proof fn lemma_gravity_curve_7()
    ensures
        gravity_ms(7) as int * pow(1000, 6) <= pow(758, 7) < (gravity_ms(7) as int + 1) * pow(1000, 6),
{
    reveal(pow);
    assert(pow(758, 0) == 1);
    assert(pow(758, 1) == 758);
    assert(pow(758, 2) == 574564);
    assert(pow(758, 3) == 435519512);
    assert(pow(758, 4) == 330123790096);
    assert(pow(758, 5) == 250233832892768);
    assert(pow(758, 6) == 189677245332718144);
    assert(pow(758, 7) == 143775351962200353152);
    assert(pow(1000, 0) == 1);
    assert(pow(1000, 1) == 1000);
    assert(pow(1000, 2) == 1000000);
    assert(pow(1000, 3) == 1000000000);
    assert(pow(1000, 4) == 1000000000000);
    assert(pow(1000, 5) == 1000000000000000);
    assert(pow(1000, 6) == 1000000000000000000);
}

#[verifier::spinoff_prover]
proof fn lemma_gravity_curve_8()
    ensures
        gravity_ms(8) as int * pow(1000, 7) <= pow(751, 8) < (gravity_ms(8) as int + 1) * pow(1000, 7),
{
    reveal(pow);
    assert(pow(751, 0) == 1);
    assert(pow(751, 1) == 751);
    assert(pow(751, 2) == 564001);
    assert(pow(751, 3) == 423564751);
    assert(pow(751, 4) == 318097128001);
    assert(pow(751, 5) == 238890943128751);
    assert(pow(751, 6) == 179407098289692001);
    assert(pow(751, 7) == 134734730815558692751);
    assert(pow(751, 8) == 101185782842484578256001);
    assert(pow(1000, 0) == 1);
    assert(pow(1000, 1) == 1000);
    assert(pow(1000, 2) == 1000000);
    assert(pow(1000, 3) == 1000000000);
    assert(pow(1000, 4) == 1000000000000);
    assert(pow(1000, 5) == 1000000000000000);
    assert(pow(1000, 6) == 1000000000000000000);
    assert(pow(1000, 7) == 1000000000000000000000);
}

#[verifier::spinoff_prover]
proof fn lemma_gravity_curve_9()
    ensures
        gravity_ms(9) as int * pow(1000, 8) <= pow(744, 9) < (gravity_ms(9) as int + 1) * pow(1000, 8),
{
    reveal(pow);
    assert(pow(744, 0) == 1);
    assert(pow(744, 1) == 744);
    assert(pow(744, 2) == 553536);
    assert(pow(744, 3) == 411830784);
    assert(pow(744, 4) == 306402103296);
    assert(pow(744, 5) == 227963164852224);
    assert(pow(744, 6) == 169604594650054656);
    assert(pow(744, 7) == 126185818419640664064);
    assert(pow(744, 8) == 93882248904212654063616);
    assert(pow(744, 9) == 69848393184734214623330304);
    assert(pow(1000, 0) == 1);
    assert(pow(1000, 1) == 1000);
    assert(pow(1000, 2) == 1000000);
    assert(pow(1000, 3) == 1000000000);
    assert(pow(1000, 4) == 1000000000000);
    assert(pow(1000, 5) == 1000000000000000);
    assert(pow(1000, 6) == 1000000000000000000);
    assert(pow(1000, 7) == 1000000000000000000000);
    assert(pow(1000, 8) == 1000000000000000000000000);
}

#[verifier::spinoff_prover]
proof fn lemma_gravity_curve_10()
    ensures
        gravity_ms(10) as int * pow(1000, 9) <= pow(737, 10) < (gravity_ms(10) as int + 1) * pow(1000, 9),
{
    reveal(pow);
    assert(pow(737, 0) == 1);
    assert(pow(737, 1) == 737);
    assert(pow(737, 2) == 543169);
    assert(pow(737, 3) == 400315553);
    assert(pow(737, 4) == 295032562561);
    assert(pow(737, 5) == 217438998607457);
    assert(pow(737, 6) == 160252541973695809);
    assert(pow(737, 7) == 118106123434613811233);
    assert(pow(737, 8) == 87044212971310378878721);
    assert(pow(737, 9) == 64151584959855749233617377);
    assert(pow(737, 10) == 47279718115413687185176006849);
    assert(pow(1000, 0) == 1);
    assert(pow(1000, 1) == 1000);
    assert(pow(1000, 2) == 1000000);
    assert(pow(1000, 3) == 1000000000);
    assert(pow(1000, 4) == 1000000000000);
    assert(pow(1000, 5) == 1000000000000000);
    assert(pow(1000, 6) == 1000000000000000000);
    assert(pow(1000, 7) == 1000000000000000000000);
    assert(pow(1000, 8) == 1000000000000000000000000);
    assert(pow(1000, 9) == 1000000000000000000000000000);
}

#[verifier::spinoff_prover]
proof fn lemma_gravity_curve_11()
    ensures
        gravity_ms(11) as int * pow(1000, 10) <= pow(730, 11) < (gravity_ms(11) as int + 1) * pow(1000, 10),
{
    reveal(pow);
    assert(pow(730, 0) == 1);
    assert(pow(730, 1) == 730);
    assert(pow(730, 2) == 532900);
    assert(pow(730, 3) == 389017000);
    assert(pow(730, 4) == 283982410000);
    assert(pow(730, 5) == 207307159300000);
    assert(pow(730, 6) == 151334226289000000);
    assert(pow(730, 7) == 110473985190970000000);
    assert(pow(730, 8) == 80646009189408100000000);
    assert(pow(730, 9) == 58871586708267913000000000);
    assert(pow(730, 10) == 42976258297035576490000000000);
    assert(pow(730, 11) == 31372668556835970837700000000000);
    assert(pow(1000, 0) == 1);
    assert(pow(1000, 1) == 1000);
    assert(pow(1000, 2) == 1000000);
    assert(pow(1000, 3) == 1000000000);
    assert(pow(1000, 4) == 1000000000000);
    assert(pow(1000, 5) == 1000000000000000);
    assert(pow(1000, 6) == 1000000000000000000);
    assert(pow(1000, 7) == 1000000000000000000000);
    assert(pow(1000, 8) == 1000000000000000000000000);
    assert(pow(1000, 9) == 1000000000000000000000000000);
    assert(pow(1000, 10) == 1000000000000000000000000000000);
}

#[verifier::spinoff_prover]
proof fn lemma_gravity_curve_12()
    ensures
        gravity_ms(12) as int * pow(1000, 11) <= pow(723, 12) < (gravity_ms(12) as int + 1) * pow(1000, 11),
{
    reveal(pow);
    assert(pow(723, 0) == 1);
    assert(pow(723, 1) == 723);
    assert(pow(723, 2) == 522729);
    assert(pow(723, 3) == 377933067);
    assert(pow(723, 4) == 273245607441);
    assert(pow(723, 5) == 197556574179843);
    assert(pow(723, 6) == 142833403132026489);
    assert(pow(723, 7) == 103268550464455151547);
    assert(pow(723, 8) == 74663161985801074568481);
    assert(pow(723, 9) == 53981466115734176913011763);
    assert(pow(723, 10) == 39028600001675809908107504649);
    assert(pow(723, 11) == 28217677801211610563561725861227);
    assert(pow(723, 12) == 20401381050275994437455127797667121);
    assert(pow(1000, 0) == 1);
    assert(pow(1000, 1) == 1000);
    assert(pow(1000, 2) == 1000000);
    assert(pow(1000, 3) == 1000000000);
    assert(pow(1000, 4) == 1000000000000);
    assert(pow(1000, 5) == 1000000000000000);
    assert(pow(1000, 6) == 1000000000000000000);
    assert(pow(1000, 7) == 1000000000000000000000);
    assert(pow(1000, 8) == 1000000000000000000000000);
    assert(pow(1000, 9) == 1000000000000000000000000000);
    assert(pow(1000, 10) == 1000000000000000000000000000000);
    assert(pow(1000, 11) == 1000000000000000000000000000000000);
}

#[verifier::spinoff_prover]
proof fn lemma_gravity_curve_13()
    ensures
        gravity_ms(13) as int * pow(1000, 12) <= pow(716, 13) < (gravity_ms(13) as int + 1) * pow(1000, 12),
{
    reveal(pow);
    assert(pow(716, 0) == 1);
    assert(pow(716, 1) == 716);
    assert(pow(716, 2) == 512656);
    assert(pow(716, 3) == 367061696);
    assert(pow(716, 4) == 262816174336);
    assert(pow(716, 5) == 188176380824576);
    assert(pow(716, 6) == 134734288670396416);
    assert(pow(716, 7) == 96469750688003833856);
    assert(pow(716, 8) == 69072341492610745040896);
    assert(pow(716, 9) == 49455796508709293449281536);
    assert(pow(716, 10) == 35410350300235854109685579776);
    assert(pow(716, 11) == 25353810814968871542534875119616);
    assert(pow(716, 12) == 18153328543517712024454970585645056);
    assert(pow(716, 13) == 12997783237158681809509758939321860096);
    assert(pow(1000, 0) == 1);
    assert(pow(1000, 1) == 1000);
    assert(pow(1000, 2) == 1000000);
    assert(pow(1000, 3) == 1000000000);
    assert(pow(1000, 4) == 1000000000000);
    assert(pow(1000, 5) == 1000000000000000);
    assert(pow(1000, 6) == 1000000000000000000);
    assert(pow(1000, 7) == 1000000000000000000000);
    assert(pow(1000, 8) == 1000000000000000000000000);
    assert(pow(1000, 9) == 1000000000000000000000000000);
    assert(pow(1000, 10) == 1000000000000000000000000000000);
    assert(pow(1000, 11) == 1000000000000000000000000000000000);
    assert(pow(1000, 12) == 1000000000000000000000000000000000000);
}

#[verifier::spinoff_prover]
proof fn lemma_gravity_curve_14()
    ensures
        gravity_ms(14) as int * pow(1000, 13) <= pow(709, 14) < (gravity_ms(14) as int + 1) * pow(1000, 13),
{
    reveal(pow);
    assert(pow(709, 0) == 1);
    assert(pow(709, 1) == 709);
    assert(pow(709, 2) == 502681);
    assert(pow(709, 3) == 356400829);
    assert(pow(709, 4) == 252688187761);
    assert(pow(709, 5) == 179155925122549);
    assert(pow(709, 6) == 127021550911887241);
    assert(pow(709, 7) == 90058279596528053869);
    assert(pow(709, 8) == 63851320233938390193121);
    assert(pow(709, 9) == 45270586045862318646922789);
    assert(pow(709, 10) == 32096845506516383920668257401);
    assert(pow(709, 11) == 22756663464120116199753794497309);
    assert(pow(709, 12) == 16134474396061162385625440298592081);
    assert(pow(709, 13) == 11439342346807364131408437171701785429);
    assert(pow(709, 14) == 8110493723886421169168581954736565869161);
    assert(pow(1000, 0) == 1);
    assert(pow(1000, 1) == 1000);
    assert(pow(1000, 2) == 1000000);
    assert(pow(1000, 3) == 1000000000);
    assert(pow(1000, 4) == 1000000000000);
    assert(pow(1000, 5) == 1000000000000000);
    assert(pow(1000, 6) == 1000000000000000000);
    assert(pow(1000, 7) == 1000000000000000000000);
    assert(pow(1000, 8) == 1000000000000000000000000);
    assert(pow(1000, 9) == 1000000000000000000000000000);
    assert(pow(1000, 10) == 1000000000000000000000000000000);
    assert(pow(1000, 11) == 1000000000000000000000000000000000);
    assert(pow(1000, 12) == 1000000000000000000000000000000000000);
    assert(pow(1000, 13) == 1000000000000000000000000000000000000000);
}

#[verifier::spinoff_prover]
proof fn lemma_gravity_curve_15()
    ensures
        gravity_ms(15) as int * pow(1000, 14) <= pow(702, 15) < (gravity_ms(15) as int + 1) * pow(1000, 14),
{
    reveal(pow);
    assert(pow(702, 0) == 1);
    assert(pow(702, 1) == 702);
    assert(pow(702, 2) == 492804);
    assert(pow(702, 3) == 345948408);
    assert(pow(702, 4) == 242855782416);
    assert(pow(702, 5) == 170484759256032);
    assert(pow(702, 6) == 119680300997734464);
    assert(pow(702, 7) == 84015571300409593728);
    assert(pow(702, 8) == 58978931052887534797056);
    assert(pow(702, 9) == 41403209599127049427533312);
    assert(pow(702, 10) == 29065053138587188698128385024);
    assert(pow(702, 11) == 20403667303288206466086126286848);
    assert(pow(702, 12) == 14323374446908320939192460653367296);
    assert(pow(702, 13) == 10055008861729641299313107378663841792);
    assert(pow(702, 14) == 7058616220934208192117801379822016937984);
    assert(pow(702, 15) == 4955148587095814150866696568635055890464768);
    assert(pow(1000, 0) == 1);
    assert(pow(1000, 1) == 1000);
    assert(pow(1000, 2) == 1000000);
    assert(pow(1000, 3) == 1000000000);
    assert(pow(1000, 4) == 1000000000000);
    assert(pow(1000, 5) == 1000000000000000);
    assert(pow(1000, 6) == 1000000000000000000);
    assert(pow(1000, 7) == 1000000000000000000000);
    assert(pow(1000, 8) == 1000000000000000000000000);
    assert(pow(1000, 9) == 1000000000000000000000000000);
    assert(pow(1000, 10) == 1000000000000000000000000000000);
    assert(pow(1000, 11) == 1000000000000000000000000000000000);
    assert(pow(1000, 12) == 1000000000000000000000000000000000000);
    assert(pow(1000, 13) == 1000000000000000000000000000000000000000);
    assert(pow(1000, 14) == 1000000000000000000000000000000000000000000);
}

/// The gravity curve: at level `l` from 1 to 15 a row falls every
/// `1000 * (0.8 - 0.007 * (l - 1)) ^ l` milliseconds, rounded down; that
/// is, the interval times `1000 ^ (l - 1)` is at most `(800 - 7 * (l - 1)) ^ l`,
/// which is less than one more interval times the same power.
pub proof fn lemma_gravity_curve(l: u32)
    requires
        1 <= l <= 15,
    ensures
        gravity_ms(l) as int * pow(1000, (l - 1) as nat) <= pow(800 - 7 * (l - 1), l as nat),
        pow(800 - 7 * (l - 1), l as nat) < (gravity_ms(l) as int + 1) * pow(1000, (l - 1) as nat),
{
    if l == 1 {
        lemma_gravity_curve_1();
    } else if l == 2 {
        lemma_gravity_curve_2();
    } else if l == 3 {
        lemma_gravity_curve_3();
    } else if l == 4 {
        lemma_gravity_curve_4();
    } else if l == 5 {
        lemma_gravity_curve_5();
    } else if l == 6 {
        lemma_gravity_curve_6();
    } else if l == 7 {
        lemma_gravity_curve_7();
    } else if l == 8 {
        lemma_gravity_curve_8();
    } else if l == 9 {
        lemma_gravity_curve_9();
    } else if l == 10 {
        lemma_gravity_curve_10();
    } else if l == 11 {
        lemma_gravity_curve_11();
    } else if l == 12 {
        lemma_gravity_curve_12();
    } else if l == 13 {
        lemma_gravity_curve_13();
    } else if l == 14 {
        lemma_gravity_curve_14();
    } else if l == 15 {
        lemma_gravity_curve_15();
    }
}

/// Gravity gets strictly faster from level to level up to 15, and never
/// drops below one millisecond per row.
pub proof fn lemma_gravity_faster(a: u32, b: u32)
    requires
        1 <= a < b <= 15,
    ensures
        gravity_ms(a) > gravity_ms(b),
        gravity_ms(b) >= 1,
{
}

/// The engine's board sizes: those of `Board`, at most 16 columns (the
/// hard-drop record keeps one bit per column in a `u16`).
pub open spec fn engine_dims(w: usize, h: usize) -> bool {
    dims_ok(w, h) && w <= 16
}

/// A single-player game: rules, piece bag, hold, scoring, gravity, and the
/// two lock delays (wall-clock for interactive play, tick-counted for the
/// deterministic fixed-tick simulation).
#[derive(Debug, Clone, Copy)]
pub struct Engine<const W: usize, const H: usize> {
    pub state: State<W, H>,
    pub game_over: bool,
    pub has_hold: bool,
    pub scorer: ScoreTracker,
    pub lock_delay_wall: LockDelay,
    pub lock_delay_active: bool,
    pub lock_delay_accumulated_ticks: u8,
    pub lock_delay_move_resets: u8,
    pub bag: [Piece; 7],
    pub bag_idx: usize,
    pub soft_drop_cells: u8,
    pub hard_drop_cells: u8,
    pub gravity_accumulator: u32,
}

/// Everything an engine holds except the wall-clock deadline, which only
/// the clock decides.
pub struct EngineView<const W: usize, const H: usize> {
    pub state: State<W, H>,
    pub game_over: bool,
    pub has_hold: bool,
    pub scorer: ScoreTracker,
    pub wall_active: bool,
    pub wall_resets: u32,
    pub lock_active: bool,
    pub lock_ticks: u8,
    pub lock_resets: u8,
    pub bag: [Piece; 7],
    pub bag_idx: usize,
    pub soft_drop_cells: u8,
    pub hard_drop_cells: u8,
    pub gravity_accumulator: u32,
}

impl<const W: usize, const H: usize> View for Engine<W, H> {
    type V = EngineView<W, H>;

    open spec fn view(&self) -> EngineView<W, H> {
        EngineView {
            state: self.state,
            game_over: self.game_over,
            has_hold: self.has_hold,
            scorer: self.scorer,
            wall_active: self.lock_delay_wall.active,
            wall_resets: self.lock_delay_wall.move_reset_count,
            lock_active: self.lock_delay_active,
            lock_ticks: self.lock_delay_accumulated_ticks,
            lock_resets: self.lock_delay_move_resets,
            bag: self.bag,
            bag_idx: self.bag_idx,
            soft_drop_cells: self.soft_drop_cells,
            hard_drop_cells: self.hard_drop_cells,
            gravity_accumulator: self.gravity_accumulator,
        }
    }
}

/// The board whose rows are `rows`.
pub open spec fn board_of<const W: usize, const H: usize>(rows: Seq<u64>) -> Board<W, H> {
    choose|b: Board<W, H>| b.rows@ == rows
}

/// The empty board.
pub open spec fn empty_board<const W: usize, const H: usize>() -> Board<W, H> {
    board_of(Seq::new(H as nat, |i: int| 0u64))
}

pub proof fn lemma_board_of<const W: usize, const H: usize>(b: Board<W, H>, rows: Seq<u64>)
    requires
        b.rows@ =~= rows,
    ensures
        board_of::<W, H>(rows) == b,
{
    let c = board_of::<W, H>(rows);
    assert(c.rows@ =~= b.rows@);
    assert(c.rows == b.rows);
}

/// Column at which pieces enter: two left of the middle.
pub open spec fn spawn_x(w: usize) -> int {
    (w / 2) as int - 2
}

/// The state at the start of a game seeded with `seed`, before any piece
/// is dealt.
pub open spec fn start_state<const W: usize, const H: usize>(seed: u32) -> State<W, H> {
    State {
        board: empty_board(),
        piece: Piece::T,
        rot: Rot::R0,
        x: 0,
        y: 0,
        hold: Piece::I,
        hold_used: false,
        next: [Piece::I, Piece::I, Piece::I, Piece::I, Piece::I],
        rng: seed,
        combo: 0,
        b2b: false,
        pending_garbage: 0,
        last_move_was_rotation: false,
        last_clear_mask: 0,
        last_clear_count: 0,
        last_harddrop_cols: 0,
        last_harddrop_start_y: 0,
        last_harddrop_end_y: 0,
        last_harddrop_piece: Piece::I,
        last_harddrop_valid: false,
    }
}

/// A freshly constructed engine: no game running (over), empty board.
pub open spec fn initial_view<const W: usize, const H: usize>() -> EngineView<W, H> {
    EngineView {
        state: start_state(0),
        game_over: true,
        has_hold: false,
        scorer: fresh_tracker(),
        wall_active: false,
        wall_resets: 0,
        lock_active: false,
        lock_ticks: 0,
        lock_resets: 0,
        bag: [Piece::I, Piece::I, Piece::I, Piece::I, Piece::I, Piece::I, Piece::I],
        bag_idx: 7,
        soft_drop_cells: 0,
        hard_drop_cells: 0,
        gravity_accumulator: 0,
    }
}

/// The seven pieces in code order, the bag before it is shuffled.
pub open spec fn ordered_bag() -> Seq<Piece> {
    seq![Piece::I, Piece::O, Piece::T, Piece::S, Piece::Z, Piece::J, Piece::L]
}

/// The Fisher-Yates passes `i, i - 1, ..., 1` over `bag`, each drawing the
/// next random number and swapping position `i` with position
/// `number % (i + 1)`; returns the bag and the random state afterwards.
pub open spec fn shuffle_steps(bag: Seq<Piece>, rng: u32, i: int) -> (Seq<Piece>, u32)
    decreases i,
{
    if i < 1 {
        (bag, rng)
    } else {
        let r = lcg_step(rng);
        let j = (r as int) % (i + 1);
        shuffle_steps(bag.update(i, bag[j]).update(j, bag[i]), r, i - 1)
    }
}

/// A shuffled bag drawn from random state `rng`, and the state after it.
pub open spec fn shuffled_bag(rng: u32) -> (Seq<Piece>, u32) {
    shuffle_steps(ordered_bag(), rng, 6)
}

/// The array holding the first seven entries of `s`.
pub open spec fn bag_array(s: Seq<Piece>) -> [Piece; 7] {
    [s[0], s[1], s[2], s[3], s[4], s[5], s[6]]
}

/// Whether a sequence holds each of the seven pieces exactly once.
pub open spec fn is_full_bag(s: Seq<Piece>) -> bool {
    &&& s.len() == 7
    &&& forall|p: Piece| #[trigger] s.contains(p)
}

proof fn lemma_swap_keeps_bag(bag: Seq<Piece>, i: int, j: int)
    requires
        is_full_bag(bag),
        0 <= i < 7,
        0 <= j < 7,
    ensures
        is_full_bag(bag.update(i, bag[j]).update(j, bag[i])),
{
    let b2 = bag.update(i, bag[j]).update(j, bag[i]);
    assert forall|p: Piece| #[trigger] b2.contains(p) by {
        assert(bag.contains(p));
        let k = choose|k: int| 0 <= k < bag.len() && bag[k] == p;
        if k == i {
            assert(b2[j] == p);
        } else if k == j {
            assert(b2[i] == p);
        } else {
            assert(b2[k] == p);
        }
    }
}

proof fn lemma_shuffle_steps_keeps_bag(bag: Seq<Piece>, rng: u32, i: int)
    requires
        is_full_bag(bag),
        i < 7,
    ensures
        is_full_bag(shuffle_steps(bag, rng, i).0),
    decreases i,
{
    if i >= 1 {
        let r = lcg_step(rng);
        let j = (r as int) % (i + 1);
        lemma_swap_keeps_bag(bag, i, j);
        lemma_shuffle_steps_keeps_bag(bag.update(i, bag[j]).update(j, bag[i]), r, i - 1);
    }
}

/// Every shuffled bag deals each of the seven pieces exactly once.
pub proof fn lemma_shuffled_bag_is_full(rng: u32)
    ensures
        is_full_bag(shuffled_bag(rng).0),
{
    assert forall|p: Piece| #[trigger] ordered_bag().contains(p) by {
        match p {
            Piece::I => assert(ordered_bag()[0] == p),
            Piece::O => assert(ordered_bag()[1] == p),
            Piece::T => assert(ordered_bag()[2] == p),
            Piece::S => assert(ordered_bag()[3] == p),
            Piece::Z => assert(ordered_bag()[4] == p),
            Piece::J => assert(ordered_bag()[5] == p),
            Piece::L => assert(ordered_bag()[6] == p),
        }
    }
    lemma_shuffle_steps_keeps_bag(ordered_bag(), rng, 6);
}

/// The engine after drawing the next piece from the bag, and the piece: an
/// exhausted bag is refilled with a fresh shuffle first.
#[verifier::opaque]
pub open spec fn popped<const W: usize, const H: usize>(v: EngineView<W, H>) -> (EngineView<W, H>, Piece) {
    if v.bag_idx >= 7 {
        let (b, r) = shuffled_bag(v.state.rng);
        (EngineView { state: State { rng: r, ..v.state }, bag: bag_array(b), bag_idx: 1, ..v }, b[0])
    } else {
        (EngineView { bag_idx: (v.bag_idx + 1) as usize, ..v }, v.bag[v.bag_idx as int])
    }
}

/// The engine after the next piece enters: the first preview piece becomes
/// active at the spawn column in rotation 0 on the top row, the preview
/// moves up and is refilled from the bag, hold is available again, the
/// wall-clock delay stops, and the game is over if the piece does not fit.
#[verifier::opaque]
pub open spec fn spawned<const W: usize, const H: usize>(v: EngineView<W, H>) -> EngineView<W, H> {
    let (v1, p) = popped(v);
    let st = v1.state;
    let piece = st.next[0];
    let st2 = State {
        piece: piece,
        next: [st.next[1], st.next[2], st.next[3], st.next[4], p],
        rot: Rot::R0,
        x: spawn_x(W) as i8,
        y: 0,
        hold_used: false,
        ..st
    };
    EngineView {
        state: st2,
        wall_active: false,
        wall_resets: 0,
        game_over: v.game_over || !fits(st2.board, piece, Rot::R0, spawn_x(W), 0),
        ..v1
    }
}


/// Whether column `j` of the box of piece `p` in rotation `r` holds a cell.
pub open spec fn col_present(p: Piece, r: Rot, j: int) -> bool {
    shape_cell(p, r, 0, j) || shape_cell(p, r, 1, j) || shape_cell(p, r, 2, j) || shape_cell(p, r, 3, j)
}

/// The bit of board column `x + j` when column `j` of the piece's box holds
/// a cell and that column is on a board `w` wide; else 0.
pub open spec fn col_bit(p: Piece, r: Rot, x: int, j: int, w: int) -> u16 {
    if col_present(p, r, j) && 0 <= x + j < w {
        1u16 << ((x + j) as u16)
    } else {
        0u16
    }
}

/// The board columns that piece `p` in rotation `r` at column `x` covers,
/// one bit per column.
pub open spec fn harddrop_cols<const W: usize>(p: Piece, r: Rot, x: int) -> u16 {
    col_bit(p, r, x, 0, W as int) | col_bit(p, r, x, 1, W as int) | col_bit(p, r, x, 2, W as int)
        | col_bit(p, r, x, 3, W as int)
}

/// The state with a hard drop from row `start_y` to row `end_y` recorded:
/// the columns the piece covers, the two rows, the piece, and whether any
/// column was covered.
pub open spec fn recorded<const W: usize, const H: usize>(st: State<W, H>, start_y: i8, end_y: i8) -> State<W, H> {
    let m = harddrop_cols::<W>(st.piece, st.rot, st.x as int);
    State {
        last_harddrop_cols: m,
        last_harddrop_start_y: start_y,
        last_harddrop_end_y: end_y,
        last_harddrop_piece: st.piece,
        last_harddrop_valid: m != 0,
        ..st
    }
}

/// Lock-delay bookkeeping after a successful move or rotation: the
/// wall-clock delay restarts while fewer than `MAX_MOVE_RESETS` resets were
/// used; the tick-counted delay restarts (and counts the reset) only while
/// it is running, that is while the piece rests on something, and fewer
/// than `MAX_MOVE_RESETS` resets were used.
#[verifier::opaque]
pub open spec fn move_reset<const W: usize, const H: usize>(v: EngineView<W, H>) -> EngineView<W, H> {
    let wall_on = v.wall_resets < MAX_MOVE_RESETS;
    let wa = if wall_on {
        true
    } else {
        v.wall_active
    };
    let wr = if wall_on {
        (v.wall_resets + 1) as u32
    } else {
        v.wall_resets
    };
    if v.lock_active && v.lock_resets < MAX_MOVE_RESETS {
        EngineView {
            wall_active: wa,
            wall_resets: wr,
            lock_resets: (v.lock_resets + 1) as u8,
            lock_ticks: 0,
            ..v
        }
    } else {
        EngineView { wall_active: wa, wall_resets: wr, ..v }
    }
}

/// The engine after trying to move the active piece by `(dx, dy)`, and
/// whether it moved: it moves when it fits there, which clears the
/// last-move-was-rotation flag and restarts the lock delays (see
/// `move_reset`).
#[verifier::opaque]
pub open spec fn shifted<const W: usize, const H: usize>(v: EngineView<W, H>, dx: int, dy: int) -> (EngineView<W, H>, bool) {
    let st = v.state;
    if fits(st.board, st.piece, st.rot, st.x + dx, st.y + dy) {
        (
            move_reset(
                EngineView {
                    state: State {
                        x: (st.x + dx) as i8,
                        y: (st.y + dy) as i8,
                        last_move_was_rotation: false,
                        ..st
                    },
                    ..v
                },
            ),
            true,
        )
    } else {
        (v, false)
    }
}

/// The engine after trying to turn the active piece to `to`, and whether it
/// turned: the first rotation-system offset that fits is taken (see
/// `first_kick`), which sets the last-move-was-rotation flag and restarts
/// the lock delays. A piece more than 120 rows above the board does not
/// turn, so that its row stays representable.
#[verifier::opaque]
pub open spec fn turned_to<const W: usize, const H: usize>(v: EngineView<W, H>, to: Rot) -> (EngineView<W, H>, bool) {
    let st = v.state;
    if st.y < -120 {
        (v, false)
    } else {
        match first_kick(st.board, st.piece, st.rot, to, st.x as int, st.y as int, 0) {
            Some(i) => {
                let k = srs_kick(st.piece, rot_code(st.rot) as int, rot_code(to) as int, i);
                (
                    move_reset(
                        EngineView {
                            state: State {
                                x: (st.x + k.dx) as i8,
                                y: (st.y - k.dy) as i8,
                                rot: to,
                                last_move_was_rotation: true,
                                ..st
                            },
                            ..v
                        },
                    ),
                    true,
                )
            },
            None => (v, false),
        }
    }
}

/// The state after the active piece is written into the board and the full
/// rows are cleared (see `lock_piece`), and the number of rows cleared.
#[verifier::opaque]
pub open spec fn locked_state<const W: usize, const H: usize>(st: State<W, H>) -> (State<W, H>, int) {
    let locked = locked_rows(st.board, st.piece, st.rot, st.x as int, st.y as int);
    let full = Board::<W, H>::full_bits();
    let cleared = full_rows_from(locked, full, 0);
    (
        State {
            board: board_of(rows_after_clear(locked, full)),
            last_clear_mask: clear_mask(locked, full, 0) as u32,
            last_clear_count: cleared as u8,
            ..st
        },
        cleared,
    )
}

/// The combo count a lock is scored with: one less than the combo counter
/// after the lock, at least 0.
pub open spec fn combo_arg(c: i32) -> u32 {
    if c > 1 {
        (c - 1) as u32
    } else {
        0
    }
}

/// The first half of `after_lock`: the engine after the piece locks, the
/// lock is scored and garbage is settled, before the next piece spawns,
/// and the attack sent.
pub open spec fn settled_lock<const W: usize, const H: usize>(v: EngineView<W, H>) -> (EngineView<W, H>, AttackResult) {
    let (st1, lines) = locked_state(v.state);
    let (atk, st2) = attack_outcome(st1, lines);
    let sc = scored(
        v.scorer,
        lines,
        atk.is_tspin,
        atk.is_mini,
        atk.is_b2b,
        atk.perfect_clear,
        v.soft_drop_cells as int,
        v.hard_drop_cells as int,
        combo_arg(st2.combo),
        v.scorer.level,
    );
    let v2 = EngineView { state: st2, scorer: sc, soft_drop_cells: 0, hard_drop_cells: 0, ..v };
    let pending = st2.pending_garbage;
    let (v3, atk3) = if atk.damage > 0 && pending > 0 {
        if atk.damage >= pending {
            (
                EngineView { state: State { pending_garbage: 0, ..st2 }, ..v2 },
                AttackResult { damage: (atk.damage - pending) as i32, ..atk },
            )
        } else {
            (
                EngineView { state: State { pending_garbage: (pending - atk.damage) as u8, ..st2 }, ..v2 },
                AttackResult { damage: 0, ..atk },
            )
        }
    } else if lines == 0 && pending > 0 {
        let r = lcg_step(st2.rng);
        let hole = (r as int) % (W as int);
        (
            EngineView {
                state: State {
                    rng: r,
                    board: board_of(st2.board.garbage_inserted(pending as int, hole)),
                    pending_garbage: 0,
                    ..st2
                },
                ..v2
            },
            atk,
        )
    } else {
        (v2, atk)
    };
    (v3, atk3)
}

/// The engine after the active piece locks, and the attack it sends: the
/// piece is written in and full rows cleared, the attack computed (see
/// `attack_outcome`) and the lock scored (see `scored`) with the cells
/// dropped since the last lock; then pending garbage is settled: an attack
/// first cancels pending garbage line for line, and a lock that clears
/// nothing while garbage is pending lets all of it rise with its hole in a
/// random column. Finally the next piece spawns.
#[verifier::opaque]
pub open spec fn after_lock<const W: usize, const H: usize>(v: EngineView<W, H>) -> (EngineView<W, H>, AttackResult) {
    let (v3, atk3) = settled_lock(v);
    (spawned(v3), atk3)
}

/// The combo counter, or 0 while it is negative.
pub open spec fn combo_pos(c: i32) -> int {
    if c >= 0 {
        c as int
    } else {
        0
    }
}

/// The most points `n` locks can earn from combo `c` on: 85000 plus 750
/// per combo step each, the combo growing by one per lock.
#[verifier::opaque]
pub open spec fn points_room(c: int, n: int) -> int {
    n * (85_000 + 750 * (c + n))
}

/// The most rows `n` locks can clear on a board of `h` rows.
#[verifier::opaque]
pub open spec fn rows_room(n: int, h: int) -> int {
    n * h
}

/// Whether the counters have room for `n` more locks, whatever they clear:
/// each lock adds at most one to the combo, earns at most 85000 points
/// plus 750 per combo step at the highest level (see `lock_points`), clears
/// at most the board's `H` rows and adds at most one to each statistic.
pub open spec fn room_for<const W: usize, const H: usize>(v: EngineView<W, H>, n: int) -> bool {
    &&& v.state.combo + n <= i32::MAX
    &&& v.scorer.score + points_room(combo_pos(v.state.combo), n) <= u64::MAX
    &&& v.scorer.total_lines + rows_room(n, H as int) <= u32::MAX
    &&& v.scorer.b2b_count + n <= u32::MAX
    &&& v.scorer.tspin_count + n <= u32::MAX
    &&& v.scorer.all_clear_count + n <= u32::MAX
    &&& v.scorer.total_pieces + n <= u32::MAX
}

/// Whether locking the active piece keeps every counter within its type:
/// a clear can still add one to the combo, and the score, line total and
/// statistics fit (see `update_fits`). Where this fails, the lock would
/// overflow a counter.
pub open spec fn lock_fits<const W: usize, const H: usize>(v: EngineView<W, H>) -> bool {
    let (st1, lines) = locked_state(v.state);
    let (atk, st2) = attack_outcome(st1, lines);
    &&& lines > 0 ==> st1.combo < i32::MAX
    &&& update_fits(
        v.scorer,
        lines,
        atk.is_tspin,
        atk.is_mini,
        atk.is_b2b,
        atk.perfect_clear,
        v.soft_drop_cells as int,
        v.hard_drop_cells as int,
        combo_arg(st2.combo),
        v.scorer.level,
    )
}

proof fn lemma_lock_points_bounded(
    lines: int,
    tspin: bool,
    mini: bool,
    b2b: bool,
    perfect_clear: bool,
    soft: int,
    hard: int,
    combo: int,
    level: int,
)
    requires
        0 <= lines,
        0 <= soft <= 255,
        0 <= hard <= 255,
        0 <= combo <= i32::MAX,
        1 <= level <= 15,
    ensures
        0 <= lock_points(lines, tspin, mini, b2b, perfect_clear, soft, hard, combo, level) <= 85_000 + 750 * combo,
{
    let base = crate::scoring::clear_base(lines, tspin, mini);
    let pcb = crate::scoring::perfect_clear_base(lines, b2b);
    assert(0 <= base * level <= 1600 * 15) by (nonlinear_arith)
        requires
            0 <= base <= 1600,
            1 <= level <= 15,
    ;
    assert(0 <= 50 * combo * level <= 750 * combo) by (nonlinear_arith)
        requires
            0 <= combo <= 0x7fff_ffff,
            1 <= level <= 15,
    ;
    assert(0 <= pcb * level <= 3200 * 15) by (nonlinear_arith)
        requires
            0 <= pcb <= 3200,
            1 <= level <= 15,
    ;
}

/// The clock-free state at the start of a game, before pieces are dealt.
#[verifier::opaque]
pub open spec fn cleared_for_start<const W: usize, const H: usize>(v: EngineView<W, H>, seed: u32, level: u32) -> EngineView<W, H> {
    EngineView {
        state: start_state(seed),
        game_over: false,
        has_hold: false,
        scorer: ScoreTracker { level: clamp_level(level), ..fresh_tracker() },
        wall_active: false,
        wall_resets: 0,
        lock_active: false,
        lock_ticks: 0,
        lock_resets: 0,
        bag: v.bag,
        bag_idx: 7,
        soft_drop_cells: 0,
        hard_drop_cells: 0,
        gravity_accumulator: 0,
    }
}

/// A start level clamped to 1..=15.
pub open spec fn clamp_level(l: u32) -> u32 {
    if l < 1 {
        1
    } else if l > 15 {
        15
    } else {
        l
    }
}

/// The engine with its preview filled by five draws from the bag.
#[verifier::opaque]
pub open spec fn dealt_preview<const W: usize, const H: usize>(v: EngineView<W, H>) -> EngineView<W, H> {
    let (v1, p0) = popped(v);
    let (v2, p1) = popped(v1);
    let (v3, p2) = popped(v2);
    let (v4, p3) = popped(v3);
    let (v5, p4) = popped(v4);
    EngineView { state: State { next: [p0, p1, p2, p3, p4], ..v5.state }, ..v5 }
}

/// The engine after a new game starts with random seed `seed` at level
/// `level`: everything is cleared, the bag starts anew, the preview is
/// dealt and the first piece spawns.
#[verifier::opaque]
pub open spec fn restarted<const W: usize, const H: usize>(v: EngineView<W, H>, seed: u32, level: u32) -> EngineView<W, H> {
    spawned(dealt_preview(cleared_for_start(v, seed, level)))
}


proof fn lemma_first_kick_fits<const W: usize, const H: usize>(
    board: Board<W, H>,
    p: Piece,
    from: Rot,
    to: Rot,
    x: int,
    y: int,
    i: int,
)
    requires
        first_kick(board, p, from, to, x, y, i) is Some,
    ensures
        ({
            let j = first_kick(board, p, from, to, x, y, i)->0;
            let k = srs_kick(p, rot_code(from) as int, rot_code(to) as int, j);
            fits(board, p, to, x + k.dx, y - k.dy)
        }),
    decreases 5 - i,
{
    if 0 <= i < 5 {
        let k = srs_kick(p, rot_code(from) as int, rot_code(to) as int, i);
        if !fits(board, p, to, x + k.dx, y - k.dy) {
            lemma_first_kick_fits(board, p, from, to, x, y, i + 1);
        }
    }
}


/// The rotation whose code is `(code + step) & 3`.
fn rot_after(code: u8, step: u8) -> (r: Rot)
    requires
        code < 4,
        step == 1 || step == 3,
    ensures
        step == 1 ==> r == rot_cw(crate::types::rot_of_code(code as int)),
        step == 3 ==> r == rot_ccw(crate::types::rot_of_code(code as int)),
{
    let sum: u8 = code + step;
    let c = sum & 3;
    assert(c == sum % 4) by (bit_vector)
        requires
            c == sum & 3,
    ;
    match c {
        0 => Rot::R0,
        1 => Rot::R90,
        2 => Rot::R180,
        _ => Rot::R270,
    }
}

/// The bit of column `x + j` if bit `j` of `all` is set and that column is
/// on the board; else 0.
fn col_mask_at<const W: usize>(all: u16, j: i8, x: i8) -> (m: u16)
    requires
        W <= 16,
        0 <= j < 4,
        -3 <= x < 64,
    ensures
        m == (if bit16(all, j as int) && 0 <= x + j < W {
            1u16 << ((x + j) as u16)
        } else {
            0u16
        }),
{
    if all & (1u16 << (j as u16)) != 0 {
        let xx = x + j;
        if xx >= 0 && xx < W as i8 {
            return 1u16 << (xx as u16);
        }
    }
    0
}

/// The columns the active piece covers; see `harddrop_cols`.
fn harddrop_mask<const W: usize, const H: usize>(st: &State<W, H>) -> (m: u16)
    requires
        engine_dims(W, H),
        -3 <= st.x < W,
    ensures
        m == harddrop_cols::<W>(st.piece, st.rot, st.x as int),
{
    let shape = piece_shape(st.piece, st.rot);
    let all = shape.row[0] | shape.row[1] | shape.row[2] | shape.row[3];
    proof {
        let (a, b, c, d) = (shape.row[0], shape.row[1], shape.row[2], shape.row[3]);
        assert forall|j: u16| j < 4 implies #[trigger] bit16(all, j as int) == (bit16(a, j as int) || bit16(b, j as int)
            || bit16(c, j as int) || bit16(d, j as int)) by {
            assert(((a | b | c | d) & (1u16 << j) != 0) == ((a & (1u16 << j) != 0) || (b & (1u16 << j) != 0)
                || (c & (1u16 << j) != 0) || (d & (1u16 << j) != 0))) by (bit_vector);
        }
        assert(bit16(all, 0) == col_present(st.piece, st.rot, 0)) by { assert(bit16(all, 0u16 as int) == (bit16(a, 0) || bit16(b, 0) || bit16(c, 0) || bit16(d, 0))); }
        assert(bit16(all, 1) == col_present(st.piece, st.rot, 1)) by { assert(bit16(all, 1u16 as int) == (bit16(a, 1) || bit16(b, 1) || bit16(c, 1) || bit16(d, 1))); }
        assert(bit16(all, 2) == col_present(st.piece, st.rot, 2)) by { assert(bit16(all, 2u16 as int) == (bit16(a, 2) || bit16(b, 2) || bit16(c, 2) || bit16(d, 2))); }
        assert(bit16(all, 3) == col_present(st.piece, st.rot, 3)) by { assert(bit16(all, 3u16 as int) == (bit16(a, 3) || bit16(b, 3) || bit16(c, 3) || bit16(d, 3))); }
    }
    let m0 = col_mask_at::<W>(all, 0, st.x);
    let m1 = col_mask_at::<W>(all, 1, st.x);
    let m2 = col_mask_at::<W>(all, 2, st.x);
    let m3 = col_mask_at::<W>(all, 3, st.x);
    m0 | m1 | m2 | m3
}


/// A quarter turn clockwise.
pub open spec fn rot_cw(r: Rot) -> Rot {
    match r {
        Rot::R0 => Rot::R90,
        Rot::R90 => Rot::R180,
        Rot::R180 => Rot::R270,
        Rot::R270 => Rot::R0,
    }
}

/// A quarter turn counterclockwise.
pub open spec fn rot_ccw(r: Rot) -> Rot {
    match r {
        Rot::R0 => Rot::R270,
        Rot::R90 => Rot::R0,
        Rot::R180 => Rot::R90,
        Rot::R270 => Rot::R180,
    }
}

/// `n + 1`, stopping at 255.
pub open spec fn sat_inc(n: u8) -> u8 {
    if n == u8::MAX {
        n
    } else {
        (n + 1) as u8
    }
}

/// The engine after the active piece drops straight down (see `drop_y`):
/// the drop is recorded, the rows fallen are kept as hard-drop cells, and
/// the wall-clock delay stops.
#[verifier::opaque]
pub open spec fn hard_dropped<const W: usize, const H: usize>(v: EngineView<W, H>) -> EngineView<W, H> {
    let st = v.state;
    let ey = drop_y(st.board, st.piece, st.rot, st.x as int, st.y as int);
    let dist = ey - st.y;
    EngineView {
        state: recorded(State { y: ey as i8, ..st }, st.y, ey as i8),
        hard_drop_cells: (if dist > 0 {
            dist
        } else {
            0
        }) as u8,
        wall_active: false,
        wall_resets: 0,
        ..v
    }
}

/// The engine after the hold key: once per piece, the active piece goes to
/// the hold slot; the held piece, if any, comes back at the spawn position
/// (ending the game if it does not fit), else the next piece spawns. The
/// wall-clock delay stops.
#[verifier::opaque]
pub open spec fn held<const W: usize, const H: usize>(v: EngineView<W, H>) -> EngineView<W, H> {
    if v.state.hold_used {
        v
    } else {
        let v1 = EngineView { wall_active: false, wall_resets: 0, ..v };
        let v2 = if v.has_hold {
            let st = State {
                hold: v.state.piece,
                piece: v.state.hold,
                rot: Rot::R0,
                x: spawn_x(W) as i8,
                y: 0,
                ..v.state
            };
            EngineView {
                state: st,
                game_over: v.game_over || !fits(st.board, st.piece, Rot::R0, spawn_x(W), 0),
                ..v1
            }
        } else {
            spawned(EngineView { state: State { hold: v.state.piece, ..v.state }, has_hold: true, ..v1 })
        };
        EngineView { state: State { hold_used: true, ..v2.state }, ..v2 }
    }
}

/// The engine after action `a`, and the attack it sent: nothing happens
/// once the game is over; moves, soft drops (counting the cell) and
/// rotations act as `shifted` and `turned_to` say; a hard drop drops and
/// locks (see `after_lock`); hold acts as `held` says. Only a hard drop
/// sends an attack.
#[verifier::opaque]
pub open spec fn acted<const W: usize, const H: usize>(v: EngineView<W, H>, a: Action) -> (EngineView<W, H>, AttackResult) {
    if v.game_over {
        (v, no_attack())
    } else {
        match a {
            Action::MoveLeft => (shifted(v, -1, 0).0, no_attack()),
            Action::MoveRight => (shifted(v, 1, 0).0, no_attack()),
            Action::SoftDrop => {
                let (v1, ok) = shifted(v, 0, 1);
                (
                    if ok {
                        EngineView { soft_drop_cells: sat_inc(v1.soft_drop_cells), ..v1 }
                    } else {
                        v1
                    },
                    no_attack(),
                )
            },
            Action::HardDrop => after_lock(hard_dropped(v)),
            Action::RotateCW => (turned_to(v, rot_cw(v.state.rot)).0, no_attack()),
            Action::RotateCCW => (turned_to(v, rot_ccw(v.state.rot)).0, no_attack()),
            Action::Hold => (held(v), no_attack()),
        }
    }
}

/// Whether acting on `a` keeps every counter within its type: only a hard
/// drop of a running game locks a piece, and that lock must fit (see
/// `lock_fits`).
pub open spec fn action_fits<const W: usize, const H: usize>(v: EngineView<W, H>, a: Action) -> bool {
    !v.game_over && a == Action::HardDrop ==> lock_fits(hard_dropped(v))
}

/// Whether an input ends a fixed tick early: its attack did something, it
/// was a hard drop or hold, or the game is over.
pub open spec fn ends_tick(a: Action, atk: AttackResult, over: bool) -> bool {
    atk.damage != 0 || atk.is_tspin || atk.is_b2b || atk.perfect_clear || a == Action::HardDrop
        || a == Action::Hold || over
}

/// The engine after the pressed inputs from index `i` on are acted on in
/// order, stopping after the first that ends the tick (whose attack is then
/// returned).
#[verifier::opaque]
pub open spec fn inputs_applied<const W: usize, const H: usize>(
    v: EngineView<W, H>,
    inputs: Seq<InputEvent>,
    i: int,
) -> (EngineView<W, H>, Option<AttackResult>)
    decreases inputs.len() - i,
{
    if i < 0 || i >= inputs.len() {
        (v, None)
    } else if !inputs[i].pressed {
        inputs_applied(v, inputs, i + 1)
    } else {
        let a = action_of_code(inputs[i].key as int);
        let (v1, atk) = acted(v, a);
        if ends_tick(a, atk, v1.game_over) {
            (v1, Some(atk))
        } else {
            inputs_applied(v1, inputs, i + 1)
        }
    }
}

/// Gravity of a fixed tick: while the accumulated time covers an interval,
/// the piece falls a row, which stops the tick-counted lock delay; where it
/// cannot fall, the delay runs and counts a tick, and once it has counted
/// `LOCK_DELAY_TICKS` with fewer than `MAX_MOVE_RESETS` resets used the
/// piece locks (see `after_lock`), the delay is cleared and gravity stops.
#[verifier::opaque]
pub open spec fn fixed_gravity<const W: usize, const H: usize>(v: EngineView<W, H>, interval: u32) -> (
    EngineView<W, H>,
    Option<AttackResult>,
)
    decreases v.gravity_accumulator,
{
    if interval == 0 || v.gravity_accumulator < interval {
        (v, None)
    } else {
        let v0 = EngineView { gravity_accumulator: (v.gravity_accumulator - interval) as u32, ..v };
        let st = v0.state;
        if fits(st.board, st.piece, st.rot, st.x as int, st.y + 1) {
            fixed_gravity(
                EngineView {
                    state: State { y: (st.y + 1) as i8, ..st },
                    lock_active: false,
                    lock_ticks: 0,
                    lock_resets: 0,
                    ..v0
                },
                interval,
            )
        } else {
            let t = sat_inc(v0.lock_ticks);
            let v1 = EngineView { lock_active: true, lock_ticks: t, ..v0 };
            if v1.lock_resets < MAX_MOVE_RESETS && t >= LOCK_DELAY_TICKS {
                let (v2, res) = after_lock(v1);
                (EngineView { lock_active: false, lock_ticks: 0, lock_resets: 0, ..v2 }, Some(res))
            } else {
                fixed_gravity(v1, interval)
            }
        }
    }
}

/// Whether acting on the pressed inputs from index `i` on, as
/// `inputs_applied` does, keeps every counter within its type (see
/// `action_fits`).
#[verifier::opaque]
pub open spec fn inputs_fit<const W: usize, const H: usize>(
    v: EngineView<W, H>,
    inputs: Seq<InputEvent>,
    i: int,
) -> bool
    decreases inputs.len() - i,
{
    if i < 0 || i >= inputs.len() {
        true
    } else if !inputs[i].pressed {
        inputs_fit(v, inputs, i + 1)
    } else {
        let a = action_of_code(inputs[i].key as int);
        let (v1, atk) = acted(v, a);
        &&& action_fits(v, a)
        &&& !ends_tick(a, atk, v1.game_over) ==> inputs_fit(v1, inputs, i + 1)
    }
}

/// Whether the gravity of a fixed tick, as `fixed_gravity` runs it, keeps
/// every counter within its type: the lock it may make fits (see
/// `lock_fits`).
#[verifier::opaque]
pub open spec fn gravity_fits<const W: usize, const H: usize>(v: EngineView<W, H>, interval: u32) -> bool
    decreases v.gravity_accumulator,
{
    if interval == 0 || v.gravity_accumulator < interval {
        true
    } else {
        let v0 = EngineView { gravity_accumulator: (v.gravity_accumulator - interval) as u32, ..v };
        let st = v0.state;
        if fits(st.board, st.piece, st.rot, st.x as int, st.y + 1) {
            gravity_fits(
                EngineView {
                    state: State { y: (st.y + 1) as i8, ..st },
                    lock_active: false,
                    lock_ticks: 0,
                    lock_resets: 0,
                    ..v0
                },
                interval,
            )
        } else {
            let t = sat_inc(v0.lock_ticks);
            let v1 = EngineView { lock_active: true, lock_ticks: t, ..v0 };
            if v1.lock_resets < MAX_MOVE_RESETS && t >= LOCK_DELAY_TICKS {
                lock_fits(v1)
            } else {
                gravity_fits(v1, interval)
            }
        }
    }
}

/// Whether a fixed tick with `inputs` keeps every counter within its type:
/// the inputs' locks fit, and when gravity runs, the time it adds and the
/// lock it may make fit too.
pub open spec fn tick_fits<const W: usize, const H: usize>(v: EngineView<W, H>, inputs: Seq<InputEvent>) -> bool {
    let (v1, early) = inputs_applied(v, inputs, 0);
    &&& inputs_fit(v, inputs, 0)
    &&& early is None && !v1.game_over ==> {
        &&& v1.gravity_accumulator + FIXED_TICK_MS <= u32::MAX
        &&& gravity_fits(
            EngineView { gravity_accumulator: (v1.gravity_accumulator + FIXED_TICK_MS) as u32, ..v1 },
            gravity_ms(v1.scorer.level),
        )
    }
}

/// The engine after one fixed tick with `inputs`, and the tick's result:
/// nothing happens once the game is over; the pressed inputs are acted on
/// in order, and one that ends the tick (see `ends_tick`) returns its
/// attack; otherwise `FIXED_TICK_MS` of gravity runs at the current level
/// (see `fixed_gravity`) and the result carries the attack of a lock, if
/// any.
#[verifier::opaque]
pub open spec fn fixed_stepped<const W: usize, const H: usize>(v: EngineView<W, H>, inputs: Seq<InputEvent>) -> (
    EngineView<W, H>,
    TickResult,
) {
    if v.game_over {
        (v, TickResult { attack: None, cleared: false, game_over: true })
    } else {
        let (v1, early) = inputs_applied(v, inputs, 0);
        match early {
            Some(atk) => (v1, TickResult { attack: Some(atk), cleared: true, game_over: v1.game_over }),
            None => {
                if v1.game_over {
                    (v1, TickResult { attack: None, cleared: false, game_over: true })
                } else {
                    let v2 = EngineView {
                        gravity_accumulator: (v1.gravity_accumulator + FIXED_TICK_MS) as u32,
                        ..v1
                    };
                    let (v3, atk) = fixed_gravity(v2, gravity_ms(v2.scorer.level));
                    (v3, TickResult { attack: atk, cleared: atk is Some, game_over: v3.game_over })
                }
            },
        }
    }
}

proof fn lemma_drop_y_range<const W: usize, const H: usize>(b: Board<W, H>, p: Piece, r: Rot, x: int, y: int)
    requires
        y < H,
    ensures
        y <= drop_y(b, p, r, x, y) < H,
    decreases H - y,
{
    if fits(b, p, r, x, y + 1) {
        lemma_fits_above_floor(b, p, r, x, y + 1);
        lemma_drop_y_range(b, p, r, x, y + 1);
    }
}


/// Gravity on the wall clock over the accumulated time, at `interval`
/// milliseconds per row: the piece falls a row while it can, which stops
/// the wall-clock delay; where it cannot, the delay is started (a running
/// one keeps its deadline) and the clock says whether the deadline has
/// passed: `fired[k]` is that answer at the `k`-th blocked row (missing
/// answers read as not passed). A passed deadline stops the delay and locks
/// the piece (see `after_lock`); gravity then goes on with the next piece,
/// and the attack of the last lock is returned (`res` if none).
#[verifier::opaque]
pub open spec fn wall_gravity<const W: usize, const H: usize>(
    v: EngineView<W, H>,
    interval: u32,
    fired: Seq<bool>,
    k: int,
    res: AttackResult,
) -> (EngineView<W, H>, AttackResult)
    decreases v.gravity_accumulator,
{
    if interval == 0 || v.gravity_accumulator < interval {
        (v, res)
    } else {
        let v0 = EngineView { gravity_accumulator: (v.gravity_accumulator - interval) as u32, ..v };
        let st = v0.state;
        if fits(st.board, st.piece, st.rot, st.x as int, st.y + 1) {
            wall_gravity(
                EngineView {
                    state: State { y: (st.y + 1) as i8, ..st },
                    wall_active: false,
                    wall_resets: 0,
                    ..v0
                },
                interval,
                fired,
                k,
                res,
            )
        } else {
            let v1 = EngineView { wall_active: true, ..v0 };
            if 0 <= k < fired.len() && fired[k] {
                let (v2, r2) = after_lock(EngineView { wall_active: false, wall_resets: 0, ..v1 });
                proof {
                    lemma_after_lock_keeps_acc(EngineView { wall_active: false, wall_resets: 0, ..v1 });
                }
                wall_gravity(v2, interval, fired, k + 1, r2)
            } else {
                wall_gravity(v1, interval, fired, k + 1, res)
            }
        }
    }
}

/// A lock leaves the gravity remainder alone.
pub proof fn lemma_after_lock_keeps_acc<const W: usize, const H: usize>(v: EngineView<W, H>)
    ensures
        after_lock(v).0.gravity_accumulator == v.gravity_accumulator,
{
    reveal(after_lock);
    reveal(spawned);
    reveal(popped);
}

/// The number of full rows counted from `from` on is not negative.
proof fn lemma_full_rows_nonneg(rows: Seq<u64>, full: u64, from: int)
    ensures
        full_rows_from(rows, full, from) >= 0,
    decreases rows.len() - from,
{
    if 0 <= from < rows.len() {
        lemma_full_rows_nonneg(rows, full, from + 1);
    }
}

/// The outcome of `delta_ms` more milliseconds of wall-clock gravity at
/// the current level, with the clock's answers `fired` (see
/// `wall_gravity`).
pub open spec fn ticked_on_clock<const W: usize, const H: usize>(v: EngineView<W, H>, delta_ms: u32, fired: Seq<bool>) -> (
    EngineView<W, H>,
    AttackResult,
) {
    wall_gravity(
        EngineView { gravity_accumulator: (v.gravity_accumulator + delta_ms) as u32, ..v },
        gravity_ms(v.scorer.level),
        fired,
        0,
        no_attack(),
    )
}

/// Hold works once per piece. On a running game the hold key sends
/// nothing, leaves hold used whichever way it went, and a second press
/// before the next lock changes nothing. The first hold of a game stores
/// the active piece and brings in the first preview piece; later holds
/// swap the active and held pieces, the returned piece starting at the
/// spawn column in rotation 0 on the top row. The board and the score stay.
pub proof fn lemma_hold_once<const W: usize, const H: usize>(v: EngineView<W, H>)
    requires
        !v.game_over,
    ensures
        ({
            let (w, atk) = acted(v, Action::Hold);
            &&& atk == no_attack()
            &&& w.state.hold_used
            &&& acted(w, Action::Hold) == (w, no_attack())
            &&& v.state.hold_used ==> w == v
            &&& !v.state.hold_used ==> w.state.hold == v.state.piece && w.has_hold
            &&& !v.state.hold_used && v.has_hold ==> {
                &&& w.state.piece == v.state.hold
                &&& w.state.rot == Rot::R0
                &&& w.state.x == spawn_x(W) as i8
                &&& w.state.y == 0
            }
            &&& !v.state.hold_used && !v.has_hold ==> w.state.piece == v.state.next[0]
            &&& w.state.board == v.state.board
            &&& w.scorer == v.scorer
        }),
{
    reveal(acted);
    reveal(held);
    reveal(spawned);
    reveal(popped);
}

/// A lock brings in the next piece: the first preview piece becomes
/// active in rotation 0 at the spawn column on the top row, the preview
/// moves up by one with a new piece from the bag at its end, hold is
/// available again, one more piece is counted, and the game ends exactly
/// when the new piece does not fit there.
#[verifier::rlimit(80)]
pub proof fn lemma_lock_spawns_next<const W: usize, const H: usize>(v: EngineView<W, H>)
    requires
        lock_fits(v),
    ensures
        ({
            let w = after_lock(v).0;
            &&& w.state.piece == v.state.next[0]
            &&& w.state.next[0] == v.state.next[1] && w.state.next[1] == v.state.next[2]
            &&& w.state.next[2] == v.state.next[3] && w.state.next[3] == v.state.next[4]
            &&& w.state.rot == Rot::R0
            &&& w.state.x == spawn_x(W) as i8
            &&& w.state.y == 0
            &&& !w.state.hold_used
            &&& w.state.hold == v.state.hold && w.has_hold == v.has_hold
            &&& w.scorer.total_pieces == v.scorer.total_pieces + 1
            &&& w.game_over == (v.game_over || !fits(w.state.board, w.state.piece, Rot::R0, spawn_x(W), 0))
        }),
{
    reveal(after_lock);
    reveal(locked_state);
    let (st1, lines) = locked_state(v.state);
    let (atk, st2) = attack_outcome(st1, lines);
    assert(st2.next == v.state.next && st2.hold == v.state.hold);
    let v3 = settled_lock(v).0;
    assert(v3.state.next == v.state.next && v3.state.hold == v.state.hold && v3.has_hold == v.has_hold);
    assert(v3.scorer.total_pieces == v.scorer.total_pieces + 1);
    assert(v3.game_over == v.game_over);
    assert(after_lock(v).0 == spawned(v3));
    reveal(spawned);
    reveal(popped);
}

/// Garbage is exchanged at a lock. With raw damage `d` (see
/// `attack_outcome`) and `p` pending lines both positive, the lines sent
/// and the pending lines cancelled add up to `d`: `d >= p` sends `d - p`
/// and clears the pending lines, `d < p` sends nothing and leaves `p - d`
/// pending. With nothing pending the raw damage goes out whole; a lock
/// that clears nothing sends nothing and lets every pending line rise.
pub proof fn lemma_garbage_exchange<const W: usize, const H: usize>(v: EngineView<W, H>)
    ensures
        ({
            let (st1, lines) = locked_state(v.state);
            let d = attack_outcome(st1, lines).0.damage as int;
            let p = v.state.pending_garbage as int;
            let (w, res) = after_lock(v);
            &&& d > 0 && p > 0 ==> res.damage + (p - w.state.pending_garbage) == d
            &&& d > 0 && p > 0 && d >= p ==> res.damage == d - p && w.state.pending_garbage == 0
            &&& d > 0 && p > 0 && d < p ==> res.damage == 0 && w.state.pending_garbage == p - d
            &&& p == 0 ==> res.damage == d && w.state.pending_garbage == 0
            &&& lines == 0 ==> res.damage == 0 && w.state.pending_garbage == 0
            &&& lines > 0 && d == 0 ==> res.damage == 0 && w.state.pending_garbage == p
        }),
{
    reveal(after_lock);
    reveal(locked_state);
    reveal(spawned);
    reveal(popped);
}

/// Room for a lock (see `room_for`) lets the next lock fit.
proof fn lemma_room_lock_fits<const W: usize, const H: usize>(v: EngineView<W, H>)
    requires
        engine_dims(W, H),
        v.wf(),
        room_for(v, 1),
    ensures
        lock_fits(v),
{
    reveal(locked_state);
    reveal(rows_room);
    reveal(points_room);
    let (st1, lines) = locked_state(v.state);
    let locked = locked_rows(v.state.board, v.state.piece, v.state.rot, v.state.x as int, v.state.y as int);
    lemma_kept_rows_len(locked, Board::<W, H>::full_bits(), 0);
    lemma_full_rows_nonneg(locked, Board::<W, H>::full_bits(), 0);
    let (atk, st2) = attack_outcome(st1, lines);
    lemma_lock_points_bounded(
        lines,
        atk.is_tspin,
        atk.is_mini,
        atk.is_b2b,
        atk.perfect_clear,
        v.soft_drop_cells as int,
        v.hard_drop_cells as int,
        combo_arg(st2.combo) as int,
        scoring_level(v.scorer.level),
    );
    assert(combo_arg(st2.combo) <= combo_pos(v.state.combo));
}

/// Room for a lock (see `room_for`) lets every action fit.
pub proof fn lemma_room_action_fits<const W: usize, const H: usize>(v: EngineView<W, H>, a: Action)
    requires
        engine_dims(W, H),
        v.wf(),
        room_for(v, 1),
    ensures
        action_fits(v, a),
{
    if !v.game_over && a == Action::HardDrop {
        reveal(hard_dropped);
        lemma_drop_y_range(v.state.board, v.state.piece, v.state.rot, v.state.x as int, v.state.y as int);
        lemma_room_lock_fits(hard_dropped(v));
    }
}

/// The counters keep room for one lock fewer after a lock.
#[verifier::rlimit(80)]
proof fn lemma_after_lock_room<const W: usize, const H: usize>(v: EngineView<W, H>, n: int)
    requires
        engine_dims(W, H),
        v.wf(),
        n >= 1,
        room_for(v, n),
    ensures
        room_for(after_lock(v).0, n - 1),
{
    reveal(after_lock);
    reveal(locked_state);
    reveal(spawned);
    reveal(popped);
    let (st1, lines) = locked_state(v.state);
    let locked = locked_rows(v.state.board, v.state.piece, v.state.rot, v.state.x as int, v.state.y as int);
    lemma_kept_rows_len(locked, Board::<W, H>::full_bits(), 0);
    lemma_full_rows_nonneg(locked, Board::<W, H>::full_bits(), 0);
    let (atk, st2) = attack_outcome(st1, lines);
    let arg = combo_arg(st2.combo);
    lemma_lock_points_bounded(
        lines,
        atk.is_tspin,
        atk.is_mini,
        atk.is_b2b,
        atk.perfect_clear,
        v.soft_drop_cells as int,
        v.hard_drop_cells as int,
        arg as int,
        scoring_level(v.scorer.level),
    );
    let c0 = combo_pos(v.state.combo);
    let c1 = combo_pos(after_lock(v).0.state.combo);
    assert(after_lock(v).0.state.combo == st2.combo);
    assert(arg <= c0);
    assert(c1 <= c0 + 1);
    lemma_room_step_arith(n, c0, c1, H as int);
}

/// The points and rows one lock may add leave room for the locks after it.
proof fn lemma_room_step_arith(n: int, c0: int, c1: int, h: int)
    requires
        n >= 1,
        0 <= c0,
        0 <= c1 <= c0 + 1,
    ensures
        points_room(c1, n - 1) + 85_000 + 750 * c0 <= points_room(c0, n),
        rows_room(n, h) == rows_room(n - 1, h) + h,
        points_room(c0, n) <= u64::MAX ==> n < 0x1000_0000,
{
    reveal(points_room);
    reveal(rows_room);
    if n >= 0x1000_0000 {
        assert(n * (85_000 + 750 * (c0 + n)) >= 750 * 0x1000_0000 * 0x1000_0000) by (nonlinear_arith)
            requires
                n >= 0x1000_0000,
                c0 >= 0,
        ;
    }
    assert((n - 1) * (85_000 + 750 * (c1 + n - 1)) <= (n - 1) * (85_000 + 750 * (c0 + n))) by (nonlinear_arith)
        requires
            n >= 1,
            c1 + n - 1 <= c0 + n,
    ;
    assert(n * (85_000 + 750 * (c0 + n)) == (n - 1) * (85_000 + 750 * (c0 + n)) + 85_000 + 750 * (c0 + n))
        by (nonlinear_arith);
    assert(n * h == (n - 1) * h + h) by (nonlinear_arith);
}

/// Room for `n` locks is room for fewer.
proof fn lemma_room_fewer<const W: usize, const H: usize>(v: EngineView<W, H>, n: int, m: int)
    requires
        room_for(v, n),
        0 <= m <= n,
    ensures
        room_for(v, m),
{
    reveal(points_room);
    reveal(rows_room);
    let c = combo_pos(v.state.combo);
    assert(m * (85_000 + 750 * (c + m)) <= n * (85_000 + 750 * (c + n))) by (nonlinear_arith)
        requires
            0 <= m <= n,
            0 <= c,
    ;
    assert(m * H <= n * H) by (nonlinear_arith)
        requires
            0 <= m <= n,
    ;
}


impl<const W: usize, const H: usize> EngineView<W, H> {
    /// The invariant every engine keeps: the bag index and the move-reset
    /// counters in range, the level at most 15, and the active piece's box no
    /// further than three columns left of the board, within its width, at
    /// most 122 rows above it and not below its top row's index `H`.
    pub open spec fn wf(self) -> bool {
        &&& self.bag_idx <= 7
        &&& self.wall_resets <= MAX_MOVE_RESETS
        &&& self.lock_resets <= MAX_MOVE_RESETS
        &&& self.scorer.level <= 15
        &&& -3 <= self.state.x < W
        &&& -122 <= self.state.y < H
    }
}

impl<const W: usize, const H: usize> Engine<W, H> {
    /// An engine with an empty board and no game running (`game_over` is
    /// set until `reset`).
    pub fn new() -> (e: Self)
        requires
            engine_dims(W, H),
        ensures
            e@ == initial_view::<W, H>(),
            e@.wf(),
    {
        let e = Engine {
            state: State {
                board: Board::new(),
                piece: Piece::T,
                rot: Rot::R0,
                x: 0,
                y: 0,
                hold: Piece::I,
                hold_used: false,
                next: [Piece::I; 5],
                rng: 0,
                combo: 0,
                b2b: false,
                pending_garbage: 0,
                last_move_was_rotation: false,
                last_clear_mask: 0,
                last_clear_count: 0,
                last_harddrop_cols: 0,
                last_harddrop_start_y: 0,
                last_harddrop_end_y: 0,
                last_harddrop_piece: Piece::I,
                last_harddrop_valid: false,
            },
            game_over: true,
            has_hold: false,
            scorer: ScoreTracker::default(),
            lock_delay_wall: LockDelay::new(),
            lock_delay_active: false,
            lock_delay_accumulated_ticks: 0,
            lock_delay_move_resets: 0,
            bag: [Piece::I; 7],
            bag_idx: 7,
            soft_drop_cells: 0,
            hard_drop_cells: 0,
            gravity_accumulator: 0,
        };
        proof {
            lemma_board_of(e.state.board, Seq::new(H as nat, |i: int| 0u64));
            assert(e.state.next@ =~= [Piece::I, Piece::I, Piece::I, Piece::I, Piece::I]@);
            assert(e.state.next == [Piece::I, Piece::I, Piece::I, Piece::I, Piece::I]);
            assert(e.bag@ =~= [Piece::I, Piece::I, Piece::I, Piece::I, Piece::I, Piece::I, Piece::I]@);
            assert(e.bag == [Piece::I, Piece::I, Piece::I, Piece::I, Piece::I, Piece::I, Piece::I]);
        }
        e
    }

    /// Advances the random state by one step and returns it.
    fn next_rand(&mut self) -> (r: u32)
        ensures
            r == lcg_step(old(self).state.rng),
            *final(self) == (Engine { state: State { rng: r, ..old(self).state }, ..*old(self) }),
    {
        self.state.rng = lcg_next(self.state.rng);
        self.state.rng
    }

    /// Refills the bag with the seven pieces in a fresh random order.
    fn shuffle_bag(&mut self)
        ensures
            ({
                let (b, r) = shuffled_bag(old(self).state.rng);
                &&& final(self).bag@ == b
                &&& *final(self) == (Engine {
                    state: State { rng: r, ..old(self).state },
                    bag: final(self).bag,
                    ..*old(self)
                })
            }),
    {
        let ghost o = *self;
        let mut i: usize = 0;
        while i < 7
            invariant
                i <= 7,
                *self == (Engine { bag: self.bag, ..o }),
                forall|k: int| 0 <= k < i ==> #[trigger] self.bag[k] == ordered_bag()[k],
            decreases 7 - i,
        {
            self.bag[i] = Piece::from_u8(i as u8);
            i = i + 1;
        }
        assert(self.bag@ =~= ordered_bag());
        let mut i: usize = 6;
        while i >= 1
            invariant
                i <= 6,
                self.bag@.len() == 7,
                *self == (Engine { bag: self.bag, state: State { rng: self.state.rng, ..o.state }, ..o }),
                shuffle_steps(self.bag@, self.state.rng, i as int) == shuffled_bag(o.state.rng),
            decreases i,
        {
            let r = self.next_rand();
            let j = (r % (i as u32 + 1)) as usize;
            let ghost before = self.bag@;
            let t = self.bag[i];
            self.bag[i] = self.bag[j];
            self.bag[j] = t;
            assert(self.bag@ =~= before.update(i as int, before[j as int]).update(j as int, before[i as int]));
            i = i - 1;
        }
    }

    /// Draws the next piece from the bag, shuffling a new bag when the
    /// current one is used up; see `popped`.
    fn pop_next_piece(&mut self) -> (p: Piece)
        requires
            old(self).bag_idx <= 7,
        ensures
            (final(self)@, p) == popped(old(self)@),
            1 <= final(self).bag_idx <= 7,
            final(self).state == (State { rng: final(self).state.rng, ..old(self).state }),
            *final(self) == (Engine {
                state: final(self).state,
                bag: final(self).bag,
                bag_idx: final(self).bag_idx,
                ..*old(self)
            }),
    {
        let ghost o = *self;
        proof {
            reveal(popped);
        }
        if self.bag_idx >= 7 {
            self.shuffle_bag();
            self.bag_idx = 0;
            proof {
                let (b, r) = shuffled_bag(o.state.rng);
                assert(self.bag == bag_array(b)) by {
                    assert(self.bag@ =~= bag_array(b)@);
                }
            }
        }
        let p = self.bag[self.bag_idx];
        self.bag_idx = self.bag_idx + 1;
        p
    }

    /// Brings in the next piece; see `spawned`.
    pub fn spawn(&mut self)
        requires
            engine_dims(W, H),
            old(self)@.wf(),
        ensures
            final(self)@ == spawned(old(self)@),
            final(self)@.wf(),
    {
        let ghost o = self@;
        let n = self.state.next;
        self.state.piece = n[0];
        let p = self.pop_next_piece();
        self.state.next = [n[1], n[2], n[3], n[4], p];
        self.state.rot = Rot::R0;
        self.state.x = (W / 2) as i8 - 2;
        self.state.y = 0;
        self.state.hold_used = false;
        self.lock_delay_wall.cancel();
        if !can_place(&self.state, self.state.x, self.state.y, self.state.rot) {
            self.game_over = true;
        }
        proof {
            reveal(spawned);
            reveal(popped);
            let (v1, q) = popped(o);
            assert(q == p);
            assert(self@ == spawned(o));
        }
    }

    /// Records a hard drop from row `start_y` to row `end_y`; see
    /// `recorded`.
    fn record_harddrop(&mut self, start_y: i8, end_y: i8)
        requires
            engine_dims(W, H),
            -3 <= old(self).state.x < W,
        ensures
            *final(self) == (Engine { state: recorded(old(self).state, start_y, end_y), ..*old(self) }),
    {
        let mask = harddrop_mask(&self.state);
        self.state.last_harddrop_cols = mask;
        self.state.last_harddrop_start_y = start_y;
        self.state.last_harddrop_end_y = end_y;
        self.state.last_harddrop_piece = self.state.piece;
        self.state.last_harddrop_valid = mask != 0;
    }

    /// Restarts the lock delays after a successful move; see `move_reset`.
    fn note_move(&mut self)
        requires
            old(self)@.wf(),
        ensures
            final(self)@ == move_reset(old(self)@),
    {
        proof {
            reveal(move_reset);
        }
        if self.lock_delay_wall.move_reset_count < MAX_MOVE_RESETS {
            self.lock_delay_wall.reset();
        }
        if self.lock_delay_active && self.lock_delay_move_resets < MAX_MOVE_RESETS as u8 {
            self.lock_delay_move_resets = self.lock_delay_move_resets + 1;
            self.lock_delay_accumulated_ticks = 0;
            self.lock_delay_active = true;
        }
    }

    /// Moves the active piece by `(dx, dy)` if it fits; see `shifted`.
    fn try_move_wrapped(&mut self, dx: i8, dy: i8) -> (r: bool)
        requires
            engine_dims(W, H),
            old(self)@.wf(),
            -1 <= dx <= 1,
            0 <= dy <= 1,
        ensures
            (final(self)@, r) == shifted(old(self)@, dx as int, dy as int),
            final(self)@.wf(),
    {
        let ghost v = self@;
        proof {
            reveal(shifted);
            reveal(move_reset);
        }
        if try_move(&mut self.state, dx, dy) {
            proof {
                lemma_fits_above_floor(v.state.board, v.state.piece, v.state.rot, v.state.x + dx, v.state.y + dy);
            }
            self.state.last_move_was_rotation = false;
            self.note_move();
            return true;
        }
        false
    }

    /// Turns the active piece to `to` if some offset fits; see `turned_to`.
    fn try_rotate_wrapped(&mut self, to: Rot) -> (r: bool)
        requires
            engine_dims(W, H),
            old(self)@.wf(),
        ensures
            (final(self)@, r) == turned_to(old(self)@, to),
            final(self)@.wf(),
    {
        let ghost v = self@;
        proof {
            reveal(turned_to);
            reveal(move_reset);
        }
        if self.state.y < -120 {
            return false;
        }
        if try_rotate(&mut self.state, to) {
            proof {
                let st = v.state;
                let i = first_kick(st.board, st.piece, st.rot, to, st.x as int, st.y as int, 0)->0;
                let k = srs_kick(st.piece, rot_code(st.rot) as int, rot_code(to) as int, i);
                lemma_first_kick_fits(st.board, st.piece, st.rot, to, st.x as int, st.y as int, 0);
                lemma_fits_above_floor(st.board, st.piece, to, st.x + k.dx, st.y - k.dy);
            }
            self.state.last_move_was_rotation = true;
            self.note_move();
            return true;
        }
        false
    }

    /// Locks the active piece, clears full rows, computes the attack and
    /// scores the lock; the first half of `after_lock`.
    #[verifier::rlimit(40)]
    fn lock_and_score(&mut self) -> (res: (AttackResult, i32))
        requires
            engine_dims(W, H),
            old(self)@.wf(),
            lock_fits(old(self)@),
        ensures
            ({
                let v = old(self)@;
                let (st1, lines) = locked_state(v.state);
                let (atk, st2) = attack_outcome(st1, lines);
                &&& res.0 == atk
                &&& res.1 == lines
                &&& 0 <= lines <= H
                &&& final(self)@.wf()
                &&& final(self)@ == EngineView {
                    state: st2,
                    scorer: scored(
                        v.scorer,
                        lines,
                        atk.is_tspin,
                        atk.is_mini,
                        atk.is_b2b,
                        atk.perfect_clear,
                        v.soft_drop_cells as int,
                        v.hard_drop_cells as int,
                        combo_arg(st2.combo),
                        v.scorer.level,
                    ),
                    soft_drop_cells: 0,
                    hard_drop_cells: 0,
                    ..v
                }
            }),
    {
        let ghost v = self@;
        let lines_cleared = lock_piece(&mut self.state);
        let ghost st1 = self.state;
        proof {
            reveal(locked_state);
            let locked = locked_rows(v.state.board, v.state.piece, v.state.rot, v.state.x as int, v.state.y as int);
            lemma_kept_rows_len(locked, Board::<W, H>::full_bits(), 0);
            lemma_board_of(st1.board, rows_after_clear(locked, Board::<W, H>::full_bits()));
            assert(st1 == locked_state(v.state).0);
        }
        let attack_res = calculate_attack(&mut self.state, lines_cleared);
        let c = self.state.combo;
        let combo_count: u32 = if c > 1 {
            (c - 1) as u32
        } else {
            0
        };
        self.scorer.update(
            lines_cleared as u8,
            attack_res.is_tspin,
            attack_res.is_mini,
            attack_res.is_b2b,
            attack_res.perfect_clear,
            self.soft_drop_cells,
            self.hard_drop_cells,
            combo_count,
            self.scorer.level,
        );
        self.soft_drop_cells = 0;
        self.hard_drop_cells = 0;
        (attack_res, lines_cleared)
    }

    /// Locks the active piece, scores it, settles pending garbage and spawns
    /// the next piece; see `after_lock`.
    #[verifier::rlimit(80)]
    fn lock_and_spawn(&mut self) -> (res: AttackResult)
        requires
            engine_dims(W, H),
            old(self)@.wf(),
            lock_fits(old(self)@),
        ensures
            (final(self)@, res) == after_lock(old(self)@),
            final(self)@.wf(),
            final(self)@.gravity_accumulator == old(self)@.gravity_accumulator,
    {
        let ghost v = self@;
        proof {
            reveal(after_lock);
            lemma_after_lock_keeps_acc(v);
        }
        let (mut attack_res, lines_cleared) = self.lock_and_score();
        let ghost st2 = self.state;
        if attack_res.damage > 0 && self.state.pending_garbage > 0 {
            if attack_res.damage >= self.state.pending_garbage as i32 {
                attack_res.damage = attack_res.damage - self.state.pending_garbage as i32;
                self.state.pending_garbage = 0;
            } else {
                self.state.pending_garbage = self.state.pending_garbage - attack_res.damage as u8;
                attack_res.damage = 0;
            }
        } else if lines_cleared == 0 && self.state.pending_garbage > 0 {
            let hole_x = (self.next_rand() % W as u32) as u8;
            let ghost before = self.state.board;
            self.state.board.insert_garbage(self.state.pending_garbage, hole_x);
            proof {
                lemma_board_of(self.state.board, before.garbage_inserted(st2.pending_garbage as int, hole_x as int));
            }
            self.state.pending_garbage = 0;
        }
        self.spawn();
        attack_res
    }

    /// Starts a new game with random seed `seed` at level 1.
    pub fn reset(&mut self, seed: u32)
        requires
            engine_dims(W, H),
            old(self)@.wf(),
        ensures
            final(self)@ == restarted(old(self)@, seed, 1),
            final(self)@.wf(),
    {
        self.reset_with_level(seed, 1);
    }

    /// Starts a new game with random seed `seed` at level `start_level`
    /// (clamped to 1..=15); see `restarted`.
    pub fn reset_with_level(&mut self, seed: u32, start_level: u32)
        requires
            engine_dims(W, H),
            old(self)@.wf(),
        ensures
            final(self)@ == restarted(old(self)@, seed, start_level),
            final(self)@.wf(),
    {
        let ghost v = self@;
        self.state = State {
            board: Board::new(),
            piece: Piece::T,
            rot: Rot::R0,
            x: 0,
            y: 0,
            hold: Piece::I,
            hold_used: false,
            next: [Piece::I; 5],
            rng: seed,
            combo: 0,
            b2b: false,
            pending_garbage: 0,
            last_move_was_rotation: false,
            last_clear_mask: 0,
            last_clear_count: 0,
            last_harddrop_cols: 0,
            last_harddrop_start_y: 0,
            last_harddrop_end_y: 0,
            last_harddrop_piece: Piece::I,
            last_harddrop_valid: false,
        };
        proof {
            lemma_board_of(self.state.board, Seq::new(H as nat, |i: int| 0u64));
        }
        self.game_over = false;
        self.has_hold = false;
        self.scorer = ScoreTracker::default();
        self.scorer.level = if start_level < 1 {
            1
        } else if start_level > 15 {
            15
        } else {
            start_level
        };
        self.bag_idx = 7;
        self.lock_delay_wall.cancel();
        self.lock_delay_active = false;
        self.lock_delay_accumulated_ticks = 0;
        self.lock_delay_move_resets = 0;
        self.soft_drop_cells = 0;
        self.hard_drop_cells = 0;
        self.gravity_accumulator = 0;
        let ghost v0 = self@;
        proof {
            reveal(cleared_for_start);
            reveal(dealt_preview);
            reveal(restarted);
            assert(v0.state.next@ =~= [Piece::I, Piece::I, Piece::I, Piece::I, Piece::I]@);
            assert(v0.state.next == [Piece::I, Piece::I, Piece::I, Piece::I, Piece::I]);
            assert(v0 == cleared_for_start(v, seed, start_level));
        }
        let p0 = self.pop_next_piece();
        let p1 = self.pop_next_piece();
        let p2 = self.pop_next_piece();
        let p3 = self.pop_next_piece();
        let p4 = self.pop_next_piece();
        self.state.next = [p0, p1, p2, p3, p4];
        assert(self@ == dealt_preview(v0));
        self.spawn();
    }

    /// Drops the active piece and records the drop; see `hard_dropped`.
    fn drop_piece(&mut self)
        requires
            engine_dims(W, H),
            old(self)@.wf(),
        ensures
            final(self)@ == hard_dropped(old(self)@),
            final(self)@.wf(),
    {
        let ghost v = self@;
        proof {
            reveal(hard_dropped);
            lemma_drop_y_range(v.state.board, v.state.piece, v.state.rot, v.state.x as int, v.state.y as int);
        }
        let start_y = self.state.y;
        hard_drop(&mut self.state);
        let end_y = self.state.y;
        self.record_harddrop(start_y, end_y);
        let dist: i32 = end_y as i32 - start_y as i32;
        self.hard_drop_cells = if dist > 0 {
            dist as u8
        } else {
            0
        };
        self.lock_delay_wall.cancel();
        assert(self@ == hard_dropped(v));
    }

    /// Drops the active piece, records the drop and locks it; the hard-drop
    /// case of `acted`.
    fn drop_and_lock(&mut self) -> (res: AttackResult)
        requires
            engine_dims(W, H),
            old(self)@.wf(),
            lock_fits(hard_dropped(old(self)@)),
        ensures
            (final(self)@, res) == after_lock(hard_dropped(old(self)@)),
            final(self)@.wf(),
    {
        self.drop_piece();
        self.lock_and_spawn()
    }

    /// Whether locking the active piece now keeps every counter within its
    /// type; see `lock_fits`.
    fn lock_would_fit(&self) -> (r: bool)
        requires
            engine_dims(W, H),
            self@.wf(),
        ensures
            r == lock_fits(self@),
    {
        let ghost v = self@;
        let mut st = self.state;
        let lines_cleared = lock_piece(&mut st);
        let ghost st1 = st;
        proof {
            reveal(locked_state);
            let locked = locked_rows(v.state.board, v.state.piece, v.state.rot, v.state.x as int, v.state.y as int);
            lemma_kept_rows_len(locked, Board::<W, H>::full_bits(), 0);
            lemma_board_of(st1.board, rows_after_clear(locked, Board::<W, H>::full_bits()));
            assert(st1 == locked_state(v.state).0);
        }
        if lines_cleared != 0 && st.combo == i32::MAX {
            return false;
        }
        let attack_res = calculate_attack(&mut st, lines_cleared);
        let c = st.combo;
        let combo_count: u32 = if c > 1 {
            (c - 1) as u32
        } else {
            0
        };
        self.scorer.update_would_fit(
            lines_cleared as u8,
            attack_res.is_tspin,
            attack_res.is_mini,
            attack_res.is_b2b,
            attack_res.perfect_clear,
            self.soft_drop_cells,
            self.hard_drop_cells,
            combo_count,
            self.scorer.level,
        )
    }

    /// Whether acting on `action` keeps every counter within its type; see
    /// `action_fits`.
    pub fn action_would_fit(&self, action: Action) -> (r: bool)
        requires
            self@.wf(),
            !self@.game_over ==> engine_dims(W, H),
        ensures
            r == action_fits(self@, action),
    {
        if self.game_over {
            return true;
        }
        match action {
            Action::HardDrop => {
                let mut c = *self;
                c.drop_piece();
                c.lock_would_fit()
            },
            _ => true,
        }
    }

    /// The hold key; see `held`.
    #[verifier::rlimit(50)]
    fn hold_piece(&mut self)
        requires
            engine_dims(W, H),
            old(self)@.wf(),
        ensures
            final(self)@ == held(old(self)@),
            final(self)@.wf(),
    {
        proof {
            reveal(held);
        }
        if !self.state.hold_used {
            self.lock_delay_wall.cancel();
            if self.has_hold {
                let t = self.state.hold;
                self.state.hold = self.state.piece;
                self.state.piece = t;
                self.state.rot = Rot::R0;
                self.state.x = (W / 2) as i8 - 2;
                self.state.y = 0;
                if !can_place(&self.state, self.state.x, self.state.y, self.state.rot) {
                    self.game_over = true;
                }
            } else {
                self.state.hold = self.state.piece;
                self.has_hold = true;
                assert(self@.wf());
                self.spawn();
            }
            self.state.hold_used = true;
        }
    }

    /// Acts on one input; see `acted`.
    pub fn handle_action(&mut self, action: Action) -> (res: AttackResult)
        requires
            old(self)@.wf(),
            !old(self)@.game_over ==> engine_dims(W, H),
            action_fits(old(self)@, action),
        ensures
            (final(self)@, res) == acted(old(self)@, action),
            final(self)@.wf(),
    {
        proof {
            reveal(acted);
        }
        if self.game_over {
            return AttackResult::none();
        }
        match action {
            Action::MoveLeft => {
                self.try_move_wrapped(-1, 0);
                AttackResult::none()
            },
            Action::MoveRight => {
                self.try_move_wrapped(1, 0);
                AttackResult::none()
            },
            Action::SoftDrop => {
                if self.try_move_wrapped(0, 1) {
                    self.soft_drop_cells = self.soft_drop_cells.saturating_add(1);
                }
                AttackResult::none()
            },
            Action::HardDrop => self.drop_and_lock(),
            Action::RotateCW => {
                let code: u8 = self.state.rot.to_u8();
                proof {
                    crate::types::lemma_rot_code_round_trip(self.state.rot);
                }
                let to = rot_after(code, 1);
                self.try_rotate_wrapped(to);
                AttackResult::none()
            },
            Action::RotateCCW => {
                let code: u8 = self.state.rot.to_u8();
                proof {
                    crate::types::lemma_rot_code_round_trip(self.state.rot);
                }
                let to = rot_after(code, 3);
                self.try_rotate_wrapped(to);
                AttackResult::none()
            },
            Action::Hold => {
                self.hold_piece();
                AttackResult::none()
            },
        }
    }

    /// Acts on the pressed inputs in order until one ends the tick; the
    /// first half of `fixed_stepped`.
    fn apply_inputs(&mut self, inputs: &[InputEvent]) -> (early: Option<AttackResult>)
        requires
            engine_dims(W, H),
            old(self)@.wf(),
            inputs_fit(old(self)@, inputs@, 0),
        ensures
            (final(self)@, early) == inputs_applied(old(self)@, inputs@, 0),
            final(self)@.wf(),
            final(self)@.gravity_accumulator == old(self)@.gravity_accumulator,
    {
        let ghost v = self@;
        let mut early: Option<AttackResult> = None;
        let mut i: usize = 0;
        while i < inputs.len()
            invariant_except_break
                early is None,
                inputs_applied(v, inputs@, 0) == inputs_applied(self@, inputs@, i as int),
                inputs_fit(self@, inputs@, i as int),
            invariant
                engine_dims(W, H),
                i <= inputs.len(),
                self@.wf(),
                self@.gravity_accumulator == v.gravity_accumulator,
            ensures
                early is None ==> i == inputs.len() && inputs_applied(v, inputs@, 0)
                    == inputs_applied(self@, inputs@, i as int),
                early is Some ==> inputs_applied(v, inputs@, 0) == (self@, early),
            decreases inputs.len() - i,
        {
            proof {
                reveal_with_fuel(inputs_applied, 2);
                reveal_with_fuel(inputs_fit, 2);
            }
            let input = inputs[i];
            if input.pressed {
                let action = Action::from_u8(input.key);
                let ghost before = self@;
                let attack_res = self.handle_action(action);
                proof {
                    lemma_acted_keeps_acc(before, action);
                }
                let locked = action == Action::HardDrop || action == Action::Hold;
                if attack_res.damage != 0 || attack_res.is_tspin || attack_res.is_b2b
                    || attack_res.perfect_clear || locked || self.game_over {
                    early = Some(attack_res);
                    break;
                }
            }
            i = i + 1;
        }
        proof {
            reveal_with_fuel(inputs_applied, 1);
            if early is None {
                assert(inputs_applied(self@, inputs@, i as int) == (self@, None::<AttackResult>));
            }
        }
        early
    }

    /// Runs gravity for a fixed tick at `interval` milliseconds per row;
    /// see `fixed_gravity`.
    fn fixed_gravity_steps(&mut self, interval: u32) -> (res: Option<AttackResult>)
        requires
            engine_dims(W, H),
            old(self)@.wf(),
            gravity_fits(old(self)@, interval),
            1 <= interval <= 800,
        ensures
            (final(self)@, res) == fixed_gravity(old(self)@, interval),
            final(self)@.wf(),
    {
        let ghost v2 = self@;
        let mut attack_result: Option<AttackResult> = None;
        while self.gravity_accumulator >= interval
            invariant_except_break
                attack_result is None,
                fixed_gravity(v2, interval) == fixed_gravity(self@, interval),
                gravity_fits(self@, interval),
            invariant
                engine_dims(W, H),
                self@.wf(),
                1 <= interval <= 800,
            ensures
                attack_result is None ==> self.gravity_accumulator < interval && fixed_gravity(v2, interval)
                    == fixed_gravity(self@, interval),
                attack_result is Some ==> fixed_gravity(v2, interval) == (self@, attack_result),
            decreases self.gravity_accumulator,
        {
            proof {
                reveal_with_fuel(fixed_gravity, 2);
                reveal_with_fuel(gravity_fits, 2);
            }
            self.gravity_accumulator = self.gravity_accumulator - interval;
            let ghost v0 = self@;
            if try_move(&mut self.state, 0, 1) {
                proof {
                    lemma_fits_above_floor(v0.state.board, v0.state.piece, v0.state.rot, v0.state.x as int, v0.state.y + 1);
                }
                self.lock_delay_active = false;
                self.lock_delay_accumulated_ticks = 0;
                self.lock_delay_move_resets = 0;
            } else {
                self.lock_delay_active = true;
                self.lock_delay_accumulated_ticks = self.lock_delay_accumulated_ticks.saturating_add(1);
                if self.lock_delay_move_resets < MAX_MOVE_RESETS as u8
                    && self.lock_delay_accumulated_ticks >= LOCK_DELAY_TICKS {
                    let res = self.lock_and_spawn();
                    attack_result = Some(res);
                    self.lock_delay_active = false;
                    self.lock_delay_accumulated_ticks = 0;
                    self.lock_delay_move_resets = 0;
                    break;
                }
            }
        }
        proof {
            reveal_with_fuel(fixed_gravity, 1);
            if attack_result is None {
                assert(fixed_gravity(self@, interval) == (self@, None::<AttackResult>));
            }
        }
        attack_result
    }


    /// Runs `delta_ms` milliseconds of gravity on the wall clock; see
    /// `wall_gravity`. Nothing happens once the game is over. The clock's
    /// answers are not known in advance: the result is that of some list
    /// of them.
    pub fn tick(&mut self, delta_ms: u32) -> (res: AttackResult)
        requires
            old(self)@.wf(),
            !old(self)@.game_over ==> {
                &&& engine_dims(W, H)
                &&& old(self)@.gravity_accumulator + delta_ms <= u32::MAX
                &&& room_for(
                    old(self)@,
                    (old(self)@.gravity_accumulator + delta_ms) / (gravity_ms(old(self)@.scorer.level) as int),
                )
            },
        ensures
            old(self)@.game_over ==> final(self)@ == old(self)@ && res == no_attack(),
            !old(self)@.game_over ==> exists|fired: Seq<bool>|
                (final(self)@, res) == #[trigger] ticked_on_clock(old(self)@, delta_ms, fired),
            final(self)@.wf(),
    {
        let ghost v_in = self@;
        if self.game_over {
            return AttackResult::none();
        }
        self.gravity_accumulator = self.gravity_accumulator + delta_ms;
        let interval = gravity_interval_ms(self.scorer.level);
        let mut result = AttackResult::none();
        let ghost vs = self@;
        let ghost mut fired: Seq<bool> = Seq::empty();
        while self.gravity_accumulator >= interval
            invariant
                engine_dims(W, H),
                self@.wf(),
                1 <= interval <= 800,
                room_for(self@, (self@.gravity_accumulator as int) / (interval as int)),
                forall|s: Seq<bool>|
                    s.len() >= fired.len() && s.subrange(0, fired.len() as int) == fired
                        ==> #[trigger] wall_gravity(vs, interval, s, 0, no_attack()) == wall_gravity(
                        self@,
                        interval,
                        s,
                        fired.len() as int,
                        result,
                    ),
            decreases self.gravity_accumulator,
        {
            let ghost cur = self@;
            let ghost n_before = fired.len();
            let ghost acc = self.gravity_accumulator as int;
            proof {
                assert((acc - interval) / (interval as int) == acc / (interval as int) - 1) by (nonlinear_arith)
                    requires
                        acc >= interval,
                        interval >= 1,
                ;
                assert(acc / (interval as int) >= 1) by (nonlinear_arith)
                    requires
                        acc >= interval,
                        interval >= 1,
                ;
            }
            self.gravity_accumulator = self.gravity_accumulator - interval;
            let ghost v0 = self@;
            if try_move(&mut self.state, 0, 1) {
                proof {
                    lemma_fits_above_floor(v0.state.board, v0.state.piece, v0.state.rot, v0.state.x as int, v0.state.y + 1);
                }
                self.lock_delay_wall.cancel();
                proof {
                    lemma_room_fewer(cur, acc / (interval as int), acc / (interval as int) - 1);
                }
                assert(room_for(self@, (self@.gravity_accumulator as int) / (interval as int)));
                proof {
                    assert forall|s: Seq<bool>|
                        s.len() >= fired.len() && s.subrange(0, fired.len() as int) == fired
                            implies #[trigger] wall_gravity(vs, interval, s, 0, no_attack()) == wall_gravity(
                            self@,
                            interval,
                            s,
                            fired.len() as int,
                            result,
                        ) by {
                        reveal_with_fuel(wall_gravity, 2);
                        assert(wall_gravity(vs, interval, s, 0, no_attack()) == wall_gravity(cur, interval, s, fired.len() as int, result));
                    }
                }
            } else {
                self.lock_delay_wall.start();
                let ghost v1 = self@;
                let expired = self.lock_delay_wall.update();
                if expired {
                    let ghost pre = self@;
                    proof {
                        assert(room_for(pre, acc / (interval as int)));
                        lemma_after_lock_room(pre, acc / (interval as int));
                        lemma_room_fewer(pre, acc / (interval as int), 1);
                        lemma_room_lock_fits(pre);
                    }
                    result = self.lock_and_spawn();
                } else {
                    proof {
                        lemma_room_fewer(cur, acc / (interval as int), acc / (interval as int) - 1);
                    }
                }
                assert(room_for(self@, (self@.gravity_accumulator as int) / (interval as int)));
                proof {
                    let e = expired;
                    let old_fired = fired;
                    fired = fired.push(e);
                    assert forall|s: Seq<bool>|
                        s.len() >= fired.len() && s.subrange(0, fired.len() as int) == fired
                            implies #[trigger] wall_gravity(vs, interval, s, 0, no_attack()) == wall_gravity(
                            self@,
                            interval,
                            s,
                            fired.len() as int,
                            result,
                        ) by {
                        assert(s.subrange(0, old_fired.len() as int) =~= old_fired) by {
                            assert forall|j: int| 0 <= j < old_fired.len() implies s[j] == old_fired[j] by {
                                assert(s.subrange(0, fired.len() as int)[j] == fired[j]);
                            }
                        }
                        assert(s[old_fired.len() as int] == e) by {
                            assert(s.subrange(0, fired.len() as int)[old_fired.len() as int] == fired[old_fired.len() as int]);
                        }
                        reveal_with_fuel(wall_gravity, 2);
                    }
                }
            }
        }
        proof {
            reveal_with_fuel(wall_gravity, 1);
            assert(fired.subrange(0, fired.len() as int) =~= fired);
            assert(wall_gravity(vs, interval, fired, 0, no_attack()) == (self@, result));
            assert((self@, result) == ticked_on_clock(v_in, delta_ms, fired));
        }
        result
    }

    /// Milliseconds left on the wall-clock lock delay; 0 when it is not
    /// running.
    pub fn get_lock_timer(&self) -> (r: i32)
        ensures
            !self@.wall_active ==> r == 0,
    {
        self.lock_delay_wall.remaining_ms()
    }


    /// The bytes the state hash covers; see `hash_bytes`.
    pub fn state_hash_bytes(&self) -> (out: Vec<u8>)
        ensures
            out@ == hash_bytes(self@),
    {
        let st = &self.state;
        let mut out: Vec<u8> = Vec::new();
        let mut i: usize = 0;
        while i < H
            invariant
                i <= H,
                out@ == rows_bytes(st.board.rows@.take(i as int)),
            decreases H - i,
        {
            push_u64(&mut out, st.board.rows[i]);
            assert(st.board.rows@.take(i + 1).drop_last() =~= st.board.rows@.take(i as int));
            i = i + 1;
        }
        assert(st.board.rows@.take(H as int) =~= st.board.rows@);
        let ghost p0 = out@;
        push_piece_bytes(&mut out, st);
        push_u32(&mut out, st.rng);
        out.push(st.pending_garbage);
        push_u32(&mut out, #[verifier::truncate] (st.combo as u32));
        push_bag_bytes(&mut out, st, &self.bag);
        push_u64(&mut out, self.bag_idx as u64);
        out.push(flag(self.lock_delay_active));
        out.push(self.lock_delay_accumulated_ticks);
        out.push(self.lock_delay_move_resets);
        assert(out@ =~= hash_bytes(self@));
        out
    }

    /// CRC-32/ISO-HDLC of the engine's deterministic state (see
    /// `hash_bytes`), used to compare simulations.
    pub fn state_hash(&self) -> (r: u32)
        ensures
            r == crc32_iso_hdlc(hash_bytes(self@)),
    {
        let bytes = self.state_hash_bytes();
        crc32_checksum(bytes.as_slice())
    }


    /// Whether the counters have room for one more lock (see `room_for`).
    pub fn can_lock(&self) -> (r: bool)
        ensures
            r == room_for(self@, 1),
    {
        self.has_room(1)
    }

    /// Whether `tick(delta_ms)` may run: the gravity remainder stays
    /// representable and the counters have room for every lock it could
    /// make.
    pub fn can_tick(&self, delta_ms: u32) -> (r: bool)
        ensures
            r == (self@.gravity_accumulator + delta_ms <= u32::MAX && room_for(
                self@,
                (self@.gravity_accumulator + delta_ms) / (gravity_ms(self@.scorer.level) as int),
            )),
    {
        if self.gravity_accumulator > u32::MAX - delta_ms {
            return false;
        }
        let interval = gravity_interval_ms(self.scorer.level);
        let n = (self.gravity_accumulator + delta_ms) / interval;
        self.has_room(n as u64)
    }

    /// Whether the counters have room for `n` more locks.
    fn has_room(&self, n: u64) -> (r: bool)
        requires
            n <= u32::MAX,
        ensures
            r == room_for(self@, n as int),
    {
        let n128 = n as u128;
        let c: u128 = if self.state.combo >= 0 {
            self.state.combo as u128
        } else {
            0
        };
        assert(n128 * (85_000 + 750 * (c + n128)) <= 0xffff_ffff * (85_000 + 750 * (0xffff_ffff + 0xffff_ffff)))
            by (nonlinear_arith)
            requires
                n128 <= 0xffff_ffff,
                c <= 0xffff_ffff,
        ;
        assert(n128 * (H as u128) <= 0xffff_ffff * 0xffff_ffff_ffff_ffff) by (nonlinear_arith)
            requires
                n128 <= 0xffff_ffff,
                H <= 0xffff_ffff_ffff_ffff,
        ;
        proof {
            reveal(points_room);
            reveal(rows_room);
        }
        (self.state.combo as i128) + (n as i128) <= i32::MAX as i128
            && (self.scorer.score as u128) + n128 * (85_000 + 750 * (c + n128)) <= u64::MAX as u128
            && (self.scorer.total_lines as u128) + n128 * (H as u128) <= u32::MAX as u128
            && (self.scorer.b2b_count as u128) + n128 <= u32::MAX as u128
            && (self.scorer.tspin_count as u128) + n128 <= u32::MAX as u128
            && (self.scorer.all_clear_count as u128) + n128 <= u32::MAX as u128
            && (self.scorer.total_pieces as u128) + n128 <= u32::MAX as u128
    }

    /// The score and statistics.
    pub fn stats(&self) -> (r: ScoreTracker)
        ensures
            r == self@.scorer,
    {
        self.scorer
    }

    /// Whether the game is over.
    pub fn is_over(&self) -> (r: bool)
        ensures
            r == self@.game_over,
    {
        self.game_over
    }

    /// How many rows the last lock cleared.
    pub fn last_clear_count(&self) -> (r: u8)
        ensures
            r == self@.state.last_clear_count,
    {
        self.state.last_clear_count
    }

    /// Adds `ms` milliseconds to the time played (see
    /// `ScoreTracker::tick_time`).
    pub fn add_play_time(&mut self, ms: u64)
        requires
            old(self)@.scorer.game_time_ms + ms <= u64::MAX,
        ensures
            final(self)@ == (EngineView {
                scorer: ScoreTracker { game_time_ms: (old(self)@.scorer.game_time_ms + ms) as u64, ..old(self)@.scorer },
                ..old(self)@
            }),
    {
        self.scorer.tick_time(ms);
    }


    /// The game state.
    pub fn current_state(&self) -> (s: State<W, H>)
        ensures
            s == self@.state,
    {
        self.state
    }

    /// Replaces the game state with one received from a peer and sets
    /// whether the game is over; the active piece's position must lie in
    /// the engine's range (see `EngineView::wf`).
    pub fn overwrite_state(&mut self, st: State<W, H>, game_over: bool)
        requires
            old(self)@.wf(),
            -3 <= st.x < W,
            -122 <= st.y < H,
        ensures
            final(self)@ == (EngineView { state: st, game_over: game_over, ..old(self)@ }),
            final(self)@.wf(),
    {
        self.state = st;
        self.game_over = game_over;
    }


    /// Sets whether a piece is held (so that a hold swaps it in).
    pub fn set_has_hold(&mut self, has_hold: bool)
        requires
            old(self)@.wf(),
        ensures
            final(self)@ == (EngineView { has_hold: has_hold, ..old(self)@ }),
            final(self)@.wf(),
    {
        self.has_hold = has_hold;
    }

    /// Adds `lines` rows of incoming garbage (saturating at 255).
    pub fn add_pending_garbage(&mut self, lines: u8)
        requires
            old(self)@.wf(),
        ensures
            final(self)@ == (EngineView {
                state: State {
                    pending_garbage: if old(self)@.state.pending_garbage + lines > u8::MAX {
                        u8::MAX
                    } else {
                        (old(self)@.state.pending_garbage + lines) as u8
                    },
                    ..old(self)@.state
                },
                ..old(self)@
            }),
            final(self)@.wf(),
    {
        self.state.pending_garbage = self.state.pending_garbage.saturating_add(lines);
    }

    /// Runs one fixed tick with `inputs`; see `fixed_stepped`.
    pub fn fixed_tick(&mut self, inputs: &[InputEvent]) -> (res: TickResult)
        requires
            old(self)@.wf(),
            !old(self)@.game_over ==> engine_dims(W, H) && tick_fits(old(self)@, inputs@),
        ensures
            (final(self)@, res) == fixed_stepped(old(self)@, inputs@),
            final(self)@.wf(),
    {
        proof {
            reveal(fixed_stepped);
        }
        if self.game_over {
            return TickResult { attack: None, cleared: false, game_over: true };
        }
        let early = self.apply_inputs(inputs);
        if let Some(attack_res) = early {
            return TickResult { attack: Some(attack_res), cleared: true, game_over: self.game_over };
        }
        if self.game_over {
            return TickResult { attack: None, cleared: false, game_over: true };
        }
        self.gravity_accumulator = self.gravity_accumulator + FIXED_TICK_MS;
        let interval = gravity_interval_ms(self.scorer.level);
        let attack_result = self.fixed_gravity_steps(interval);
        let cleared = attack_result.is_some();
        TickResult { attack: attack_result, cleared, game_over: self.game_over }
    }
}


/// Starting a game forgets everything before it: two engines restarted
/// with the same seed and level are in the same state, whatever they were
/// in before.
pub proof fn lemma_restart_forgets_history<const W: usize, const H: usize>(
    a: EngineView<W, H>,
    b: EngineView<W, H>,
    seed: u32,
    level: u32,
)
    ensures
        restarted(a, seed, level) == restarted(b, seed, level),
{
    reveal(restarted);
    reveal(dealt_preview);
    reveal(cleared_for_start);
    reveal(popped);
    let ca = cleared_for_start(a, seed, level);
    let cb = cleared_for_start(b, seed, level);
    assert(popped(ca) == popped(cb));
}

/// The fixed-tick simulation is deterministic: engines in the same state
/// fed the same inputs end in the same state with the same result and the
/// same state hash.
pub proof fn lemma_fixed_tick_deterministic<const W: usize, const H: usize>(
    a: EngineView<W, H>,
    b: EngineView<W, H>,
    inputs: Seq<InputEvent>,
)
    requires
        a == b,
    ensures
        fixed_stepped(a, inputs) == fixed_stepped(b, inputs),
        hash_bytes(fixed_stepped(a, inputs).0) == hash_bytes(fixed_stepped(b, inputs).0),
{
}

/// Moving a piece that fits where it is and is not resting on anything
/// one column left and back right leaves every part of the engine that the state hash covers
/// as it was (only the wall-clock delay, which the hash leaves out, is
/// restarted).
pub proof fn lemma_left_right_cancels<const W: usize, const H: usize>(v: EngineView<W, H>)
    requires
        !v.lock_active,
        !v.state.last_move_was_rotation,
        fits(v.state.board, v.state.piece, v.state.rot, v.state.x as int, v.state.y as int),
        -128 < v.state.x,
        shifted(v, -1, 0).1,
    ensures
        shifted(shifted(v, -1, 0).0, 1, 0).1,
        hash_bytes(shifted(shifted(v, -1, 0).0, 1, 0).0) == hash_bytes(v),
{
    reveal(shifted);
    reveal(move_reset);
    let v1 = shifted(v, -1, 0).0;
    assert(v1.state.x == v.state.x - 1);
    assert(shifted(v1, 1, 0).0.state == v.state);
}

/// Acting on an input leaves the gravity remainder alone.
proof fn lemma_acted_keeps_acc<const W: usize, const H: usize>(v: EngineView<W, H>, a: Action)
    ensures
        acted(v, a).0.gravity_accumulator == v.gravity_accumulator,
{
    reveal(acted);
    reveal(shifted);
    reveal(move_reset);
    reveal(turned_to);
    reveal(held);
    reveal(spawned);
    reveal(popped);
    reveal(after_lock);
    reveal(hard_dropped);
    reveal(locked_state);
}

/// An action that does not lock leaves the counters alone.
proof fn lemma_quiet_action_keeps_room<const W: usize, const H: usize>(v: EngineView<W, H>, a: Action)
    requires
        a != Action::HardDrop,
    ensures
        acted(v, a).0.scorer == v.scorer,
        acted(v, a).0.state.combo == v.state.combo,
{
    reveal(acted);
    reveal(shifted);
    reveal(move_reset);
    reveal(turned_to);
    reveal(held);
    reveal(spawned);
    reveal(popped);
}

} // verus!
