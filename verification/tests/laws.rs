use tetris_core::piece::{rot90_3x3, rot90_4x4};
use tetris_core::engine::{gravity_interval_ms, Action, Engine, InputEvent};
use tetris_core::lockdelay::LockDelayTicks;
use tetris_core::protocol::PacketType;
use tetris_core::rl::{action_mask, action_to_placement, placement_to_action, ACTION_SPACE_SIZE};
use tetris_core::scoring::ScoreTracker;
use tetris_core::types::{Piece, Rot};

fn fresh(seed: u32) -> Engine<10, 20> {
    let mut e = Engine::<10, 20>::new();
    e.reset(seed);
    e
}

#[test]
fn first_six_pieces_of_a_game_are_distinct() {
    for seed in [0u32, 1, 42, 99, 12345, 0xdead_beef] {
        let e = fresh(seed);
        let mut seen = vec![e.state.piece];
        seen.extend_from_slice(&e.state.next);
        for i in 0..seen.len() {
            for j in (i + 1)..seen.len() {
                assert_ne!(seen[i], seen[j], "seed {seed}");
            }
        }
    }
}

#[test]
fn seven_hard_drops_deal_a_whole_bag() {
    let mut e = fresh(7);
    let mut dealt = vec![e.state.piece];
    dealt.extend_from_slice(&e.state.next);
    e.handle_action(Action::HardDrop);
    dealt.push(e.state.next[4]);
    let all = [Piece::I, Piece::O, Piece::T, Piece::S, Piece::Z, Piece::J, Piece::L];
    for p in all {
        assert_eq!(dealt.iter().filter(|&&q| q == p).count(), 1);
    }
}

#[test]
fn restart_forgets_history() {
    let mut a = fresh(3);
    for act in [Action::MoveLeft, Action::HardDrop, Action::Hold, Action::HardDrop] {
        a.handle_action(act);
    }
    a.reset(5);
    let b = fresh(5);
    assert_eq!(a.state_hash(), b.state_hash());
    assert_eq!(a.state_hash_bytes(), b.state_hash_bytes());
}

#[test]
fn state_hash_is_crc_of_hash_bytes() {
    let e = fresh(42);
    let bytes = e.state_hash_bytes();
    assert_eq!(bytes.len(), 20 * 8 + 11 + 4 + 1 + 4 + 9 + 8 + 3);
    let crc = crc::Crc::<u32>::new(&crc::CRC_32_ISO_HDLC);
    assert_eq!(e.state_hash(), crc.checksum(&bytes));
    assert_eq!(crc.checksum(b"123456789"), 0xcbf4_3926);
    let e2 = fresh(43);
    assert_ne!(e.state_hash(), e2.state_hash());
}

#[test]
fn left_then_right_in_air_keeps_hash() {
    let mut a = fresh(11);
    let b = fresh(11);
    let h = a.state_hash();
    a.handle_action(Action::MoveLeft);
    assert_ne!(a.state_hash(), h);
    a.handle_action(Action::MoveRight);
    assert_eq!(a.state_hash(), b.state_hash());
}

#[test]
fn fixed_ticks_are_deterministic() {
    let mut a = fresh(2024);
    let mut b = fresh(2024);
    let inputs = [InputEvent { key: 4, pressed: true }, InputEvent { key: 0, pressed: false }];
    for i in 0..300 {
        let ra = if i % 17 == 0 { a.fixed_tick(&inputs) } else { a.fixed_tick(&[]) };
        let rb = if i % 17 == 0 { b.fixed_tick(&inputs) } else { b.fixed_tick(&[]) };
        assert_eq!(ra.cleared, rb.cleared);
        assert_eq!(ra.game_over, rb.game_over);
        assert_eq!(a.state_hash(), b.state_hash());
    }
}

#[test]
fn score_never_decreases_and_best_follows() {
    let mut s = ScoreTracker::default();
    let mut last = 0;
    let plays: [(u8, bool, bool, bool, bool); 6] = [
        (0, false, false, false, false),
        (1, false, false, false, false),
        (2, true, true, false, false),
        (4, false, false, true, true),
        (0, true, false, false, false),
        (3, true, false, true, false),
    ];
    for (i, (lines, ts, mini, b2b, pc)) in plays.iter().enumerate() {
        s.update(*lines, *ts, *mini, *b2b, *pc, 2, 3, i as u32, 3);
        assert!(s.score >= last);
        assert!(s.best_score >= s.score);
        last = s.score;
    }
    assert_eq!(s.total_pieces, 6);
    assert!(s.level <= 15);
}

#[test]
fn mini_tspin_and_perfect_clear_points() {
    let mut s = ScoreTracker::default();
    s.update(0, true, true, false, false, 0, 0, 0, 2);
    assert_eq!(s.score, 200);
    assert_eq!(s.combo, 0);
    let mut s = ScoreTracker::default();
    s.update(4, false, false, true, true, 0, 0, 0, 1);
    assert_eq!(s.score, 1200 + 3200);
    assert_eq!(s.all_clear_count, 1);
    assert_eq!(s.b2b_count, 1);
}

#[test]
fn tick_lock_delay_fires_after_thirty() {
    let mut ld = LockDelayTicks::new();
    ld.start();
    for _ in 0..29 {
        assert!(!ld.update());
    }
    assert_eq!(ld.remaining_ticks(), 1);
    assert!(ld.update());
    assert!(!ld.active);
    assert_eq!(ld.remaining_ticks(), 0);
}

#[test]
fn placement_and_action_round_trip() {
    for a in 0..ACTION_SPACE_SIZE {
        let (col, rot) = action_to_placement(a).unwrap();
        assert_eq!(placement_to_action(col, rot), Some(a));
    }
    assert_eq!(action_to_placement(ACTION_SPACE_SIZE), None);
    assert_eq!(placement_to_action(-1, Rot::R0), None);
    assert_eq!(placement_to_action(10, Rot::R0), None);
    let mask = action_mask(&[(0, Rot::R0), (9, Rot::R270), (-2, Rot::R90), (3, Rot::R180)]);
    assert_eq!(mask.len(), ACTION_SPACE_SIZE);
    let set: Vec<usize> = (0..ACTION_SPACE_SIZE).filter(|&i| mask[i]).collect();
    assert_eq!(set, vec![0, 14, 39]);
}

#[test]
fn packet_codes_are_distinct() {
    let all = [
        PacketType::ClientJoin, PacketType::ServerAccept, PacketType::GameStart, PacketType::GameOver,
        PacketType::CreateRoom, PacketType::JoinRoom, PacketType::PlayerReady, PacketType::PlayerLeave,
        PacketType::RoomSettings, PacketType::ChatMessage, PacketType::StartCountdown,
        PacketType::HostMigrate, PacketType::PlayerAway, PacketType::SpectateSwitch,
        PacketType::RoomSnapshot, PacketType::Replay, PacketType::ServerReplay, PacketType::StateHash,
        PacketType::StateSnapshot, PacketType::Reconnect, PacketType::ReconnectAck, PacketType::Resume,
        PacketType::IncomingGarbage, PacketType::PlayerStatus, PacketType::Batch, PacketType::AddBot,
        PacketType::CountdownCancel, PacketType::KickPlayer, PacketType::RemoveBot, PacketType::Standings,
    ];
    for i in 0..all.len() {
        for j in (i + 1)..all.len() {
            assert_ne!(all[i].to_u8(), all[j].to_u8());
        }
    }
}

#[test]
fn gravity_table_exact_values() {
    let expected = [800, 628, 485, 368, 274, 200, 143, 101, 69, 47, 31, 20, 12, 8, 4];
    for (i, ms) in expected.iter().enumerate() {
        assert_eq!(gravity_interval_ms(i as u32 + 1), *ms);
    }
    assert_eq!(gravity_interval_ms(0), 800);
}

#[test]
fn pending_garbage_rises_after_a_quiet_lock() {
    let mut e = fresh(5);
    e.state.pending_garbage = 2;
    e.handle_action(Action::HardDrop);
    assert_eq!(e.state.pending_garbage, 0);
    let full = tetris_core::board::Board::<10, 20>::full_mask();
    for y in 18..20 {
        let row = e.state.board.rows[y];
        assert_eq!((row ^ full).count_ones(), 1, "one hole in garbage row {y}");
    }
}

#[test]
fn a_second_clear_finds_nothing() {
    let mut b = tetris_core::board::Board::<10, 20>::new();
    b.rows[19] = 0x3FF;
    b.rows[18] = 0x3FF;
    b.rows[17] = 0b1;
    let first = b.clear_lines();
    assert_eq!(first.count, 2);
    let after = b.rows;
    let second = b.clear_lines();
    assert_eq!(second.count, 0);
    assert_eq!(second.mask, 0);
    assert_eq!(b.rows, after);
}

#[test]
fn ghost_row_is_where_a_hard_drop_lands() {
    let mut e = fresh(7);
    e.state.board.rows[19] = 0xFF;
    let ghost = tetris_core::rules::get_ghost_y(&e.state);
    let mut st = e.state;
    tetris_core::rules::hard_drop(&mut st);
    assert_eq!(ghost, st.y as i32);
    assert!(!tetris_core::rules::can_place(&e.state, e.state.x, (ghost + 1) as i8, e.state.rot));
}

#[test]
fn finished_game_ignores_actions_and_ticks_whatever_its_counters() {
    let mut e = fresh(42);
    e.game_over = true;
    e.scorer.total_pieces = u32::MAX;
    e.scorer.score = u64::MAX;
    let before = e.state_hash();
    let r = e.handle_action(Action::MoveLeft);
    assert_eq!(r, tetris_core::attack::AttackResult::none());
    let r = e.handle_action(Action::HardDrop);
    assert_eq!(r.damage, 0);
    assert_eq!(e.state_hash(), before);
    let t = e.fixed_tick(&[]);
    assert_eq!(t.attack, None);
    assert!(!t.cleared);
    assert!(t.game_over);
    assert_eq!(e.state_hash(), before);
}

#[test]
fn only_a_lock_that_would_overflow_is_refused() {
    let mut e = fresh(42);
    e.scorer.total_pieces = u32::MAX - 1;
    assert!(e.action_would_fit(Action::HardDrop));
    assert!(e.action_would_fit(Action::MoveLeft));
    let next = e.state.next[0];
    e.handle_action(Action::HardDrop);
    assert_eq!(e.scorer.total_pieces, u32::MAX);
    assert_eq!(e.state.piece, next);
    assert!(!e.action_would_fit(Action::HardDrop));
    assert!(e.action_would_fit(Action::MoveLeft));
    assert!(e.action_would_fit(Action::Hold));
}

#[test]
fn four_quarter_turns_give_the_box_back() {
    for x in [0x00F0u16, 0x0660, 0x4444, 0x8421, 0x1234] {
        assert_eq!(rot90_4x4(rot90_4x4(rot90_4x4(rot90_4x4(x)))), x);
    }
    assert_eq!(rot90_4x4(0x00F0), 0x4444);
    assert_eq!(rot90_3x3(0x0072), 0x0262);
    for x in [0x0072u16, 0x0063, 0x0036, 0x0017] {
        assert_eq!(rot90_3x3(rot90_3x3(rot90_3x3(rot90_3x3(x)))), x);
    }
}
