//! Deterministic falling-block puzzle engine: board, pieces, rotation
//! system, attack and scoring rules, lock delay and the game engine, with
//! the wire-level types that multiplayer sessions exchange.

pub mod types;
pub mod piece;
pub mod srs;
pub mod board;
pub mod state;
pub mod rules;
pub mod attack;
pub mod scoring;
pub mod lockdelay;
pub mod rng;
pub mod hash;
pub mod engine;
pub mod rl;
pub mod newtypes;
pub mod protocol;
pub mod net_protocol;
pub mod errors;
pub mod rooms;
pub mod cli;
pub mod app_state;
pub mod traits;
pub mod net_driver;
pub mod relay_room;
pub mod relay_handler;
pub mod multiplayer;
pub mod input;
pub mod bot;
pub mod network_manager;
pub mod text;

pub use attack::{AttackResult, COMBO_DMG, NORMAL_DMG, PC_BONUS, TSPIN_DMG, calculate_attack, check_t_spin};
pub use board::{Board, ClearResult};
pub use engine::{Action, Engine};
pub use lockdelay::{LOCK_DELAY_MS, LockDelay, MAX_MOVE_RESETS};
pub use rng::Lcg;
pub use scoring::ScoreTracker;
pub use piece::{PieceDef, Shape};
pub use rules::{can_place, get_ghost_y, hard_drop, lock_piece, try_move, try_rotate};
pub use state::State;
pub use types::{Piece, Rot, Vec2};
