use vstd::prelude::*;
use crate::engine::Action;
use crate::newtypes::KeyAction;
use crate::types::Piece;
use crate::piece::{bit16, Shape};
use crate::state::State;
use crate::board::filled;

verus! {

/// What a board cell shows on screen.
#[derive(Debug, Clone, Copy, PartialEq, Eq, Structural)]
pub enum CellType {
    Empty,
    Locked,
    GhostPiece,
    Active(Piece),
}

/// Settings of the terminal client: key repeat delay and rate in
/// milliseconds, and the colour theme.
#[derive(Debug, Clone)]
pub struct CliConfig {
    pub das_ms: u32,
    pub arr_ms: u32,
    pub theme: String,
}

impl Default for CliConfig {
    fn default() -> (r: Self)
        ensures
            r.das_ms == 133,
            r.arr_ms == 10,
            r.theme@ == "cyberpunk"@,
    {
        CliConfig { das_ms: 133, arr_ms: 10, theme: "cyberpunk".to_owned() }
    }
}

/// The themes the client knows.
pub open spec fn known_theme(t: Seq<char>) -> bool {
    t == "cyberpunk"@ || t == "retro"@ || t == "minimal"@
}

/// `v` clamped to `lo..=hi`.
pub open spec fn clamped(v: u32, lo: u32, hi: u32) -> u32 {
    if v < lo {
        lo
    } else if v > hi {
        hi
    } else {
        v
    }
}

/// Settings read from a file, made safe: the repeat delay clamped to
/// 50..=500, the repeat rate to 0..=100, and an unknown theme replaced by
/// `cyberpunk`.
pub fn sanitize_config(cfg: CliConfig) -> (r: CliConfig)
    ensures
        r.das_ms == clamped(cfg.das_ms, 50, 500),
        r.arr_ms == clamped(cfg.arr_ms, 0, 100),
        r.theme@ == (if known_theme(cfg.theme@) {
            cfg.theme@
        } else {
            "cyberpunk"@
        }),
{
    let das_ms = if cfg.das_ms < 50 {
        50
    } else if cfg.das_ms > 500 {
        500
    } else {
        cfg.das_ms
    };
    let arr_ms = if cfg.arr_ms > 100 {
        100
    } else {
        cfg.arr_ms
    };
    let known = cfg.theme == "cyberpunk".to_owned() || cfg.theme == "retro".to_owned() || cfg.theme
        == "minimal".to_owned();
    let theme = if known {
        cfg.theme
    } else {
        "cyberpunk".to_owned()
    };
    CliConfig { das_ms, arr_ms, theme }
}

/// State of an opponent's connection as the client shows it.
#[derive(Debug, Clone, Copy, PartialEq, Eq, Structural)]
pub enum ConnectionStatus {
    Online,
    Slow,
    Reconnecting,
    Disconnected,
    Resyncing,
}

impl ConnectionStatus {
    /// The label shown for the status: its name in capitals.
    pub fn label(self) -> (r: &'static str)
        ensures
            r@ == (match self {
                ConnectionStatus::Online => "ONLINE"@,
                ConnectionStatus::Slow => "SLOW"@,
                ConnectionStatus::Reconnecting => "RECONNECTING"@,
                ConnectionStatus::Disconnected => "DISCONNECTED"@,
                ConnectionStatus::Resyncing => "RESYNCING"@,
            }),
    {
        match self {
            ConnectionStatus::Online => "ONLINE",
            ConnectionStatus::Slow => "SLOW",
            ConnectionStatus::Reconnecting => "RECONNECTING",
            ConnectionStatus::Disconnected => "DISCONNECTED",
            ConnectionStatus::Resyncing => "RESYNCING",
        }
    }
}

/// The engine action a replayed key stands for.
pub open spec fn key_action(key: KeyAction) -> Action {
    match key {
        KeyAction::KeyLeft => Action::MoveLeft,
        KeyAction::KeyRight => Action::MoveRight,
        KeyAction::KeySoftDrop => Action::SoftDrop,
        KeyAction::KeyHardDrop => Action::HardDrop,
        KeyAction::KeyRotateCW => Action::RotateCW,
        KeyAction::KeyRotateCCW => Action::RotateCCW,
        KeyAction::KeyHold => Action::Hold,
    }
}

/// The engine action a replayed key stands for.
pub fn action_for_key_action(key: KeyAction) -> (r: Action)
    ensures
        r == key_action(key),
{
    match key {
        KeyAction::KeyLeft => Action::MoveLeft,
        KeyAction::KeyRight => Action::MoveRight,
        KeyAction::KeySoftDrop => Action::SoftDrop,
        KeyAction::KeyHardDrop => Action::HardDrop,
        KeyAction::KeyRotateCW => Action::RotateCW,
        KeyAction::KeyRotateCCW => Action::RotateCCW,
        KeyAction::KeyHold => Action::Hold,
    }
}

/// A key and the engine action it maps to carry the same numeric code.
pub proof fn lemma_key_action_same_code(key: KeyAction)
    ensures
        crate::engine::action_of_code(crate::newtypes::key_code(key) as int) == key_action(key),
{
}

/// Whether the 4x4 box of `shape` placed with its corner at column `ox`,
/// row `oy` covers the cell in column `x`, row `y`.
pub open spec fn covers(shape: Shape, ox: int, oy: int, x: int, y: int) -> bool {
    0 <= x - ox < 4 && 0 <= y - oy < 4 && bit16(shape.row[y - oy], x - ox)
}

/// What an opponent panel shows in column `x`, row `y`: a locked cell, else
/// the ghost (placed at row `ghost_y`, when that is not negative), else the
/// active piece, else nothing.
pub open spec fn cell_for_state(st: State<10, 20>, shape: Shape, ghost_y: i32, x: int, y: int) -> CellType {
    if filled(st.board.rows[y], x) {
        CellType::Locked
    } else if ghost_y >= 0 && covers(shape, st.x as int, ghost_y as int, x, y) {
        CellType::GhostPiece
    } else if covers(shape, st.x as int, st.y as int, x, y) {
        CellType::Active(st.piece)
    } else {
        CellType::Empty
    }
}

/// Whether the box of `shape` with its corner at (`ox`, `oy`) covers the
/// cell (`x`, `y`); see `covers`.
fn covers_cell(shape: &Shape, ox: i64, oy: i64, x: i64, y: i64) -> (r: bool)
    requires
        -0x1_0000_0000 <= ox <= 0x1_0000_0000,
        -0x1_0000_0000 <= oy <= 0x1_0000_0000,
        0 <= x < 10,
        0 <= y < 20,
    ensures
        r == covers(*shape, ox as int, oy as int, x as int, y as int),
{
    let dx = x - ox;
    let dy = y - oy;
    if dx < 0 || dx >= 4 || dy < 0 || dy >= 4 {
        return false;
    }
    shape.row[dy as usize] & (1u16 << (dx as u16)) != 0
}

/// What an opponent panel shows in column `x`, row `y`; see
/// `cell_for_state`.
pub fn render_cell_for_state(st: &State<10, 20>, shape: &Shape, ghost_y: i32, x: usize, y: usize) -> (r: CellType)
    requires
        x < 10,
        y < 20,
    ensures
        r == cell_for_state(*st, *shape, ghost_y, x as int, y as int),
{
    if st.board.rows[y] & (1u64 << (x as u64)) != 0 {
        return CellType::Locked;
    }
    if ghost_y >= 0 && covers_cell(shape, st.x as i64, ghost_y as i64, x as i64, y as i64) {
        return CellType::GhostPiece;
    }
    if covers_cell(shape, st.x as i64, st.y as i64, x as i64, y as i64) {
        return CellType::Active(st.piece);
    }
    CellType::Empty
}

/// What the main board shows in column `x`, row `y`: while the game runs the
/// active piece wins, then locked cells, then the ghost (placed at row
/// `ghost_y`, when that is not negative); a finished game shows only locked
/// cells.
pub open spec fn grid_cell(st: State<10, 20>, shape: Shape, ghost_y: i32, game_over: bool, x: int, y: int) -> CellType {
    if !game_over && covers(shape, st.x as int, st.y as int, x, y) {
        CellType::Active(st.piece)
    } else if filled(st.board.rows[y], x) {
        CellType::Locked
    } else if !game_over && ghost_y >= 0 && covers(shape, st.x as int, ghost_y as int, x, y) {
        CellType::GhostPiece
    } else {
        CellType::Empty
    }
}

/// The cells of the main board, twenty rows of ten; see `grid_cell`.
pub fn board_grid(st: &State<10, 20>, shape: &Shape, ghost_y: i32, game_over: bool) -> (grid: Vec<Vec<CellType>>)
    ensures
        grid@.len() == 20,
        forall|y: int| 0 <= y < 20 ==> #[trigger] grid@[y]@.len() == 10,
        forall|y: int, x: int| 0 <= y < 20 && 0 <= x < 10 ==> #[trigger] grid@[y]@[x] == grid_cell(*st, *shape, ghost_y, game_over, x, y),
{
    let mut grid: Vec<Vec<CellType>> = Vec::new();
    let mut y: usize = 0;
    while y < 20
        invariant
            y <= 20,
            grid@.len() == y,
            forall|yy: int| 0 <= yy < y ==> #[trigger] grid@[yy]@.len() == 10,
            forall|yy: int, x: int| 0 <= yy < y && 0 <= x < 10 ==> #[trigger] grid@[yy]@[x] == grid_cell(*st, *shape, ghost_y, game_over, x, yy),
        decreases 20 - y,
    {
        let mut row: Vec<CellType> = Vec::new();
        let mut x: usize = 0;
        while x < 10
            invariant
                y < 20,
                x <= 10,
                row@.len() == x,
                forall|xx: int| 0 <= xx < x ==> #[trigger] row@[xx] == grid_cell(*st, *shape, ghost_y, game_over, xx, y as int),
            decreases 10 - x,
        {
            let cell = if !game_over && covers_cell(shape, st.x as i64, st.y as i64, x as i64, y as i64) {
                CellType::Active(st.piece)
            } else if st.board.rows[y] & (1u64 << (x as u64)) != 0 {
                CellType::Locked
            } else if !game_over && ghost_y >= 0 && covers_cell(shape, st.x as i64, ghost_y as i64, x as i64, y as i64) {
                CellType::GhostPiece
            } else {
                CellType::Empty
            };
            row.push(cell);
            x = x + 1;
        }
        grid.push(row);
        y = y + 1;
    }
    grid
}

} // verus!
