use vstd::prelude::*;
use std::time::{Duration, SystemTime, SystemTimeError, UNIX_EPOCH};
use instant::Instant;
use crate::cli::CellType;
use crate::engine::{
    Action, Engine, EngineView, acted, gravity_ms, initial_view, restarted, room_for, action_fits,
    ticked_on_clock,
};
use crate::lockdelay::{duration_as_millis, instant_now};
use crate::scoring::ScoreTracker;

verus! {

#[verifier::external_type_specification]
#[verifier::external_body]
pub struct ExSystemTime(SystemTime);

#[verifier::external_type_specification]
#[verifier::external_body]
pub struct ExSystemTimeError(SystemTimeError);

/// The current wall-clock time, from `SystemTime::now`. Nothing is
/// promised of it.
#[verifier::external_body]
pub(crate) fn system_now() -> SystemTime {
    SystemTime::now()
}

/// Time elapsed since the Unix epoch, from
/// `SystemTime::duration_since(UNIX_EPOCH)`; an error for a clock set
/// before 1970. Nothing is promised of the value.
#[verifier::external_body]
pub(crate) fn since_unix_epoch(t: SystemTime) -> Result<Duration, SystemTimeError> {
    t.duration_since(UNIX_EPOCH)
}

/// A key the terminal client reacts to.
#[derive(Debug, Clone, Copy, PartialEq, Eq, Structural)]
pub enum Key {
    Up,
    Down,
    Left,
    Right,
    Enter,
    Tab,
    Char(char),
    Other,
}

/// An event of the client's main loop.
#[derive(Debug, Clone, Copy, PartialEq, Eq, Structural)]
pub enum Message {
    Key(Key),
    Tick,
    FrameTick,
    Quit,
}

/// The screens of the terminal client and what each holds.
pub enum AppState {
    Menu { selected: usize },
    Playing {
        engine: Engine<10, 20>,
        start_time: Instant,
        clear_flash_timer: u8,
        score_flash_timer: u8,
        prev_grid: [[CellType; 10]; 20],
        prev_flash_mask: u32,
        prev_half: bool,
    },
    Pause { engine: Engine<10, 20>, start_time: Instant },
    GameOver { score: u32, lines: u32, level: u32, max_combo: u32, tspin_count: u32 },
    LobbyHost { room_code: String, players: Vec<String> },
    LobbyClient { room_code: String, players: Vec<String> },
    PlayingMulti {
        engine: Engine<10, 20>,
        opponents: Vec<Engine<10, 20>>,
        opponent_names: Vec<String>,
        start_time: Instant,
        clear_flash_timer: u8,
        score_flash_timer: u8,
        prev_grid: [[CellType; 10]; 20],
        prev_flash_mask: u32,
        prev_half: bool,
        spectating: Option<usize>,
    },
    GameOverMulti { score: u32, lines: u32, level: u32, place: u8 },
}

impl Default for AppState {
    fn default() -> (r: Self)
        ensures
            r == (AppState::Menu { selected: 0 }),
    {
        AppState::Menu { selected: 0 }
    }
}

/// Milliseconds of play one tick message stands for.
pub const TICK_MS: u32 = 20;

/// The single-player action a key triggers, if any.
pub open spec fn play_key_action(k: Key) -> Option<Action> {
    match k {
        Key::Left => Some(Action::MoveLeft),
        Key::Right => Some(Action::MoveRight),
        Key::Down => Some(Action::SoftDrop),
        Key::Up => Some(Action::RotateCW),
        Key::Char(c) => if c == 'z' {
            Some(Action::RotateCCW)
        } else if c == 'x' {
            Some(Action::RotateCW)
        } else if c == ' ' {
            Some(Action::HardDrop)
        } else {
            None
        },
        Key::Tab => Some(Action::Hold),
        _ => None,
    }
}

/// The multiplayer action a key triggers, if any (WASD moves as well as
/// the arrows).
pub open spec fn multi_key_action(k: Key) -> Option<Action> {
    match k {
        Key::Left => Some(Action::MoveLeft),
        Key::Right => Some(Action::MoveRight),
        Key::Down => Some(Action::SoftDrop),
        Key::Up => Some(Action::RotateCW),
        Key::Char(c) => if c == 'a' {
            Some(Action::MoveLeft)
        } else if c == 'd' {
            Some(Action::MoveRight)
        } else if c == 's' {
            Some(Action::SoftDrop)
        } else if c == 'w' {
            Some(Action::RotateCW)
        } else if c == 'z' {
            Some(Action::RotateCCW)
        } else if c == ' ' {
            Some(Action::HardDrop)
        } else {
            None
        },
        Key::Tab => Some(Action::Hold),
        _ => None,
    }
}

/// The engine with `ms` more milliseconds of play time.
pub open spec fn timed(v: EngineView<10, 20>, ms: u32) -> EngineView<10, 20> {
    EngineView {
        scorer: ScoreTracker { game_time_ms: (v.scorer.game_time_ms + ms) as u64, ..v.scorer },
        ..v
    }
}

/// Whether `w` is the engine after a tick message from `v`: play time
/// advances by `TICK_MS` and, unless the game is over, so does gravity (on
/// the wall clock, so for some list of the clock's answers).
pub open spec fn tick_step(v: EngineView<10, 20>, w: EngineView<10, 20>) -> bool {
    if v.game_over {
        w == timed(v, TICK_MS)
    } else {
        exists|fired: Seq<bool>| w == #[trigger] ticked_on_clock(timed(v, TICK_MS), TICK_MS, fired).0
    }
}

/// Whether `w` is the engine after `msg` in single-player play: a mapped
/// key acts (see `acted`), a tick runs gravity (see `tick_step`), anything
/// else leaves it alone.
pub open spec fn play_engine_step(v: EngineView<10, 20>, msg: Message, w: EngineView<10, 20>) -> bool {
    match msg {
        Message::Key(k) => match play_key_action(k) {
            Some(a) => w == acted(v, a).0,
            None => w == v,
        },
        Message::Tick => tick_step(v, w),
        _ => w == v,
    }
}

/// `n - 1`, stopping at 0.
pub open spec fn dec_sat(n: u8) -> u8 {
    if n == 0 {
        0
    } else {
        (n - 1) as u8
    }
}

/// The flash timers after `msg` took the engine from `v` to `w`: a hard
/// drop or a tick starts the line-clear flash (8 frames) when the last
/// lock cleared rows and the score flash (10 frames) when the score
/// changed; a frame tick counts both down.
pub open spec fn flashes_after(msg: Message, v: EngineView<10, 20>, w: EngineView<10, 20>, clear: u8, score: u8) -> (u8, u8) {
    if msg == Message::Key(Key::Char(' ')) || msg == Message::Tick {
        (
            if w.state.last_clear_count > 0 {
                8u8
            } else {
                clear
            },
            if w.scorer.score != v.scorer.score {
                10u8
            } else {
                score
            },
        )
    } else if msg == Message::FrameTick {
        (dec_sat(clear), dec_sat(score))
    } else {
        (clear, score)
    }
}

/// The game-over screen for an engine's statistics (the score cut to 32
/// bits).
pub open spec fn game_over_screen(s: ScoreTracker) -> AppState {
    AppState::GameOver {
        score: s.score as u32,
        lines: s.total_lines,
        level: s.level,
        max_combo: s.max_combo,
        tspin_count: s.tspin_count,
    }
}

/// Whether every cell of a grid is empty.
pub open spec fn empty_grid(g: [[CellType; 10]; 20]) -> bool {
    forall|i: int, j: int| 0 <= i < 20 && 0 <= j < 10 ==> #[trigger] g[i][j] == CellType::Empty
}

/// Whether `s` is a lobby screen with an empty room code and a single
/// player line `line`.
pub open spec fn lobby_with(s: AppState, host: bool, line: Seq<char>) -> bool {
    match s {
        AppState::LobbyHost { room_code, players } => host && room_code@.len() == 0 && players@.len()
            == 1 && players@[0]@ == line,
        AppState::LobbyClient { room_code, players } => !host && room_code@.len() == 0
            && players@.len() == 1 && players@[0]@ == line,
        _ => false,
    }
}

/// Whether `s` is a fresh single-player game: a new engine started from
/// some seed at level 1, timers at zero and an empty previous grid.
pub open spec fn fresh_game(s: AppState) -> bool {
    match s {
        AppState::Playing {
            engine,
            clear_flash_timer,
            score_flash_timer,
            prev_grid,
            prev_flash_mask,
            prev_half,
            ..
        } => {
            &&& exists|seed: u32| engine@ == #[trigger] restarted(initial_view::<10, 20>(), seed, 1)
            &&& clear_flash_timer == 0
            &&& score_flash_timer == 0
            &&& empty_grid(prev_grid)
            &&& prev_flash_mask == 0
            &&& !prev_half
        },
        _ => false,
    }
}

/// Whether the engines the screen holds keep their invariant.
pub open spec fn engines_wf(s: AppState) -> bool {
    match s {
        AppState::Playing { engine, .. } => engine@.wf(),
        AppState::Pause { engine, .. } => engine@.wf(),
        AppState::PlayingMulti { engine, .. } => engine@.wf(),
        _ => true,
    }
}

/// Whether a tick of play keeps every counter within its type: the play
/// time and, while the game runs, the gravity time and every lock the
/// tick's gravity may make, whatever the clock answers (see `room_for`).
pub open spec fn tick_ready(v: EngineView<10, 20>) -> bool {
    &&& v.scorer.game_time_ms + TICK_MS <= u64::MAX
    &&& !v.game_over ==> {
        &&& v.gravity_accumulator + TICK_MS <= u32::MAX
        &&& room_for(v, (v.gravity_accumulator + TICK_MS) / (gravity_ms(v.scorer.level) as int))
    }
}

/// Whether an engine can take message `msg`, with `keys` mapping keys to
/// actions: a key's action must fit (see `action_fits`) and a tick must
/// fit (see `tick_ready`); other messages touch no counter.
pub open spec fn engine_ready(v: EngineView<10, 20>, msg: Message, keys: spec_fn(Key) -> Option<Action>) -> bool {
    match msg {
        Message::Key(k) => match keys(k) {
            Some(a) => action_fits(v, a),
            None => true,
        },
        Message::Tick => tick_ready(v),
        _ => true,
    }
}

/// Whether the screen can take message `msg` without a counter
/// overflowing.
pub open spec fn ready(s: AppState, msg: Message) -> bool {
    match s {
        AppState::Playing { engine, .. } => engine_ready(engine@, msg, |k: Key| play_key_action(k)),
        AppState::PlayingMulti { engine, .. } => engine_ready(engine@, msg, |k: Key| multi_key_action(k)),
        _ => true,
    }
}

/// What one message does to the client: the new screen `new` and whether
/// the client quits.
pub open spec fn stepped(old: AppState, msg: Message, new: AppState, quit: bool) -> bool {
    match old {
        AppState::Menu { selected } => match msg {
            Message::Key(Key::Up) => new == (AppState::Menu {
                selected: if selected == 0 {
                    0
                } else {
                    (selected - 1) as usize
                },
            }) && !quit,
            Message::Key(Key::Down) => new == (AppState::Menu {
                selected: if selected < 5 {
                    (selected + 1) as usize
                } else {
                    selected
                },
            }) && !quit,
            Message::Key(Key::Enter) => if selected == 0 {
                fresh_game(new) && !quit
            } else if selected == 1 {
                lobby_with(new, true, "Host"@) && !quit
            } else if selected == 2 {
                lobby_with(new, false, "Joining..."@) && !quit
            } else if selected == 3 {
                lobby_with(new, false, "Joining relay..."@) && !quit
            } else {
                new == (AppState::Menu { selected }) && quit == (selected == 5)
            },
            Message::Key(Key::Char(c)) => new == (AppState::Menu { selected }) && quit == (c == 'q'),
            Message::Quit => new == (AppState::Menu { selected }) && quit,
            _ => new == (AppState::Menu { selected }) && !quit,
        },
        AppState::LobbyHost { .. } => match msg {
            Message::Key(_) => new == (AppState::Menu { selected: 1 }) && !quit,
            Message::Quit => new == (AppState::Menu { selected: 0 }) && quit,
            _ => new == old && !quit,
        },
        AppState::LobbyClient { .. } => match msg {
            Message::Key(_) => new == (AppState::Menu { selected: 2 }) && !quit,
            Message::Quit => new == (AppState::Menu { selected: 0 }) && quit,
            _ => new == old && !quit,
        },
        AppState::Playing {
            engine,
            start_time,
            clear_flash_timer,
            score_flash_timer,
            prev_grid,
            prev_flash_mask,
            prev_half,
        } => {
            if msg == Message::Key(Key::Char('p')) {
                new == (AppState::Pause { engine, start_time }) && !quit
            } else if msg == Message::Quit {
                new == (AppState::Menu { selected: 0 }) && quit
            } else {
                !quit && match new {
                    AppState::Playing {
                        engine: e2,
                        start_time: t2,
                        clear_flash_timer: c2,
                        score_flash_timer: s2,
                        prev_grid: g2,
                        prev_flash_mask: m2,
                        prev_half: h2,
                    } => {
                        &&& play_engine_step(engine@, msg, e2@)
                        &&& !e2@.game_over
                        &&& (c2, s2) == flashes_after(msg, engine@, e2@, clear_flash_timer, score_flash_timer)
                        &&& t2 == start_time
                        &&& g2 == prev_grid
                        &&& m2 == prev_flash_mask
                        &&& h2 == prev_half
                    },
                    AppState::GameOver { .. } => exists|w: EngineView<10, 20>|
                        #[trigger] play_engine_step(engine@, msg, w) && w.game_over && new
                            == game_over_screen(w.scorer),
                    _ => false,
                }
            }
        },
        AppState::Pause { engine, start_time } => match msg {
            Message::Key(Key::Char(c)) => if c == 'p' {
                !quit && match new {
                    AppState::Playing {
                        engine: e2,
                        start_time: t2,
                        clear_flash_timer,
                        score_flash_timer,
                        prev_grid,
                        prev_flash_mask,
                        prev_half,
                    } => e2 == engine && t2 == start_time && clear_flash_timer == 0 && score_flash_timer
                        == 0 && empty_grid(prev_grid) && prev_flash_mask == 0 && !prev_half,
                    _ => false,
                }
            } else if c == 'q' {
                new == game_over_screen(engine@.scorer) && !quit
            } else {
                new == old && !quit
            },
            Message::Quit => new == (AppState::Menu { selected: 0 }) && quit,
            _ => new == old && !quit,
        },
        AppState::GameOver { .. } => match msg {
            Message::Key(Key::Char(c)) => if c == 'q' {
                new == old && quit
            } else {
                new == (AppState::Menu { selected: 0 }) && !quit
            },
            Message::Key(_) => new == (AppState::Menu { selected: 0 }) && !quit,
            Message::Quit => new == (AppState::Menu { selected: 0 }) && quit,
            _ => new == old && !quit,
        },
        AppState::GameOverMulti { .. } => match msg {
            Message::Key(_) => new == (AppState::Menu { selected: 0 }) && !quit,
            Message::Quit => new == (AppState::Menu { selected: 0 }) && quit,
            _ => new == old && !quit,
        },
        AppState::PlayingMulti {
            engine,
            opponents,
            opponent_names,
            start_time,
            clear_flash_timer,
            score_flash_timer,
            prev_grid,
            prev_flash_mask,
            prev_half,
            spectating,
        } => {
            if msg == Message::Quit {
                new == (AppState::Menu { selected: 0 }) && quit
            } else if msg == Message::Key(Key::Char('p')) {
                new == (AppState::Pause { engine, start_time }) && !quit
            } else {
                !quit && match new {
                    AppState::PlayingMulti {
                        engine: e2,
                        opponents: o2,
                        opponent_names: n2,
                        start_time: t2,
                        clear_flash_timer: c2,
                        score_flash_timer: s2,
                        prev_grid: g2,
                        prev_flash_mask: m2,
                        prev_half: h2,
                        spectating: sp2,
                    } => {
                        &&& (match msg {
                            Message::Key(k) => match multi_key_action(k) {
                                Some(a) => e2@ == acted(engine@, a).0,
                                None => e2@ == engine@,
                            },
                            Message::Tick => tick_step(engine@, e2@),
                            _ => e2@ == engine@,
                        })
                        &&& (if msg == Message::Tick || msg == Message::FrameTick {
                            c2 == dec_sat(clear_flash_timer) && s2 == dec_sat(score_flash_timer)
                        } else {
                            c2 == clear_flash_timer && s2 == score_flash_timer
                        })
                        &&& o2 == opponents
                        &&& n2 == opponent_names
                        &&& t2 == start_time
                        &&& g2 == prev_grid
                        &&& m2 == prev_flash_mask
                        &&& h2 == prev_half
                        &&& sp2 == spectating
                    },
                    _ => false,
                }
            }
        },
    }
}

/// The seed a single-player game starts from, given the milliseconds since
/// the Unix epoch (`None` for a clock set before 1970): those milliseconds
/// cut to 32 bits, or 0.
pub fn game_seed(ms: Option<u128>) -> (r: u32)
    ensures
        r == (match ms {
            Some(m) => m as u32,
            None => 0u32,
        }),
{
    match ms {
        Some(m) => #[verifier::truncate] (m as u32),
        None => 0,
    }
}

/// A fresh single-player game started from `seed` at level 1.
pub fn new_game(seed: u32) -> (s: AppState)
    ensures
        fresh_game(s),
        engines_wf(s),
        s matches AppState::Playing { engine, .. } && engine@ == restarted(initial_view::<10, 20>(), seed, 1),
{
    let mut engine = Engine::<10, 20>::new();
    engine.reset_with_level(seed, 1);
    let grid = [[CellType::Empty; 10]; 20];
    assert(empty_grid(grid));
    AppState::Playing {
        engine,
        start_time: instant_now(),
        clear_flash_timer: 0,
        score_flash_timer: 0,
        prev_grid: grid,
        prev_flash_mask: 0,
        prev_half: false,
    }
}

/// A fresh single-player game seeded from the wall clock; see `game_seed`
/// and `new_game`.
fn start_game() -> (s: AppState)
    ensures
        fresh_game(s),
        engines_wf(s),
{
    let ms: Option<u128> = match since_unix_epoch(system_now()) {
        Ok(d) => Some(duration_as_millis(d)),
        Err(_) => None,
    };
    new_game(game_seed(ms))
}

impl AppState {
    /// Whether the screen can take message `msg` (see `ready`).
    pub fn is_ready(&self, msg: Message) -> (r: bool)
        requires
            engines_wf(*self),
        ensures
            r == ready(*self, msg),
    {
        match self {
            AppState::Playing { engine, .. } => {
                let a = match msg {
                    Message::Key(k) => play_action(k),
                    _ => None,
                };
                engine_can_take(engine, msg, a)
            },
            AppState::PlayingMulti { engine, .. } => {
                let a = match msg {
                    Message::Key(k) => multi_action(k),
                    _ => None,
                };
                engine_can_take(engine, msg, a)
            },
            _ => true,
        }
    }
}

/// Whether an engine can take message `msg`, a key's action being `a`
/// (see `engine_ready`).
fn engine_can_take(engine: &Engine<10, 20>, msg: Message, a: Option<Action>) -> (r: bool)
    requires
        engine@.wf(),
    ensures
        match msg {
            Message::Key(_) => r == match a {
                Some(act) => action_fits(engine@, act),
                None => true,
            },
            Message::Tick => r == tick_ready(engine@),
            _ => r,
        },
{
    match msg {
        Message::Key(_) => match a {
            Some(act) => engine.action_would_fit(act),
            None => true,
        },
        Message::Tick => {
            engine.stats().game_time_ms <= u64::MAX - TICK_MS as u64 && (engine.is_over() || engine.can_tick(TICK_MS))
        },
        _ => true,
    }
}

/// Runs one tick of play: play time, then wall-clock gravity.
fn tick_engine(engine: &mut Engine<10, 20>)
    requires
        old(engine)@.wf(),
        tick_ready(old(engine)@),
    ensures
        tick_step(old(engine)@, final(engine)@),
        final(engine)@.wf(),
{
    let ghost v = engine@;
    engine.add_play_time(TICK_MS as u64);
    let ghost v1 = engine@;
    let r = engine.tick(TICK_MS);
    proof {
        if !v.game_over {
            let fired = choose|f: Seq<bool>| (engine@, r) == #[trigger] ticked_on_clock(v1, TICK_MS, f);
            assert(engine@ == ticked_on_clock(timed(v, TICK_MS), TICK_MS, fired).0);
        }
    }
}

/// The single-player action of a key, if any; see `play_key_action`.
fn play_action(k: Key) -> (r: Option<Action>)
    ensures
        r == play_key_action(k),
{
    match k {
        Key::Left => Some(Action::MoveLeft),
        Key::Right => Some(Action::MoveRight),
        Key::Down => Some(Action::SoftDrop),
        Key::Up => Some(Action::RotateCW),
        Key::Char(c) => if c == 'z' {
            Some(Action::RotateCCW)
        } else if c == 'x' {
            Some(Action::RotateCW)
        } else if c == ' ' {
            Some(Action::HardDrop)
        } else {
            None
        },
        Key::Tab => Some(Action::Hold),
        _ => None,
    }
}

/// The multiplayer action of a key, if any; see `multi_key_action`.
fn multi_action(k: Key) -> (r: Option<Action>)
    ensures
        r == multi_key_action(k),
{
    match k {
        Key::Left => Some(Action::MoveLeft),
        Key::Right => Some(Action::MoveRight),
        Key::Down => Some(Action::SoftDrop),
        Key::Up => Some(Action::RotateCW),
        Key::Char(c) => if c == 'a' {
            Some(Action::MoveLeft)
        } else if c == 'd' {
            Some(Action::MoveRight)
        } else if c == 's' {
            Some(Action::SoftDrop)
        } else if c == 'w' {
            Some(Action::RotateCW)
        } else if c == 'z' {
            Some(Action::RotateCCW)
        } else if c == ' ' {
            Some(Action::HardDrop)
        } else {
            None
        },
        Key::Tab => Some(Action::Hold),
        _ => None,
    }
}

/// The game-over screen for an engine's statistics.
fn game_over_of(engine: &Engine<10, 20>) -> (s: AppState)
    ensures
        s == game_over_screen(engine@.scorer),
{
    let st = engine.stats();
    AppState::GameOver {
        score: #[verifier::truncate] (st.score as u32),
        lines: st.total_lines,
        level: st.level,
        max_combo: st.max_combo,
        tspin_count: st.tspin_count,
    }
}

/// `n - 1`, stopping at 0.
fn dec(n: u8) -> (r: u8)
    ensures
        r == dec_sat(n),
{
    n.saturating_sub(1)
}

/// One message of the single-player game screen; see `stepped`.
#[verifier::rlimit(40)]
fn step_playing(
    mut engine: Engine<10, 20>,
    start_time: Instant,
    clear_flash_timer: u8,
    score_flash_timer: u8,
    prev_grid: [[CellType; 10]; 20],
    prev_flash_mask: u32,
    prev_half: bool,
    msg: Message,
) -> (r: (AppState, bool))
    requires
        engine@.wf(),
        engine_ready(engine@, msg, |k: Key| play_key_action(k)),
    ensures
        stepped(
            AppState::Playing {
                engine,
                start_time,
                clear_flash_timer,
                score_flash_timer,
                prev_grid,
                prev_flash_mask,
                prev_half,
            },
            msg,
            r.0,
            r.1,
        ),
        engines_wf(r.0),
{
    let ghost v = engine@;
    if msg == Message::Key(Key::Char('p')) {
        return (AppState::Pause { engine, start_time }, false);
    }
    if msg == Message::Quit {
        return (AppState::Menu { selected: 0 }, true);
    }
    let mut clear_flash_timer = clear_flash_timer;
    let mut score_flash_timer = score_flash_timer;
    match msg {
        Message::Key(k) => {
            let prev_score = engine.stats().score;
            if let Some(a) = play_action(k) {
                engine.handle_action(a);
            }
            if k == Key::Char(' ') {
                if engine.stats().score != prev_score {
                    score_flash_timer = 10;
                }
                if engine.last_clear_count() > 0 {
                    clear_flash_timer = 8;
                }
            }
        },
        Message::Tick => {
            let prev_score = engine.stats().score;
            tick_engine(&mut engine);
            if engine.stats().score != prev_score {
                score_flash_timer = 10;
            }
            if engine.last_clear_count() > 0 {
                clear_flash_timer = 8;
            }
        },
        Message::FrameTick => {
            clear_flash_timer = dec(clear_flash_timer);
            score_flash_timer = dec(score_flash_timer);
        },
        _ => {},
    }
    assert(play_engine_step(v, msg, engine@));
    if engine.is_over() {
        let go = game_over_of(&engine);
        proof {
            let w = engine@;
            assert(play_engine_step(v, msg, w) && w.game_over && go == game_over_screen(w.scorer));
        }
        return (go, false);
    }
    (
        AppState::Playing {
            engine,
            start_time,
            clear_flash_timer,
            score_flash_timer,
            prev_grid,
            prev_flash_mask,
            prev_half,
        },
        false,
    )
}


/// One message of the menu; see `stepped`.
fn step_menu(selected: usize, msg: Message) -> (r: (AppState, bool))
    ensures
        stepped(AppState::Menu { selected }, msg, r.0, r.1),
        engines_wf(r.0),
{
    match msg {
        Message::Key(Key::Up) => {
            let selected = selected.saturating_sub(1);
            (AppState::Menu { selected }, false)
        },
        Message::Key(Key::Down) => {
            let selected = if selected < 5 {
                selected + 1
            } else {
                selected
            };
            (AppState::Menu { selected }, false)
        },
        Message::Key(Key::Enter) => {
            if selected == 0 {
                (start_game(), false)
            } else if selected == 1 {
                let players = vec!["Host".to_owned()];
                (AppState::LobbyHost { room_code: String::new(), players }, false)
            } else if selected == 2 {
                let players = vec!["Joining...".to_owned()];
                (AppState::LobbyClient { room_code: String::new(), players }, false)
            } else if selected == 3 {
                let players = vec!["Joining relay...".to_owned()];
                (AppState::LobbyClient { room_code: String::new(), players }, false)
            } else if selected == 5 {
                (AppState::Menu { selected }, true)
            } else {
                (AppState::Menu { selected }, false)
            }
        },
        Message::Key(Key::Char(c)) => (AppState::Menu { selected }, c == 'q'),
        Message::Quit => (AppState::Menu { selected }, true),
        _ => (AppState::Menu { selected }, false),
    }
}

/// One message of the pause screen; see `stepped`.
fn step_pause(engine: Engine<10, 20>, start_time: Instant, msg: Message) -> (r: (AppState, bool))
    requires
        engine@.wf(),
    ensures
        stepped(AppState::Pause { engine, start_time }, msg, r.0, r.1),
        engines_wf(r.0),
{
    match msg {
        Message::Key(Key::Char(c)) => {
            if c == 'p' {
                let grid = [[CellType::Empty; 10]; 20];
                assert(empty_grid(grid));
                (
                    AppState::Playing {
                        engine,
                        start_time,
                        clear_flash_timer: 0,
                        score_flash_timer: 0,
                        prev_grid: grid,
                        prev_flash_mask: 0,
                        prev_half: false,
                    },
                    false,
                )
            } else if c == 'q' {
                (game_over_of(&engine), false)
            } else {
                (AppState::Pause { engine, start_time }, false)
            }
        },
        Message::Quit => (AppState::Menu { selected: 0 }, true),
        _ => (AppState::Pause { engine, start_time }, false),
    }
}

/// One message of the multiplayer game screen; see `stepped`.
#[verifier::rlimit(40)]
fn step_multi(
    mut engine: Engine<10, 20>,
    opponents: Vec<Engine<10, 20>>,
    opponent_names: Vec<String>,
    start_time: Instant,
    clear_flash_timer: u8,
    score_flash_timer: u8,
    prev_grid: [[CellType; 10]; 20],
    prev_flash_mask: u32,
    prev_half: bool,
    spectating: Option<usize>,
    msg: Message,
) -> (r: (AppState, bool))
    requires
        engine@.wf(),
        engine_ready(engine@, msg, |k: Key| multi_key_action(k)),
    ensures
        stepped(
            AppState::PlayingMulti {
                engine,
                opponents,
                opponent_names,
                start_time,
                clear_flash_timer,
                score_flash_timer,
                prev_grid,
                prev_flash_mask,
                prev_half,
                spectating,
            },
            msg,
            r.0,
            r.1,
        ),
        engines_wf(r.0),
{
    if msg == Message::Quit {
        return (AppState::Menu { selected: 0 }, true);
    }
    if msg == Message::Key(Key::Char('p')) {
        return (AppState::Pause { engine, start_time }, false);
    }
    let mut clear_flash_timer = clear_flash_timer;
    let mut score_flash_timer = score_flash_timer;
    match msg {
        Message::Tick => {
            tick_engine(&mut engine);
            clear_flash_timer = dec(clear_flash_timer);
            score_flash_timer = dec(score_flash_timer);
        },
        Message::FrameTick => {
            clear_flash_timer = dec(clear_flash_timer);
            score_flash_timer = dec(score_flash_timer);
        },
        Message::Key(k) => {
            if let Some(a) = multi_action(k) {
                engine.handle_action(a);
            }
        },
        _ => {},
    }
    (
        AppState::PlayingMulti {
            engine,
            opponents,
            opponent_names,
            start_time,
            clear_flash_timer,
            score_flash_timer,
            prev_grid,
            prev_flash_mask,
            prev_half,
            spectating,
        },
        false,
    )
}

/// One message of the client: the next screen and whether to quit; see
/// `stepped`.
pub fn step(state: AppState, msg: Message) -> (r: (AppState, bool))
    requires
        engines_wf(state),
        ready(state, msg),
    ensures
        stepped(state, msg, r.0, r.1),
        engines_wf(r.0),
{
    match state {
        AppState::Menu { selected } => step_menu(selected, msg),
        AppState::LobbyHost { room_code, players } => match msg {
            Message::Key(_) => (AppState::Menu { selected: 1 }, false),
            Message::Quit => (AppState::Menu { selected: 0 }, true),
            _ => (AppState::LobbyHost { room_code, players }, false),
        },
        AppState::LobbyClient { room_code, players } => match msg {
            Message::Key(_) => (AppState::Menu { selected: 2 }, false),
            Message::Quit => (AppState::Menu { selected: 0 }, true),
            _ => (AppState::LobbyClient { room_code, players }, false),
        },
        AppState::Playing {
            engine,
            start_time,
            clear_flash_timer,
            score_flash_timer,
            prev_grid,
            prev_flash_mask,
            prev_half,
        } => step_playing(
            engine,
            start_time,
            clear_flash_timer,
            score_flash_timer,
            prev_grid,
            prev_flash_mask,
            prev_half,
            msg,
        ),
        AppState::Pause { engine, start_time } => step_pause(engine, start_time, msg),
        AppState::GameOver { score, lines, level, max_combo, tspin_count } => match msg {
            Message::Key(Key::Char(c)) => {
                if c == 'q' {
                    (AppState::GameOver { score, lines, level, max_combo, tspin_count }, true)
                } else {
                    (AppState::Menu { selected: 0 }, false)
                }
            },
            Message::Key(_) => (AppState::Menu { selected: 0 }, false),
            Message::Quit => (AppState::Menu { selected: 0 }, true),
            _ => (AppState::GameOver { score, lines, level, max_combo, tspin_count }, false),
        },
        AppState::GameOverMulti { score, lines, level, place } => match msg {
            Message::Key(_) => (AppState::Menu { selected: 0 }, false),
            Message::Quit => (AppState::Menu { selected: 0 }, true),
            _ => (AppState::GameOverMulti { score, lines, level, place }, false),
        },
        AppState::PlayingMulti {
            engine,
            opponents,
            opponent_names,
            start_time,
            clear_flash_timer,
            score_flash_timer,
            prev_grid,
            prev_flash_mask,
            prev_half,
            spectating,
        } => step_multi(
            engine,
            opponents,
            opponent_names,
            start_time,
            clear_flash_timer,
            score_flash_timer,
            prev_grid,
            prev_flash_mask,
            prev_half,
            spectating,
            msg,
        ),
    }
}

/// Applies one message to the client's screen in place and says whether
/// to quit; see `step`.
pub fn update(state: &mut AppState, msg: Message) -> (quit: bool)
    requires
        engines_wf(*old(state)),
        ready(*old(state), msg),
    ensures
        stepped(*old(state), msg, *final(state), quit),
        engines_wf(*final(state)),
{
    let mut current = AppState::Menu { selected: 0 };
    std::mem::swap(&mut current, state);
    let (next, quit) = step(current, msg);
    *state = next;
    quit
}

} // verus!
