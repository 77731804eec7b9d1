use vstd::prelude::*;

verus! {

/// Running score and statistics of one game.
#[derive(Debug, Clone, Copy, PartialEq, Eq, Structural)]
pub struct ScoreTracker {
    pub score: u64,
    pub level: u32,
    pub total_lines: u32,
    pub combo: u32,
    pub max_combo: u32,
    pub b2b_count: u32,
    pub tspin_count: u32,
    pub all_clear_count: u32,
    pub game_time_ms: u64,
    pub total_pieces: u32,
    pub best_score: u64,
}

/// A tracker with every counter at zero.
pub open spec fn fresh_tracker() -> ScoreTracker {
    ScoreTracker {
        score: 0,
        level: 0,
        total_lines: 0,
        combo: 0,
        max_combo: 0,
        b2b_count: 0,
        tspin_count: 0,
        all_clear_count: 0,
        game_time_ms: 0,
        total_pieces: 0,
        best_score: 0,
    }
}

impl Default for ScoreTracker {
    fn default() -> (r: Self)
        ensures
            r == fresh_tracker(),
    {
        ScoreTracker {
            score: 0,
            level: 0,
            total_lines: 0,
            combo: 0,
            max_combo: 0,
            b2b_count: 0,
            tspin_count: 0,
            all_clear_count: 0,
            game_time_ms: 0,
            total_pieces: 0,
            best_score: 0,
        }
    }
}

/// The level a lock is scored at: the given level, at least 1.
pub open spec fn scoring_level(level: u32) -> int {
    if level < 1 {
        1
    } else {
        level as int
    }
}

/// Points per level for a clear of `lines` (at least one) rows: a mini
/// T-spin single 200 and any larger mini 400; a full T-spin single 800,
/// double 1200, triple or more 1600; ordinary clears 100, 300, 500 and 800
/// for four or more.
pub open spec fn clear_base(lines: int, tspin: bool, mini: bool) -> int {
    if tspin {
        if mini {
            if lines == 1 {
                200
            } else {
                400
            }
        } else if lines == 1 {
            800
        } else if lines == 2 {
            1200
        } else {
            1600
        }
    } else if lines == 1 {
        100
    } else if lines == 2 {
        300
    } else if lines == 3 {
        500
    } else {
        800
    }
}

/// Points per level for clearing the whole board with `lines` rows: 3200
/// for a back-to-back four-line clear, else 800, 1200, 1800, and 2000 for
/// four or more.
pub open spec fn perfect_clear_base(lines: int, b2b: bool) -> int {
    if b2b && lines == 4 {
        3200
    } else if lines == 1 {
        800
    } else if lines == 2 {
        1200
    } else if lines == 3 {
        1800
    } else {
        2000
    }
}

/// Points a lock earns: one per soft-dropped cell and two per hard-dropped
/// cell; for a clear, the clear's points times the level (half as much
/// again, rounded down, when back-to-back), 50 per combo step times the
/// level, and the perfect-clear bonus times the level; for a T-spin that
/// clears nothing, 100 (mini) or 400 times the level.
pub open spec fn lock_points(
    lines: int,
    tspin: bool,
    mini: bool,
    b2b: bool,
    perfect_clear: bool,
    soft: int,
    hard: int,
    combo: int,
    level: int,
) -> int {
    let drops = soft + 2 * hard;
    if lines > 0 {
        let action = clear_base(lines, tspin, mini) * level;
        let action = if b2b {
            (action * 3) / 2
        } else {
            action
        };
        let pc = if perfect_clear {
            perfect_clear_base(lines, b2b) * level
        } else {
            0
        };
        drops + action + 50 * combo * level + pc
    } else if tspin {
        drops + (if mini {
            100int
        } else {
            400int
        }) * level
    } else {
        drops
    }
}

/// The tracker after scoring one lock; see `ScoreTracker::update`.
pub open spec fn scored(
    s: ScoreTracker,
    lines: int,
    tspin: bool,
    mini: bool,
    b2b: bool,
    perfect_clear: bool,
    soft: int,
    hard: int,
    combo: u32,
    level: u32,
) -> ScoreTracker {
    let lvl = scoring_level(level);
    let score = s.score + lock_points(lines, tspin, mini, b2b, perfect_clear, soft, hard, combo as int, lvl);
    let total_lines = if lines > 0 {
        s.total_lines + lines
    } else {
        s.total_lines as int
    };
    let new_level = if lines > 0 {
        let l = if lvl >= total_lines / 10 + 1 {
            lvl
        } else {
            total_lines / 10 + 1
        };
        if l <= 15 {
            l
        } else {
            15
        }
    } else {
        s.level as int
    };
    let new_combo = if lines > 0 {
        if combo == u32::MAX {
            u32::MAX as int
        } else {
            combo + 1
        }
    } else {
        0
    };
    let max_combo = if lines > 0 && new_combo > s.max_combo {
        new_combo
    } else {
        s.max_combo as int
    };
    ScoreTracker {
        score: score as u64,
        level: new_level as u32,
        total_lines: total_lines as u32,
        combo: new_combo as u32,
        max_combo: max_combo as u32,
        b2b_count: (s.b2b_count + (if b2b {
            1int
        } else {
            0int
        })) as u32,
        tspin_count: (s.tspin_count + (if tspin {
            1int
        } else {
            0int
        })) as u32,
        all_clear_count: (s.all_clear_count + (if perfect_clear {
            1int
        } else {
            0int
        })) as u32,
        game_time_ms: s.game_time_ms,
        total_pieces: (s.total_pieces + 1) as u32,
        best_score: (if score > s.best_score {
            score
        } else {
            s.best_score as int
        }) as u64,
    }
}

/// Whether scoring a lock keeps every counter within its type.
pub open spec fn update_fits(
    s: ScoreTracker,
    lines: int,
    tspin: bool,
    mini: bool,
    b2b: bool,
    perfect_clear: bool,
    soft: int,
    hard: int,
    combo: u32,
    level: u32,
) -> bool {
    &&& s.score + lock_points(lines, tspin, mini, b2b, perfect_clear, soft, hard, combo as int, scoring_level(level)) <= u64::MAX
    &&& s.total_lines + lines <= u32::MAX
    &&& (b2b ==> s.b2b_count < u32::MAX)
    &&& (tspin ==> s.tspin_count < u32::MAX)
    &&& (perfect_clear ==> s.all_clear_count < u32::MAX)
    &&& s.total_pieces < u32::MAX
}

proof fn lemma_points_nonneg(
    lines: int,
    tspin: bool,
    mini: bool,
    b2b: bool,
    perfect_clear: bool,
    soft: int,
    hard: int,
    combo: int,
    level: int,
)
    requires
        0 <= lines,
        0 <= soft,
        0 <= hard,
        0 <= combo,
        1 <= level,
    ensures
        soft + 2 * hard <= lock_points(lines, tspin, mini, b2b, perfect_clear, soft, hard, combo, level),
{
    let base = clear_base(lines, tspin, mini);
    assert(0 <= base * level) by (nonlinear_arith)
        requires
            0 <= base,
            1 <= level,
    ;
    assert(0 <= 50 * combo * level) by (nonlinear_arith)
        requires
            0 <= combo,
            1 <= level,
    ;
    assert(0 <= perfect_clear_base(lines, b2b) * level) by (nonlinear_arith)
        requires
            1 <= level,
    ;
}


/// The points one lock adds to the score; see `ScoreTracker::update`.
pub open spec fn score_gain(
    s: ScoreTracker,
    lines: int,
    tspin: bool,
    mini: bool,
    b2b: bool,
    perfect_clear: bool,
    soft: int,
    hard: int,
    combo: u32,
    level: u32,
) -> int {
    scored(s, lines, tspin, mini, b2b, perfect_clear, soft, hard, combo, level).score - s.score
}

/// The points a lock adds are exactly `lock_points`, when the score has
/// room for them.
proof fn lemma_gain_is_points(
    s: ScoreTracker,
    lines: int,
    tspin: bool,
    mini: bool,
    b2b: bool,
    perfect_clear: bool,
    soft: int,
    hard: int,
    combo: u32,
    level: u32,
)
    requires
        0 <= lines,
        0 <= soft <= 255,
        0 <= hard <= 255,
        level <= 15,
        s.score + 0x400_0000_0000 <= u64::MAX,
    ensures
        score_gain(s, lines, tspin, mini, b2b, perfect_clear, soft, hard, combo, level) == lock_points(
            lines,
            tspin,
            mini,
            b2b,
            perfect_clear,
            soft,
            hard,
            combo as int,
            scoring_level(level),
        ),
{
    let l = scoring_level(level);
    lemma_points_nonneg(lines, tspin, mini, b2b, perfect_clear, soft, hard, combo as int, l);
    let base = clear_base(lines, tspin, mini);
    assert(0 <= base * l <= 1600 * 15) by (nonlinear_arith)
        requires
            0 <= base <= 1600,
            1 <= l <= 15,
    ;
    assert(0 <= 50 * (combo as int) * l <= 50 * 0xffff_ffff * 15) by (nonlinear_arith)
        requires
            0 <= combo <= 0xffff_ffff,
            1 <= l <= 15,
    ;
    assert(0 <= perfect_clear_base(lines, b2b) * l <= 3200 * 15) by (nonlinear_arith)
        requires
            0 <= perfect_clear_base(lines, b2b) <= 3200,
            1 <= l <= 15,
    ;
}

/// The clear table at level `l` (the given level, at least 1), with no
/// back-to-back, combo, perfect clear or drops: an ordinary single, double,
/// triple and tetris score 100, 300, 500 and 800 times `l`; a T-spin
/// single, double and triple (or more) 800, 1200 and 1600 times `l`; a mini
/// T-spin single 200 and a larger mini 400 times `l`; a T-spin that clears
/// nothing 100 (mini) or 400 times `l`, and any other lock nothing.
pub proof fn lemma_clear_points(s: ScoreTracker, lines: int, tspin: bool, mini: bool, level: u32)
    requires
        0 <= lines,
        level <= 15,
        s.score + 0x400_0000_0000 <= u64::MAX,
    ensures
        ({
            let l = if level < 1 { 1int } else { level as int };
            let plain = score_gain(s, lines, tspin, mini, false, false, 0, 0, 0, level);
            &&& lines > 0 && !tspin ==> plain == l * (if lines == 1 { 100int } else if lines == 2 { 300int }
                else if lines == 3 { 500int } else { 800int })
            &&& lines > 0 && tspin && !mini ==> plain == l * (if lines == 1 { 800int } else if lines == 2 { 1200int }
                else { 1600int })
            &&& lines > 0 && tspin && mini ==> plain == l * (if lines == 1 { 200int } else { 400int })
            &&& lines == 0 ==> plain == (if tspin { l * (if mini { 100int } else { 400int }) } else { 0int })
        }),
{
    lemma_gain_is_points(s, lines, tspin, mini, false, false, 0, 0, 0, level);
    let l = scoring_level(level);
    let base = clear_base(lines, tspin, mini);
    if lines > 0 {
        assert(50 * 0int * l == 0) by (nonlinear_arith);
        assert(lock_points(lines, tspin, mini, false, false, 0, 0, 0, l) == base * l);
        if !tspin {
            if lines == 1 {
                assert(base == 100);
            } else if lines == 2 {
                assert(base == 300);
            } else if lines == 3 {
                assert(base == 500);
            } else {
                assert(base == 800);
            }
        } else if !mini {
            if lines == 1 {
                assert(base == 800);
            } else if lines == 2 {
                assert(base == 1200);
            } else {
                assert(base == 1600);
            }
        } else if lines == 1 {
            assert(base == 200);
        } else {
            assert(base == 400);
        }
    }
}

/// Back-to-back makes a clear's points half as much again, rounded down.
pub proof fn lemma_back_to_back_points(s: ScoreTracker, lines: int, tspin: bool, mini: bool, level: u32)
    requires
        0 < lines,
        level <= 15,
        s.score + 0x400_0000_0000 <= u64::MAX,
    ensures
        score_gain(s, lines, tspin, mini, true, false, 0, 0, 0, level)
            == (score_gain(s, lines, tspin, mini, false, false, 0, 0, 0, level) * 3) / 2,
{
    lemma_gain_is_points(s, lines, tspin, mini, true, false, 0, 0, 0, level);
    lemma_gain_is_points(s, lines, tspin, mini, false, false, 0, 0, 0, level);
    let l = scoring_level(level);
    let action = clear_base(lines, tspin, mini) * l;
    assert(50 * 0int * l == 0) by (nonlinear_arith);
    assert(lock_points(lines, tspin, mini, false, false, 0, 0, 0, l) == action);
    assert(lock_points(lines, tspin, mini, true, false, 0, 0, 0, l) == (action * 3) / 2);
}

/// What comes on top of a clear's points at level `l` (the given level, at
/// least 1): each combo step 50 times `l`; clearing the board 800, 1200,
/// 1800 and 2000 times `l` for one to four lines, 3200 times `l` for a
/// back-to-back tetris; and 1 per soft-dropped and 2 per hard-dropped
/// cell. A lock that clears nothing gains only its drops beyond its
/// T-spin points.
pub proof fn lemma_extra_points(
    s: ScoreTracker,
    lines: int,
    tspin: bool,
    mini: bool,
    b2b: bool,
    perfect_clear: bool,
    soft: int,
    hard: int,
    combo: u32,
    level: u32,
)
    requires
        0 <= lines,
        0 <= soft <= 255,
        0 <= hard <= 255,
        level <= 15,
        s.score + 0x400_0000_0000 <= u64::MAX,
    ensures
        ({
            let l = if level < 1 { 1int } else { level as int };
            let gain = score_gain(s, lines, tspin, mini, b2b, perfect_clear, soft, hard, combo, level);
            &&& lines > 0 ==> gain == score_gain(s, lines, tspin, mini, b2b, false, 0, 0, 0, level) + 50 * (combo as int) * l
                + (if perfect_clear {
                    l * (if b2b && lines == 4 { 3200int } else if lines == 1 { 800int } else if lines == 2 { 1200int }
                        else if lines == 3 { 1800int } else { 2000int })
                } else {
                    0int
                }) + soft + 2 * hard
            &&& lines == 0 ==> gain == score_gain(s, lines, tspin, mini, false, false, 0, 0, 0, level) + soft + 2 * hard
        }),
{
    lemma_gain_is_points(s, lines, tspin, mini, b2b, perfect_clear, soft, hard, combo, level);
    lemma_gain_is_points(s, lines, tspin, mini, b2b, false, 0, 0, 0, level);
    lemma_gain_is_points(s, lines, tspin, mini, false, false, 0, 0, 0, level);
}

/// The counters one lock moves: a clear adds its lines to the line total
/// and raises the level to the given level (at least 1) or one per ten
/// lines, whichever is higher, never past 15; the combo counter grows by
/// one (saturating) and the longest combo follows it; a lock that clears
/// nothing keeps the level and line total and ends the combo. Every lock
/// counts one more piece; back-to-back clears, T-spins and perfect clears
/// are counted; the best score follows the score.
pub proof fn lemma_lock_counters(
    s: ScoreTracker,
    lines: int,
    tspin: bool,
    mini: bool,
    b2b: bool,
    perfect_clear: bool,
    soft: int,
    hard: int,
    combo: u32,
    level: u32,
)
    requires
        update_fits(s, lines, tspin, mini, b2b, perfect_clear, soft, hard, combo, level),
        0 <= lines,
        0 <= soft,
        0 <= hard,
    ensures
        ({
            let l = if level < 1 { 1int } else { level as int };
            let t = scored(s, lines, tspin, mini, b2b, perfect_clear, soft, hard, combo, level);
            let per_ten = (s.total_lines + lines) / 10 + 1;
            let want = if l >= per_ten { l } else { per_ten };
            &&& lines > 0 ==> t.total_lines == s.total_lines + lines
            &&& lines > 0 ==> t.level == (if want <= 15 { want } else { 15int })
            &&& lines > 0 ==> t.combo == (if combo == u32::MAX { u32::MAX as int } else { combo + 1 })
            &&& lines > 0 ==> t.max_combo == (if t.combo > s.max_combo { t.combo as int } else { s.max_combo as int })
            &&& lines == 0 ==> t.total_lines == s.total_lines && t.level == s.level && t.combo == 0 && t.max_combo == s.max_combo
            &&& t.total_pieces == s.total_pieces + 1
            &&& t.b2b_count == s.b2b_count + (if b2b { 1int } else { 0int })
            &&& t.tspin_count == s.tspin_count + (if tspin { 1int } else { 0int })
            &&& t.all_clear_count == s.all_clear_count + (if perfect_clear { 1int } else { 0int })
            &&& t.score >= s.score
            &&& t.best_score == (if t.score > s.best_score { t.score as int } else { s.best_score as int })
            &&& t.game_time_ms == s.game_time_ms
        }),
{
    lemma_points_nonneg(lines, tspin, mini, b2b, perfect_clear, soft, hard, combo as int, scoring_level(level));
}

impl ScoreTracker {
    /// Whether scoring a lock with these arguments keeps every counter
    /// within its type; see `update_fits`.
    #[verifier::rlimit(60)]
    pub fn update_would_fit(
        &self,
        lines_cleared: u8,
        is_tspin: bool,
        is_mini: bool,
        is_b2b_clear: bool,
        perfect_clear: bool,
        soft_drop_cells: u8,
        hard_drop_cells: u8,
        combo_count: u32,
        level: u32,
    ) -> (r: bool)
        ensures
            r == update_fits(
                *self,
                lines_cleared as int,
                is_tspin,
                is_mini,
                is_b2b_clear,
                perfect_clear,
                soft_drop_cells as int,
                hard_drop_cells as int,
                combo_count,
                level,
            ),
    {
        let lvl: u128 = if level < 1 {
            1
        } else {
            level as u128
        };
        let drops: u128 = soft_drop_cells as u128 + 2 * (hard_drop_cells as u128);
        let pts: u128 = if lines_cleared > 0 {
            let base: u128 = if is_tspin {
                if is_mini {
                    if lines_cleared == 1 {
                        200
                    } else {
                        400
                    }
                } else if lines_cleared == 1 {
                    800
                } else if lines_cleared == 2 {
                    1200
                } else {
                    1600
                }
            } else if lines_cleared == 1 {
                100
            } else if lines_cleared == 2 {
                300
            } else if lines_cleared == 3 {
                500
            } else {
                800
            };
            assert(base == clear_base(lines_cleared as int, is_tspin, is_mini));
            assert(base * lvl <= 1600 * 0xffff_ffff) by (nonlinear_arith)
                requires
                    base <= 1600,
                    lvl <= 0xffff_ffff,
            ;
            let mut action: u128 = base * lvl;
            if is_b2b_clear {
                action = (action * 3) / 2;
            }
            let c: u128 = combo_count as u128;
            assert(50 * c * lvl <= 50 * 0xffff_ffff * 0xffff_ffffu128) by (nonlinear_arith)
                requires
                    c <= 0xffff_ffff,
                    lvl <= 0xffff_ffff,
            ;
            let pc_base: u128 = if is_b2b_clear && lines_cleared == 4 {
                3200
            } else if lines_cleared == 1 {
                800
            } else if lines_cleared == 2 {
                1200
            } else if lines_cleared == 3 {
                1800
            } else {
                2000
            };
            assert(pc_base * lvl <= 3200 * 0xffff_ffff) by (nonlinear_arith)
                requires
                    pc_base <= 3200,
                    lvl <= 0xffff_ffff,
            ;
            assert(pc_base == perfect_clear_base(lines_cleared as int, is_b2b_clear));
            let pc: u128 = if perfect_clear {
                pc_base * lvl
            } else {
                0
            };
            drops + action + 50 * c * lvl + pc
        } else if is_tspin {
            drops + (if is_mini {
                100
            } else {
                400
            }) * lvl
        } else {
            drops
        };
        assert(lvl == scoring_level(level));
        assert(pts == lock_points(
            lines_cleared as int,
            is_tspin,
            is_mini,
            is_b2b_clear,
            perfect_clear,
            soft_drop_cells as int,
            hard_drop_cells as int,
            combo_count as int,
            scoring_level(level),
        ));
        self.score as u128 + pts <= u64::MAX as u128
            && self.total_lines as u64 + lines_cleared as u64 <= u32::MAX as u64
            && (!is_b2b_clear || self.b2b_count < u32::MAX)
            && (!is_tspin || self.tspin_count < u32::MAX)
            && (!perfect_clear || self.all_clear_count < u32::MAX)
            && self.total_pieces < u32::MAX
    }

    /// Scores one locked piece (see `lock_points` for the points) and
    /// updates the statistics: after a clear, the line total, the level
    /// (the given level or one per ten lines, whichever is higher, at most
    /// 15), the combo (`combo_count + 1`, saturating) and the longest
    /// combo; without a clear the combo drops to 0. Back-to-back clears,
    /// T-spins and perfect clears are counted, every lock adds a piece, and
    /// the best score follows the score.
    #[verifier::rlimit(40)]
    pub fn update(
        &mut self,
        lines_cleared: u8,
        is_tspin: bool,
        is_mini: bool,
        is_b2b_clear: bool,
        perfect_clear: bool,
        soft_drop_cells: u8,
        hard_drop_cells: u8,
        combo_count: u32,
        level: u32,
    )
        requires
            update_fits(
                *old(self),
                lines_cleared as int,
                is_tspin,
                is_mini,
                is_b2b_clear,
                perfect_clear,
                soft_drop_cells as int,
                hard_drop_cells as int,
                combo_count,
                level,
            ),
        ensures
            *final(self) == scored(
                *old(self),
                lines_cleared as int,
                is_tspin,
                is_mini,
                is_b2b_clear,
                perfect_clear,
                soft_drop_cells as int,
                hard_drop_cells as int,
                combo_count,
                level,
            ),
            final(self).score >= old(self).score,
            final(self).best_score >= final(self).score,
    {
        let ghost s0 = *self;
        let ghost lvl_spec = scoring_level(level);
        let ghost pts = lock_points(
            lines_cleared as int,
            is_tspin,
            is_mini,
            is_b2b_clear,
            perfect_clear,
            soft_drop_cells as int,
            hard_drop_cells as int,
            combo_count as int,
            lvl_spec,
        );
        proof {
            lemma_points_nonneg(
                lines_cleared as int,
                is_tspin,
                is_mini,
                is_b2b_clear,
                perfect_clear,
                soft_drop_cells as int,
                hard_drop_cells as int,
                combo_count as int,
                lvl_spec,
            );
        }
        let level: u32 = if level < 1 {
            1
        } else {
            level
        };
        let lvl64: u64 = level as u64;
        self.score = self.score + soft_drop_cells as u64;
        self.score = self.score + (hard_drop_cells as u64) * 2;
        if lines_cleared > 0 {
            let base: u64 = if is_tspin {
                if is_mini {
                    if lines_cleared == 1 {
                        200
                    } else {
                        400
                    }
                } else if lines_cleared == 1 {
                    800
                } else if lines_cleared == 2 {
                    1200
                } else {
                    1600
                }
            } else if lines_cleared == 1 {
                100
            } else if lines_cleared == 2 {
                300
            } else if lines_cleared == 3 {
                500
            } else {
                800
            };
            assert(base * lvl64 <= 1600 * 0xffff_ffff) by (nonlinear_arith)
                requires
                    base <= 1600,
                    lvl64 <= 0xffff_ffff,
            ;
            let mut action_score: u64 = base * lvl64;
            if is_b2b_clear {
                action_score = (action_score * 3) / 2;
            }
            let c64: u64 = combo_count as u64;
            assert(50 * c64 * lvl64 <= 50 * 0xffff_ffff * 0xffff_ffffu64 as int) by (nonlinear_arith)
                requires
                    c64 <= 0xffff_ffff,
                    lvl64 <= 0xffff_ffff,
            ;
            let pc_base: u64 = if is_b2b_clear && lines_cleared == 4 {
                3200
            } else if lines_cleared == 1 {
                800
            } else if lines_cleared == 2 {
                1200
            } else if lines_cleared == 3 {
                1800
            } else {
                2000
            };
            assert(pc_base * lvl64 <= 3200 * 0xffff_ffff) by (nonlinear_arith)
                requires
                    pc_base <= 3200,
                    lvl64 <= 0xffff_ffff,
            ;
            assert(50 * c64 * lvl64 == (50 * c64) * lvl64) by (nonlinear_arith);
            let combo_points: u64 = (50 * c64) * lvl64;
            self.score = self.score + action_score;
            self.score = self.score + combo_points;
            if perfect_clear {
                self.score = self.score + pc_base * lvl64;
            }
            self.total_lines = self.total_lines + lines_cleared as u32;
            let by_lines: u32 = self.total_lines / 10 + 1;
            let l: u32 = if level >= by_lines {
                level
            } else {
                by_lines
            };
            self.level = if l <= 15 {
                l
            } else {
                15
            };
            self.combo = combo_count.saturating_add(1);
            if self.combo > self.max_combo {
                self.max_combo = self.combo;
            }
        } else {
            if is_tspin {
                let base: u64 = if is_mini {
                    100
                } else {
                    400
                };
                assert(base * lvl64 <= 400 * 0xffff_ffff) by (nonlinear_arith)
                    requires
                        base <= 400,
                        lvl64 <= 0xffff_ffff,
                ;
                self.score = self.score + base * lvl64;
            }
            self.combo = 0;
        }
        if is_b2b_clear {
            self.b2b_count = self.b2b_count + 1;
        }
        if is_tspin {
            self.tspin_count = self.tspin_count + 1;
        }
        if perfect_clear {
            self.all_clear_count = self.all_clear_count + 1;
        }
        self.total_pieces = self.total_pieces + 1;
        if self.score > self.best_score {
            self.best_score = self.score;
        }
    }

    /// Adds `delta_ms` to the time played.
    pub fn tick_time(&mut self, delta_ms: u64)
        requires
            old(self).game_time_ms + delta_ms <= u64::MAX,
        ensures
            *final(self) == (ScoreTracker { game_time_ms: (old(self).game_time_ms + delta_ms) as u64, ..*old(self) }),
    {
        self.game_time_ms = self.game_time_ms + delta_ms;
    }
}

} // verus!
