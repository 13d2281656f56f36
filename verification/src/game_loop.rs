//! The game-loop core: the playfield, the active and next piece,
//! collision and placement rules, line clearing, scoring, and game-over
//! detection, driven one state-machine step per frame.

use vstd::prelude::*;
use crate::tetronimo::{
    lemma_shape_wf, spec_shape_cells, spec_shape_width, Tetronimo, TetronimoRotation,
    TetronimoShape,
};
use crate::grid::{
    clear_row, col_seq, lemma_cell_index, lemma_index_bounds, lemma_occ_len, lemma_occ_snoc,
    none_seq, occ_of, row_full, scan_result, settle_col, settle_grid, Cell,
};

verus! {

/// A grid coordinate: the bounding-box origin of the active piece, or the
/// playfield dimensions.
#[derive(Clone, Copy, Debug, PartialEq, Eq, Structural)]
pub struct Position {
    pub x: usize,
    pub y: usize,
}

impl Position {
    pub fn new(x: usize, y: usize) -> (r: Position)
        ensures
            r.x == x,
            r.y == y,
    {
        Position { x, y }
    }
}

/// Per-kind spawn counters for the session's statistics panel.
#[derive(Clone, Copy, Debug, PartialEq, Eq, Structural)]
pub struct ShapeStatistics {
    pub i_count: u16,
    pub j_count: u16,
    pub l_count: u16,
    pub o_count: u16,
    pub t_count: u16,
    pub s_count: u16,
    pub z_count: u16,
}

/// All seven counters at zero.
pub open spec fn zero_stats() -> ShapeStatistics {
    ShapeStatistics {
        i_count: 0,
        j_count: 0,
        l_count: 0,
        o_count: 0,
        t_count: 0,
        s_count: 0,
        z_count: 0,
    }
}

impl Default for ShapeStatistics {
    /// All seven counters at zero.
    fn default() -> (r: ShapeStatistics)
        ensures
            r == zero_stats(),
    {
        ShapeStatistics {
            i_count: 0,
            j_count: 0,
            l_count: 0,
            o_count: 0,
            t_count: 0,
            s_count: 0,
            z_count: 0,
        }
    }
}

/// A counter bump that sticks at the maximum instead of wrapping.
pub open spec fn spec_bump(c: u16) -> u16 {
    if c < 0xffff {
        (c + 1) as u16
    } else {
        c
    }
}

/// The statistics with the counter of the given kind bumped once.
pub open spec fn stats_bump(st: ShapeStatistics, s: TetronimoShape) -> ShapeStatistics {
    match s {
        TetronimoShape::IShape => ShapeStatistics { i_count: spec_bump(st.i_count), ..st },
        TetronimoShape::JShape => ShapeStatistics { j_count: spec_bump(st.j_count), ..st },
        TetronimoShape::LShape => ShapeStatistics { l_count: spec_bump(st.l_count), ..st },
        TetronimoShape::OShape => ShapeStatistics { o_count: spec_bump(st.o_count), ..st },
        TetronimoShape::SShape => ShapeStatistics { s_count: spec_bump(st.s_count), ..st },
        TetronimoShape::TShape => ShapeStatistics { t_count: spec_bump(st.t_count), ..st },
        TetronimoShape::ZShape => ShapeStatistics { z_count: spec_bump(st.z_count), ..st },
    }
}

fn bump(c: u16) -> (r: u16)
    ensures
        r == spec_bump(c),
{
    if c < 0xffff {
        c + 1
    } else {
        c
    }
}

/// Saturating addition on the score and line counters.
pub open spec fn spec_sat_add(a: u16, b: u16) -> u16 {
    if a + b <= 0xffff {
        (a + b) as u16
    } else {
        0xffff
    }
}

fn sat_add(a: u16, b: u16) -> (r: u16)
    ensures
        r == spec_sat_add(a, b),
{
    if b <= 0xffff - a {
        a + b
    } else {
        0xffff
    }
}

/// One move request from the driver.
#[derive(Clone, Copy, Debug, PartialEq, Eq, Structural)]
pub enum MoveActionType {
    NoAction,
    Rotate,
    Drop,
    MoveLeft,
    MoveRight,
}

/// The states of the game-loop machine.
#[derive(Clone, Copy, Debug, PartialEq, Eq, Structural)]
pub enum GameLoopState {
    Paused,
    Start,
    Running,
    Falling,
    Moving(MoveActionType),
    PieceBlocked,
    CheckRows,
    CheckGameOver,
    GameOver,
}

/// One input event from the driver: a pause toggle or a move request.
#[derive(Clone, Copy, Debug, PartialEq, Eq, Structural)]
pub enum GameAction {
    Pause,
    Move(MoveActionType),
}

/// What one state-machine step reports back to the driver: each field is
/// `Some` (or true) exactly when the step produced a fresh value to show.
#[derive(Clone, Copy, Debug, PartialEq, Eq, Structural)]
pub struct StepNotifications {
    pub score: Option<u16>,
    pub lines: Option<u16>,
    pub next_piece: Option<TetronimoShape>,
    pub statistics: Option<ShapeStatistics>,
    pub game_over: bool,
}

/// A step that reports nothing.
pub open spec fn no_notes() -> StepNotifications {
    StepNotifications {
        score: None,
        lines: None,
        next_piece: None,
        statistics: None,
        game_over: false,
    }
}

/// The game loop's state, seen mathematically.
#[verifier::ext_equal]
pub ghost struct GameView {
    pub arena: Seq<Cell>,
    pub next: Option<TetronimoShape>,
    pub piece: Tetronimo,
    pub pos: (int, int),
    pub oldpos: (int, int),
    pub size: (int, int),
    pub state: GameLoopState,
    pub score: u16,
    pub lines: u16,
    pub stats: ShapeStatistics,
}

/// The game-loop core. The driver owns one of these, feeds it inputs and
/// ticks, and advances it one state-machine transition per frame.
pub struct GameLoop {
    pub arena: Vec<Option<TetronimoShape>>,
    pub next_piece: Option<TetronimoShape>,
    pub piece: Tetronimo,
    pub position: Position,
    pub old_position: Position,
    pub arena_size: Position,
    pub game_state: GameLoopState,
    pub current_score: u16,
    pub current_lines: u16,
    pub shapes_statistics: ShapeStatistics,
}

impl View for GameLoop {
    type V = GameView;

    open spec fn view(&self) -> GameView {
        GameView {
            arena: self.arena@,
            next: self.next_piece,
            piece: self.piece,
            pos: (self.position.x as int, self.position.y as int),
            oldpos: (self.old_position.x as int, self.old_position.y as int),
            size: (self.arena_size.x as int, self.arena_size.y as int),
            state: self.game_state,
            score: self.current_score,
            lines: self.current_lines,
            stats: self.shapes_statistics,
        }
    }
}

impl GameLoop {
    /// Well-formedness: the arena vector matches the (bounded) dimensions
    /// and the active piece's origin never strays past them.
    pub open spec fn wf(self) -> bool {
        &&& 1 <= self.arena_size.x <= 255
        &&& 1 <= self.arena_size.y <= 255
        &&& self.arena@.len() == self.arena_size.x * self.arena_size.y
        &&& self.position.x <= self.arena_size.x
        &&& self.position.y <= self.arena_size.y
    }
}

/// Whether the piece's cell at shape offset `o` would stick out of the grid
/// or land on an occupied cell, with the piece's origin at (`px`, `py`).
/// Cells beyond either wall or below the floor count as occupied.
pub open spec fn cell_blocked(g: Seq<Cell>, w: int, h: int, x: int, y: int) -> bool {
    x >= w || y >= h || g[y * w + x] is Some
}

/// Whether any occupied cell of the piece, with its bounding-box origin at
/// (`px`, `py`), sticks out of the grid or overlaps an occupied arena cell.
pub open spec fn piece_hits(
    g: Seq<Cell>,
    w: int,
    h: int,
    piece: Tetronimo,
    px: int,
    py: int,
) -> bool {
    let cells = spec_shape_cells(piece.shape, piece.rotation);
    let pw = spec_shape_width(piece.shape, piece.rotation);
    exists|o: int|
        0 <= o < cells.len() && #[trigger] cells[o] && cell_blocked(g, w, h, px + o % pw, py + o / pw)
}

/// Whether some occupied cell of the piece sits in arena column 0.
pub open spec fn at_left_wall(piece: Tetronimo, px: int) -> bool {
    let cells = spec_shape_cells(piece.shape, piece.rotation);
    let pw = spec_shape_width(piece.shape, piece.rotation);
    exists|o: int| 0 <= o < cells.len() && #[trigger] cells[o] && px + o % pw == 0
}

/// Whether some occupied cell of the piece sits in the last arena column
/// or beyond it.
pub open spec fn at_right_wall(piece: Tetronimo, px: int, w: int) -> bool {
    let cells = spec_shape_cells(piece.shape, piece.rotation);
    let pw = spec_shape_width(piece.shape, piece.rotation);
    exists|o: int| 0 <= o < cells.len() && #[trigger] cells[o] && px + o % pw + 1 >= w
}

/// Whether grid index `i` is covered by one of the first `n` shape offsets
/// of the piece at (`px`, `py`), restricted to in-grid cells.
pub open spec fn covered_by_prefix(
    w: int,
    h: int,
    piece: Tetronimo,
    px: int,
    py: int,
    n: int,
    i: int,
) -> bool {
    let cells = spec_shape_cells(piece.shape, piece.rotation);
    let pw = spec_shape_width(piece.shape, piece.rotation);
    exists|o: int|
        0 <= o < n && #[trigger] cells[o] && px + o % pw < w && py + o / pw < h && i == (py + o
            / pw) * w + (px + o % pw)
}

/// The grid after the piece is written into it: every in-grid cell the
/// piece covers holds the piece's kind, all other cells keep their value.
pub open spec fn place_piece(
    g: Seq<Cell>,
    w: int,
    h: int,
    piece: Tetronimo,
    px: int,
    py: int,
) -> Seq<Cell> {
    let cells = spec_shape_cells(piece.shape, piece.rotation);
    Seq::new(
        g.len(),
        |i: int|
            if covered_by_prefix(w, h, piece, px, py, cells.len() as int, i) {
                Some(piece.shape)
            } else {
                g[i]
            },
    )
}

/// An all-empty arena vector of the given length.
fn empty_arena(n: usize) -> (v: Vec<Option<TetronimoShape>>)
    ensures
        v@ == none_seq(n as int),
{
    let mut v: Vec<Option<TetronimoShape>> = Vec::new();
    for i in 0..n
        invariant
            v@ == none_seq(i as int),
    {
        v.push(None);
        proof {
            assert(v@ =~= none_seq(i + 1));
        }
    }
    v
}

/// Whether row `y` of the arena is fully occupied.
fn row_is_full(arena: &Vec<Option<TetronimoShape>>, w: usize, h: usize, y: usize) -> (b: bool)
    requires
        1 <= w <= 255,
        1 <= h <= 255,
        arena@.len() == w * h,
        y < h,
    ensures
        b == row_full(arena@, w as int, y as int),
{
    let mut complete = true;
    for x in 0..w
        invariant
            1 <= w <= 255,
            1 <= h <= 255,
            arena@.len() == w * h,
            y < h,
            complete == forall|x2: int|
                0 <= x2 < x ==> (#[trigger] arena@[y as int * w as int + x2]) is Some,
    {
        proof {
            lemma_cell_index(w as int, h as int, x as int, y as int);
        }
        if arena[y * w + x].is_none() {
            complete = false;
        }
    }
    complete
}

/// Clears every cell of row `y` to empty.
fn clear_row_in_place(arena: &mut Vec<Option<TetronimoShape>>, w: usize, h: usize, y: usize)
    requires
        1 <= w <= 255,
        1 <= h <= 255,
        old(arena)@.len() == w * h,
        y < h,
    ensures
        final(arena)@ == clear_row(old(arena)@, w as int, y as int),
{
    let ghost g0 = arena@;
    for x in 0..w
        invariant
            1 <= w <= 255,
            1 <= h <= 255,
            arena@.len() == w * h,
            y < h,
            g0.len() == w * h,
            forall|i: int|
                0 <= i < g0.len() ==> #[trigger] arena@[i] == (if i / (w as int) == y as int && i
                    % (w as int) < x as int {
                    None
                } else {
                    g0[i]
                }),
    {
        proof {
            lemma_cell_index(w as int, h as int, x as int, y as int);
        }
        let idx = y * w + x;
        arena.set(idx, None);
        proof {
            assert forall|i: int| 0 <= i < g0.len() implies arena@[i] == (if i / (w as int)
                == y as int && i % (w as int) < x as int + 1 {
                None
            } else {
                g0[i]
            }) by {
                lemma_index_bounds(w as int, h as int, i);
            }
        }
    }
    proof {
        assert forall|i: int| 0 <= i < g0.len() implies arena@[i] == clear_row(
            g0,
            w as int,
            y as int,
        )[i] by {
            lemma_index_bounds(w as int, h as int, i);
        }
        assert(arena@ =~= clear_row(g0, w as int, y as int));
    }
}

/// Gravity compaction: in every column the occupied cells fall to the
/// bottom, keeping their top-to-bottom order.
#[verifier::loop_isolation(false)]
fn settle_in_place(arena: &mut Vec<Option<TetronimoShape>>, w: usize, h: usize)
    requires
        1 <= w <= 255,
        1 <= h <= 255,
        old(arena)@.len() == w * h,
    ensures
        final(arena)@ == settle_grid(old(arena)@, w as int, h as int),
{
    let ghost g0 = arena@;
    let ghost wi: int = w as int;
    let ghost hi: int = h as int;
    for x in 0..w
        invariant
            arena@.len() == w * h,
            forall|i: int| 0 <= i < g0.len() && i % wi >= x as int ==> #[trigger] arena@[i] == g0[i],
            forall|i: int|
                0 <= i < g0.len() && i % wi < x as int ==> #[trigger] arena@[i] == settle_grid(
                    g0,
                    wi,
                    hi,
                )[i],
    {
        let ghost colx = col_seq(g0, wi, hi, x as int);
        // gather this column's occupants, top to bottom
        let mut occ: Vec<TetronimoShape> = Vec::new();
        for y in 0..h
            invariant
                occ@ == occ_of(colx.take(y as int)),
                forall|i: int|
                    0 <= i < g0.len() && i % wi >= x as int ==> #[trigger] arena@[i] == g0[i],
        {
            proof {
                lemma_cell_index(wi, hi, x as int, y as int);
                assert(arena@[y as int * wi + x as int] == colx[y as int]);
                assert(colx.take(y as int + 1) =~= colx.take(y as int).push(colx[y as int]));
                lemma_occ_snoc(colx.take(y as int), colx[y as int]);
            }
            match arena[y * w + x] {
                Some(s) => {
                    occ.push(s);
                    proof {
                        assert(occ@ =~= occ_of(colx.take(y as int)).push(
                            colx[y as int]->Some_0,
                        ));
                        assert(occ_of(colx.take(y as int)) + seq![colx[y as int]->Some_0]
                            =~= occ_of(colx.take(y as int)).push(colx[y as int]->Some_0));
                    }
                },
                None => {
                    proof {
                        assert(occ_of(colx.take(y as int)) + Seq::<TetronimoShape>::empty()
                            =~= occ_of(colx.take(y as int)));
                    }
                },
            }
        }
        proof {
            assert(colx.take(hi) =~= colx);
            lemma_occ_len(colx);
        }
        // write the column back, bottom-justified
        let pad = h - occ.len();
        for y in 0..h
            invariant
                arena@.len() == w * h,
                occ@ == occ_of(colx),
                pad as int == hi - occ@.len(),
                forall|i: int| 0 <= i < g0.len() && i % wi > x as int ==> #[trigger] arena@[i] == g0[i],
                forall|i: int|
                    0 <= i < g0.len() && i % wi == x as int && i / wi >= y as int
                        ==> #[trigger] arena@[i] == g0[i],
                forall|i: int|
                    0 <= i < g0.len() && i % wi == x as int && i / wi < y as int
                        ==> #[trigger] arena@[i] == settle_col(colx)[i / wi],
                forall|i: int|
                    0 <= i < g0.len() && i % wi < x as int ==> #[trigger] arena@[i] == settle_grid(
                        g0,
                        wi,
                        hi,
                    )[i],
        {
            proof {
                lemma_cell_index(wi, hi, x as int, y as int);
            }
            let idx = y * w + x;
            if y < pad {
                arena.set(idx, None);
            } else {
                let v = occ[y - pad];
                arena.set(idx, Some(v));
            }
            proof {
                assert forall|i: int|
                    0 <= i < g0.len() && i % wi == x as int && i / wi < y as int + 1 implies
                    arena@[i] == settle_col(colx)[i / wi] by {
                    lemma_index_bounds(wi, hi, i);
                }
            }
        }
        proof {
            assert forall|i: int|
                0 <= i < g0.len() && i % wi < (x + 1) as int implies #[trigger] arena@[i]
                == settle_grid(g0, wi, hi)[i] by {
                lemma_index_bounds(wi, hi, i);
            }
        }
    }
    proof {
        assert forall|i: int| 0 <= i < g0.len() implies arena@[i] == settle_grid(g0, wi, hi)[i] by {
            lemma_index_bounds(wi, hi, i);
        }
        assert(arena@ =~= settle_grid(g0, wi, hi));
    }
}

/// Writes the piece into the grid: every in-grid cell it covers gets its
/// kind; cells that would fall outside the grid are ignored.
fn place_in_place(
    arena: &mut Vec<Option<TetronimoShape>>,
    w: usize,
    h: usize,
    piece: &Tetronimo,
    px: usize,
    py: usize,
)
    requires
        1 <= w <= 255,
        1 <= h <= 255,
        old(arena)@.len() == w * h,
        px <= 0xffff,
        py <= 0xffff,
    ensures
        final(arena)@ == place_piece(old(arena)@, w as int, h as int, *piece, px as int, py as int),
{
    let ghost g0 = old(arena)@;
    let ghost wi: int = w as int;
    let ghost hi: int = h as int;
    let ghost pxi: int = px as int;
    let ghost pyi: int = py as int;
    let (cells, pw) = piece.get_chars();
    proof {
        lemma_shape_wf(piece.shape, piece.rotation);
    }
    let ghost pwi: int = pw as int;
    let n = cells.len();
    #[verifier::loop_isolation(false)]
    for o in 0..n
        invariant
            arena@.len() == g0.len(),
            forall|i: int|
                0 <= i < g0.len() ==> #[trigger] arena@[i] == (if covered_by_prefix(
                    wi,
                    hi,
                    *piece,
                    pxi,
                    pyi,
                    o as int,
                    i,
                ) {
                    Some(piece.shape)
                } else {
                    g0[i]
                }),
    {
        let ghost oi: int = o as int;
        let present = cells[o];
        let x = px + o % pw;
        let y = py + o / pw;
        if present && x < w && y < h {
            proof {
                lemma_cell_index(wi, hi, x as int, y as int);
            }
            let idx = y * w + x;
            let kind = piece.shape;
            arena.set(idx, Some(kind));
            proof {
                let idxi = idx as int;
                assert(0 <= oi < oi + 1 && spec_shape_cells(piece.shape, piece.rotation)[oi]
                    && pxi + oi % pwi < wi && pyi + oi / pwi < hi && idxi == (pyi + oi / pwi) * wi
                    + (pxi + oi % pwi));
                assert(covered_by_prefix(wi, hi, *piece, pxi, pyi, oi + 1, idxi));
                assert forall|i: int| 0 <= i < g0.len() implies arena@[i] == (if covered_by_prefix(
                    wi,
                    hi,
                    *piece,
                    pxi,
                    pyi,
                    oi + 1,
                    i,
                ) {
                    Some(piece.shape)
                } else {
                    g0[i]
                }) by {
                    if i != idxi {
                        if covered_by_prefix(wi, hi, *piece, pxi, pyi, oi + 1, i) {
                            let o2 = choose|o2: int|
                                0 <= o2 < oi + 1 && #[trigger] spec_shape_cells(
                                    piece.shape,
                                    piece.rotation,
                                )[o2] && pxi + o2 % pwi < wi && pyi + o2 / pwi < hi && i == (pyi
                                    + o2 / pwi) * wi + (pxi + o2 % pwi);
                            assert(o2 < oi);
                            assert(covered_by_prefix(wi, hi, *piece, pxi, pyi, oi, i));
                        }
                    }
                }
            }
        } else {
            proof {
                assert forall|i: int| 0 <= i < g0.len() implies arena@[i] == (if covered_by_prefix(
                    wi,
                    hi,
                    *piece,
                    pxi,
                    pyi,
                    oi + 1,
                    i,
                ) {
                    Some(piece.shape)
                } else {
                    g0[i]
                }) by {
                    if covered_by_prefix(wi, hi, *piece, pxi, pyi, oi + 1, i) {
                        let o2 = choose|o2: int|
                            0 <= o2 < oi + 1 && #[trigger] spec_shape_cells(
                                piece.shape,
                                piece.rotation,
                            )[o2] && pxi + o2 % pwi < wi && pyi + o2 / pwi < hi && i == (pyi + o2
                                / pwi) * wi + (pxi + o2 % pwi);
                        assert(o2 < oi);
                        assert(covered_by_prefix(wi, hi, *piece, pxi, pyi, oi, i));
                    } else {
                        if covered_by_prefix(wi, hi, *piece, pxi, pyi, oi, i) {
                            let o2 = choose|o2: int|
                                0 <= o2 < oi && #[trigger] spec_shape_cells(
                                    piece.shape,
                                    piece.rotation,
                                )[o2] && pxi + o2 % pwi < wi && pyi + o2 / pwi < hi && i == (pyi
                                    + o2 / pwi) * wi + (pxi + o2 % pwi);
                            assert(covered_by_prefix(wi, hi, *piece, pxi, pyi, oi + 1, i));
                            assert(false);
                        }
                    }
                }
            }
        }
    }
    proof {
        assert(arena@ =~= place_piece(g0, wi, hi, *piece, pxi, pyi));
    }
}

/// Whether any occupied cell of the piece at (`px`, `py`) sticks out of the
/// grid or lands on an occupied arena cell.
fn piece_hits_at(
    arena: &Vec<Option<TetronimoShape>>,
    w: usize,
    h: usize,
    piece: &Tetronimo,
    px: usize,
    py: usize,
) -> (b: bool)
    requires
        1 <= w <= 255,
        1 <= h <= 255,
        arena@.len() == w * h,
        px <= 0xffff,
        py <= 0xffff,
    ensures
        b == piece_hits(arena@, w as int, h as int, *piece, px as int, py as int),
{
    let ghost wi: int = w as int;
    let ghost hi: int = h as int;
    let ghost pxi: int = px as int;
    let ghost pyi: int = py as int;
    let (cells, pw) = piece.get_chars();
    proof {
        lemma_shape_wf(piece.shape, piece.rotation);
    }
    let ghost pwi: int = pw as int;
    let n = cells.len();
    let mut hit = false;
    #[verifier::loop_isolation(false)]
    for o in 0..n
        invariant
            hit == exists|o2: int|
                0 <= o2 < o && #[trigger] spec_shape_cells(piece.shape, piece.rotation)[o2]
                    && cell_blocked(arena@, wi, hi, pxi + o2 % pwi, pyi + o2 / pwi),
    {
        let ghost oi: int = o as int;
        let present = cells[o];
        let x = px + o % pw;
        let y = py + o / pw;
        let mut occupied = false;
        if x < w && y < h {
            proof {
                lemma_cell_index(wi, hi, x as int, y as int);
            }
            occupied = arena[y * w + x].is_some();
        }
        let blocked_here = present && (x >= w || y >= h || occupied);
        proof {
            assert(blocked_here == (spec_shape_cells(piece.shape, piece.rotation)[oi]
                && cell_blocked(arena@, wi, hi, pxi + oi % pwi, pyi + oi / pwi)));
        }
        if blocked_here {
            hit = true;
        }
        proof {
            if hit {
                assert(exists|o2: int|
                    0 <= o2 < oi + 1 && #[trigger] spec_shape_cells(piece.shape, piece.rotation)[o2]
                        && cell_blocked(arena@, wi, hi, pxi + o2 % pwi, pyi + o2 / pwi));
            } else {
                assert forall|o2: int|
                    0 <= o2 < oi + 1 && #[trigger] spec_shape_cells(piece.shape, piece.rotation)[o2]
                        implies !cell_blocked(arena@, wi, hi, pxi + o2 % pwi, pyi + o2 / pwi) by {
                    if o2 < oi {
                        assert(!(exists|o3: int|
                            0 <= o3 < oi && #[trigger] spec_shape_cells(
                                piece.shape,
                                piece.rotation,
                            )[o3] && cell_blocked(arena@, wi, hi, pxi + o3 % pwi, pyi + o3 / pwi)));
                    }
                }
            }
        }
    }
    hit
}

/// Whether some occupied cell of the piece sits in arena column 0.
fn piece_at_left_wall(piece: &Tetronimo, px: usize) -> (b: bool)
    requires
        px <= 0xffff,
    ensures
        b == at_left_wall(*piece, px as int),
{
    let ghost pxi: int = px as int;
    let (cells, pw) = piece.get_chars();
    proof {
        lemma_shape_wf(piece.shape, piece.rotation);
    }
    let ghost pwi: int = pw as int;
    let n = cells.len();
    let mut found = false;
    #[verifier::loop_isolation(false)]
    for o in 0..n
        invariant
            found == exists|o2: int|
                0 <= o2 < o && #[trigger] spec_shape_cells(piece.shape, piece.rotation)[o2] && pxi
                    + o2 % pwi == 0,
    {
        let ghost oi: int = o as int;
        let here = cells[o] && px + o % pw == 0;
        proof {
            assert(here == (spec_shape_cells(piece.shape, piece.rotation)[oi] && pxi + oi % pwi
                == 0));
        }
        if here {
            found = true;
        }
        proof {
            if found {
                assert(exists|o2: int|
                    0 <= o2 < oi + 1 && #[trigger] spec_shape_cells(piece.shape, piece.rotation)[o2]
                        && pxi + o2 % pwi == 0);
            }
        }
    }
    found
}

/// Whether some occupied cell of the piece sits in the last arena column or
/// beyond it.
fn piece_at_right_wall(piece: &Tetronimo, px: usize, w: usize) -> (b: bool)
    requires
        px <= 0xffff,
        1 <= w <= 255,
    ensures
        b == at_right_wall(*piece, px as int, w as int),
{
    let ghost pxi: int = px as int;
    let ghost wi: int = w as int;
    let (cells, pw) = piece.get_chars();
    proof {
        lemma_shape_wf(piece.shape, piece.rotation);
    }
    let ghost pwi: int = pw as int;
    let n = cells.len();
    let mut found = false;
    #[verifier::loop_isolation(false)]
    for o in 0..n
        invariant
            found == exists|o2: int|
                0 <= o2 < o && #[trigger] spec_shape_cells(piece.shape, piece.rotation)[o2] && pxi
                    + o2 % pwi + 1 >= wi,
    {
        let ghost oi: int = o as int;
        let here = cells[o] && px + o % pw + 1 >= w;
        proof {
            assert(here == (spec_shape_cells(piece.shape, piece.rotation)[oi] && pxi + oi % pwi + 1
                >= wi));
        }
        if here {
            found = true;
        }
        proof {
            if found {
                assert(exists|o2: int|
                    0 <= o2 < oi + 1 && #[trigger] spec_shape_cells(piece.shape, piece.rotation)[o2]
                        && pxi + o2 % pwi + 1 >= wi);
            }
        }
    }
    found
}

/// A score or line total clamped to what a 16-bit counter can hold.
pub open spec fn spec_sat_u16(v: int) -> u16 {
    if v <= 0xffff {
        v as u16
    } else {
        0xffff
    }
}

/// What spawning the next active piece does: the queued lookahead kind (if
/// any) becomes the active piece, facing north at the spawn point; a new
/// lookahead is drawn (by chance, so only its presence is stated); and the
/// spawned kind's statistics counter is bumped once.
pub open spec fn spawn_rel(a: GameView, b: GameView) -> bool {
    &&& b.piece.rotation == TetronimoRotation::North
    &&& match a.next {
        Some(s) => b.piece.shape == s,
        None => true,
    }
    &&& b.next is Some
    &&& b.pos == (a.size.0 / 2, 0int)
    &&& b.stats == stats_bump(a.stats, b.piece.shape)
    &&& b.arena == a.arena
    &&& b.score == a.score
    &&& b.lines == a.lines
    &&& b.state == a.state
    &&& b.size == a.size
    &&& b.oldpos == a.oldpos
}

/// The `Start` transition: statistics reset then a piece spawned, the arena
/// recreated all-empty, score and lines reset to zero, all four values
/// reported, and the machine set running.
pub open spec fn start_rel(mid: GameView, post: GameView, notes: StepNotifications) -> bool {
    &&& spawn_rel(
        GameView { stats: zero_stats(), ..mid },
        GameView { arena: mid.arena, score: mid.score, lines: mid.lines, state: mid.state, ..post },
    )
    &&& post.arena == none_seq(mid.size.0 * mid.size.1)
    &&& post.score == 0
    &&& post.lines == 0
    &&& post.state == GameLoopState::Running
    &&& notes == StepNotifications {
        score: Some(0u16),
        lines: Some(0u16),
        next_piece: post.next,
        statistics: Some(post.stats),
        game_over: false,
    }
}

/// The `Falling` transition: the piece moves down one row if nothing blocks
/// it there, else the machine heads for lock-down.
pub open spec fn falling_rel(mid: GameView, post: GameView) -> bool {
    if piece_hits(mid.arena, mid.size.0, mid.size.1, mid.piece, mid.pos.0, mid.pos.1 + 1) {
        post == GameView { state: GameLoopState::PieceBlocked, ..mid }
    } else {
        post == GameView {
            state: GameLoopState::Running,
            pos: (mid.pos.0, mid.pos.1 + 1),
            ..mid
        }
    }
}

/// The `Moving` transition: one move request is honored (rotation always;
/// lateral moves only when no occupied cell already touches the wall; a
/// drop request is recognized but moves nothing), then the machine runs on.
pub open spec fn moving_rel(mid: GameView, post: GameView, action: MoveActionType) -> bool {
    match action {
        MoveActionType::NoAction => post == GameView { state: GameLoopState::Running, ..mid },
        MoveActionType::Rotate => post == GameView {
            state: GameLoopState::Running,
            piece: Tetronimo {
                shape: mid.piece.shape,
                rotation: mid.piece.rotation.spec_clockwise(),
            },
            ..mid
        },
        MoveActionType::Drop => post == GameView { state: GameLoopState::Running, ..mid },
        MoveActionType::MoveLeft => post == GameView {
            state: GameLoopState::Running,
            pos: (
                if at_left_wall(mid.piece, mid.pos.0) {
                    mid.pos.0
                } else {
                    mid.pos.0 - 1
                },
                mid.pos.1,
            ),
            ..mid
        },
        MoveActionType::MoveRight => post == GameView {
            state: GameLoopState::Running,
            pos: (
                if at_right_wall(mid.piece, mid.pos.0, mid.size.0) {
                    mid.pos.0
                } else {
                    mid.pos.0 + 1
                },
                mid.pos.1,
            ),
            ..mid
        },
    }
}

/// The `CheckRows` transition: the complete-row scan runs; if it cleared
/// anything, the score grows by the square of the cleared count and the
/// line total by the count (both saturating), the fresh totals are
/// reported, and the machine stays in `CheckRows` for the next frame;
/// otherwise it heads for the spawn-overlap check.
pub open spec fn check_rows_rel(mid: GameView, post: GameView, notes: StepNotifications) -> bool {
    let sr = scan_result(mid.arena, mid.size.0, mid.size.1, 0);
    let n = sr.1;
    if n > 0 {
        &&& post == GameView {
            arena: sr.0,
            score: spec_sat_u16(mid.score + n * n),
            lines: spec_sat_u16(mid.lines + n),
            ..mid
        }
        &&& notes == StepNotifications {
            score: Some(post.score),
            lines: Some(post.lines),
            next_piece: None,
            statistics: None,
            game_over: false,
        }
    } else {
        &&& post == GameView { arena: sr.0, state: GameLoopState::CheckGameOver, ..mid }
        &&& notes == no_notes()
    }
}

/// The `CheckGameOver` transition: the next piece spawns (reporting the new
/// lookahead and statistics); if it overlaps anything at the spawn point
/// the game is over, else play resumes.
pub open spec fn check_game_over_rel(
    mid: GameView,
    post: GameView,
    notes: StepNotifications,
) -> bool {
    &&& spawn_rel(mid, GameView { state: mid.state, ..post })
    &&& post.state == (if piece_hits(
        post.arena,
        post.size.0,
        post.size.1,
        post.piece,
        post.pos.0,
        post.pos.1,
    ) {
        GameLoopState::GameOver
    } else {
        GameLoopState::Running
    })
    &&& notes == StepNotifications {
        score: None,
        lines: None,
        next_piece: post.next,
        statistics: Some(post.stats),
        game_over: false,
    }
}

/// The whole per-frame transition relation of the machine: what one call of
/// `do_state_machine` does, for every state. The previous piece position is
/// recorded first in every state.
pub open spec fn step_rel(pre: GameView, post: GameView, notes: StepNotifications) -> bool {
    let mid = GameView { oldpos: pre.pos, ..pre };
    match pre.state {
        GameLoopState::Paused => post == mid && notes == no_notes(),
        GameLoopState::Start => start_rel(mid, post, notes),
        GameLoopState::Running => post == mid && notes == no_notes(),
        GameLoopState::Falling => falling_rel(mid, post) && notes == no_notes(),
        GameLoopState::Moving(a) => moving_rel(mid, post, a) && notes == no_notes(),
        GameLoopState::PieceBlocked => post == GameView {
            arena: place_piece(mid.arena, mid.size.0, mid.size.1, mid.piece, mid.pos.0, mid.pos.1),
            state: GameLoopState::CheckRows,
            ..mid
        } && notes == no_notes(),
        GameLoopState::CheckRows => check_rows_rel(mid, post, notes),
        GameLoopState::CheckGameOver => check_game_over_rel(mid, post, notes),
        GameLoopState::GameOver => post == GameView { state: GameLoopState::Start, ..mid }
            && notes == StepNotifications {
            score: None,
            lines: None,
            next_piece: None,
            statistics: None,
            game_over: true,
        },
    }
}

/// What one input event does to the machine's state: a pause request
/// toggles between `Paused` and `Running`; a move request is honored only
/// while `Running`; anything else is ignored.
pub open spec fn spec_input_state(s: GameLoopState, a: GameAction) -> GameLoopState {
    match a {
        GameAction::Pause => if s == GameLoopState::Paused {
            GameLoopState::Running
        } else if s == GameLoopState::Running {
            GameLoopState::Paused
        } else {
            s
        },
        GameAction::Move(m) => if s == GameLoopState::Running {
            GameLoopState::Moving(m)
        } else {
            s
        },
    }
}

impl GameLoop {
    /// A fresh game loop for an arena of the given dimensions, in the
    /// `Start` state with an all-empty arena, zero totals, a random active
    /// piece and no lookahead yet.
    pub fn new(arena_width: usize, arena_height: usize) -> (r: GameLoop)
        requires
            1 <= arena_width <= 255,
            1 <= arena_height <= 255,
        ensures
            r.wf(),
            r@.arena == none_seq(arena_width as int * arena_height as int),
            r@.next is None,
            r@.piece.rotation == TetronimoRotation::North,
            r@.pos == (0int, 0int),
            r@.oldpos == (0int, 0int),
            r@.size == (arena_width as int, arena_height as int),
            r@.state == GameLoopState::Start,
            r@.score == 0,
            r@.lines == 0,
            r@.stats == zero_stats(),
    {
        proof {
            assert(arena_width as int * arena_height as int <= 65025) by (nonlinear_arith)
                requires
                    1 <= arena_width as int <= 255 && 1 <= arena_height as int <= 255,
            ;
        }
        let n = arena_width * arena_height;
        GameLoop {
            arena: empty_arena(n),
            next_piece: None,
            piece: Tetronimo::random(),
            position: Position::new(0, 0),
            old_position: Position::new(0, 0),
            arena_size: Position::new(arena_width, arena_height),
            game_state: GameLoopState::Start,
            current_score: 0,
            current_lines: 0,
            shapes_statistics: ShapeStatistics::default(),
        }
    }

    /// Feeds one input event: `Pause` toggles between `Paused` and
    /// `Running`; a move request is honored only while `Running`.
    pub fn handle_input(&mut self, game_action: GameAction)
        ensures
            final(self)@ == (GameView {
                state: spec_input_state(old(self)@.state, game_action),
                ..old(self)@
            }),
            final(self).wf() == old(self).wf(),
    {
        match game_action {
            GameAction::Pause => {
                if self.game_state == GameLoopState::Paused {
                    self.game_state = GameLoopState::Running;
                } else if self.game_state == GameLoopState::Running {
                    self.game_state = GameLoopState::Paused;
                }
            },
            GameAction::Move(move_action) => {
                if self.game_state == GameLoopState::Running {
                    self.game_state = GameLoopState::Moving(move_action)
                }
            },
        }
        proof {
            assert(self@ =~= (GameView {
                state: spec_input_state(old(self)@.state, game_action),
                ..old(self)@
            }));
        }
    }

    /// Signals that one gravity step is due; effective only while `Running`.
    pub fn fall_tick(&mut self)
        ensures
            final(self)@ == (GameView {
                state: if old(self)@.state == GameLoopState::Running {
                    GameLoopState::Falling
                } else {
                    old(self)@.state
                },
                ..old(self)@
            }),
            final(self).wf() == old(self).wf(),
    {
        if self.game_state == GameLoopState::Running {
            self.game_state = GameLoopState::Falling
        }
        proof {
            assert(self@ =~= (GameView {
                state: if old(self)@.state == GameLoopState::Running {
                    GameLoopState::Falling
                } else {
                    old(self)@.state
                },
                ..old(self)@
            }));
        }
    }

    /// Sends the machine back to `Start`, which reinitializes the session
    /// on its next step.
    pub fn initialise(&mut self)
        ensures
            final(self)@ == (GameView { state: GameLoopState::Start, ..old(self)@ }),
            final(self).wf() == old(self).wf(),
    {
        self.game_state = GameLoopState::Start;
        proof {
            assert(self@ =~= (GameView { state: GameLoopState::Start, ..old(self)@ }));
        }
    }

    /// Reallocates the arena all-empty.
    fn create_new_arena(&mut self)
        requires
            old(self).wf(),
        ensures
            final(self).wf(),
            final(self)@ == (GameView {
                arena: none_seq(old(self)@.size.0 * old(self)@.size.1),
                ..old(self)@
            }),
    {
        proof {
            assert(self.arena_size.x as int * self.arena_size.y as int <= 65025)
                by (nonlinear_arith)
                requires
                    1 <= self.arena_size.x as int <= 255 && 1 <= self.arena_size.y as int <= 255,
            ;
        }
        let n = self.arena_size.x * self.arena_size.y;
        self.arena = empty_arena(n);
        proof {
            assert(self@ =~= (GameView {
                arena: none_seq(old(self)@.size.0 * old(self)@.size.1),
                ..old(self)@
            }));
        }
    }

    /// Clears every cell of the given (completed) row to empty.
    fn drop_rows(&mut self, row: usize)
        requires
            old(self).wf(),
            row < old(self).arena_size.y,
        ensures
            final(self).wf(),
            final(self)@ == (GameView {
                arena: clear_row(old(self)@.arena, old(self)@.size.0, row as int),
                ..old(self)@
            }),
    {
        let w = self.arena_size.x;
        let h = self.arena_size.y;
        clear_row_in_place(&mut self.arena, w, h, row);
        proof {
            assert(self@ =~= (GameView {
                arena: clear_row(old(self)@.arena, old(self)@.size.0, row as int),
                ..old(self)@
            }));
        }
    }

    /// Gravity-compacts the whole arena: every occupied cell falls until
    /// the cell below it is occupied or the floor, columns independent and
    /// top-to-bottom order kept.
    pub fn drop_blocks(&mut self)
        requires
            old(self).wf(),
        ensures
            final(self).wf(),
            final(self)@ == (GameView {
                arena: settle_grid(old(self)@.arena, old(self)@.size.0, old(self)@.size.1),
                ..old(self)@
            }),
    {
        let w = self.arena_size.x;
        let h = self.arena_size.y;
        settle_in_place(&mut self.arena, w, h);
        proof {
            assert(self@ =~= (GameView {
                arena: settle_grid(old(self)@.arena, old(self)@.size.0, old(self)@.size.1),
                ..old(self)@
            }));
        }
    }

    /// The complete-row scan: walks the rows top to bottom; each row found
    /// fully occupied (on the then-current arena) is cleared and the whole
    /// arena gravity-compacted before the walk continues. Returns how many
    /// rows were cleared.
    pub fn remove_complete_rows(&mut self) -> (r: u16)
        requires
            old(self).wf(),
        ensures
            final(self).wf(),
            final(self)@ == (GameView {
                arena: scan_result(old(self)@.arena, old(self)@.size.0, old(self)@.size.1, 0).0,
                ..old(self)@
            }),
            r as int == scan_result(old(self)@.arena, old(self)@.size.0, old(self)@.size.1, 0).1,
            r <= old(self).arena_size.y,
    {
        let w = self.arena_size.x;
        let h = self.arena_size.y;
        let ghost wi: int = w as int;
        let ghost hi: int = h as int;
        let ghost g0 = self.arena@;
        let mut complete_row: u16 = 0;
        #[verifier::loop_isolation(false)]
        for y in 0..h
            invariant
                self.wf(),
                self.arena_size == old(self).arena_size,
                self.next_piece == old(self).next_piece,
                self.piece == old(self).piece,
                self.position == old(self).position,
                self.old_position == old(self).old_position,
                self.game_state == old(self).game_state,
                self.current_score == old(self).current_score,
                self.current_lines == old(self).current_lines,
                self.shapes_statistics == old(self).shapes_statistics,
                complete_row as int <= y as int,
                complete_row as int + scan_result(self.arena@, wi, hi, y as int).1 == scan_result(
                    g0,
                    wi,
                    hi,
                    0,
                ).1,
                scan_result(self.arena@, wi, hi, y as int).0 == scan_result(g0, wi, hi, 0).0,
        {
            let ghost g_here = self.arena@;
            if row_is_full(&self.arena, w, h, y) {
                self.drop_rows(y);
                self.drop_blocks();
                complete_row = complete_row + 1;
                proof {
                    assert(self.arena@ == settle_grid(clear_row(g_here, wi, y as int), wi, hi));
                    assert(scan_result(g_here, wi, hi, y as int).0 == scan_result(
                        self.arena@,
                        wi,
                        hi,
                        y as int + 1,
                    ).0);
                    assert(scan_result(g_here, wi, hi, y as int).1 == scan_result(
                        self.arena@,
                        wi,
                        hi,
                        y as int + 1,
                    ).1 + 1);
                }
            } else {
                proof {
                    assert(scan_result(g_here, wi, hi, y as int) == scan_result(
                        g_here,
                        wi,
                        hi,
                        y as int + 1,
                    ));
                }
            }
        }
        proof {
            assert(scan_result(self.arena@, wi, hi, hi) == (self.arena@, 0int));
            assert(self@ =~= (GameView { arena: scan_result(g0, wi, hi, 0).0, ..old(self)@ }));
        }
        complete_row
    }

    /// Spawns the next active piece: promotes the lookahead (or draws a
    /// random kind), bumps the spawned kind's statistics counter, draws a
    /// fresh lookahead, and puts the piece at the spawn point.
    fn create_new_piece(&mut self)
        requires
            old(self).wf(),
        ensures
            final(self).wf(),
            spawn_rel(old(self)@, final(self)@),
    {
        self.piece = match &self.next_piece {
            Some(piece) => Tetronimo::new(*piece),
            None => Tetronimo::random(),
        };
        match self.piece.shape {
            TetronimoShape::IShape => {
                self.shapes_statistics.i_count = bump(self.shapes_statistics.i_count);
            },
            TetronimoShape::JShape => {
                self.shapes_statistics.j_count = bump(self.shapes_statistics.j_count);
            },
            TetronimoShape::LShape => {
                self.shapes_statistics.l_count = bump(self.shapes_statistics.l_count);
            },
            TetronimoShape::OShape => {
                self.shapes_statistics.o_count = bump(self.shapes_statistics.o_count);
            },
            TetronimoShape::SShape => {
                self.shapes_statistics.s_count = bump(self.shapes_statistics.s_count);
            },
            TetronimoShape::TShape => {
                self.shapes_statistics.t_count = bump(self.shapes_statistics.t_count);
            },
            TetronimoShape::ZShape => {
                self.shapes_statistics.z_count = bump(self.shapes_statistics.z_count);
            },
        };
        self.next_piece = Some(crate::tetronimo::random_shape());
        proof {
            assert(self.arena_size.x as int / 2 <= self.arena_size.x as int) by (nonlinear_arith)
                requires
                    self.arena_size.x as int >= 0,
            ;
        }
        self.position = Position::new(self.arena_size.x / 2, 0);
    }

    /// The `Start` transition: reset the statistics, spawn a piece, empty
    /// the arena, zero score and lines, report all four, and run.
    fn handle_start(&mut self) -> (r: StepNotifications)
        requires
            old(self).wf(),
        ensures
            final(self).wf(),
            start_rel(old(self)@, final(self)@, r),
    {
        self.shapes_statistics = ShapeStatistics::default();
        let ghost s1 = self@;
        self.create_new_piece();
        let ghost s2 = self@;
        self.create_new_arena();
        self.current_score = 0;
        self.current_lines = 0;
        self.game_state = GameLoopState::Running;
        let r = StepNotifications {
            score: Some(self.current_score),
            lines: Some(self.current_lines),
            next_piece: self.next_piece,
            statistics: Some(self.shapes_statistics),
            game_over: false,
        };
        proof {
            assert(s1 =~= (GameView { stats: zero_stats(), ..old(self)@ }));
            assert((GameView {
                arena: old(self)@.arena,
                score: old(self)@.score,
                lines: old(self)@.lines,
                state: old(self)@.state,
                ..self@
            }) =~= s2);
        }
        r
    }

    /// The `Falling` transition: move the piece down one row if the cells
    /// below are free and inside the grid, else head for lock-down.
    fn handle_falling(&mut self)
        requires
            old(self).wf(),
        ensures
            final(self).wf(),
            falling_rel(old(self)@, final(self)@),
    {
        let w = self.arena_size.x;
        let h = self.arena_size.y;
        let blocked = piece_hits_at(
            &self.arena,
            w,
            h,
            &self.piece,
            self.position.x,
            self.position.y + 1,
        );
        if !blocked {
            proof {
                lemma_shape_wf(self.piece.shape, self.piece.rotation);
                let cells = spec_shape_cells(self.piece.shape, self.piece.rotation);
                let pwi = spec_shape_width(self.piece.shape, self.piece.rotation);
                let o = choose|o: int| 0 <= o < cells.len() && #[trigger] cells[o];
                vstd::arithmetic::div_mod::lemma_div_pos_is_pos(o, pwi);
                assert(!cell_blocked(
                    self.arena@,
                    w as int,
                    h as int,
                    self.position.x as int + o % pwi,
                    self.position.y as int + 1 + o / pwi,
                ));
                assert(self.position.y as int + 1 <= h as int);
            }
            self.position.y = self.position.y + 1;
            self.game_state = GameLoopState::Running;
            proof {
                assert(self@ =~= (GameView {
                    state: GameLoopState::Running,
                    pos: (old(self)@.pos.0, old(self)@.pos.1 + 1),
                    ..old(self)@
                }));
            }
        } else {
            self.game_state = GameLoopState::PieceBlocked;
            proof {
                assert(self@ =~= (GameView { state: GameLoopState::PieceBlocked, ..old(self)@ }));
            }
        }
    }

    /// Rotation is committed without bounds validation: a piece may rotate
    /// into a wall, where collision treats its out-of-grid cells as blocked.
    fn handle_rotate(&mut self)
        requires
            old(self).wf(),
        ensures
            final(self).wf(),
            final(self)@ == (GameView {
                piece: Tetronimo {
                    shape: old(self)@.piece.shape,
                    rotation: old(self)@.piece.rotation.spec_clockwise(),
                },
                ..old(self)@
            }),
    {
        self.piece.rotate();
        proof {
            assert(self@ =~= (GameView {
                piece: Tetronimo {
                    shape: old(self)@.piece.shape,
                    rotation: old(self)@.piece.rotation.spec_clockwise(),
                },
                ..old(self)@
            }));
        }
    }

    /// A drop request is recognized but moves nothing.
    fn handle_drop(&mut self)
        ensures
            *final(self) == *old(self),
    {
    }

    /// Moves the piece one column left unless an occupied cell already sits
    /// in arena column 0.
    fn handle_move_left(&mut self)
        requires
            old(self).wf(),
        ensures
            final(self).wf(),
            final(self)@ == (GameView {
                pos: (
                    if at_left_wall(old(self)@.piece, old(self)@.pos.0) {
                        old(self)@.pos.0
                    } else {
                        old(self)@.pos.0 - 1
                    },
                    old(self)@.pos.1,
                ),
                ..old(self)@
            }),
    {
        let at_wall = piece_at_left_wall(&self.piece, self.position.x);
        if !at_wall {
            proof {
                lemma_shape_wf(self.piece.shape, self.piece.rotation);
                let cells = spec_shape_cells(self.piece.shape, self.piece.rotation);
                let pwi = spec_shape_width(self.piece.shape, self.piece.rotation);
                let o = choose|o: int|
                    0 <= o < cells.len() && #[trigger] cells[o] && o % pwi == 0;
                if self.position.x == 0 {
                    assert(self.position.x as int + o % pwi == 0);
                    assert(at_left_wall(self.piece, self.position.x as int));
                }
            }
            self.position.x = self.position.x - 1;
        }
        proof {
            assert(self@ =~= (GameView {
                pos: (
                    if at_left_wall(old(self)@.piece, old(self)@.pos.0) {
                        old(self)@.pos.0
                    } else {
                        old(self)@.pos.0 - 1
                    },
                    old(self)@.pos.1,
                ),
                ..old(self)@
            }));
        }
    }

    /// Moves the piece one column right unless an occupied cell already
    /// sits in the last arena column.
    fn handle_move_right(&mut self)
        requires
            old(self).wf(),
        ensures
            final(self).wf(),
            final(self)@ == (GameView {
                pos: (
                    if at_right_wall(old(self)@.piece, old(self)@.pos.0, old(self)@.size.0) {
                        old(self)@.pos.0
                    } else {
                        old(self)@.pos.0 + 1
                    },
                    old(self)@.pos.1,
                ),
                ..old(self)@
            }),
    {
        let at_wall = piece_at_right_wall(&self.piece, self.position.x, self.arena_size.x);
        if !at_wall {
            proof {
                lemma_shape_wf(self.piece.shape, self.piece.rotation);
                let cells = spec_shape_cells(self.piece.shape, self.piece.rotation);
                let pwi = spec_shape_width(self.piece.shape, self.piece.rotation);
                let o = choose|o: int|
                    0 <= o < cells.len() && #[trigger] cells[o] && o % pwi == pwi - 1;
                assert(!(self.position.x as int + o % pwi + 1 >= self.arena_size.x as int));
            }
            self.position.x = self.position.x + 1;
        }
        proof {
            assert(self@ =~= (GameView {
                pos: (
                    if at_right_wall(old(self)@.piece, old(self)@.pos.0, old(self)@.size.0) {
                        old(self)@.pos.0
                    } else {
                        old(self)@.pos.0 + 1
                    },
                    old(self)@.pos.1,
                ),
                ..old(self)@
            }));
        }
    }

    /// Dispatches one honored move request, then runs on.
    fn handle_movement_state(&mut self, game_move_type: &MoveActionType)
        requires
            old(self).wf(),
        ensures
            final(self).wf(),
            moving_rel(old(self)@, final(self)@, *game_move_type),
    {
        match game_move_type {
            MoveActionType::NoAction => (),
            MoveActionType::Rotate => self.handle_rotate(),
            MoveActionType::Drop => self.handle_drop(),
            MoveActionType::MoveLeft => self.handle_move_left(),
            MoveActionType::MoveRight => self.handle_move_right(),
        }
        self.game_state = GameLoopState::Running;
        proof {
            match *game_move_type {
                MoveActionType::NoAction => {
                    assert(self@ =~= (GameView { state: GameLoopState::Running, ..old(self)@ }));
                },
                MoveActionType::Rotate => {
                    assert(self@ =~= (GameView {
                        state: GameLoopState::Running,
                        piece: Tetronimo {
                            shape: old(self)@.piece.shape,
                            rotation: old(self)@.piece.rotation.spec_clockwise(),
                        },
                        ..old(self)@
                    }));
                },
                MoveActionType::Drop => {
                    assert(self@ =~= (GameView { state: GameLoopState::Running, ..old(self)@ }));
                },
                MoveActionType::MoveLeft => {
                    assert(self@ =~= (GameView {
                        state: GameLoopState::Running,
                        pos: (
                            if at_left_wall(old(self)@.piece, old(self)@.pos.0) {
                                old(self)@.pos.0
                            } else {
                                old(self)@.pos.0 - 1
                            },
                            old(self)@.pos.1,
                        ),
                        ..old(self)@
                    }));
                },
                MoveActionType::MoveRight => {
                    assert(self@ =~= (GameView {
                        state: GameLoopState::Running,
                        pos: (
                            if at_right_wall(old(self)@.piece, old(self)@.pos.0, old(self)@.size.0) {
                                old(self)@.pos.0
                            } else {
                                old(self)@.pos.0 + 1
                            },
                            old(self)@.pos.1,
                        ),
                        ..old(self)@
                    }));
                },
            }
        }
    }

    /// Writes the blocked piece permanently into the arena.
    fn add_piece_to_arena(&mut self)
        requires
            old(self).wf(),
        ensures
            final(self).wf(),
            final(self)@ == (GameView {
                arena: place_piece(
                    old(self)@.arena,
                    old(self)@.size.0,
                    old(self)@.size.1,
                    old(self)@.piece,
                    old(self)@.pos.0,
                    old(self)@.pos.1,
                ),
                ..old(self)@
            }),
    {
        let w = self.arena_size.x;
        let h = self.arena_size.y;
        let px = self.position.x;
        let py = self.position.y;
        place_in_place(&mut self.arena, w, h, &self.piece, px, py);
        proof {
            assert(self@ =~= (GameView {
                arena: place_piece(
                    old(self)@.arena,
                    old(self)@.size.0,
                    old(self)@.size.1,
                    old(self)@.piece,
                    old(self)@.pos.0,
                    old(self)@.pos.1,
                ),
                ..old(self)@
            }));
        }
    }

    /// The `PieceBlocked` transition: lock the piece into the arena, then
    /// scan for completed rows.
    fn handle_piece_blocked(&mut self)
        requires
            old(self).wf(),
        ensures
            final(self).wf(),
            final(self)@ == (GameView {
                arena: place_piece(
                    old(self)@.arena,
                    old(self)@.size.0,
                    old(self)@.size.1,
                    old(self)@.piece,
                    old(self)@.pos.0,
                    old(self)@.pos.1,
                ),
                state: GameLoopState::CheckRows,
                ..old(self)@
            }),
    {
        self.add_piece_to_arena();
        self.game_state = GameLoopState::CheckRows;
        proof {
            assert(self@ =~= (GameView {
                arena: place_piece(
                    old(self)@.arena,
                    old(self)@.size.0,
                    old(self)@.size.1,
                    old(self)@.piece,
                    old(self)@.pos.0,
                    old(self)@.pos.1,
                ),
                state: GameLoopState::CheckRows,
                ..old(self)@
            }));
        }
    }

    /// The `CheckRows` transition: clear completed rows; award the square
    /// of the cleared count to the score and the count to the line total.
    fn handle_check_rows(&mut self) -> (r: StepNotifications)
        requires
            old(self).wf(),
        ensures
            final(self).wf(),
            check_rows_rel(old(self)@, final(self)@, r),
    {
        let complete_row = self.remove_complete_rows();
        if complete_row > 0 {
            proof {
                assert(complete_row as int * complete_row as int <= 65025) by (nonlinear_arith)
                    requires
                        0 <= complete_row as int <= 255,
                ;
            }
            let gained = complete_row * complete_row;
            self.current_score = sat_add(self.current_score, gained);
            self.current_lines = sat_add(self.current_lines, complete_row);
            let r = StepNotifications {
                score: Some(self.current_score),
                lines: Some(self.current_lines),
                next_piece: None,
                statistics: None,
                game_over: false,
            };
            proof {
                let sr = scan_result(old(self)@.arena, old(self)@.size.0, old(self)@.size.1, 0);
                assert(self@ =~= (GameView {
                    arena: sr.0,
                    score: spec_sat_u16(old(self)@.score + sr.1 * sr.1),
                    lines: spec_sat_u16(old(self)@.lines + sr.1),
                    ..old(self)@
                }));
            }
            r
        } else {
            self.game_state = GameLoopState::CheckGameOver;
            proof {
                let sr = scan_result(old(self)@.arena, old(self)@.size.0, old(self)@.size.1, 0);
                assert(self@ =~= (GameView {
                    arena: sr.0,
                    state: GameLoopState::CheckGameOver,
                    ..old(self)@
                }));
            }
            StepNotifications {
                score: None,
                lines: None,
                next_piece: None,
                statistics: None,
                game_over: false,
            }
        }
    }

    /// The `CheckGameOver` transition: spawn the next piece and test it for
    /// overlap at the spawn point; overlap ends the game.
    fn handle_check_game_over(&mut self) -> (r: StepNotifications)
        requires
            old(self).wf(),
        ensures
            final(self).wf(),
            check_game_over_rel(old(self)@, final(self)@, r),
    {
        self.create_new_piece();
        let ghost s2 = self@;
        let w = self.arena_size.x;
        let h = self.arena_size.y;
        let overlap = piece_hits_at(
            &self.arena,
            w,
            h,
            &self.piece,
            self.position.x,
            self.position.y,
        );
        if overlap {
            self.game_state = GameLoopState::GameOver;
        } else {
            self.game_state = GameLoopState::Running;
        }
        let r = StepNotifications {
            score: None,
            lines: None,
            next_piece: self.next_piece,
            statistics: Some(self.shapes_statistics),
            game_over: false,
        };
        proof {
            assert((GameView { state: old(self)@.state, ..self@ }) =~= s2);
        }
        r
    }

    /// The `GameOver` transition: report the end of the game and restart.
    fn handle_game_over(&mut self) -> (r: StepNotifications)
        requires
            old(self).wf(),
        ensures
            final(self).wf(),
            final(self)@ == (GameView { state: GameLoopState::Start, ..old(self)@ }),
            r == (StepNotifications {
                score: None,
                lines: None,
                next_piece: None,
                statistics: None,
                game_over: true,
            }),
    {
        self.game_state = GameLoopState::Start;
        proof {
            assert(self@ =~= (GameView { state: GameLoopState::Start, ..old(self)@ }));
        }
        StepNotifications {
            score: None,
            lines: None,
            next_piece: None,
            statistics: None,
            game_over: true,
        }
    }

    /// Advances the machine exactly one transition, per `step_rel`, and
    /// reports what changed.
    pub fn do_state_machine(&mut self) -> (r: StepNotifications)
        requires
            old(self).wf(),
        ensures
            final(self).wf(),
            step_rel(old(self)@, final(self)@, r),
    {
        self.old_position = self.position;
        proof {
            assert(self@ =~= (GameView { oldpos: old(self)@.pos, ..old(self)@ }));
        }
        let state = self.game_state;
        match state {
            GameLoopState::Paused => StepNotifications {
                score: None,
                lines: None,
                next_piece: None,
                statistics: None,
                game_over: false,
            },
            GameLoopState::Start => self.handle_start(),
            GameLoopState::Running => StepNotifications {
                score: None,
                lines: None,
                next_piece: None,
                statistics: None,
                game_over: false,
            },
            GameLoopState::Falling => {
                self.handle_falling();
                StepNotifications {
                    score: None,
                    lines: None,
                    next_piece: None,
                    statistics: None,
                    game_over: false,
                }
            },
            GameLoopState::Moving(game_move_type) => {
                self.handle_movement_state(&game_move_type);
                StepNotifications {
                    score: None,
                    lines: None,
                    next_piece: None,
                    statistics: None,
                    game_over: false,
                }
            },
            GameLoopState::PieceBlocked => {
                self.handle_piece_blocked();
                StepNotifications {
                    score: None,
                    lines: None,
                    next_piece: None,
                    statistics: None,
                    game_over: false,
                }
            },
            GameLoopState::CheckRows => self.handle_check_rows(),
            GameLoopState::CheckGameOver => self.handle_check_game_over(),
            GameLoopState::GameOver => self.handle_game_over(),
        }
    }

    /// Whether the loop's runtime representation is well formed: what the
    /// stepping functions require of a loop whose fields were set by hand.
    pub fn check_wf(&self) -> (b: bool)
        ensures
            b == self.wf(),
    {
        if self.arena_size.x < 1 || self.arena_size.x > 255 || self.arena_size.y < 1
            || self.arena_size.y > 255 {
            return false;
        }
        proof {
            assert(self.arena_size.x as int * self.arena_size.y as int <= 65025)
                by (nonlinear_arith)
                requires
                    1 <= self.arena_size.x as int <= 255 && 1 <= self.arena_size.y as int <= 255,
            ;
        }
        self.arena.len() == self.arena_size.x * self.arena_size.y && self.position.x
            <= self.arena_size.x && self.position.y <= self.arena_size.y
    }

    /// The absolute grid coordinates of the active piece's occupied cells,
    /// in row-major shape order, for the renderer.
    pub fn draw_piece(&self) -> (r: Vec<(u16, u16)>)
        requires
            self.wf(),
        ensures
            r@ == piece_cells(
                self.piece,
                self@.pos.0,
                self@.pos.1,
                spec_shape_cells(self.piece.shape, self.piece.rotation).len() as int,
            ),
    {
        let (cells, pw) = self.piece.get_chars();
        let ghost pxi: int = self.position.x as int;
        let ghost pyi: int = self.position.y as int;
        let ghost pwi: int = pw as int;
        proof {
            lemma_shape_wf(self.piece.shape, self.piece.rotation);
        }
        let n = cells.len();
        let mut out: Vec<(u16, u16)> = Vec::new();
        #[verifier::loop_isolation(false)]
        for o in 0..n
            invariant
                out@ == piece_cells(self.piece, pxi, pyi, o as int),
        {
            if cells[o] {
                let x = self.position.x + o % pw;
                let y = self.position.y + o / pw;
                out.push(((x as u16), (y as u16)));
            }
        }
        out
    }

    /// Every arena cell with its column, row, and occupant, in row-major
    /// order, for the renderer.
    pub fn draw_arena(&self) -> (r: Vec<(u16, u16, Option<TetronimoShape>)>)
        requires
            self.wf(),
        ensures
            r@.len() == self@.arena.len(),
            forall|i: int|
                0 <= i < r@.len() ==> #[trigger] r@[i] == (
                    (i % self@.size.0) as u16,
                    (i / self@.size.0) as u16,
                    self@.arena[i],
                ),
    {
        let w = self.arena_size.x;
        let n = self.arena.len();
        let mut out: Vec<(u16, u16, Option<TetronimoShape>)> = Vec::new();
        #[verifier::loop_isolation(false)]
        for i in 0..n
            invariant
                out@.len() == i,
                forall|j: int|
                    0 <= j < i as int ==> #[trigger] out@[j] == (
                        (j % self@.size.0) as u16,
                        (j / self@.size.0) as u16,
                        self@.arena[j],
                    ),
        {
            let x = i % w;
            let y = i / w;
            out.push(((x as u16), (y as u16), self.arena[i]));
        }
        out
    }
}

/// The occupied cells of the piece's first `n` shape offsets, as absolute
/// grid coordinates in row-major shape order.
pub open spec fn piece_cells(piece: Tetronimo, px: int, py: int, n: int) -> Seq<(u16, u16)>
    decreases n,
{
    if n <= 0 {
        Seq::empty()
    } else {
        let cells = spec_shape_cells(piece.shape, piece.rotation);
        let pw = spec_shape_width(piece.shape, piece.rotation);
        let rest = piece_cells(piece, px, py, n - 1);
        if cells[n - 1] {
            rest.push((((px + (n - 1) % pw) as u16), ((py + (n - 1) / pw) as u16)))
        } else {
            rest
        }
    }
}

} // verus!
