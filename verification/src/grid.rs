//! The mathematical model of the playfield: a row-major sequence of
//! optionally occupied cells, with gravity settling and the complete-row
//! scan described as spec functions, and the laws that hold of them.

use vstd::prelude::*;
use vstd::arithmetic::div_mod::{lemma_fundamental_div_mod, lemma_fundamental_div_mod_converse};
use vstd::arithmetic::mul::lemma_mul_inequality;
use crate::tetronimo::TetronimoShape;

verus! {

/// One playfield cell: empty, or occupied by a piece of some kind.
pub type Cell = Option<TetronimoShape>;

/// A well-formed grid value: `w` columns by `h` rows, row-major.
pub open spec fn grid_wf(g: Seq<Cell>, w: int, h: int) -> bool {
    &&& 1 <= w
    &&& 1 <= h
    &&& g.len() == w * h
}

/// Whether row `y` is fully occupied.
pub open spec fn row_full(g: Seq<Cell>, w: int, y: int) -> bool {
    forall|x: int| 0 <= x < w ==> (#[trigger] g[y * w + x]) is Some
}

/// The grid with every cell of row `y` cleared to empty.
pub open spec fn clear_row(g: Seq<Cell>, w: int, y: int) -> Seq<Cell> {
    Seq::new(g.len(), |i: int| if i / w == y { None } else { g[i] })
}

/// Column `x` of the grid, read top to bottom.
pub open spec fn col_seq(g: Seq<Cell>, w: int, h: int, x: int) -> Seq<Cell> {
    Seq::new(h as nat, |y: int| g[y * w + x])
}

/// The occupants of a column, top to bottom, with the empty cells left out.
pub open spec fn occ_of(col: Seq<Cell>) -> Seq<TetronimoShape>
    decreases col.len(),
{
    if col.len() == 0 {
        Seq::empty()
    } else {
        match col[0] {
            Some(s) => seq![s] + occ_of(col.drop_first()),
            None => occ_of(col.drop_first()),
        }
    }
}

/// A column of height `h` holding the given occupants at its bottom, in
/// order, under empty cells.
pub open spec fn bottom_justified(occ: Seq<TetronimoShape>, h: int) -> Seq<Cell> {
    Seq::new(h as nat, |y: int| if y < h - occ.len() { None } else { Some(occ[y - (h - occ.len())]) })
}

/// A column after gravity: its occupants fall to the bottom, order kept.
pub open spec fn settle_col(col: Seq<Cell>) -> Seq<Cell> {
    bottom_justified(occ_of(col), col.len() as int)
}

/// The grid after gravity compaction of every column.
pub open spec fn settle_grid(g: Seq<Cell>, w: int, h: int) -> Seq<Cell> {
    Seq::new((w * h) as nat, |i: int| settle_col(col_seq(g, w, h, i % w))[i / w])
}

/// Whether gravity has nothing left to do: no occupied cell sits above an
/// empty cell of the same column.
pub open spec fn grid_settled(g: Seq<Cell>, w: int, h: int) -> bool {
    forall|x: int| 0 <= x < w ==> #[trigger] col_seq(g, w, h, x) == settle_col(col_seq(g, w, h, x))
}

/// The complete-row scan from row `y` downward: each full row of the current
/// grid is cleared and the whole grid gravity-compacted before the next row
/// is examined. Yields the final grid and the number of rows cleared.
pub open spec fn scan_result(g: Seq<Cell>, w: int, h: int, y: int) -> (Seq<Cell>, int)
    decreases h - y,
{
    if y < 0 || y >= h {
        (g, 0)
    } else if row_full(g, w, y) {
        let g2 = settle_grid(clear_row(g, w, y), w, h);
        let r = scan_result(g2, w, h, y + 1);
        (r.0, r.1 + 1)
    } else {
        scan_result(g, w, h, y + 1)
    }
}

/// Row-major index arithmetic: the cell of column `x`, row `y` sits at
/// index `y * w + x`, and that index decodes back to `x` and `y`.
pub proof fn lemma_rm_index(w: int, x: int, y: int)
    requires
        1 <= w,
        0 <= x < w,
        0 <= y,
    ensures
        (y * w + x) % w == x,
        (y * w + x) / w == y,
{
    lemma_fundamental_div_mod_converse(y * w + x, w, y, x);
}

/// Every index of a well-formed grid decodes to a column below `w` and a
/// row below `h`.
pub proof fn lemma_index_bounds(w: int, h: int, i: int)
    requires
        1 <= w,
        1 <= h,
        0 <= i < w * h,
    ensures
        0 <= i % w < w,
        0 <= i / w < h,
        i == (i / w) * w + i % w,
{
    lemma_fundamental_div_mod(i, w);
    assert(i == w * (i / w) + i % w);
    assert(w * (i / w) == (i / w) * w) by (nonlinear_arith);
    if i / w < 0 {
        assert((i / w) * w + i % w < w) by (nonlinear_arith)
            requires i / w <= -1 && 0 <= i % w < w && 1 <= w;
        assert(false);
    }
    if i / w >= h {
        lemma_mul_inequality(h, i / w, w);
        assert(h * w == w * h) by (nonlinear_arith);
        assert(false);
    }
}

/// Index arithmetic for one in-bounds cell of a bounded grid.
pub proof fn lemma_cell_index(w: int, h: int, x: int, y: int)
    requires
        1 <= w <= 255,
        1 <= h <= 255,
        0 <= x < w,
        0 <= y < h,
    ensures
        0 <= y * w + x < w * h,
        w * h <= 65025,
        (y * w + x) % w == x,
        (y * w + x) / w == y,
{
    lemma_rm_index(w, x, y);
    lemma_mul_inequality(y + 1, h, w);
    assert((y + 1) * w == y * w + w) by (nonlinear_arith);
    assert(y * w >= 0) by (nonlinear_arith)
        requires
            y >= 0 && w >= 1,
    ;
    assert(h * w == w * h) by (nonlinear_arith);
    assert(w * h <= 65025) by (nonlinear_arith)
        requires
            1 <= w <= 255 && 1 <= h <= 255,
    ;
}

/// The occupants of a concatenation are the occupants of the parts.
pub proof fn lemma_occ_concat(a: Seq<Cell>, b: Seq<Cell>)
    ensures
        occ_of(a + b) == occ_of(a) + occ_of(b),
    decreases a.len(),
{
    if a.len() == 0 {
        assert(a + b =~= b);
        assert(occ_of(a) + occ_of(b) =~= occ_of(b));
    } else {
        assert((a + b).drop_first() =~= a.drop_first() + b);
        lemma_occ_concat(a.drop_first(), b);
        assert((a + b)[0] == a[0]);
        match a[0] {
            Some(s) => {
                assert(occ_of(a + b) == seq![s] + (occ_of(a.drop_first()) + occ_of(b)));
                assert(seq![s] + (occ_of(a.drop_first()) + occ_of(b)) =~= (seq![s] + occ_of(
                    a.drop_first(),
                )) + occ_of(b));
            },
            None => {},
        }
    }
}

/// Appending a cell appends its occupant, if any.
pub proof fn lemma_occ_snoc(a: Seq<Cell>, v: Cell)
    ensures
        occ_of(a.push(v)) == occ_of(a) + (match v {
            Some(s) => seq![s],
            None => Seq::<TetronimoShape>::empty(),
        }),
{
    assert(a.push(v) =~= a + seq![v]);
    lemma_occ_concat(a, seq![v]);
    let single = seq![v];
    assert(single.drop_first() =~= Seq::<Cell>::empty());
    assert(occ_of(Seq::<Cell>::empty()) == Seq::<TetronimoShape>::empty());
    match v {
        Some(s) => {
            assert(occ_of(single) == seq![s] + occ_of(single.drop_first()));
            assert(seq![s] + Seq::<TetronimoShape>::empty() =~= seq![s]);
        },
        None => {
            assert(occ_of(single) == occ_of(single.drop_first()));
        },
    }
}

/// A column has no more occupants than cells.
pub proof fn lemma_occ_len(col: Seq<Cell>)
    ensures
        occ_of(col).len() <= col.len(),
    decreases col.len(),
{
    if col.len() > 0 {
        lemma_occ_len(col.drop_first());
    }
}

/// An all-empty column has no occupants.
pub proof fn lemma_occ_all_none(col: Seq<Cell>)
    requires
        forall|i: int| 0 <= i < col.len() ==> (#[trigger] col[i]) is None,
    ensures
        occ_of(col) == Seq::<TetronimoShape>::empty(),
    decreases col.len(),
{
    if col.len() > 0 {
        lemma_occ_all_none(col.drop_first());
    }
}

/// A column holding exactly the given occupants, each wrapped in `Some`.
pub open spec fn some_seq(s: Seq<TetronimoShape>) -> Seq<Cell> {
    Seq::new(s.len(), |i: int| Some(s[i]))
}

/// A run of `n` empty cells.
pub open spec fn none_seq(n: int) -> Seq<Cell> {
    Seq::new(n as nat, |i: int| None)
}

/// The occupants of a fully occupied column are its cells' contents.
pub proof fn lemma_occ_some_seq(s: Seq<TetronimoShape>)
    ensures
        occ_of(some_seq(s)) == s,
    decreases s.len(),
{
    if s.len() == 0 {
        assert(occ_of(some_seq(s)) =~= s);
    } else {
        assert(some_seq(s).drop_first() =~= some_seq(s.drop_first()));
        lemma_occ_some_seq(s.drop_first());
        assert(occ_of(some_seq(s)) =~= seq![s[0]] + s.drop_first());
        assert(seq![s[0]] + s.drop_first() =~= s);
    }
}

/// A bottom-justified column is a run of empty cells over its occupants.
pub proof fn lemma_bottom_justified_decompose(occ: Seq<TetronimoShape>, h: int)
    requires
        occ.len() <= h,
    ensures
        bottom_justified(occ, h) == none_seq(h - occ.len()) + some_seq(occ),
{
    assert(bottom_justified(occ, h) =~= none_seq(h - occ.len()) + some_seq(occ));
}

/// Gravity keeps exactly the occupants of a column.
pub proof fn lemma_occ_of_bottom_justified(occ: Seq<TetronimoShape>, h: int)
    requires
        occ.len() <= h,
    ensures
        occ_of(bottom_justified(occ, h)) == occ,
{
    lemma_bottom_justified_decompose(occ, h);
    lemma_occ_concat(none_seq(h - occ.len()), some_seq(occ));
    lemma_occ_all_none(none_seq(h - occ.len()));
    lemma_occ_some_seq(occ);
    assert(Seq::<TetronimoShape>::empty() + occ =~= occ);
}

/// Settling is idempotent.
pub proof fn lemma_settle_col_idempotent(col: Seq<Cell>)
    ensures
        settle_col(settle_col(col)) == settle_col(col),
{
    lemma_occ_len(col);
    lemma_occ_of_bottom_justified(occ_of(col), col.len() as int);
}

/// A settled grid's columns read back as their own settling.
pub proof fn lemma_settle_grid_cols(g: Seq<Cell>, w: int, h: int)
    requires
        grid_wf(g, w, h),
    ensures
        forall|x: int|
            0 <= x < w ==> #[trigger] col_seq(settle_grid(g, w, h), w, h, x) == settle_col(
                col_seq(g, w, h, x),
            ),
{
    assert forall|x: int| 0 <= x < w implies #[trigger] col_seq(settle_grid(g, w, h), w, h, x)
        == settle_col(col_seq(g, w, h, x)) by {
        let lhs = col_seq(settle_grid(g, w, h), w, h, x);
        let rhs = settle_col(col_seq(g, w, h, x));
        assert forall|y: int| 0 <= y < h implies lhs[y] == rhs[y] by {
            lemma_rm_index(w, x, y);
            lemma_mul_inequality(y + 1, h, w);
            assert((y + 1) * w == y * w + w) by (nonlinear_arith);
            assert(y * w >= 0) by (nonlinear_arith)
                requires
                    y >= 0 && w >= 1,
            ;
            assert(h * w == w * h) by (nonlinear_arith);
            assert(0 <= y * w + x < w * h);
            assert(lhs[y] == settle_grid(g, w, h)[y * w + x]);
        }
        lemma_occ_len(col_seq(g, w, h, x));
        assert(lhs =~= rhs);
    }
}

/// The number of fully occupied rows at or below row `y`.
pub open spec fn count_full_from(g: Seq<Cell>, w: int, h: int, y: int) -> int
    decreases h - y,
{
    if y < 0 || y >= h {
        0
    } else {
        (if row_full(g, w, y) {
            1int
        } else {
            0int
        }) + count_full_from(g, w, h, y + 1)
    }
}

/// The number of occupied cells of a column at or below index `y`.
pub open spec fn count_some_from(col: Seq<Cell>, y: int) -> int
    decreases col.len() - y,
{
    if y < 0 || y >= col.len() {
        0
    } else {
        (if col[y] is Some {
            1int
        } else {
            0int
        }) + count_some_from(col, y + 1)
    }
}

/// There are no more full rows than rows.
proof fn lemma_count_full_bound(g: Seq<Cell>, w: int, h: int, y: int)
    requires
        0 <= y <= h,
    ensures
        0 <= count_full_from(g, w, h, y) <= h - y,
    decreases h - y,
{
    if y < h {
        lemma_count_full_bound(g, w, h, y + 1);
    }
}

/// Counting occupied cells from the second cell on is counting them in the
/// column without its first cell.
proof fn lemma_count_some_drop_first(col: Seq<Cell>, y: int)
    requires
        0 <= y,
        1 <= col.len(),
    ensures
        count_some_from(col, y + 1) == count_some_from(col.drop_first(), y),
    decreases col.len() - y,
{
    if y + 1 < col.len() {
        lemma_count_some_drop_first(col, y + 1);
    }
}

/// A column's occupant sequence is as long as its occupied-cell count.
proof fn lemma_occ_len_is_count(col: Seq<Cell>)
    ensures
        occ_of(col).len() == count_some_from(col, 0),
    decreases col.len(),
{
    if col.len() > 0 {
        lemma_occ_len_is_count(col.drop_first());
        lemma_count_some_drop_first(col, 0);
    }
}

/// Emptying one occupied cell lowers the occupied-cell count by one.
proof fn lemma_count_some_clear_one(col: Seq<Cell>, y: int, j: int)
    requires
        0 <= j,
        0 <= y < col.len(),
        col[y] is Some,
    ensures
        count_some_from(col.update(y, None), j) == count_some_from(col, j) - (if j <= y {
            1int
        } else {
            0int
        }),
    decreases col.len() - j,
{
    if j < col.len() {
        lemma_count_some_clear_one(col, y, j + 1);
    }
}

/// Two columns whose cells are occupied at the same indices have equally
/// many occupants.
proof fn lemma_count_some_pointwise(a: Seq<Cell>, b: Seq<Cell>, j: int)
    requires
        0 <= j,
        a.len() == b.len(),
        forall|i: int| 0 <= i < a.len() ==> ((#[trigger] a[i]) is Some <==> b[i] is Some),
    ensures
        count_some_from(a, j) == count_some_from(b, j),
    decreases a.len() - j,
{
    if j < a.len() {
        lemma_count_some_pointwise(a, b, j + 1);
    }
}

/// A scan that meets no full row clears nothing and changes nothing.
proof fn lemma_scan_no_full_rows(g: Seq<Cell>, w: int, h: int, y: int)
    requires
        grid_wf(g, w, h),
        0 <= y,
        forall|y2: int| y <= y2 < h ==> !row_full(g, w, y2),
    ensures
        scan_result(g, w, h, y) == (g, 0int),
    decreases h - y,
{
    if y < h {
        lemma_scan_no_full_rows(g, w, h, y + 1);
    }
}

/// Law: the complete-row scan of an all-empty arena clears no row and
/// leaves the arena unchanged.
pub proof fn lemma_scan_empty_arena(w: int, h: int)
    requires
        1 <= w,
        1 <= h,
    ensures
        scan_result(none_seq(w * h), w, h, 0) == (none_seq(w * h), 0int),
{
    let g = none_seq(w * h);
    assert forall|y2: int| 0 <= y2 < h implies !row_full(g, w, y2) by {
        lemma_mul_inequality(y2 + 1, h, w);
        assert((y2 + 1) * w == y2 * w + w) by (nonlinear_arith);
        assert(y2 * w >= 0) by (nonlinear_arith)
            requires
                y2 >= 0 && w >= 1,
        ;
        assert(h * w == w * h) by (nonlinear_arith);
        assert(g[y2 * w + 0] is None);
    }
    lemma_scan_no_full_rows(g, w, h, 0);
}

/// Every occupied cell lies in a fully occupied row, so every row is
/// either full or entirely empty.
pub open spec fn rows_full_or_empty(g: Seq<Cell>, w: int, h: int) -> bool {
    forall|x: int, y: int|
        0 <= x < w && 0 <= y < h && (#[trigger] g[y * w + x]) is Some ==> row_full(g, w, y)
}

/// Occupied cells below index `j` being empty, counting from `j` is
/// counting from `y`.
proof fn lemma_count_some_skip_none(col: Seq<Cell>, j: int, y: int)
    requires
        0 <= j <= y,
        forall|y2: int| j <= y2 < y ==> (#[trigger] col[y2]) is None,
    ensures
        count_some_from(col, j) == count_some_from(col, y),
    decreases y - j,
{
    if j < y {
        lemma_count_some_skip_none(col, j + 1, y);
    }
}

/// A full row at or below `y` makes the count from `y` positive.
proof fn lemma_count_full_pos(g: Seq<Cell>, w: int, h: int, y: int, y2: int)
    requires
        0 <= y <= y2 < h,
        row_full(g, w, y2),
    ensures
        count_full_from(g, w, h, y) >= 1,
    decreases y2 - y,
{
    lemma_count_full_bound(g, w, h, y + 1);
    if y < y2 {
        lemma_count_full_pos(g, w, h, y + 1, y2);
    }
}

/// On a grid whose rows are full or empty, the number of full rows at or
/// below `y` is the number of occupied cells of column `x` there.
proof fn lemma_count_full_is_count_some(g: Seq<Cell>, w: int, h: int, x: int, y: int)
    requires
        grid_wf(g, w, h),
        rows_full_or_empty(g, w, h),
        0 <= x < w,
        0 <= y,
    ensures
        count_full_from(g, w, h, y) == count_some_from(col_seq(g, w, h, x), y),
    decreases h - y,
{
    if y < h {
        lemma_count_full_is_count_some(g, w, h, x, y + 1);
        assert(col_seq(g, w, h, x)[y] == g[y * w + x]);
    }
}

/// Clearing row `y` replaces each column's cell at `y` by an empty cell.
proof fn lemma_clear_row_cols(g: Seq<Cell>, w: int, h: int, y: int)
    requires
        grid_wf(g, w, h),
        0 <= y < h,
    ensures
        forall|x: int|
            0 <= x < w ==> #[trigger] col_seq(clear_row(g, w, y), w, h, x) == col_seq(
                g,
                w,
                h,
                x,
            ).update(y, None),
{
    let gc = clear_row(g, w, y);
    assert forall|x: int| 0 <= x < w implies #[trigger] col_seq(gc, w, h, x) == col_seq(
        g,
        w,
        h,
        x,
    ).update(y, None) by {
        assert forall|y2: int| 0 <= y2 < h implies col_seq(gc, w, h, x)[y2] == col_seq(
            g,
            w,
            h,
            x,
        ).update(y, None)[y2] by {
            lemma_rm_index(w, x, y2);
            lemma_mul_inequality(y2 + 1, h, w);
            assert((y2 + 1) * w == y2 * w + w) by (nonlinear_arith);
            assert(y2 * w >= 0) by (nonlinear_arith)
                requires
                    y2 >= 0 && w >= 1,
            ;
            assert(h * w == w * h) by (nonlinear_arith);
        }
        assert(col_seq(gc, w, h, x) =~= col_seq(g, w, h, x).update(y, None));
    }
}

/// The scan on a grid whose rows are full or empty, from a row above every
/// full row: it clears exactly the full rows and empties the grid.
proof fn lemma_scan_uniform_from(g: Seq<Cell>, w: int, h: int, y: int)
    requires
        grid_wf(g, w, h),
        rows_full_or_empty(g, w, h),
        0 <= y,
        forall|y2: int| 0 <= y2 < y ==> !row_full(g, w, y2),
    ensures
        scan_result(g, w, h, y).1 == count_full_from(g, w, h, y),
        forall|i: int| 0 <= i < w * h ==> (#[trigger] scan_result(g, w, h, y).0[i]) is None,
    decreases h - y,
{
    if y >= h {
        assert forall|i: int| 0 <= i < w * h implies (#[trigger] g[i]) is None by {
            lemma_index_bounds(w, h, i);
            if g[i] is Some {
                assert(g[(i / w) * w + i % w] is Some);
                assert(row_full(g, w, i / w));
                assert(false);
            }
        }
    } else if !row_full(g, w, y) {
        lemma_scan_uniform_from(g, w, h, y + 1);
    } else {
        let gc = clear_row(g, w, y);
        let g2 = settle_grid(gc, w, h);
        lemma_clear_row_cols(g, w, h, y);
        assert(grid_wf(gc, w, h));
        lemma_settle_grid_settled(gc, w, h);
        lemma_settle_grid_cols(gc, w, h);
        let col0 = col_seq(g, w, h, 0);
        lemma_occ_len_is_count(col0);
        let m = occ_of(col0).len() as int;
        // the rows before y are empty, so the count from the top is the
        // count from y, which is the number of full rows from y
        assert forall|y2: int| 0 <= y2 < y implies (#[trigger] col0[y2]) is None by {
            if col0[y2] is Some {
                assert(g[y2 * w + 0] is Some);
                assert(row_full(g, w, y2));
                assert(false);
            }
        }
        lemma_count_some_skip_none(col0, 0, y);
        lemma_count_full_is_count_some(g, w, h, 0, y);
        let k = count_full_from(g, w, h, y);
        assert(m == k);
        lemma_count_full_bound(g, w, h, y + 1);
        assert(k >= 1);
        lemma_count_full_bound(g, w, h, y);
        assert(y + k <= h);
        // every column of the settled cleared grid holds m - 1 occupants
        assert forall|x: int| 0 <= x < w implies occ_of(#[trigger] col_seq(g2, w, h, x)).len() == m
            - 1 by {
            let colx = col_seq(g, w, h, x);
            assert forall|y2: int| 0 <= y2 < h implies ((#[trigger] colx[y2]) is Some <==> col0[y2]
                is Some) by {
                assert(colx[y2] == g[y2 * w + x]);
                assert(col0[y2] == g[y2 * w + 0]);
                if colx[y2] is Some {
                    assert(row_full(g, w, y2));
                    assert(g[y2 * w + 0] is Some);
                }
                if col0[y2] is Some {
                    assert(row_full(g, w, y2));
                    assert(g[y2 * w + x] is Some);
                }
            }
            lemma_occ_len_is_count(colx);
            lemma_count_some_pointwise(colx, col0, 0);
            assert(colx[y] == g[y * w + x]);
            assert(colx[y] is Some);
            lemma_count_some_clear_one(colx, y, 0);
            lemma_occ_len_is_count(colx.update(y, None));
            lemma_occ_len(colx.update(y, None));
            lemma_occ_of_bottom_justified(occ_of(colx.update(y, None)), h);
        }
        // so the least occupant count is m - 1
        lemma_min_occ_attained(g2, w, h, w);
        let x0 = choose|x: int|
            0 <= x < w && occ_of(#[trigger] col_seq(g2, w, h, x)).len() == min_occ_upto(
                g2,
                w,
                h,
                w,
            );
        assert(occ_of(col_seq(g2, w, h, x0)).len() == m - 1);
        assert(min_occ(g2, w, h) == m - 1);
        lemma_scan_settled_from(g2, w, h, y + 1);
        assert(scan_result(g, w, h, y).1 == scan_result(g2, w, h, y + 1).1 + 1);
        // each surviving column keeps its topmost (m - 1) - (m - 1) = 0
        // occupants: the final grid is entirely empty
        assert forall|i: int| 0 <= i < w * h implies (#[trigger] scan_result(g, w, h, y).0[i])
            is None by {
            lemma_index_bounds(w, h, i);
            let x = i % w;
            let yy = i / w;
            let res = scan_result(g2, w, h, y + 1).0;
            assert(col_seq(res, w, h, x) == bottom_justified(
                occ_of(col_seq(g2, w, h, x)).take(occ_of(col_seq(g2, w, h, x)).len() - (m - 1)),
                h,
            ));
            assert(col_seq(res, w, h, x)[yy] == res[yy * w + x]);
            assert(occ_of(col_seq(g2, w, h, x)).take(0).len() == 0);
        }
    }
}

/// Law (row-clear correctness, full-row arrangement): on an arena where
/// rows R1..Rk are fully occupied and every other cell is empty, the
/// complete-row scan clears exactly those k rows — it returns k and leaves
/// the arena entirely empty.
pub proof fn lemma_scan_full_rows_only(g: Seq<Cell>, w: int, h: int)
    requires
        grid_wf(g, w, h),
        rows_full_or_empty(g, w, h),
    ensures
        scan_result(g, w, h, 0).1 == count_full_from(g, w, h, 0),
        forall|i: int| 0 <= i < w * h ==> (#[trigger] scan_result(g, w, h, 0).0[i]) is None,
{
    lemma_scan_uniform_from(g, w, h, 0);
}

/// The least occupant count over columns 0 through n-1.
pub open spec fn min_occ_upto(g: Seq<Cell>, w: int, h: int, n: int) -> int
    decreases n,
{
    if n <= 1 {
        occ_of(col_seq(g, w, h, 0)).len() as int
    } else {
        let rest = min_occ_upto(g, w, h, n - 1);
        let last = occ_of(col_seq(g, w, h, n - 1)).len() as int;
        if last < rest {
            last
        } else {
            rest
        }
    }
}

/// The least occupant count over all columns: on a settled grid, exactly
/// the number of fully occupied rows.
pub open spec fn min_occ(g: Seq<Cell>, w: int, h: int) -> int {
    min_occ_upto(g, w, h, w)
}

/// The minimum is a lower bound for every column.
proof fn lemma_min_occ_le(g: Seq<Cell>, w: int, h: int, n: int, x: int)
    requires
        1 <= n,
        0 <= x < n,
    ensures
        min_occ_upto(g, w, h, n) <= occ_of(col_seq(g, w, h, x)).len(),
    decreases n,
{
    if n > 1 && x < n - 1 {
        lemma_min_occ_le(g, w, h, n - 1, x);
    }
}

/// The minimum is attained by some column.
proof fn lemma_min_occ_attained(g: Seq<Cell>, w: int, h: int, n: int)
    requires
        1 <= n,
    ensures
        exists|x: int|
            0 <= x < n && occ_of(#[trigger] col_seq(g, w, h, x)).len() == min_occ_upto(g, w, h, n),
    decreases n,
{
    if n <= 1 {
        assert(occ_of(col_seq(g, w, h, 0)).len() == min_occ_upto(g, w, h, n));
    } else {
        lemma_min_occ_attained(g, w, h, n - 1);
        let last = occ_of(col_seq(g, w, h, n - 1)).len() as int;
        if last < min_occ_upto(g, w, h, n - 1) {
            assert(occ_of(col_seq(g, w, h, n - 1)).len() == min_occ_upto(g, w, h, n));
        }
    }
}

/// The minimum lies between zero and the grid height.
proof fn lemma_min_occ_bounds(g: Seq<Cell>, w: int, h: int, n: int)
    requires
        1 <= n,
        1 <= h,
    ensures
        0 <= min_occ_upto(g, w, h, n) <= h,
    decreases n,
{
    lemma_occ_len(col_seq(g, w, h, if n <= 1 { 0int } else { n - 1 }));
    if n > 1 {
        lemma_min_occ_bounds(g, w, h, n - 1);
    }
}

/// When every column loses exactly one occupant, the minimum drops by one.
proof fn lemma_min_occ_dec(g1: Seq<Cell>, g2: Seq<Cell>, w: int, h: int, n: int)
    requires
        1 <= n <= w,
        forall|x: int|
            0 <= x < w ==> occ_of(#[trigger] col_seq(g2, w, h, x)).len() == occ_of(
                col_seq(g1, w, h, x),
            ).len() - 1,
    ensures
        min_occ_upto(g2, w, h, n) == min_occ_upto(g1, w, h, n) - 1,
    decreases n,
{
    if n > 1 {
        lemma_min_occ_dec(g1, g2, w, h, n - 1);
    }
}

/// On a settled grid, a row is full exactly when it is one of the bottom
/// `min_occ` rows.
proof fn lemma_settled_row_full(g: Seq<Cell>, w: int, h: int, y: int)
    requires
        grid_wf(g, w, h),
        grid_settled(g, w, h),
        0 <= y < h,
    ensures
        row_full(g, w, y) <==> h - min_occ(g, w, h) <= y,
{
    let mu = min_occ(g, w, h);
    if h - mu <= y {
        assert forall|x: int| 0 <= x < w implies (#[trigger] g[y * w + x]) is Some by {
            lemma_min_occ_le(g, w, h, w, x);
            let col = col_seq(g, w, h, x);
            lemma_occ_len(col);
            assert(col[y] == g[y * w + x]);
            assert(col == settle_col(col));
            assert(settle_col(col)[y] is Some);
        }
    }
    if row_full(g, w, y) {
        lemma_min_occ_attained(g, w, h, w);
        let x0 = choose|x: int|
            0 <= x < w && occ_of(#[trigger] col_seq(g, w, h, x)).len() == min_occ_upto(g, w, h, w);
        let col = col_seq(g, w, h, x0);
        lemma_occ_len(col);
        assert(col[y] == g[y * w + x0]);
        assert(col == settle_col(col));
        if y < h - mu {
            assert(settle_col(col)[y] is None);
            assert(!((g[y * w + x0]) is Some));
            assert(false);
        }
    }
}

/// Clearing an occupied cell of a settled column removes exactly that
/// occupant from the column's occupant sequence.
proof fn lemma_occ_settled_col_clear(col: Seq<Cell>, y: int)
    requires
        col.len() >= 1,
        col == settle_col(col),
        col.len() - occ_of(col).len() <= y < col.len(),
    ensures
        occ_of(col.update(y, None)) == occ_of(col).remove(y - (col.len() - occ_of(col).len())),
{
    let h = col.len() as int;
    let occ = occ_of(col);
    let m = occ.len() as int;
    let k = y - (h - m);
    lemma_occ_len(col);
    let a = none_seq(h - m);
    let b = some_seq(occ.take(k));
    let c = seq![Option::<TetronimoShape>::None];
    let d = some_seq(occ.skip(k + 1));
    assert(col.update(y, None) =~= a + b + c + d);
    lemma_occ_concat(a + b + c, d);
    lemma_occ_concat(a + b, c);
    lemma_occ_concat(a, b);
    lemma_occ_all_none(a);
    lemma_occ_all_none(c);
    lemma_occ_some_seq(occ.take(k));
    lemma_occ_some_seq(occ.skip(k + 1));
    assert(occ_of(col.update(y, None)) =~= occ.take(k) + occ.skip(k + 1));
    assert(occ.remove(k) =~= occ.take(k) + occ.skip(k + 1));
}

/// The complete-row scan on a settled grid, from a row above every full
/// row: it clears exactly `min_occ` rows, and each column keeps precisely
/// its topmost occupants, in order, bottom-justified.
proof fn lemma_scan_settled_from(g: Seq<Cell>, w: int, h: int, y: int)
    requires
        grid_wf(g, w, h),
        grid_settled(g, w, h),
        0 <= y <= h - min_occ(g, w, h),
    ensures
        scan_result(g, w, h, y).1 == min_occ(g, w, h),
        forall|x: int|
            0 <= x < w ==> col_seq(scan_result(g, w, h, y).0, w, h, x) == bottom_justified(
                occ_of(#[trigger] col_seq(g, w, h, x)).take(
                    occ_of(col_seq(g, w, h, x)).len() - min_occ(g, w, h),
                ),
                h,
            ),
    decreases h - y,
{
    let mu = min_occ(g, w, h);
    lemma_min_occ_bounds(g, w, h, w);
    if y >= h {
        assert(mu == 0);
        assert forall|x: int| 0 <= x < w implies col_seq(scan_result(g, w, h, y).0, w, h, x)
            == bottom_justified(
            occ_of(#[trigger] col_seq(g, w, h, x)).take(occ_of(col_seq(g, w, h, x)).len() - mu),
            h,
        ) by {
            let col = col_seq(g, w, h, x);
            assert(occ_of(col).take(occ_of(col).len() as int) =~= occ_of(col));
            assert(col == settle_col(col));
        }
    } else if y < h - mu {
        lemma_settled_row_full(g, w, h, y);
        assert(!row_full(g, w, y));
        lemma_scan_settled_from(g, w, h, y + 1);
    } else {
        // y == h - mu and y < h, so at least one full row remains
        lemma_settled_row_full(g, w, h, y);
        assert(row_full(g, w, y));
        let gc = clear_row(g, w, y);
        let g2 = settle_grid(gc, w, h);
        assert(scan_result(g, w, h, y).0 == scan_result(g2, w, h, y + 1).0);
        assert(scan_result(g, w, h, y).1 == scan_result(g2, w, h, y + 1).1 + 1);
        // each column of the cleared grid is the settled column with its
        // cell of row y removed from the occupants
        assert forall|x: int| 0 <= x < w implies #[trigger] col_seq(gc, w, h, x) == col_seq(
            g,
            w,
            h,
            x,
        ).update(y, None) by {
            assert forall|y2: int| 0 <= y2 < h implies col_seq(gc, w, h, x)[y2] == col_seq(
                g,
                w,
                h,
                x,
            ).update(y, None)[y2] by {
                lemma_rm_index(w, x, y2);
                lemma_mul_inequality(y2 + 1, h, w);
                assert((y2 + 1) * w == y2 * w + w) by (nonlinear_arith);
                assert(y2 * w >= 0) by (nonlinear_arith)
                    requires
                        y2 >= 0 && w >= 1,
                ;
                assert(h * w == w * h) by (nonlinear_arith);
            }
            assert(col_seq(gc, w, h, x) =~= col_seq(g, w, h, x).update(y, None));
        }
        assert forall|x: int| 0 <= x < w implies occ_of(#[trigger] col_seq(gc, w, h, x)) == occ_of(
            col_seq(g, w, h, x),
        ).remove(occ_of(col_seq(g, w, h, x)).len() - mu) by {
            lemma_min_occ_le(g, w, h, w, x);
            lemma_occ_len(col_seq(g, w, h, x));
            assert(col_seq(g, w, h, x) == settle_col(col_seq(g, w, h, x)));
            lemma_occ_settled_col_clear(col_seq(g, w, h, x), y);
        }
        assert(grid_wf(gc, w, h));
        lemma_settle_grid_settled(gc, w, h);
        lemma_settle_grid_cols(gc, w, h);
        assert forall|x: int| 0 <= x < w implies occ_of(#[trigger] col_seq(g2, w, h, x)).len()
            == occ_of(col_seq(g, w, h, x)).len() - 1 by {
            lemma_min_occ_le(g, w, h, w, x);
            lemma_occ_len(col_seq(gc, w, h, x));
            lemma_occ_of_bottom_justified(occ_of(col_seq(gc, w, h, x)), h);
        }
        lemma_min_occ_dec(g, g2, w, h, w);
        assert(min_occ(g2, w, h) == mu - 1);
        lemma_scan_settled_from(g2, w, h, y + 1);
        assert forall|x: int| 0 <= x < w implies col_seq(scan_result(g, w, h, y).0, w, h, x)
            == bottom_justified(
            occ_of(#[trigger] col_seq(g, w, h, x)).take(occ_of(col_seq(g, w, h, x)).len() - mu),
            h,
        ) by {
            let occ = occ_of(col_seq(g, w, h, x));
            let m = occ.len() as int;
            lemma_min_occ_le(g, w, h, w, x);
            lemma_occ_len(col_seq(gc, w, h, x));
            lemma_occ_of_bottom_justified(occ_of(col_seq(gc, w, h, x)), h);
            assert(occ_of(col_seq(g2, w, h, x)) == occ.remove(m - mu));
            assert(col_seq(scan_result(g2, w, h, y + 1).0, w, h, x) == bottom_justified(
                occ.remove(m - mu).take((m - 1) - (mu - 1)),
                h,
            ));
            assert(occ.remove(m - mu).take(m - mu) =~= occ.take(m - mu));
        }
    }
}

/// Law (row-clear correctness): on a gravity-settled arena the fully
/// occupied rows are exactly the bottom `min_occ` rows; the complete-row
/// scan clears exactly that many rows, and afterwards every column keeps
/// precisely its topmost surviving occupants in their original top-to-bottom
/// order, bottom-justified, so the cleared rows reappear as empty space at
/// the top and all surviving cells keep their relative vertical order.
pub proof fn lemma_scan_settled(g: Seq<Cell>, w: int, h: int)
    requires
        grid_wf(g, w, h),
        grid_settled(g, w, h),
    ensures
        0 <= min_occ(g, w, h) <= h,
        forall|y: int| 0 <= y < h ==> (row_full(g, w, y) <==> h - min_occ(g, w, h) <= y),
        scan_result(g, w, h, 0).1 == min_occ(g, w, h),
        forall|x: int|
            0 <= x < w ==> col_seq(scan_result(g, w, h, 0).0, w, h, x) == bottom_justified(
                occ_of(#[trigger] col_seq(g, w, h, x)).take(
                    occ_of(col_seq(g, w, h, x)).len() - min_occ(g, w, h),
                ),
                h,
            ),
{
    lemma_min_occ_bounds(g, w, h, w);
    assert forall|y: int| 0 <= y < h implies (row_full(g, w, y) <==> h - min_occ(g, w, h) <= y) by {
        lemma_settled_row_full(g, w, h, y);
    }
    lemma_scan_settled_from(g, w, h, 0);
}

/// Gravity leaves a well-formed grid well-formed and settled.
pub proof fn lemma_settle_grid_settled(g: Seq<Cell>, w: int, h: int)
    requires
        grid_wf(g, w, h),
    ensures
        grid_wf(settle_grid(g, w, h), w, h),
        grid_settled(settle_grid(g, w, h), w, h),
{
    lemma_settle_grid_cols(g, w, h);
    let g2 = settle_grid(g, w, h);
    assert forall|x: int| 0 <= x < w implies #[trigger] col_seq(g2, w, h, x) == settle_col(
        col_seq(g2, w, h, x),
    ) by {
        lemma_settle_grid_cols(g2, w, h);
        lemma_settle_col_idempotent(col_seq(g, w, h, x));
    }
}

} // verus!
